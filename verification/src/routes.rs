//! The decisions of the token list routes: the query of `GET /tokens`, the
//! token that a path names, and the update of a listed token.

use vstd::prelude::*;
use vstd::string::{StrSliceExecFns, StringExecFns, StringSliceAdditionalSpecFns};
use vstd::utf8::encode_utf8;
use crate::decimal::{
    ascii_bytes, decimal_chars, lemma_decimal_digits, lemma_decimal_roundtrip, parse_u8,
    parse_unsigned_spec, parse_usize,
};

verus! {

/// What the routes read and change of a listed token.
#[derive(Debug)]
pub struct TokenRecord {
    pub symbol: String,
    pub base16: String,
    pub token_type: u8,
    pub status: u8,
    pub scope: u8,
    pub listed: bool,
}

/// The name/value pairs that `application/x-www-form-urlencoded` text holds,
/// percent-decoded, in order.
pub uninterp spec fn urlencoded_pairs(query: Seq<u8>) -> Seq<(Seq<char>, Seq<char>)>;

/// `url::form_urlencoded::parse`, with each pair made owned. Claims only that
/// the pairs are those the crate reads from the bytes (named `urlencoded_pairs`,
/// a function of the bytes alone); how it splits and decodes is not stated.
#[verifier::external_body]
fn query_pairs(query: &[u8]) -> (res: Vec<(String, String)>)
    ensures
        res@.len() == urlencoded_pairs(query@).len(),
        forall|i: int|
            0 <= i < res@.len() ==> (#[trigger] res@[i]).0@ == urlencoded_pairs(query@)[i].0
                && res@[i].1@ == urlencoded_pairs(query@)[i].1,
{
    url::form_urlencoded::parse(query).into_owned().collect()
}

/// The pairs as texts.
pub open spec fn pairs_view(pairs: Seq<(String, String)>) -> Seq<(Seq<char>, Seq<char>)> {
    pairs.map_values(|p: (String, String)| (p.0@, p.1@))
}

/// The value of the last pair named `key`; a map filled from the pairs in
/// order keeps that one.
pub open spec fn last_value(pairs: Seq<(Seq<char>, Seq<char>)>, key: Seq<char>) -> Option<
    Seq<char>,
>
    decreases pairs.len(),
{
    if pairs.len() == 0 {
        None
    } else if pairs.last().0 == key {
        Some(pairs.last().1)
    } else {
        last_value(pairs.drop_last(), key)
    }
}

/// The number in `value` up to `max`, or `default` when there is no value or it
/// is not such a number.
pub open spec fn number_or(value: Option<Seq<char>>, max: nat, default: nat) -> nat {
    match value {
        Some(v) => match parse_unsigned_spec(encode_utf8(v), max) {
            Some(n) => n,
            None => default,
        },
        None => default,
    }
}

/// The paging and filter of `GET /tokens`.
#[derive(Debug)]
pub struct TokensQuery {
    pub limit: usize,
    pub token_type: u8,
    pub offset: usize,
}

/// The query that the pairs ask for: `limit` (200 when absent or not a
/// number), `type` (1) and `offset` (0).
pub open spec fn tokens_query_spec(pairs: Seq<(Seq<char>, Seq<char>)>) -> (nat, nat, nat) {
    (
        number_or(last_value(pairs, "limit"@), usize::MAX as nat, 200),
        number_or(last_value(pairs, "type"@), u8::MAX as nat, 1),
        number_or(last_value(pairs, "offset"@), usize::MAX as nat, 0),
    )
}

/// The query as numbers.
pub open spec fn query_view(q: TokensQuery) -> (nat, nat, nat) {
    (q.limit as nat, q.token_type as nat, q.offset as nat)
}

/// The value of the last pair named `key`.
fn find_last_value<'a>(pairs: &'a Vec<(String, String)>, key: &str) -> (res: Option<&'a String>)
    ensures
        match last_value(pairs_view(pairs@), key@) {
            Some(v) => res matches Some(s) && s@ == v,
            None => res is None,
        },
{
    let wanted = String::from_str(key);
    let mut i: usize = pairs.len();
    assert(pairs@.subrange(0, i as int) =~= pairs@);
    while i > 0
        invariant
            0 <= i <= pairs@.len(),
            wanted@ == key@,
            last_value(pairs_view(pairs@), key@) == last_value(
                pairs_view(pairs@.subrange(0, i as int)),
                key@,
            ),
        decreases i,
    {
        let ghost upto = pairs_view(pairs@.subrange(0, i as int));
        assert(upto.drop_last() =~= pairs_view(pairs@.subrange(0, i - 1)));
        assert(upto.last() == (pairs@[i - 1].0@, pairs@[i - 1].1@));
        if pairs[i - 1].0 == wanted {
            return Some(&pairs[i - 1].1);
        }
        i = i - 1;
    }
    None
}

/// Reads a number of at most `usize::MAX`, or gives `default`.
fn usize_or(value: Option<&String>, default: usize) -> (res: usize)
    ensures
        res as nat == number_or(
            match value {
                Some(s) => Some(s@),
                None => None,
            },
            usize::MAX as nat,
            default as nat,
        ),
{
    match value {
        Some(s) => match parse_usize(s.as_str().as_bytes()) {
            Some(n) => n,
            None => default,
        },
        None => default,
    }
}

/// Reads a number of at most `u8::MAX`, or gives `default`.
fn u8_or(value: Option<&String>, default: u8) -> (res: u8)
    ensures
        res as nat == number_or(
            match value {
                Some(s) => Some(s@),
                None => None,
            },
            u8::MAX as nat,
            default as nat,
        ),
{
    match value {
        Some(s) => match parse_u8(s.as_str().as_bytes()) {
            Some(n) => n,
            None => default,
        },
        None => default,
    }
}

/// The query that name/value pairs ask for.
pub fn tokens_query_from_pairs(pairs: &Vec<(String, String)>) -> (res: TokensQuery)
    ensures
        query_view(res) == tokens_query_spec(pairs_view(pairs@)),
{
    proof {
        reveal_strlit("limit");
        reveal_strlit("type");
        reveal_strlit("offset");
    }
    let limit = usize_or(find_last_value(pairs, "limit"), 200);
    let token_type = u8_or(find_last_value(pairs, "type"), 1);
    let offset = usize_or(find_last_value(pairs, "offset"), 0);
    TokensQuery { limit, token_type, offset }
}

/// The query that the query string of `GET /tokens` asks for.
pub fn parse_tokens_query(query: &str) -> (res: TokensQuery)
    ensures
        query_view(res) == tokens_query_spec(urlencoded_pairs(query.spec_bytes())),
{
    let pairs = query_pairs(query.as_bytes());
    assert(pairs_view(pairs@) =~= urlencoded_pairs(query.spec_bytes()));
    tokens_query_from_pairs(&pairs)
}

/// A parameter written in decimal is read as its number: appending `limit=n` or
/// `offset=n` (any `n` up to `usize::MAX`), or `type=n` (up to 255), to a query
/// sets that field to `n` and leaves the two others as they were; a `type`
/// above 255 sets the type to its default, 1.
pub proof fn lemma_query_reads_decimal_numbers(pairs: Seq<(Seq<char>, Seq<char>)>, n: nat)
    ensures
        n <= usize::MAX ==> tokens_query_spec(pairs.push(("limit"@, decimal_chars(n)))) == (
            n,
            tokens_query_spec(pairs).1,
            tokens_query_spec(pairs).2,
        ),
        n <= usize::MAX ==> tokens_query_spec(pairs.push(("offset"@, decimal_chars(n)))) == (
            tokens_query_spec(pairs).0,
            tokens_query_spec(pairs).1,
            n,
        ),
        n <= u8::MAX ==> tokens_query_spec(pairs.push(("type"@, decimal_chars(n)))) == (
            tokens_query_spec(pairs).0,
            n,
            tokens_query_spec(pairs).2,
        ),
        n > u8::MAX ==> tokens_query_spec(pairs.push(("type"@, decimal_chars(n)))) == (
            tokens_query_spec(pairs).0,
            1nat,
            tokens_query_spec(pairs).2,
        ),
{
    reveal_strlit("limit");
    reveal_strlit("type");
    reveal_strlit("offset");
    assert("limit"@ != "type"@ && "limit"@ != "offset"@ && "type"@ != "offset"@) by {
        assert("limit"@[0] != "type"@[0] && "limit"@[0] != "offset"@[0]);
        assert("type"@[0] != "offset"@[0]);
    };
    let text = decimal_chars(n);
    lemma_decimal_digits(n);
    vstd::utf8::is_ascii_chars_encode_utf8(text);
    assert(encode_utf8(text) =~= ascii_bytes(text));
    if n <= usize::MAX {
        lemma_decimal_roundtrip(n, usize::MAX as nat);
    }
    if n <= u8::MAX {
        lemma_decimal_roundtrip(n, u8::MAX as nat);
    }
    let l = pairs.push(("limit"@, text));
    let o = pairs.push(("offset"@, text));
    let t = pairs.push(("type"@, text));
    assert(l.drop_last() =~= pairs && o.drop_last() =~= pairs && t.drop_last() =~= pairs);
}

/// The positions of the listed tokens (status 1) of the given type, in order.
pub open spec fn listed_of_type(tokens: Seq<TokenRecord>, token_type: u8) -> Seq<nat>
    decreases tokens.len(),
{
    if tokens.len() == 0 {
        Seq::empty()
    } else {
        let prev = listed_of_type(tokens.drop_last(), token_type);
        let last = tokens.last();
        if last.token_type == token_type && last.status == 1 {
            prev.push((tokens.len() - 1) as nat)
        } else {
            prev
        }
    }
}

/// The items left after skipping `offset` of them, at most `limit` of them.
pub open spec fn page(items: Seq<nat>, offset: nat, limit: nat) -> Seq<nat> {
    let start = if offset < items.len() {
        offset
    } else {
        items.len()
    };
    let end = if start + limit < items.len() {
        start + limit
    } else {
        items.len()
    };
    items.subrange(start as int, end as int)
}

/// The positions of the tokens that `GET /tokens` answers with: the listed
/// tokens of the asked type, after `offset` of them, at most `limit`.
pub fn select_tokens(tokens: &Vec<TokenRecord>, query: &TokensQuery) -> (res: Vec<usize>)
    ensures
        res@.map_values(|i: usize| i as nat) == page(
            listed_of_type(tokens@, query.token_type),
            query.offset as nat,
            query.limit as nat,
        ),
{
    let mut matching: Vec<usize> = Vec::new();
    let mut i: usize = 0;
    while i < tokens.len()
        invariant
            0 <= i <= tokens@.len(),
            matching@.map_values(|k: usize| k as nat) =~= listed_of_type(
                tokens@.subrange(0, i as int),
                query.token_type,
            ),
        decreases tokens@.len() - i,
    {
        let ghost upto = tokens@.subrange(0, i + 1);
        assert(upto.drop_last() =~= tokens@.subrange(0, i as int));
        let ghost before = matching@;
        if tokens[i].token_type == query.token_type && tokens[i].status == 1 {
            matching.push(i);
            assert(matching@.map_values(|k: usize| k as nat) =~= before.map_values(
                |k: usize| k as nat,
            ).push(i as nat));
        }
        i = i + 1;
    }
    assert(tokens@.subrange(0, i as int) =~= tokens@);
    let ghost all = matching@.map_values(|k: usize| k as nat);
    let count = matching.len();
    let start = if query.offset < count {
        query.offset
    } else {
        count
    };
    let end = if query.limit < count - start {
        start + query.limit
    } else {
        count
    };
    let mut chosen: Vec<usize> = Vec::new();
    let mut j: usize = start;
    while j < end
        invariant
            start <= j <= end <= count,
            count == matching@.len(),
            all == matching@.map_values(|k: usize| k as nat),
            chosen@.map_values(|k: usize| k as nat) =~= all.subrange(start as int, j as int),
        decreases end - j,
    {
        let ghost before = chosen@;
        chosen.push(matching[j]);
        assert(chosen@.map_values(|k: usize| k as nat) =~= before.map_values(
            |k: usize| k as nat,
        ).push(all[j as int]));
        j = j + 1;
    }
    chosen
}

/// A character with an ASCII capital letter made small.
pub open spec fn ascii_lower_char(c: char) -> char {
    if 'A' <= c <= 'Z' {
        ((c as u32) + 32) as char
    } else {
        c
    }
}

/// A text with its ASCII capital letters made small.
pub open spec fn ascii_lowercase(s: Seq<char>) -> Seq<char> {
    s.map_values(|c: char| ascii_lower_char(c))
}

/// The lower-case form of a text, as `str::to_lowercase` gives it.
pub uninterp spec fn lowercase_chars(s: Seq<char>) -> Seq<char>;

/// `str::to_lowercase`. Claims that the result is the lower-case form of the text
/// (named `lowercase_chars`), that it does not depend on the case of ASCII
/// letters (an ASCII letter is lowered alike in either case, and counts alike as
/// a cased letter for the context of a final sigma), and that an ASCII text is
/// lowered letter by letter. The Unicode case tables for other letters are not
/// stated.
#[verifier::external_body]
fn to_lowercase(s: &str) -> (res: String)
    ensures
        res@ == lowercase_chars(s@),
        res@ == lowercase_chars(ascii_lowercase(s@)),
        vstd::utf8::is_ascii_chars(s@) ==> res@ == ascii_lowercase(s@),
{
    s.to_lowercase()
}

/// The part of a path after its last `/` (all of it when there is none).
pub open spec fn last_segment(path: Seq<char>) -> Seq<char>
    decreases path.len(),
{
    if path.len() == 0 {
        path
    } else if path.last() == '/' {
        Seq::empty()
    } else {
        last_segment(path.drop_last()).push(path.last())
    }
}

/// The key that a route path names: its last segment, in lower case (lowering
/// its ASCII letters first changes nothing).
pub open spec fn path_key_spec(path: Seq<char>) -> Seq<char> {
    lowercase_chars(ascii_lowercase(last_segment(path)))
}

/// The key that a route path names: its last segment, in lower case.
pub fn path_key(path: &str) -> (res: String)
    ensures
        res@ == path_key_spec(path@),
        res@ == lowercase_chars(last_segment(path@)),
        vstd::utf8::is_ascii_chars(last_segment(path@)) ==> res@ == ascii_lowercase(
            last_segment(path@),
        ),
{
    let n = path.unicode_len();
    let mut i = n;
    assert(path@.subrange(n as int, n as int) =~= Seq::<char>::empty());
    assert(path@.subrange(0, n as int) =~= path@);
    while i > 0 && path.get_char(i - 1) != '/'
        invariant
            0 <= i <= n,
            n == path@.len(),
            last_segment(path@) =~= last_segment(path@.subrange(0, i as int)) + path@.subrange(
                i as int,
                n as int,
            ),
        decreases i,
    {
        let ghost upto = path@.subrange(0, i as int);
        assert(upto.drop_last() =~= path@.subrange(0, i - 1));
        assert(path@.subrange(i - 1, n as int) =~= seq![path@[i - 1]] + path@.subrange(
            i as int,
            n as int,
        ));
        i = i - 1;
    }
    let segment = path.substring_char(i, n);
    to_lowercase(segment)
}

/// A reply of a route that is not the token itself: the HTTP status, the `code`
/// member when there is one, and the `message` member.
#[derive(Debug)]
pub struct ApiReply {
    pub status: u16,
    pub code: Option<i64>,
    pub message: String,
}

/// A reply as numbers and text.
pub open spec fn reply_view(r: ApiReply) -> (nat, Option<int>, Seq<char>) {
    (
        r.status as nat,
        match r.code {
            Some(c) => Some(c as int),
            None => None,
        },
        r.message@,
    )
}

/// The reply when no token has the key.
pub open spec fn no_token_reply(key: Seq<char>) -> (nat, Option<int>, Seq<char>) {
    (404, Some(-1), "No token "@ + key)
}

/// Builds the reply when no token has the key.
fn no_token(key: &String) -> (res: ApiReply)
    ensures
        reply_view(res) == no_token_reply(key@),
{
    let mut message = String::from_str("No token ");
    message.append(key.as_str());
    ApiReply { status: 404, code: Some(-1), message }
}

/// True for a listed token whose symbol, in lower case, is `symbol`.
pub open spec fn listed_with_symbol(t: TokenRecord, symbol: Seq<char>) -> bool {
    lowercase_chars(t.symbol@) == symbol && t.status == 1
}

/// The position of the first token that `listed_with_symbol` picks.
pub open spec fn first_listed_with_symbol(tokens: Seq<TokenRecord>, symbol: Seq<char>) -> Option<
    nat,
>
    decreases tokens.len(),
{
    if tokens.len() == 0 {
        None
    } else {
        match first_listed_with_symbol(tokens.drop_last(), symbol) {
            Some(j) => Some(j),
            None => if listed_with_symbol(tokens.last(), symbol) {
                Some((tokens.len() - 1) as nat)
            } else {
                None
            },
        }
    }
}

/// The token that `GET /token/<symbol>` answers with: the first listed token
/// whose symbol matches the last segment of the path, ignoring case; else the
/// "No token" reply.
pub fn lookup_token(tokens: &Vec<TokenRecord>, path: &str) -> (res: Result<usize, ApiReply>)
    ensures
        match first_listed_with_symbol(tokens@, path_key_spec(path@)) {
            Some(j) => res == Ok::<usize, ApiReply>(j as usize),
            None => res matches Err(r) && reply_view(r) == no_token_reply(path_key_spec(path@)),
        },
{
    let symbol = path_key(path);
    let mut i: usize = 0;
    assert(tokens@.subrange(0, 0) =~= Seq::<TokenRecord>::empty());
    while i < tokens.len()
        invariant
            0 <= i <= tokens@.len(),
            symbol@ == path_key_spec(path@),
            first_listed_with_symbol(tokens@.subrange(0, i as int), symbol@) is None,
        decreases tokens@.len() - i,
    {
        let ghost upto = tokens@.subrange(0, i + 1);
        assert(upto.drop_last() =~= tokens@.subrange(0, i as int));
        if tokens[i].status == 1 && to_lowercase(tokens[i].symbol.as_str()) == symbol {
            proof {
                lemma_first_listed_extends(tokens@, symbol@, i + 1);
            }
            return Ok(i);
        }
        i = i + 1;
    }
    assert(tokens@.subrange(0, i as int) =~= tokens@);
    Err(no_token(&symbol))
}

/// A match found in a prefix of the tokens is the first one of all of them.
proof fn lemma_first_listed_extends(tokens: Seq<TokenRecord>, symbol: Seq<char>, k: int)
    requires
        0 <= k <= tokens.len(),
        first_listed_with_symbol(tokens.subrange(0, k), symbol) is Some,
    ensures
        first_listed_with_symbol(tokens, symbol) == first_listed_with_symbol(
            tokens.subrange(0, k),
            symbol,
        ),
    decreases tokens.len(),
{
    if k == tokens.len() {
        assert(tokens.subrange(0, k) =~= tokens);
    } else {
        assert(tokens.drop_last().subrange(0, k) =~= tokens.subrange(0, k));
        lemma_first_listed_extends(tokens.drop_last(), symbol, k);
    }
}

/// The reply when the caller's token is not the configured one.
pub open spec fn access_denied_reply(given: Seq<char>) -> (nat, Option<int>, Seq<char>) {
    (511, Some(-5), "Incorrect atuh token "@ + given)
}

/// The access token that updates need: the configured one, else `666`.
pub open spec fn expected_access_token(configured: Option<Seq<char>>) -> Seq<char> {
    match configured {
        Some(t) => t,
        None => "666"@,
    }
}

/// Whether an update may go on: `None` when the `Authorization` header is the
/// expected access token, else the refusal.
pub fn check_access(configured: Option<&str>, given: &str) -> (res: Option<ApiReply>)
    ensures
        ({
            let expected = expected_access_token(
                match configured {
                    Some(t) => Some(t@),
                    None => None,
                },
            );
            if expected == given@ {
                res is None
            } else {
                res matches Some(r) && reply_view(r) == access_denied_reply(given@)
            }
        }),
{
    let expected = match configured {
        Some(t) => String::from_str(t),
        None => String::from_str("666"),
    };
    let presented = String::from_str(given);
    if expected == presented {
        None
    } else {
        let mut message = String::from_str("Incorrect atuh token ");
        message.append(given);
        Some(ApiReply { status: 511, code: Some(-5), message })
    }
}

/// The members of an update body that the route reads: for each one that is
/// present, its value as `as_u64`, `as_bool` or `as_str` reads it.
#[derive(Debug)]
pub struct UpdateFields {
    pub status: Option<Option<u64>>,
    pub score: Option<Option<u64>>,
    pub listed: Option<Option<bool>>,
    pub symbol: Option<Option<String>>,
}

/// The body of an update.
#[derive(Debug)]
pub enum UpdateBody {
    /// Not JSON.
    Malformed,
    /// JSON, but not an object.
    NotObject,
    /// A JSON object.
    Fields(UpdateFields),
}

/// The reply to a body that is not a JSON object.
pub open spec fn bad_params_reply() -> (nat, Option<int>, Seq<char>) {
    (400, Some(-2), "Incorrect params"@)
}

/// The status that a member sets: its number, at most 1 (0 when not a number).
pub open spec fn status_from(v: Option<u64>) -> u8 {
    match v {
        Some(n) => if n > 1 {
            1
        } else {
            n as u8
        },
        None => 0,
    }
}

/// The score that a member sets: the low byte of its number (0 when not one).
pub open spec fn score_from(v: Option<u64>) -> u8 {
    match v {
        Some(n) => (n % 256) as u8,
        None => 0,
    }
}

/// The members of an object body as plain values, in the order `status`,
/// `score`, `listed`, `symbol`.
pub open spec fn fields_view(f: UpdateFields) -> (
    Option<Option<u64>>,
    Option<Option<u64>>,
    Option<Option<bool>>,
    Option<Option<Seq<char>>>,
) {
    (
        f.status,
        f.score,
        f.listed,
        match f.symbol {
            Some(Some(s)) => Some(Some(s@)),
            Some(None) => Some(None),
            None => None,
        },
    )
}

/// A body as plain values: `None` when it is not JSON, `Some(None)` when it is
/// JSON but not an object, else the members of the object.
pub open spec fn body_view(b: UpdateBody) -> Option<
    Option<(Option<Option<u64>>, Option<Option<u64>>, Option<Option<bool>>, Option<Option<Seq<char>>>)>,
> {
    match b {
        UpdateBody::Malformed => None,
        UpdateBody::NotObject => Some(None),
        UpdateBody::Fields(f) => Some(Some(fields_view(f))),
    }
}

/// What `serde_json` reads of the bytes of a body, in the form of `body_view`.
pub uninterp spec fn json_update_body(body: Seq<u8>) -> Option<
    Option<(Option<Option<u64>>, Option<Option<u64>>, Option<Option<bool>>, Option<Option<Seq<char>>>)>,
>;

/// `serde_json::from_slice` into a `serde_json::Value`, then `as_object`, and for
/// the members `status`, `score`, `listed` and `symbol`, `get` followed by
/// `as_u64`, `as_u64`, `as_bool` and `as_str`. Claims only that the result is
/// what the crate reads from the bytes (named `json_update_body`, a function of
/// the bytes alone); which bytes are JSON and what each member reads as is not
/// stated.
#[verifier::external_body]
fn read_update_body(body: &[u8]) -> (res: UpdateBody)
    ensures
        body_view(res) == json_update_body(body@),
{
    match serde_json::from_slice::<serde_json::Value>(body) {
        Err(_) => UpdateBody::Malformed,
        Ok(value) => match value.as_object() {
            None => UpdateBody::NotObject,
            Some(map) => UpdateBody::Fields(UpdateFields {
                status: map.get("status").map(serde_json::Value::as_u64),
                score: map.get("score").map(serde_json::Value::as_u64),
                listed: map.get("listed").map(serde_json::Value::as_bool),
                symbol: map.get("symbol").map(|v| v.as_str().map(String::from)),
            }),
        },
    }
}

/// The token `new` is `old` with the members `f` applied: `status`, `symbol`
/// (empty when not a string), `score` and `listed` (false when not a boolean).
pub open spec fn record_updated(
    old: TokenRecord,
    new: TokenRecord,
    f: (Option<Option<u64>>, Option<Option<u64>>, Option<Option<bool>>, Option<Option<Seq<char>>>),
) -> bool {
    &&& new.base16@ == old.base16@
    &&& new.token_type == old.token_type
    &&& new.status == match f.0 {
        Some(v) => status_from(v),
        None => old.status,
    }
    &&& new.scope == match f.1 {
        Some(v) => score_from(v),
        None => old.scope,
    }
    &&& new.listed == match f.2 {
        Some(Some(b)) => b,
        Some(None) => false,
        None => old.listed,
    }
    &&& new.symbol@ == match f.3 {
        Some(Some(s)) => s,
        Some(None) => Seq::empty(),
        None => old.symbol@,
    }
}

/// The outcome of an update of `old` into `new` for the token named `key`, with
/// a body read as `body`: a body that is not a JSON object is refused first,
/// then an unknown token; otherwise the first token whose `base16` matches takes
/// the members of the body, the others stay, and its position is returned.
/// Nothing changes when the update is refused.
pub open spec fn update_outcome(
    old: Seq<TokenRecord>,
    new: Seq<TokenRecord>,
    key: Seq<char>,
    body: Option<
        Option<(Option<Option<u64>>, Option<Option<u64>>, Option<Option<bool>>, Option<Option<Seq<char>>>)>,
    >,
    res: Result<usize, ApiReply>,
) -> bool {
    match body {
        Some(Some(f)) => match first_with_base16(old, key) {
            Some(j) => {
                &&& res == Ok::<usize, ApiReply>(j as usize)
                &&& new.len() == old.len()
                &&& forall|k: int| 0 <= k < old.len() && k != j ==> new[k] == old[k]
                &&& record_updated(old[j as int], new[j as int], f)
            },
            None => {
                &&& res matches Err(r) && reply_view(r) == no_token_reply(key)
                &&& new == old
            },
        },
        _ => {
            &&& res matches Err(r) && reply_view(r) == bad_params_reply()
            &&& new == old
        },
    }
}

/// True for a token whose `base16`, in lower case, is `key`.
pub open spec fn has_base16(t: TokenRecord, key: Seq<char>) -> bool {
    lowercase_chars(t.base16@) == key
}

/// The position of the first token whose `base16` matches.
pub open spec fn first_with_base16(tokens: Seq<TokenRecord>, key: Seq<char>) -> Option<nat>
    decreases tokens.len(),
{
    if tokens.len() == 0 {
        None
    } else {
        match first_with_base16(tokens.drop_last(), key) {
            Some(j) => Some(j),
            None => if has_base16(tokens.last(), key) {
                Some((tokens.len() - 1) as nat)
            } else {
                None
            },
        }
    }
}

/// The first match is a position of the list.
proof fn lemma_first_base16_in_range(tokens: Seq<TokenRecord>, key: Seq<char>)
    ensures
        first_with_base16(tokens, key) matches Some(j) ==> j < tokens.len(),
    decreases tokens.len(),
{
    if tokens.len() > 0 {
        lemma_first_base16_in_range(tokens.drop_last(), key);
    }
}

/// A match found in a prefix of the tokens is the first one of all of them.
proof fn lemma_first_base16_extends(tokens: Seq<TokenRecord>, key: Seq<char>, k: int)
    requires
        0 <= k <= tokens.len(),
        first_with_base16(tokens.subrange(0, k), key) is Some,
    ensures
        first_with_base16(tokens, key) == first_with_base16(tokens.subrange(0, k), key),
    decreases tokens.len(),
{
    if k == tokens.len() {
        assert(tokens.subrange(0, k) =~= tokens);
    } else {
        assert(tokens.drop_last().subrange(0, k) =~= tokens.subrange(0, k));
        lemma_first_base16_extends(tokens.drop_last(), key, k);
    }
}

/// The position of the first token whose `base16` is `key`, ignoring case.
fn find_base16(tokens: &Vec<TokenRecord>, key: &String) -> (res: Option<usize>)
    ensures
        match first_with_base16(tokens@, key@) {
            Some(j) => res == Some(j as usize),
            None => res is None,
        },
        res matches Some(j) ==> j < tokens@.len(),
{
    let mut i: usize = 0;
    assert(tokens@.subrange(0, 0) =~= Seq::<TokenRecord>::empty());
    while i < tokens.len()
        invariant
            0 <= i <= tokens@.len(),
            first_with_base16(tokens@.subrange(0, i as int), key@) is None,
        decreases tokens@.len() - i,
    {
        let ghost upto = tokens@.subrange(0, i + 1);
        assert(upto.drop_last() =~= tokens@.subrange(0, i as int));
        if to_lowercase(tokens[i].base16.as_str()) == *key {
            proof {
                lemma_first_base16_extends(tokens@, key@, i + 1);
            }
            return Some(i);
        }
        i = i + 1;
    }
    assert(tokens@.subrange(0, i as int) =~= tokens@);
    None
}

/// The token with the members of an update applied.
fn updated(old: &TokenRecord, f: &UpdateFields) -> (res: TokenRecord)
    ensures
        record_updated(*old, res, fields_view(*f)),
{
    let status = match f.status {
        Some(v) => match v {
            Some(n) => if n > 1 {
                1
            } else {
                n as u8
            },
            None => 0,
        },
        None => old.status,
    };
    let symbol = match &f.symbol {
        Some(Some(s)) => s.clone(),
        Some(None) => String::new(),
        None => old.symbol.clone(),
    };
    let scope = match f.score {
        Some(v) => match v {
            Some(n) => (n % 256) as u8,
            None => 0,
        },
        None => old.scope,
    };
    let listed = match f.listed {
        Some(Some(b)) => b,
        Some(None) => false,
        None => old.listed,
    };
    TokenRecord {
        symbol,
        base16: old.base16.clone(),
        token_type: old.token_type,
        status,
        scope,
        listed,
    }
}

/// Applies an update to the token whose `base16` the path names (see
/// `update_outcome`).
pub fn apply_token_update(tokens: &mut Vec<TokenRecord>, path: &str, body: &UpdateBody) -> (res:
    Result<usize, ApiReply>)
    ensures
        update_outcome(old(tokens)@, final(tokens)@, path_key_spec(path@), body_view(*body), res),
{
    let key = path_key(path);
    let fields = match body {
        UpdateBody::Fields(f) => f,
        _ => {
            return Err(
                ApiReply { status: 400, code: Some(-2), message: String::from_str("Incorrect params") },
            );
        },
    };
    proof {
        lemma_first_base16_in_range(tokens@, key@);
    }
    let count = tokens.len();
    assert(count == tokens@.len());
    match find_base16(tokens, &key) {
        Some(j) => {
            let record = updated(&tokens[j], fields);
            assert(first_with_base16(tokens@, key@) == Some(j as nat));
            tokens.set(j, record);
            Ok(j)
        },
        None => Err(no_token(&key)),
    }
}

/// Reads the body of `POST /token/<base16>` as JSON and applies it to the token
/// that the path names (see `update_outcome`): a body that is not a JSON object
/// gives "Incorrect params" and leaves the list unchanged.
pub fn update_token(tokens: &mut Vec<TokenRecord>, path: &str, body: &[u8]) -> (res: Result<
    usize,
    ApiReply,
>)
    ensures
        update_outcome(
            old(tokens)@,
            final(tokens)@,
            path_key_spec(path@),
            json_update_body(body@),
            res,
        ),
{
    let read = read_update_body(body);
    apply_token_update(tokens, path, &read)
}

/// The reply once an applied update has been written (or not) to the database.
pub fn update_reply(path: &str, written: bool) -> (res: ApiReply)
    ensures
        written ==> reply_view(res) == (200nat, None::<int>, "updated token "@ + path_key_spec(
            path@,
        )),
        !written ==> reply_view(res) == (400nat, Some(-4int), "Cannot write database"@),
{
    if written {
        let key = path_key(path);
        let mut message = String::from_str("updated token ");
        message.append(key.as_str());
        ApiReply { status: 200, code: None, message }
    } else {
        ApiReply { status: 400, code: Some(-4), message: String::from_str("Cannot write database") }
    }
}

/// The positions that `listed_of_type` gives are of listed tokens of the type,
/// in increasing order.
pub proof fn lemma_listed_of_type(tokens: Seq<TokenRecord>, token_type: u8)
    ensures
        forall|k: int|
            0 <= k < listed_of_type(tokens, token_type).len() ==> {
                let j = #[trigger] listed_of_type(tokens, token_type)[k];
                &&& j < tokens.len()
                &&& tokens[j as int].token_type == token_type
                &&& tokens[j as int].status == 1
            },
        forall|a: int, b: int|
            0 <= a < b < listed_of_type(tokens, token_type).len() ==> listed_of_type(
                tokens,
                token_type,
            )[a] < listed_of_type(tokens, token_type)[b],
    decreases tokens.len(),
{
    if tokens.len() > 0 {
        lemma_listed_of_type(tokens.drop_last(), token_type);
        let prev = listed_of_type(tokens.drop_last(), token_type);
        assert forall|k: int| 0 <= k < prev.len() implies #[trigger] prev[k] < tokens.len() - 1
            && tokens[prev[k] as int] == tokens.drop_last()[prev[k] as int] by {}
    }
}

/// `GET /tokens` answers with at most `limit` tokens, each listed (status 1) and
/// of the asked type, in list order.
pub proof fn lemma_selected_tokens(tokens: Seq<TokenRecord>, token_type: u8, offset: nat, limit: nat)
    ensures
        page(listed_of_type(tokens, token_type), offset, limit).len() <= limit,
        forall|k: int|
            0 <= k < page(listed_of_type(tokens, token_type), offset, limit).len() ==> {
                let j = #[trigger] page(listed_of_type(tokens, token_type), offset, limit)[k];
                &&& j < tokens.len()
                &&& tokens[j as int].token_type == token_type
                &&& tokens[j as int].status == 1
            },
{
    lemma_listed_of_type(tokens, token_type);
    let items = listed_of_type(tokens, token_type);
    let p = page(items, offset, limit);
    let start = if offset < items.len() {
        offset
    } else {
        items.len()
    };
    assert forall|k: int| 0 <= k < p.len() implies #[trigger] p[k] == items[start + k] by {}
}

/// The token that `GET /token/<symbol>` answers with is listed and its symbol,
/// lower-cased, is the key exactly, and no listed token before it has that
/// symbol; when there is none, no listed token of the list has it.
pub proof fn lemma_lookup_finds_exact_symbol(tokens: Seq<TokenRecord>, key: Seq<char>)
    ensures
        first_listed_with_symbol(tokens, key) matches Some(j) ==> {
            &&& j < tokens.len()
            &&& tokens[j as int].status == 1
            &&& lowercase_chars(tokens[j as int].symbol@) == key
            &&& forall|k: int|
                0 <= k < j ==> !(tokens[k].status == 1 && lowercase_chars(
                    #[trigger] tokens[k].symbol@,
                ) == key)
        },
        first_listed_with_symbol(tokens, key) is None ==> forall|k: int|
            0 <= k < tokens.len() ==> !(tokens[k].status == 1 && lowercase_chars(
                #[trigger] tokens[k].symbol@,
            ) == key),
    decreases tokens.len(),
{
    if tokens.len() > 0 {
        let d = tokens.drop_last();
        lemma_lookup_finds_exact_symbol(d, key);
        assert forall|k: int| 0 <= k < d.len() implies #[trigger] tokens[k] == d[k] by {};
    }
}

/// The token that an update applies to is the first whose `base16`, in lower
/// case, is the key exactly; when there is none, no token of the list has it.
pub proof fn lemma_update_finds_exact_base16(tokens: Seq<TokenRecord>, key: Seq<char>)
    ensures
        first_with_base16(tokens, key) matches Some(j) ==> {
            &&& j < tokens.len()
            &&& lowercase_chars(tokens[j as int].base16@) == key
            &&& forall|k: int|
                0 <= k < j ==> lowercase_chars(#[trigger] tokens[k].base16@) != key
        },
        first_with_base16(tokens, key) is None ==> forall|k: int|
            0 <= k < tokens.len() ==> lowercase_chars(#[trigger] tokens[k].base16@) != key,
    decreases tokens.len(),
{
    if tokens.len() > 0 {
        let d = tokens.drop_last();
        lemma_update_finds_exact_base16(d, key);
        assert forall|k: int| 0 <= k < d.len() implies #[trigger] tokens[k] == d[k] by {};
    }
}

/// An update sets exactly the members that the body has and leaves every other
/// field as it was: `status` becomes the number capped at 1, `score` its low
/// byte, `listed` the boolean and `symbol` the string (each 0, false or empty
/// when the member is not of that kind); a member that is absent changes
/// nothing, `base16` and the type never change, and no other token changes.
/// A refused update changes nothing.
pub proof fn lemma_update_sets_only_given_members(
    old: Seq<TokenRecord>,
    new: Seq<TokenRecord>,
    key: Seq<char>,
    body: Option<
        Option<(Option<Option<u64>>, Option<Option<u64>>, Option<Option<bool>>, Option<Option<Seq<char>>>)>,
    >,
    res: Result<usize, ApiReply>,
)
    requires
        old.len() <= usize::MAX,
        update_outcome(old, new, key, body, res),
    ensures
        res is Err ==> new == old,
        res matches Ok(j) ==> {
            &&& body matches Some(Some(f))
            &&& j < old.len()
            &&& new.len() == old.len()
            &&& lowercase_chars(old[j as int].base16@) == key
            &&& forall|k: int| 0 <= k < old.len() && k != j ==> #[trigger] new[k] == old[k]
            &&& new[j as int].base16@ == old[j as int].base16@
            &&& new[j as int].token_type == old[j as int].token_type
            &&& f.0 is None ==> new[j as int].status == old[j as int].status
            &&& f.0 matches Some(Some(v)) ==> new[j as int].status == if v > 1 {
                1
            } else {
                v
            }
            &&& f.0 == Some(None::<u64>) ==> new[j as int].status == 0
            &&& f.1 is None ==> new[j as int].scope == old[j as int].scope
            &&& f.1 matches Some(Some(v)) ==> new[j as int].scope == v % 256
            &&& f.1 == Some(None::<u64>) ==> new[j as int].scope == 0
            &&& f.2 is None ==> new[j as int].listed == old[j as int].listed
            &&& f.2 matches Some(Some(v)) ==> new[j as int].listed == v
            &&& f.2 == Some(None::<bool>) ==> !new[j as int].listed
            &&& f.3 is None ==> new[j as int].symbol@ == old[j as int].symbol@
            &&& f.3 matches Some(Some(v)) ==> new[j as int].symbol@ == v
            &&& f.3 == Some(None::<Seq<char>>) ==> new[j as int].symbol@.len() == 0
        },
{
    lemma_update_finds_exact_base16(old, key);
    lemma_first_base16_in_range(old, key);
    if let Ok(j) = res {
        if let Some(Some(f)) = body {
            let (o, t) = (old[j as int], new[j as int]);
            assert(record_updated(o, t, f));
            if let Some(Some(v)) = f.0 {
                assert(v <= 1 ==> v as u8 == v);
            }
            if let Some(Some(v)) = f.1 {
                assert((v % 256) as u8 == v % 256);
            }
        }
    }
}

/// Paging skips the first `offset` items and keeps the next ones, at most
/// `limit`: item `k` of the page is item `offset + k`, and the page is as long
/// as `limit` or as what is left after `offset`, whichever is shorter.
pub proof fn lemma_page_skips_then_takes(items: Seq<nat>, offset: nat, limit: nat)
    ensures
        page(items, offset, limit).len() == if offset >= items.len() {
            0
        } else if items.len() - offset < limit {
            (items.len() - offset) as nat
        } else {
            limit
        },
        forall|k: int|
            0 <= k < page(items, offset, limit).len() ==> #[trigger] page(items, offset, limit)[k]
                == items[offset + k],
{
}

/// Every listed token (status 1) of the type is among those `GET /tokens`
/// chooses from: none is left out.
pub proof fn lemma_listed_of_type_complete(tokens: Seq<TokenRecord>, token_type: u8)
    ensures
        forall|j: int|
            0 <= j < tokens.len() && #[trigger] tokens[j].token_type == token_type
                && tokens[j].status == 1 ==> listed_of_type(tokens, token_type).contains(j as nat),
    decreases tokens.len(),
{
    if tokens.len() > 0 {
        let d = tokens.drop_last();
        let prev = listed_of_type(d, token_type);
        lemma_listed_of_type_complete(d, token_type);
        assert forall|j: int|
            0 <= j < tokens.len() && #[trigger] tokens[j].token_type == token_type
                && tokens[j].status == 1 implies listed_of_type(tokens, token_type).contains(
            j as nat,
        ) by {
            if j < d.len() {
                assert(tokens[j] == d[j]);
                let m = choose|m: int| 0 <= m < prev.len() && prev[m] == j as nat;
                assert(listed_of_type(tokens, token_type)[m] == j as nat);
            } else {
                let all = listed_of_type(tokens, token_type);
                assert(all[all.len() - 1] == j as nat);
            }
        };
    }
}

/// The key of a path is taken from the text after its last `/`: whatever comes
/// before, a path ending in `/` and a segment without `/` has that segment.
pub proof fn lemma_last_segment_after_slash(prefix: Seq<char>, segment: Seq<char>)
    requires
        !segment.contains('/'),
    ensures
        last_segment(prefix.push('/') + segment) == segment,
        path_key_spec(prefix.push('/') + segment) == lowercase_chars(ascii_lowercase(segment)),
    decreases segment.len(),
{
    let path = prefix.push('/') + segment;
    if segment.len() == 0 {
        assert(path =~= prefix.push('/'));
    } else {
        let shorter = segment.drop_last();
        assert(!shorter.contains('/')) by {
            if shorter.contains('/') {
                let i = choose|i: int| 0 <= i < shorter.len() && shorter[i] == '/';
                assert(segment[i] == '/');
            }
        };
        lemma_last_segment_after_slash(prefix, shorter);
        assert(path.drop_last() =~= prefix.push('/') + shorter);
        assert(path.last() == segment.last());
        assert(segment.last() != '/') by {
            if segment.last() == '/' {
                assert(segment[segment.len() - 1] == '/');
            }
        };
        assert(shorter.push(segment.last()) =~= segment);
    }
}

/// An update keeps a token's status 0 or 1 (the only values the list uses).
pub proof fn lemma_update_keeps_status_binary(
    old: TokenRecord,
    new: TokenRecord,
    f: (Option<Option<u64>>, Option<Option<u64>>, Option<Option<bool>>, Option<Option<Seq<char>>>),
)
    requires
        record_updated(old, new, f),
        old.status <= 1,
    ensures
        new.status <= 1,
{
}

/// Paths whose last segments differ only in the case of ASCII letters name the
/// same key, so `GET /token/<symbol>` answers both alike (the same token, or the
/// same "No token" reply) and an update applies to the same token.
pub proof fn lemma_path_case_insensitive(tokens: Seq<TokenRecord>, path_a: Seq<char>, path_b: Seq<char>)
    requires
        ascii_lowercase(last_segment(path_a)) == ascii_lowercase(last_segment(path_b)),
    ensures
        path_key_spec(path_a) == path_key_spec(path_b),
        first_listed_with_symbol(tokens, path_key_spec(path_a)) == first_listed_with_symbol(
            tokens,
            path_key_spec(path_b),
        ),
        no_token_reply(path_key_spec(path_a)) == no_token_reply(path_key_spec(path_b)),
        first_with_base16(tokens, path_key_spec(path_a)) == first_with_base16(
            tokens,
            path_key_spec(path_b),
        ),
{
}

} // verus!
