//! JSON-RPC batches of `eth_call`s that look up Uniswap V2 pairs, and the
//! reading of their replies into the inputs of a price.

use vstd::prelude::*;
use vstd::string::{StringExecFns, StringSliceAdditionalSpecFns};
use vstd::utf8::encode_utf8;
use crate::abi::{
    be_value, decode_get_pair_returns, decode_get_reserves_returns, decode_token0_returns,
    encode_get_pair, encode_get_reserves, encode_token0, get_pair_call, short_data_message,
    ADDRESS_ZERO, FACTORY_ADDRESS, SELECTOR_GET_PAIR, SELECTOR_GET_RESERVES, SELECTOR_TOKEN0,
    WETH_ADDRESS,
};
use crate::address::{
    format_address, parse_address, parse_address_spec, same_address, strip_0x, strip_hex_prefix,
};
use crate::decimal::{
    decimal_chars, decimal_string, lemma_decimal_digits, lemma_decimal_roundtrip,
    parse_unsigned_spec, parse_usize,
};
use crate::error::{is_api_error, UniswapDexError};
use crate::hexcodec::{decode_hex, hex_decode_spec, hex_error_display, hex_error_text, prefixed_hex, prefixed_hex_string, HexError};

verus! {

/// The public Ethereum nodes that batches are sent to, tried in this order.
pub const URLS: [&'static str; 5] = [
    "https://cloudflare-eth.com",
    "https://eth.llamarpc.com",
    "https://eth.rpc.blxrbdn.com",
    "https://virginia.rpc.blxrbdn.com",
    "https://rpc.flashbots.net",
];

/// One `eth_call` of a batch: its id, the contract called and the call data,
/// both written as `0x`-prefixed hexadecimal text.
#[derive(Debug)]
pub struct EthCallRequest {
    pub id: String,
    pub to: String,
    pub data: String,
}

/// The three texts of a request.
pub open spec fn call_view(r: EthCallRequest) -> (Seq<char>, Seq<char>, Seq<char>) {
    (r.id@, r.to@, r.data@)
}

/// The request that calls the contract `to` with `data`, under `id`.
pub open spec fn eth_call_spec(id: Seq<char>, to: Seq<u8>, data: Seq<u8>) -> (
    Seq<char>,
    Seq<char>,
    Seq<char>,
) {
    (id, prefixed_hex(to), prefixed_hex(data))
}

/// Builds the `eth_call` of `data` on the contract `to`, sent under `id`.
pub fn create_eth_call_request(id: String, to: &[u8; 20], data: Vec<u8>) -> (res: EthCallRequest)
    ensures
        call_view(res) == eth_call_spec(id@, to@, data@),
{
    let to_text = format_address(to);
    let data_text = prefixed_hex_string(data.as_slice());
    EthCallRequest { id, to: to_text, data: data_text }
}

/// The id of the request about the token (or pair) at `index`.
pub open spec fn request_id(prefix: Seq<char>, index: nat) -> Seq<char> {
    prefix + decimal_chars(index)
}

/// Writes `prefix` followed by `index` in decimal.
fn make_request_id(prefix: &str, index: usize) -> (res: String)
    ensures
        res@ == request_id(prefix@, index as nat),
{
    let mut id = String::from_str(prefix);
    id.append(decimal_string(index).as_str());
    id
}

/// The index in an id that starts with `prefix` and goes on with a number,
/// as `strip_prefix` and `parse::<usize>` read it.
pub open spec fn request_index_spec(id: Seq<u8>, prefix: Seq<u8>) -> Option<nat> {
    if prefix.len() <= id.len() && id.subrange(0, prefix.len() as int) == prefix {
        parse_unsigned_spec(id.subrange(prefix.len() as int, id.len() as int), usize::MAX as nat)
    } else {
        None
    }
}

/// The index in the id of a reply, when the id is `prefix` and a number.
pub fn request_index(id: &str, prefix: &str) -> (res: Option<usize>)
    ensures
        match request_index_spec(id.spec_bytes(), prefix.spec_bytes()) {
            Some(v) => res == Some(v as usize),
            None => res is None,
        },
{
    let ib = id.as_bytes();
    let pb = prefix.as_bytes();
    if pb.len() > ib.len() {
        return None;
    }
    let mut i: usize = 0;
    while i < pb.len()
        invariant
            0 <= i <= pb@.len(),
            pb@.len() <= ib@.len(),
            ib@ == id.spec_bytes(),
            pb@ == prefix.spec_bytes(),
            forall|j: int| 0 <= j < i ==> ib@[j] == pb@[j],
        decreases pb@.len() - i,
    {
        if ib[i] != pb[i] {
            assert(ib@.subrange(0, pb@.len() as int)[i as int] != pb@[i as int]);
            return None;
        }
        i = i + 1;
    }
    assert(ib@.subrange(0, pb@.len() as int) =~= pb@);
    parse_usize(&ib[pb.len()..ib.len()])
}

/// The address in the text `s`, or the zero address when `s` is not one.
pub open spec fn address_or_zero(s: Seq<char>) -> Seq<u8> {
    match parse_address_spec(encode_utf8(s)) {
        Some(a) => a,
        None => ADDRESS_ZERO@,
    }
}

/// Reads an address, or gives the zero address.
fn parse_address_or_zero(s: &str) -> (res: [u8; 20])
    ensures
        res@ == address_or_zero(s@),
{
    match parse_address(s) {
        Some(a) => a,
        None => ADDRESS_ZERO,
    }
}

/// The first batch: for the token at `i`, `getPair(token, WETH)` on the factory,
/// sent as `getPair_i`.
pub open spec fn pair_requests_spec(addresses: Seq<String>) -> Seq<(Seq<char>, Seq<char>, Seq<char>)> {
    Seq::new(
        addresses.len(),
        |i: int|
            eth_call_spec(
                request_id("getPair_"@, i as nat),
                FACTORY_ADDRESS@,
                get_pair_call(address_or_zero(addresses[i]@), WETH_ADDRESS@),
            ),
    )
}

/// The first batch has one request per token, in order: `getPair_i`, sent to
/// the Uniswap V2 factory, whose call data is the `getPair` selector, then the
/// token's address (the zero address when it cannot be read) and then Wrapped
/// Ether's, each as the last twenty bytes of a word of zeros.
pub proof fn lemma_pair_requests_ask_the_factory(addresses: Seq<String>)
    ensures
        pair_requests_spec(addresses).len() == addresses.len(),
        forall|i: int|
            0 <= i < addresses.len() ==> {
                let r = #[trigger] pair_requests_spec(addresses)[i];
                let data = get_pair_call(address_or_zero(addresses[i]@), WETH_ADDRESS@);
                &&& r.0 == request_id("getPair_"@, i as nat)
                &&& r.1 == prefixed_hex(FACTORY_ADDRESS@)
                &&& r.2 == prefixed_hex(data)
                &&& data.len() == 68
                &&& data.subrange(0, 4) == SELECTOR_GET_PAIR@
                &&& forall|b: int| 4 <= b < 16 || 36 <= b < 48 ==> data[b] == 0
                &&& data.subrange(16, 36) == address_or_zero(addresses[i]@)
                &&& data.subrange(48, 68) == WETH_ADDRESS@
            },
{
    assert forall|i: int| 0 <= i < addresses.len() implies {
        let r = #[trigger] pair_requests_spec(addresses)[i];
        let data = get_pair_call(address_or_zero(addresses[i]@), WETH_ADDRESS@);
        &&& r.0 == request_id("getPair_"@, i as nat)
        &&& r.1 == prefixed_hex(FACTORY_ADDRESS@)
        &&& r.2 == prefixed_hex(data)
        &&& data.len() == 68
        &&& data.subrange(0, 4) == SELECTOR_GET_PAIR@
        &&& forall|b: int| 4 <= b < 16 || 36 <= b < 48 ==> data[b] == 0
        &&& data.subrange(16, 36) == address_or_zero(addresses[i]@)
        &&& data.subrange(48, 68) == WETH_ADDRESS@
    } by {
        let token = address_or_zero(addresses[i]@);
        let data = get_pair_call(token, WETH_ADDRESS@);
        assert(token.len() == 20);
        assert(data.subrange(0, 4) =~= SELECTOR_GET_PAIR@);
        assert(data.subrange(16, 36) =~= token);
        assert(data.subrange(48, 68) =~= WETH_ADDRESS@);
    };
}

/// Builds the first batch: one `getPair` request per token address.
pub fn pair_requests(addresses: &Vec<String>) -> (res: Vec<EthCallRequest>)
    ensures
        res@.map_values(|r: EthCallRequest| call_view(r)) == pair_requests_spec(addresses@),
{
    let mut requests: Vec<EthCallRequest> = Vec::with_capacity(addresses.len());
    let mut i: usize = 0;
    while i < addresses.len()
        invariant
            0 <= i <= addresses@.len(),
            requests@.len() == i,
            requests@.map_values(|r: EthCallRequest| call_view(r)) =~= pair_requests_spec(
                addresses@,
            ).subrange(0, i as int),
        decreases addresses@.len() - i,
    {
        let token = parse_address_or_zero(addresses[i].as_str());
        let data = encode_get_pair(&token, &WETH_ADDRESS);
        let request = create_eth_call_request(make_request_id("getPair_", i), &FACTORY_ADDRESS, data);
        assert(call_view(request) == pair_requests_spec(addresses@)[i as int]);
        let ghost before = requests@;
        requests.push(request);
        assert(requests@.map_values(|r: EthCallRequest| call_view(r)) =~= before.map_values(
            |r: EthCallRequest| call_view(r),
        ).push(call_view(request)));
        i = i + 1;
    }
    assert(pair_requests_spec(addresses@).subrange(0, i as int) =~= pair_requests_spec(addresses@));
    requests
}

/// What the lookup reads of one reply of a batch: the `id` and `result`
/// members when they are strings, and whether a `result` member is there at all.
#[derive(Debug)]
pub struct RpcResponse {
    pub id: Option<String>,
    pub result: Option<String>,
    pub has_result: bool,
}

/// How far the reading of a batch's replies got.
pub enum ScanState<T> {
    /// Every reply so far was read; this is what was gathered.
    Scanning(T),
    /// A reply could not be used; this is the message of the `ApiError`.
    Failed(Seq<char>),
    /// A reply named a token beyond the list, at this index.
    OutOfRange(nat),
}

/// The outcome of reading the replies of a batch.
#[derive(Debug)]
pub enum ReplyScan<T> {
    /// Every reply was read.
    Complete(T),
    /// A reply could not be used.
    Failed(UniswapDexError),
    /// A reply named a token beyond the list, at this index.
    IndexOutOfRange(usize),
}

/// The bytes that a `result` text spells (an optional `0x`, then hexadecimal
/// digits), or the message of the error when it spells none.
pub open spec fn result_bytes_spec(result: Seq<char>) -> Result<Seq<u8>, Seq<char>> {
    match hex_decode_spec(strip_0x(encode_utf8(result))) {
        Ok(v) => Ok(v),
        Err(e) => Err("Hex decode error: "@ + hex_error_display(e)),
    }
}

/// Reads the bytes of a `result` text.
fn result_bytes(result: &String) -> (res: Result<Vec<u8>, UniswapDexError>)
    ensures
        match result_bytes_spec(result@) {
            Ok(v) => res matches Ok(r) && r@ == v,
            Err(m) => res matches Err(e) && is_api_error(e, m),
        },
{
    match decode_hex(strip_hex_prefix(result.as_str().as_bytes())) {
        Ok(v) => Ok(v),
        Err(e) => {
            let mut msg = String::from_str("Hex decode error: ");
            msg.append(hex_error_text(&e).as_str());
            Err(UniswapDexError::ApiError(msg))
        },
    }
}

/// The pair addresses gathered so far, one per token.
pub open spec fn addresses_view(v: Seq<[u8; 20]>) -> Seq<Seq<u8>> {
    v.map_values(|a: [u8; 20]| a@)
}

/// What one reply of the first batch does: a `getPair_i` reply sets the pair of
/// token `i` to the address in its result.
pub open spec fn pair_reply_step(pairs: Seq<Seq<u8>>, r: RpcResponse) -> ScanState<Seq<Seq<u8>>> {
    match (r.id, r.result) {
        (Some(id), Some(result)) => match request_index_spec(
            encode_utf8(id@),
            "getPair_".spec_bytes(),
        ) {
            None => ScanState::Scanning(pairs),
            Some(index) => match result_bytes_spec(result@) {
                Err(msg) => ScanState::Failed(msg),
                Ok(data) => if data.len() < 32 {
                    ScanState::Failed(short_data_message("address"@, data.len()))
                } else if index >= pairs.len() {
                    ScanState::OutOfRange(index)
                } else {
                    ScanState::Scanning(pairs.update(index as int, data.subrange(12, 32)))
                },
            },
        },
        _ => ScanState::Scanning(pairs),
    }
}

/// The replies of the first batch read in order, from the zero address for
/// each of `n` tokens.
pub open spec fn scan_pair_replies_spec(n: nat, replies: Seq<RpcResponse>) -> ScanState<
    Seq<Seq<u8>>,
>
    decreases replies.len(),
{
    if replies.len() == 0 {
        ScanState::Scanning(Seq::new(n, |i: int| ADDRESS_ZERO@))
    } else {
        match scan_pair_replies_spec(n, replies.drop_last()) {
            ScanState::Scanning(pairs) => pair_reply_step(pairs, replies.last()),
            other => other,
        }
    }
}

/// Once the reading of the first batch has stopped, later replies change nothing.
pub proof fn lemma_pair_scan_stops(n: nat, replies: Seq<RpcResponse>, k: int)
    requires
        0 <= k <= replies.len(),
        !(scan_pair_replies_spec(n, replies.subrange(0, k)) is Scanning),
    ensures
        scan_pair_replies_spec(n, replies) == scan_pair_replies_spec(n, replies.subrange(0, k)),
    decreases replies.len(),
{
    if k == replies.len() {
        assert(replies.subrange(0, k) =~= replies);
    } else {
        assert(replies.drop_last().subrange(0, k) =~= replies.subrange(0, k));
        lemma_pair_scan_stops(n, replies.drop_last(), k);
    }
}

/// True when the exec outcome `res` is the spec outcome `s`, read with `view`.
pub open spec fn scan_matches<T, V>(res: ReplyScan<T>, s: ScanState<V>, view: spec_fn(T) -> V) -> bool {
    match s {
        ScanState::Scanning(v) => res matches ReplyScan::Complete(t) && view(t) == v,
        ScanState::Failed(m) => res matches ReplyScan::Failed(e) && is_api_error(e, m),
        ScanState::OutOfRange(i) => res matches ReplyScan::IndexOutOfRange(j) && j as nat == i,
    }
}

/// Reads the replies of the first batch in order, reporting where a reply names
/// a token beyond the list.
fn read_pair_replies(n: usize, replies: &Vec<RpcResponse>) -> (res: ReplyScan<Vec<[u8; 20]>>)
    ensures
        scan_matches(
            res,
            scan_pair_replies_spec(n as nat, replies@),
            |v: Vec<[u8; 20]>| addresses_view(v@),
        ),
{
    let mut pairs: Vec<[u8; 20]> = Vec::with_capacity(n);
    let mut k: usize = 0;
    while k < n
        invariant
            0 <= k <= n,
            pairs@.len() == k,
            forall|j: int| 0 <= j < k ==> pairs@[j] == ADDRESS_ZERO,
        decreases n - k,
    {
        pairs.push(ADDRESS_ZERO);
        k = k + 1;
    }
    assert(addresses_view(pairs@) =~= Seq::new(n as nat, |i: int| ADDRESS_ZERO@));
    assert(replies@.subrange(0, 0) =~= Seq::<RpcResponse>::empty());
    let mut i: usize = 0;
    while i < replies.len()
        invariant
            0 <= i <= replies@.len(),
            pairs@.len() == n,
            scan_pair_replies_spec(n as nat, replies@.subrange(0, i as int))
                == ScanState::Scanning(addresses_view(pairs@)),
        decreases replies@.len() - i,
    {
        let ghost done = replies@.subrange(0, i as int);
        let ghost next = replies@.subrange(0, i + 1);
        assert(next.drop_last() =~= done);
        assert(next.last() == replies@[i as int]);
        let r = &replies[i];
        if let (Some(id), Some(result)) = (&r.id, &r.result) {
            if let Some(index) = request_index(id.as_str(), "getPair_") {
                let data = match result_bytes(result) {
                    Ok(d) => d,
                    Err(e) => {
                        proof {
                            lemma_pair_scan_stops(n as nat, replies@, i + 1);
                        }
                        return ReplyScan::Failed(e);
                    },
                };
                let decoded = match decode_get_pair_returns(data.as_slice()) {
                    Ok(a) => a,
                    Err(e) => {
                        proof {
                            lemma_pair_scan_stops(n as nat, replies@, i + 1);
                        }
                        return ReplyScan::Failed(e);
                    },
                };
                if index >= n {
                    proof {
                        lemma_pair_scan_stops(n as nat, replies@, i + 1);
                    }
                    return ReplyScan::IndexOutOfRange(index);
                }
                let ghost before = pairs@;
                pairs.set(index, decoded);
                assert(addresses_view(pairs@) =~= addresses_view(before).update(
                    index as int,
                    decoded@,
                ));
            }
        }
        i = i + 1;
    }
    assert(replies@.subrange(0, i as int) =~= replies@);
    ReplyScan::Complete(pairs)
}

/// The second batch: for every token whose pair is not the zero address,
/// `getReserves()` sent as `getReserves_i` and `token0()` sent as `token0_i`,
/// both to the pair.
pub open spec fn reserve_requests_spec(pairs: Seq<Seq<u8>>) -> Seq<(Seq<char>, Seq<char>, Seq<char>)>
    decreases pairs.len(),
{
    if pairs.len() == 0 {
        Seq::empty()
    } else {
        let i = (pairs.len() - 1) as nat;
        let pair = pairs.last();
        let prev = reserve_requests_spec(pairs.drop_last());
        if pair == ADDRESS_ZERO@ {
            prev
        } else {
            prev.push(
                eth_call_spec(request_id("getReserves_"@, i), pair, SELECTOR_GET_RESERVES@),
            ).push(eth_call_spec(request_id("token0_"@, i), pair, SELECTOR_TOKEN0@))
        }
    }
}

/// Builds the second batch from the pair address of each token.
pub fn reserve_requests(pairs: &Vec<[u8; 20]>) -> (res: Vec<EthCallRequest>)
    ensures
        res@.map_values(|r: EthCallRequest| call_view(r)) == reserve_requests_spec(
            addresses_view(pairs@),
        ),
{
    let mut requests: Vec<EthCallRequest> = Vec::new();
    let mut i: usize = 0;
    assert(addresses_view(pairs@.subrange(0, 0)) =~= Seq::<Seq<u8>>::empty());
    while i < pairs.len()
        invariant
            0 <= i <= pairs@.len(),
            requests@.map_values(|r: EthCallRequest| call_view(r)) =~= reserve_requests_spec(
                addresses_view(pairs@.subrange(0, i as int)),
            ),
        decreases pairs@.len() - i,
    {
        let ghost done = addresses_view(pairs@.subrange(0, i as int));
        let ghost next = addresses_view(pairs@.subrange(0, i + 1));
        assert(next.drop_last() =~= done);
        assert(next.last() == pairs@[i as int]@);
        assert(next.len() == i + 1);
        let ghost before = requests@;
        let pair = pairs[i];
        if !same_address(&pair, &ADDRESS_ZERO) {
            let reserves_call = create_eth_call_request(
                make_request_id("getReserves_", i),
                &pair,
                encode_get_reserves(),
            );
            let token0_call = create_eth_call_request(
                make_request_id("token0_", i),
                &pair,
                encode_token0(),
            );
            requests.push(reserves_call);
            requests.push(token0_call);
            assert(requests@ =~= before.push(reserves_call).push(token0_call));
            assert(requests@.map_values(|r: EthCallRequest| call_view(r)) =~= before.map_values(
                |r: EthCallRequest| call_view(r),
            ).push(call_view(reserves_call)).push(call_view(token0_call)));
        }
        i = i + 1;
    }
    assert(pairs@.subrange(0, i as int) =~= pairs@);
    requests
}

/// The `getReserves()` request about token `i`, sent to its pair.
#[verifier::opaque]
pub open spec fn reserves_request(pair: Seq<u8>, i: nat) -> (Seq<char>, Seq<char>, Seq<char>) {
    eth_call_spec(request_id("getReserves_"@, i), pair, SELECTOR_GET_RESERVES@)
}

/// The `token0()` request about token `i`, sent to its pair.
#[verifier::opaque]
pub open spec fn token0_request(pair: Seq<u8>, i: nat) -> (Seq<char>, Seq<char>, Seq<char>) {
    eth_call_spec(request_id("token0_"@, i), pair, SELECTOR_TOKEN0@)
}

/// Positions `k` and `k + 1` of `batch` hold the two requests about token `i`,
/// both addressed to `pair`.
pub open spec fn pool_couple_at(
    batch: Seq<(Seq<char>, Seq<char>, Seq<char>)>,
    k: int,
    pair: Seq<u8>,
    i: int,
) -> bool {
    &&& 0 <= k && k + 1 < batch.len()
    &&& batch[k] == reserves_request(pair, i as nat)
    &&& batch[k + 1] == token0_request(pair, i as nat)
}

/// Positions `k` and `k + 1` of `batch` hold the couple of some token of
/// `pairs` whose pair is not the zero address.
pub open spec fn couple_of_some_token(
    batch: Seq<(Seq<char>, Seq<char>, Seq<char>)>,
    pairs: Seq<Seq<u8>>,
    k: int,
) -> bool {
    exists|i: int|
        0 <= i < pairs.len() && pairs[i] != ADDRESS_ZERO@ && #[trigger] pool_couple_at(
            batch,
            k,
            pairs[i],
            i,
        )
}

/// Some even position of `batch` holds the couple of token `i`.
pub open spec fn token_has_couple(
    batch: Seq<(Seq<char>, Seq<char>, Seq<char>)>,
    pairs: Seq<Seq<u8>>,
    i: int,
) -> bool {
    exists|k: int| k % 2 == 0 && #[trigger] pool_couple_at(batch, k, pairs[i], i)
}

/// The batch is made of couples `getReserves_i`, `token0_i`, each about a token
/// `i` whose pair is not the zero address and addressed to that pair; and every
/// token with a pair has its couple in the batch.
pub open spec fn couples_of_pairs(batch: Seq<(Seq<char>, Seq<char>, Seq<char>)>, pairs: Seq<Seq<u8>>) -> bool {
    &&& batch.len() % 2 == 0
    &&& forall|k: int|
        0 <= k < batch.len() && k % 2 == 0 ==> #[trigger] couple_of_some_token(batch, pairs, k)
    &&& forall|i: int|
        0 <= i < pairs.len() && pairs[i] != ADDRESS_ZERO@ ==> #[trigger] token_has_couple(
            batch,
            pairs,
            i,
        )
}

/// Adding a token to the list adds its couple when its pair is not zero.
proof fn lemma_couples_push(
    p: Seq<(Seq<char>, Seq<char>, Seq<char>)>,
    b: Seq<(Seq<char>, Seq<char>, Seq<char>)>,
    d: Seq<Seq<u8>>,
    pair: Seq<u8>,
)
    requires
        couples_of_pairs(p, d),
        pair == ADDRESS_ZERO@ ==> b == p,
        pair != ADDRESS_ZERO@ ==> b == p.push(reserves_request(pair, d.len())).push(
            token0_request(pair, d.len()),
        ),
    ensures
        couples_of_pairs(b, d.push(pair)),
{
    let pairs = d.push(pair);
    let n = d.len() as int;
    assert(pairs[n] == pair);
    assert forall|k: int| 0 <= k < b.len() && k % 2 == 0 implies #[trigger] couple_of_some_token(
        b,
        pairs,
        k,
    ) by {
        if k < p.len() {
            assert(couple_of_some_token(p, d, k));
            let i = choose|i: int|
                0 <= i < d.len() && d[i] != ADDRESS_ZERO@ && #[trigger] pool_couple_at(
                    p,
                    k,
                    d[i],
                    i,
                );
            assert(d[i] == pairs[i]);
            assert(b[k] == p[k] && b[k + 1] == p[k + 1]);
            assert(pool_couple_at(b, k, pairs[i], i));
        } else {
            assert(pool_couple_at(b, k, pairs[n], n));
        }
    };
    assert forall|i: int| 0 <= i < pairs.len() && pairs[i] != ADDRESS_ZERO@ implies #[trigger] token_has_couple(
        b,
        pairs,
        i,
    ) by {
        if i < n {
            assert(d[i] == pairs[i]);
            assert(token_has_couple(p, d, i));
            let k = choose|k: int| k % 2 == 0 && #[trigger] pool_couple_at(p, k, d[i], i);
            assert(b[k] == p[k] && b[k + 1] == p[k + 1]);
            assert(pool_couple_at(b, k, pairs[i], i));
        } else {
            assert(pool_couple_at(b, p.len() as int, pairs[i], i));
        }
    };
}

/// Every request of the second batch belongs to a token whose pair is not the
/// zero address, and both requests about it go to that pair: the batch is made
/// of `getReserves_i` followed by `token0_i`, each sent to the pair address found
/// for token `i`; and every token with a pair has such a couple in the batch.
pub proof fn lemma_reserve_requests_go_to_pairs(pairs: Seq<Seq<u8>>)
    ensures
        couples_of_pairs(reserve_requests_spec(pairs), pairs),
    decreases pairs.len(),
{
    if pairs.len() > 0 {
        let d = pairs.drop_last();
        lemma_reserve_requests_go_to_pairs(d);
        assert(d.push(pairs.last()) =~= pairs);
        assert(reserve_requests_spec(pairs) == if pairs.last() == ADDRESS_ZERO@ {
            reserve_requests_spec(d)
        } else {
            reserve_requests_spec(d).push(reserves_request(pairs.last(), d.len())).push(
                token0_request(pairs.last(), d.len()),
            )
        }) by {
            reveal(reserves_request);
            reveal(token0_request);
        };
        lemma_couples_push(reserve_requests_spec(d), reserve_requests_spec(pairs), d, pairs.last());
    }
}

/// The reserves and the `token0` gathered from the second batch, one of each per
/// token, as numbers and bytes.
pub open spec fn pool_view(p: PoolReplies) -> (Seq<Option<(nat, nat)>>, Seq<Option<Seq<u8>>>) {
    (
        p.reserves@.map_values(
            |r: Option<(u128, u128)>|
                match r {
                    Some((a, b)) => Some((a as nat, b as nat)),
                    None => None,
                },
        ),
        p.token0s@.map_values(
            |t: Option<[u8; 20]>|
                match t {
                    Some(a) => Some(a@),
                    None => None,
                },
        ),
    )
}

/// The replies of the second batch, per token.
#[derive(Debug)]
pub struct PoolReplies {
    /// The reserves of the token's pair, as `getReserves` returned them.
    pub reserves: Vec<Option<(u128, u128)>>,
    /// The first token of the token's pair, as `token0` returned it.
    pub token0s: Vec<Option<[u8; 20]>>,
}

/// What one reply of the second batch does. Its result is decoded first; then a
/// `getReserves_i` reply sets the reserves of token `i`, and else a `token0_i`
/// reply sets its `token0`.
pub open spec fn pool_reply_step(
    state: (Seq<Option<(nat, nat)>>, Seq<Option<Seq<u8>>>),
    r: RpcResponse,
) -> ScanState<(Seq<Option<(nat, nat)>>, Seq<Option<Seq<u8>>>)> {
    match (r.id, r.result) {
        (Some(id), Some(result)) => match result_bytes_spec(result@) {
            Err(msg) => ScanState::Failed(msg),
            Ok(data) => match request_index_spec(encode_utf8(id@), "getReserves_".spec_bytes()) {
                Some(index) => if data.len() < 96 {
                    ScanState::Failed(short_data_message("reserves"@, data.len()))
                } else if index >= state.0.len() {
                    ScanState::OutOfRange(index)
                } else {
                    ScanState::Scanning(
                        (
                            state.0.update(
                                index as int,
                                Some(
                                    (
                                        be_value(data.subrange(16, 32)),
                                        be_value(data.subrange(48, 64)),
                                    ),
                                ),
                            ),
                            state.1,
                        ),
                    )
                },
                None => match request_index_spec(encode_utf8(id@), "token0_".spec_bytes()) {
                    Some(index) => if data.len() < 32 {
                        ScanState::Failed(short_data_message("address"@, data.len()))
                    } else if index >= state.1.len() {
                        ScanState::OutOfRange(index)
                    } else {
                        ScanState::Scanning(
                            (state.0, state.1.update(index as int, Some(data.subrange(12, 32)))),
                        )
                    },
                    None => ScanState::Scanning(state),
                },
            },
        },
        _ => ScanState::Scanning(state),
    }
}

/// The replies of the second batch read in order, from nothing known about
/// each of `n` tokens.
pub open spec fn scan_pool_replies_spec(n: nat, replies: Seq<RpcResponse>) -> ScanState<
    (Seq<Option<(nat, nat)>>, Seq<Option<Seq<u8>>>),
>
    decreases replies.len(),
{
    if replies.len() == 0 {
        ScanState::Scanning((Seq::new(n, |i: int| None), Seq::new(n, |i: int| None)))
    } else {
        match scan_pool_replies_spec(n, replies.drop_last()) {
            ScanState::Scanning(state) => pool_reply_step(state, replies.last()),
            other => other,
        }
    }
}

/// Once the reading of the second batch has stopped, later replies change nothing.
pub proof fn lemma_pool_scan_stops(n: nat, replies: Seq<RpcResponse>, k: int)
    requires
        0 <= k <= replies.len(),
        !(scan_pool_replies_spec(n, replies.subrange(0, k)) is Scanning),
    ensures
        scan_pool_replies_spec(n, replies) == scan_pool_replies_spec(n, replies.subrange(0, k)),
    decreases replies.len(),
{
    if k == replies.len() {
        assert(replies.subrange(0, k) =~= replies);
    } else {
        assert(replies.drop_last().subrange(0, k) =~= replies.subrange(0, k));
        lemma_pool_scan_stops(n, replies.drop_last(), k);
    }
}

/// Reads the replies of the second batch in order, reporting where a reply names
/// a token beyond the list.
fn read_pool_replies(n: usize, replies: &Vec<RpcResponse>) -> (res: ReplyScan<PoolReplies>)
    ensures
        scan_matches(
            res,
            scan_pool_replies_spec(n as nat, replies@),
            |p: PoolReplies| pool_view(p),
        ),
{
    let mut pools = PoolReplies { reserves: Vec::with_capacity(n), token0s: Vec::with_capacity(n) };
    let mut k: usize = 0;
    while k < n
        invariant
            0 <= k <= n,
            pools.reserves@.len() == k,
            pools.token0s@.len() == k,
            forall|j: int| 0 <= j < k ==> pools.reserves@[j] is None,
            forall|j: int| 0 <= j < k ==> pools.token0s@[j] is None,
        decreases n - k,
    {
        pools.reserves.push(None);
        pools.token0s.push(None);
        k = k + 1;
    }
    assert(pool_view(pools).0 =~= Seq::new(n as nat, |i: int| None::<(nat, nat)>));
    assert(pool_view(pools).1 =~= Seq::new(n as nat, |i: int| None::<Seq<u8>>));
    assert(replies@.subrange(0, 0) =~= Seq::<RpcResponse>::empty());
    let mut i: usize = 0;
    while i < replies.len()
        invariant
            0 <= i <= replies@.len(),
            pools.reserves@.len() == n,
            pools.token0s@.len() == n,
            scan_pool_replies_spec(n as nat, replies@.subrange(0, i as int))
                == ScanState::Scanning(pool_view(pools)),
        decreases replies@.len() - i,
    {
        let ghost done = replies@.subrange(0, i as int);
        let ghost next = replies@.subrange(0, i + 1);
        assert(next.drop_last() =~= done);
        assert(next.last() == replies@[i as int]);
        let r = &replies[i];
        if let (Some(id), Some(result)) = (&r.id, &r.result) {
            let data = match result_bytes(result) {
                Ok(d) => d,
                Err(e) => {
                    proof {
                        lemma_pool_scan_stops(n as nat, replies@, i + 1);
                    }
                    return ReplyScan::Failed(e);
                },
            };
            if let Some(index) = request_index(id.as_str(), "getReserves_") {
                let decoded = match decode_get_reserves_returns(data.as_slice()) {
                    Ok(v) => v,
                    Err(e) => {
                        proof {
                            lemma_pool_scan_stops(n as nat, replies@, i + 1);
                        }
                        return ReplyScan::Failed(e);
                    },
                };
                if index >= n {
                    proof {
                        lemma_pool_scan_stops(n as nat, replies@, i + 1);
                    }
                    return ReplyScan::IndexOutOfRange(index);
                }
                let ghost before = pool_view(pools);
                pools.reserves.set(index, Some(decoded));
                assert(pool_view(pools).0 =~= before.0.update(
                    index as int,
                    Some((decoded.0 as nat, decoded.1 as nat)),
                ));
                assert(pool_view(pools).1 =~= before.1);
            } else if let Some(index) = request_index(id.as_str(), "token0_") {
                let decoded = match decode_token0_returns(data.as_slice()) {
                    Ok(a) => a,
                    Err(e) => {
                        proof {
                            lemma_pool_scan_stops(n as nat, replies@, i + 1);
                        }
                        return ReplyScan::Failed(e);
                    },
                };
                if index >= n {
                    proof {
                        lemma_pool_scan_stops(n as nat, replies@, i + 1);
                    }
                    return ReplyScan::IndexOutOfRange(index);
                }
                let ghost before = pool_view(pools);
                pools.token0s.set(index, Some(decoded));
                assert(pool_view(pools).1 =~= before.1.update(index as int, Some(decoded@)));
                assert(pool_view(pools).0 =~= before.0);
            }
        }
        i = i + 1;
    }
    assert(replies@.subrange(0, i as int) =~= replies@);
    ReplyScan::Complete(pools)
}

/// The token index, beyond the `n` tokens, that reading the replies of the first
/// batch would reach (in order, before any failure); `None` when there is none.
pub fn pair_replies_out_of_range(n: usize, replies: &Vec<RpcResponse>) -> (res: Option<usize>)
    ensures
        match scan_pair_replies_spec(n as nat, replies@) {
            ScanState::OutOfRange(i) => res == Some(i as usize),
            _ => res is None,
        },
{
    match read_pair_replies(n, replies) {
        ReplyScan::IndexOutOfRange(i) => Some(i),
        _ => None,
    }
}

/// Reads the replies of the first batch into one pair address per token (the
/// zero address where no reply named the token). The replies must not name a
/// token beyond the list before a failure (`pair_replies_out_of_range`).
pub fn scan_pair_replies(n: usize, replies: &Vec<RpcResponse>) -> (res: Result<
    Vec<[u8; 20]>,
    UniswapDexError,
>)
    requires
        !(scan_pair_replies_spec(n as nat, replies@) is OutOfRange),
    ensures
        match scan_pair_replies_spec(n as nat, replies@) {
            ScanState::Scanning(v) => res matches Ok(pairs) && addresses_view(pairs@) == v,
            ScanState::Failed(m) => res matches Err(e) && is_api_error(e, m),
            ScanState::OutOfRange(_) => false,
        },
{
    match read_pair_replies(n, replies) {
        ReplyScan::Complete(pairs) => Ok(pairs),
        ReplyScan::Failed(e) => Err(e),
        ReplyScan::IndexOutOfRange(_) => {
            proof {
                assert(false);
            }
            Ok(Vec::new())
        },
    }
}

/// The token index, beyond the `n` tokens, that reading the replies of the second
/// batch would reach (in order, before any failure); `None` when there is none.
pub fn pool_replies_out_of_range(n: usize, replies: &Vec<RpcResponse>) -> (res: Option<usize>)
    ensures
        match scan_pool_replies_spec(n as nat, replies@) {
            ScanState::OutOfRange(i) => res == Some(i as usize),
            _ => res is None,
        },
{
    match read_pool_replies(n, replies) {
        ReplyScan::IndexOutOfRange(i) => Some(i),
        _ => None,
    }
}

/// Reads the replies of the second batch into the reserves and the `token0` of
/// each of `n` tokens. The replies must not name a token beyond the list before
/// a failure (`pool_replies_out_of_range`).
pub fn scan_pool_replies(n: usize, replies: &Vec<RpcResponse>) -> (res: Result<
    PoolReplies,
    UniswapDexError,
>)
    requires
        !(scan_pool_replies_spec(n as nat, replies@) is OutOfRange),
    ensures
        match scan_pool_replies_spec(n as nat, replies@) {
            ScanState::Scanning(v) => res matches Ok(pools) && pool_view(pools) == v,
            ScanState::Failed(m) => res matches Err(e) && is_api_error(e, m),
            ScanState::OutOfRange(_) => false,
        },
{
    match read_pool_replies(n, replies) {
        ReplyScan::Complete(pools) => Ok(pools),
        ReplyScan::Failed(e) => Err(e),
        ReplyScan::IndexOutOfRange(_) => {
            proof {
                assert(false);
            }
            Err(UniswapDexError::ApiError(String::new()))
        },
    }
}

/// The reserves of a token and of Wrapped Ether in its pool, as `token0` orders
/// them: the token's own reserve first. Absent when a reply is missing or when
/// the token's reserve is zero.
pub open spec fn price_input_spec(
    address: Seq<char>,
    reserves: Option<(nat, nat)>,
    token0: Option<Seq<u8>>,
) -> Option<(nat, nat)> {
    match (reserves, token0) {
        (Some((reserve0, reserve1)), Some(first)) => {
            let (reserve_token, reserve_weth) = if address_or_zero(address) == first {
                (reserve0, reserve1)
            } else {
                (reserve1, reserve0)
            };
            if reserve_token != 0 {
                Some((reserve_token, reserve_weth))
            } else {
                None
            }
        },
        _ => None,
    }
}

/// A pair of reserves as numbers.
pub open spec fn reserves_view(r: Option<(u128, u128)>) -> Option<(nat, nat)> {
    match r {
        Some((a, b)) => Some((a as nat, b as nat)),
        None => None,
    }
}

/// For each token, its own reserve and the Wrapped Ether reserve of its pool,
/// from which its price in Ether follows.
pub fn price_inputs(addresses: &Vec<String>, pools: &PoolReplies) -> (res: Vec<Option<(u128, u128)>>)
    requires
        pools.reserves@.len() == addresses@.len(),
        pools.token0s@.len() == addresses@.len(),
    ensures
        res@.len() == addresses@.len(),
        forall|i: int|
            0 <= i < addresses@.len() ==> reserves_view(#[trigger] res@[i]) == price_input_spec(
                addresses@[i]@,
                pool_view(*pools).0[i],
                pool_view(*pools).1[i],
            ),
{
    let mut inputs: Vec<Option<(u128, u128)>> = Vec::with_capacity(addresses.len());
    let mut i: usize = 0;
    while i < addresses.len()
        invariant
            0 <= i <= addresses@.len(),
            pools.reserves@.len() == addresses@.len(),
            pools.token0s@.len() == addresses@.len(),
            inputs@.len() == i,
            forall|j: int|
                0 <= j < i ==> reserves_view(#[trigger] inputs@[j]) == price_input_spec(
                    addresses@[j]@,
                    pool_view(*pools).0[j],
                    pool_view(*pools).1[j],
                ),
        decreases addresses@.len() - i,
    {
        let mut input: Option<(u128, u128)> = None;
        if let (Some((reserve0, reserve1)), Some(first)) = (pools.reserves[i], pools.token0s[i]) {
            let token = parse_address_or_zero(addresses[i].as_str());
            let (reserve_token, reserve_weth) = if same_address(&token, &first) {
                (reserve0, reserve1)
            } else {
                (reserve1, reserve0)
            };
            if reserve_token != 0 {
                input = Some((reserve_token, reserve_weth));
            }
        }
        assert(reserves_view(input) == price_input_spec(
            addresses@[i as int]@,
            pool_view(*pools).0[i as int],
            pool_view(*pools).1[i as int],
        ));
        inputs.push(input);
        i = i + 1;
    }
    inputs
}

/// What came of sending a batch to one node.
#[derive(Debug)]
pub enum NodeOutcome {
    /// The request could not be sent, or no reply came.
    Unreachable,
    /// The node answered with a status that is not a success.
    Rejected,
    /// The node answered with success, but its body is not a list of replies.
    Unreadable,
    /// The node answered with these replies.
    Answered(Vec<RpcResponse>),
}

/// What to do next with a batch.
#[derive(Debug)]
pub enum BatchStep {
    /// Send the batch to the node at this index.
    Send(usize),
    /// Use these replies.
    Accept(Vec<RpcResponse>),
    /// Give up with the error that reading the body gave.
    FailUnreadable,
    /// Give up with this error.
    Fail(UniswapDexError),
}

/// True when every reply has a `result` member.
pub open spec fn all_answered(replies: Seq<RpcResponse>) -> bool {
    forall|i: int| 0 <= i < replies.len() ==> (#[trigger] replies[i]).has_result
}

/// The message when no node gave a full answer.
pub open spec fn nodes_failed_message() -> Seq<char> {
    "All nodes failed or returned errors"@
}

/// Checks that every reply has a `result` member.
pub fn replies_complete(replies: &Vec<RpcResponse>) -> (res: bool)
    ensures
        res == all_answered(replies@),
{
    let mut i: usize = 0;
    while i < replies.len()
        invariant
            0 <= i <= replies@.len(),
            forall|j: int| 0 <= j < i ==> (#[trigger] replies@[j]).has_result,
        decreases replies@.len() - i,
    {
        if !replies[i].has_result {
            return false;
        }
        i = i + 1;
    }
    true
}

/// The error when every node has been tried.
fn nodes_failed() -> (res: UniswapDexError)
    ensures
        is_api_error(res, nodes_failed_message()),
{
    UniswapDexError::ApiError(String::from_str("All nodes failed or returned errors"))
}

/// The first step of sending a batch to a list of `node_count` nodes: the first
/// node, or failure when there is none.
pub fn batch_start(node_count: usize) -> (res: BatchStep)
    ensures
        node_count > 0 ==> res matches BatchStep::Send(0),
        node_count == 0 ==> (res matches BatchStep::Fail(e) && is_api_error(
            e,
            nodes_failed_message(),
        )),
{
    if node_count > 0 {
        BatchStep::Send(0)
    } else {
        BatchStep::Fail(nodes_failed())
    }
}

/// The step after node `current` gave `outcome`: a full answer is used, an
/// unreadable body ends the batch, and anything else moves on to the next node,
/// until there is none.
pub fn batch_next(node_count: usize, current: usize, outcome: NodeOutcome) -> (res: BatchStep)
    requires
        current < node_count,
    ensures
        match outcome {
            NodeOutcome::Answered(replies) => if all_answered(replies@) {
                res matches BatchStep::Accept(v) && v@ == replies@
            } else if current + 1 < node_count {
                res matches BatchStep::Send(k) && k == current + 1
            } else {
                res matches BatchStep::Fail(e) && is_api_error(e, nodes_failed_message())
            },
            NodeOutcome::Unreadable => res matches BatchStep::FailUnreadable,
            _ => if current + 1 < node_count {
                res matches BatchStep::Send(k) && k == current + 1
            } else {
                res matches BatchStep::Fail(e) && is_api_error(e, nodes_failed_message())
            },
        },
{
    match outcome {
        NodeOutcome::Answered(replies) => {
            if replies_complete(&replies) {
                return BatchStep::Accept(replies);
            }
        },
        NodeOutcome::Unreadable => {
            return BatchStep::FailUnreadable;
        },
        _ => {},
    }
    if current + 1 < node_count {
        BatchStep::Send(current + 1)
    } else {
        BatchStep::Fail(nodes_failed())
    }
}

/// The id of the request about token `i` is read back as `i`:
/// `request_index(request_id(prefix, i), prefix) == Some(i)`.
pub proof fn lemma_request_id_roundtrip(prefix: Seq<char>, i: nat)
    requires
        vstd::utf8::is_ascii_chars(prefix),
        i <= usize::MAX,
    ensures
        request_index_spec(encode_utf8(request_id(prefix, i)), encode_utf8(prefix)) == Some(i),
{
    let digits = decimal_chars(i);
    let id = request_id(prefix, i);
    lemma_decimal_digits(i);
    lemma_decimal_roundtrip(i, usize::MAX as nat);
    assert(vstd::utf8::is_ascii_chars(id)) by {
        assert forall|k: int| 0 <= k < id.len() implies '\0' <= #[trigger] id[k] <= '\u{7f}' by {
            if k < prefix.len() {
                assert(id[k] == prefix[k]);
            } else {
                assert(id[k] == digits[k - prefix.len()]);
            }
        };
    };
    vstd::utf8::is_ascii_chars_encode_utf8(id);
    vstd::utf8::is_ascii_chars_encode_utf8(prefix);
    vstd::utf8::is_ascii_chars_encode_utf8(digits);
    let bytes = encode_utf8(id);
    let plen = prefix.len() as int;
    assert(bytes.subrange(0, plen) =~= encode_utf8(prefix));
    assert(bytes.subrange(plen, bytes.len() as int) =~= encode_utf8(digits));
}

/// The result text of a reply spells the bytes whose `0x` text it is.
pub proof fn lemma_result_of_prefixed_hex(word: Seq<u8>)
    ensures
        result_bytes_spec(prefixed_hex(word)) == Ok::<Seq<u8>, Seq<char>>(word),
{
    crate::address::lemma_strip_prefixed_hex(word);
    crate::hexcodec::lemma_hex_roundtrip(word);
}

/// A reply that carries the id of the `getPair` request for token `i` and, as
/// its result, the `0x` text of an ABI word sets the pair of token `i` to the
/// address in that word.
pub proof fn lemma_pair_reply_answers_request(
    addresses: Seq<String>,
    pairs: Seq<Seq<u8>>,
    i: int,
    r: RpcResponse,
    word: Seq<u8>,
)
    requires
        0 <= i < addresses.len(),
        i < pairs.len(),
        i <= usize::MAX,
        r.id matches Some(id) && id@ == pair_requests_spec(addresses)[i].0,
        r.result matches Some(text) && text@ == prefixed_hex(word),
        word.len() >= 32,
    ensures
        pair_reply_step(pairs, r) == ScanState::Scanning(pairs.update(i, word.subrange(12, 32))),
{
    reveal_strlit("getPair_");
    assert(vstd::utf8::is_ascii_chars("getPair_"@));
    lemma_request_id_roundtrip("getPair_"@, i as nat);
    lemma_result_of_prefixed_hex(word);
}

/// A reply that carries the id of the `getReserves` request for token `i` and,
/// as its result, the `0x` text of the three ABI words of `getReserves` sets the
/// reserves of token `i` to the low halves of the first two words.
pub proof fn lemma_reserves_reply_answers_request(
    state: (Seq<Option<(nat, nat)>>, Seq<Option<Seq<u8>>>),
    i: int,
    r: RpcResponse,
    words: Seq<u8>,
)
    requires
        0 <= i < state.0.len(),
        i <= usize::MAX,
        r.id matches Some(id) && id@ == request_id("getReserves_"@, i as nat),
        r.result matches Some(text) && text@ == prefixed_hex(words),
        words.len() >= 96,
    ensures
        pool_reply_step(state, r) == ScanState::Scanning(
            (
                state.0.update(
                    i,
                    Some((be_value(words.subrange(16, 32)), be_value(words.subrange(48, 64)))),
                ),
                state.1,
            ),
        ),
{
    reveal_strlit("getReserves_");
    assert(vstd::utf8::is_ascii_chars("getReserves_"@));
    lemma_request_id_roundtrip("getReserves_"@, i as nat);
    lemma_result_of_prefixed_hex(words);
}

/// Every price input has a non-zero token reserve, and its two reserves are the
/// two reserves of the pool.
pub proof fn lemma_price_input_well_formed(
    address: Seq<char>,
    reserves: Option<(nat, nat)>,
    token0: Option<Seq<u8>>,
)
    ensures
        price_input_spec(address, reserves, token0) matches Some((reserve_token, reserve_weth))
            ==> reserve_token > 0 && (reserves matches Some((r0, r1)) && ((reserve_token == r0
            && reserve_weth == r1) || (reserve_token == r1 && reserve_weth == r0))),
{
}

/// The reserves are oriented by `token0`: when the token is `token0` of its
/// pool its reserve is the first one, otherwise the second; a zero reserve of
/// the token, or a missing reply, gives no price input.
pub proof fn lemma_price_input_orientation(
    address: Seq<char>,
    reserve0: nat,
    reserve1: nat,
    first: Seq<u8>,
)
    ensures
        address_or_zero(address) == first && reserve0 != 0 ==> price_input_spec(
            address,
            Some((reserve0, reserve1)),
            Some(first),
        ) == Some((reserve0, reserve1)),
        address_or_zero(address) != first && reserve1 != 0 ==> price_input_spec(
            address,
            Some((reserve0, reserve1)),
            Some(first),
        ) == Some((reserve1, reserve0)),
        address_or_zero(address) == first && reserve0 == 0 ==> price_input_spec(
            address,
            Some((reserve0, reserve1)),
            Some(first),
        ) is None,
        address_or_zero(address) != first && reserve1 == 0 ==> price_input_spec(
            address,
            Some((reserve0, reserve1)),
            Some(first),
        ) is None,
        price_input_spec(address, None, Some(first)) is None,
        price_input_spec(address, Some((reserve0, reserve1)), None) is None,
{
}

/// The token that a reply of the first batch names, when it has an id and a
/// result and the id is `getPair_` and a number.
pub open spec fn pair_reply_index(r: RpcResponse) -> Option<nat> {
    match (r.id, r.result) {
        (Some(id), Some(_)) => request_index_spec(encode_utf8(id@), "getPair_".spec_bytes()),
        _ => None,
    }
}

/// The address in the result of a reply.
pub open spec fn reply_address(r: RpcResponse) -> Seq<u8> {
    match r.result {
        Some(text) => match result_bytes_spec(text@) {
            Ok(data) => data.subrange(12, 32),
            Err(_) => Seq::empty(),
        },
        None => Seq::empty(),
    }
}

/// True when a reply of the first batch can be read for a list of `n` tokens:
/// a reply that names a token has a result of at least one word, and the token
/// is in the list.
pub open spec fn pair_reply_ok(n: nat, r: RpcResponse) -> bool {
    match pair_reply_index(r) {
        Some(i) => match r.result {
            Some(text) => match result_bytes_spec(text@) {
                Ok(data) => data.len() >= 32 && i < n,
                Err(_) => false,
            },
            None => true,
        },
        None => true,
    }
}

/// The pair addresses that the replies set, in order, from the zero address.
pub open spec fn pair_assigned(n: nat, replies: Seq<RpcResponse>) -> Seq<Seq<u8>>
    decreases replies.len(),
{
    if replies.len() == 0 {
        Seq::new(n, |i: int| ADDRESS_ZERO@)
    } else {
        let prev = pair_assigned(n, replies.drop_last());
        match pair_reply_index(replies.last()) {
            Some(i) => if i < n {
                prev.update(i as int, reply_address(replies.last()))
            } else {
                prev
            },
            None => prev,
        }
    }
}

/// No two replies of the first batch name the same token.
pub open spec fn distinct_pair_replies(replies: Seq<RpcResponse>) -> bool {
    forall|a: int, b: int|
        0 <= a < replies.len() && 0 <= b < replies.len() && a != b && (#[trigger] pair_reply_index(
            replies[a],
        )) is Some ==> pair_reply_index(replies[a]) != #[trigger] pair_reply_index(replies[b])
}

/// `replies2` holds the replies of `replies` in the order `perm` gives.
pub open spec fn is_reordering(
    replies: Seq<RpcResponse>,
    replies2: Seq<RpcResponse>,
    perm: Seq<int>,
) -> bool {
    &&& replies2.len() == replies.len()
    &&& perm.len() == replies.len()
    &&& forall|k: int|
        0 <= k < replies2.len() ==> 0 <= #[trigger] perm[k] < replies.len() && replies2[k]
            == replies[perm[k]]
    &&& forall|j: int| 0 <= j < replies.len() ==> #[trigger] moved_to(perm, j)
}

/// Some place of the reordering holds the reply from place `j`.
pub open spec fn moved_to(perm: Seq<int>, j: int) -> bool {
    exists|k: int| 0 <= k < perm.len() && perm[k] == j
}

/// Reading the first batch goes through exactly when every reply can be read,
/// and then gives the addresses that the replies set.
proof fn lemma_pair_scan_shape(n: nat, replies: Seq<RpcResponse>)
    ensures
        pair_assigned(n, replies).len() == n,
        (forall|k: int| 0 <= k < replies.len() ==> pair_reply_ok(n, #[trigger] replies[k]))
            ==> scan_pair_replies_spec(n, replies) == ScanState::Scanning(pair_assigned(n, replies)),
        !(forall|k: int| 0 <= k < replies.len() ==> pair_reply_ok(n, #[trigger] replies[k]))
            ==> !(scan_pair_replies_spec(n, replies) is Scanning),
    decreases replies.len(),
{
    if replies.len() > 0 {
        let prev = replies.drop_last();
        lemma_pair_scan_shape(n, prev);
        if !(forall|k: int| 0 <= k < prev.len() ==> pair_reply_ok(n, #[trigger] prev[k])) {
            let k = choose|k: int| 0 <= k < prev.len() && !pair_reply_ok(n, #[trigger] prev[k]);
            assert(replies[k] == prev[k]);
        } else {
            assert forall|k: int| 0 <= k < replies.len() - 1 implies pair_reply_ok(
                n,
                #[trigger] replies[k],
            ) by {
                assert(replies[k] == prev[k]);
            };
        }
    }
}

/// With distinct tokens named, the address set for a token is the one in the
/// reply that names it, or the zero address when none does.
proof fn lemma_pair_assigned_at(n: nat, replies: Seq<RpcResponse>, i: nat)
    requires
        distinct_pair_replies(replies),
        i < n,
    ensures
        forall|k: int|
            0 <= k < replies.len() && pair_reply_index(#[trigger] replies[k]) == Some(i)
                ==> pair_assigned(n, replies)[i as int] == reply_address(replies[k]),
        (forall|k: int| 0 <= k < replies.len() ==> pair_reply_index(#[trigger] replies[k]) != Some(i))
            ==> pair_assigned(n, replies)[i as int] == ADDRESS_ZERO@,
    decreases replies.len(),
{
    lemma_pair_scan_shape(n, replies);
    if replies.len() > 0 {
        let prev = replies.drop_last();
        let last = (replies.len() - 1) as int;
        assert forall|a: int, b: int|
            0 <= a < prev.len() && 0 <= b < prev.len() && a != b && (#[trigger] pair_reply_index(
                prev[a],
            )) is Some implies pair_reply_index(prev[a]) != #[trigger] pair_reply_index(
            prev[b],
        ) by {
            assert(prev[a] == replies[a] && prev[b] == replies[b]);
        };
        lemma_pair_assigned_at(n, prev, i);
        lemma_pair_scan_shape(n, prev);
        assert forall|k: int|
            0 <= k < replies.len() && pair_reply_index(#[trigger] replies[k]) == Some(i)
                implies pair_assigned(n, replies)[i as int] == reply_address(replies[k]) by {
            if k < last {
                assert(replies[k] == prev[k]);
                assert(pair_reply_index(replies[k]) != pair_reply_index(replies[last]));
            }
        };
        if forall|k: int| 0 <= k < replies.len() ==> pair_reply_index(#[trigger] replies[k]) != Some(i) {
            assert forall|k: int| 0 <= k < prev.len() implies pair_reply_index(#[trigger] prev[k])
                != Some(i) by {
                assert(prev[k] == replies[k]);
            };
            assert(pair_reply_index(replies[last]) != Some(i));
        }
    }
}

/// Replies are matched to tokens by their ids, not by their places: reading the
/// replies of the first batch in another order, when no two of them name the same
/// token, goes through exactly when reading them in the first order does, and then
/// gives the same pair addresses. So when neither order reaches a token beyond the
/// list, both fail or both give the same pairs.
pub proof fn lemma_pair_scan_order_free(
    n: nat,
    replies: Seq<RpcResponse>,
    replies2: Seq<RpcResponse>,
    perm: Seq<int>,
)
    requires
        is_reordering(replies, replies2, perm),
        distinct_pair_replies(replies),
        distinct_pair_replies(replies2),
    ensures
        scan_pair_replies_spec(n, replies) is Scanning <==> scan_pair_replies_spec(
            n,
            replies2,
        ) is Scanning,
        scan_pair_replies_spec(n, replies) is Scanning ==> scan_pair_replies_spec(n, replies)
            == scan_pair_replies_spec(n, replies2),
        !(scan_pair_replies_spec(n, replies) is OutOfRange) && !(scan_pair_replies_spec(
            n,
            replies2,
        ) is OutOfRange) ==> (scan_pair_replies_spec(n, replies) is Failed
            <==> scan_pair_replies_spec(n, replies2) is Failed),
{
    lemma_pair_scan_shape(n, replies);
    lemma_pair_scan_shape(n, replies2);
    let all1 = forall|k: int| 0 <= k < replies.len() ==> pair_reply_ok(n, #[trigger] replies[k]);
    let all2 = forall|k: int| 0 <= k < replies2.len() ==> pair_reply_ok(n, #[trigger] replies2[k]);
    if all1 {
        assert forall|k: int| 0 <= k < replies2.len() implies pair_reply_ok(
            n,
            #[trigger] replies2[k],
        ) by {
            assert(replies2[k] == replies[perm[k]]);
        };
    }
    if all2 {
        assert forall|j: int| 0 <= j < replies.len() implies pair_reply_ok(
            n,
            #[trigger] replies[j],
        ) by {
            assert(moved_to(perm, j));
            let k = choose|k: int| 0 <= k < perm.len() && perm[k] == j;
            assert(replies2[k] == replies[j]);
        };
    }
    if all1 && all2 {
        let v1 = pair_assigned(n, replies);
        let v2 = pair_assigned(n, replies2);
        assert forall|i: int| 0 <= i < n implies v1[i] == v2[i] by {
            lemma_pair_assigned_at(n, replies, i as nat);
            lemma_pair_assigned_at(n, replies2, i as nat);
            if exists|k: int| 0 <= k < replies2.len() && pair_reply_index(#[trigger] replies2[k]) == Some(i as nat) {
                let k = choose|k: int| 0 <= k < replies2.len() && pair_reply_index(#[trigger] replies2[k]) == Some(i as nat);
                assert(replies2[k] == replies[perm[k]]);
            } else {
                assert forall|j: int| 0 <= j < replies.len() implies pair_reply_index(
                    #[trigger] replies[j],
                ) != Some(i as nat) by {
                    assert(moved_to(perm, j));
            let k = choose|k: int| 0 <= k < perm.len() && perm[k] == j;
                    assert(replies2[k] == replies[j]);
                };
            }
        };
        assert(v1 =~= v2);
    }
}

/// The token whose reserves a reply of the second batch gives, when it has an id
/// and a result and the id is `getReserves_` and a number.
pub open spec fn reserves_reply_index(r: RpcResponse) -> Option<nat> {
    match (r.id, r.result) {
        (Some(id), Some(_)) => request_index_spec(encode_utf8(id@), "getReserves_".spec_bytes()),
        _ => None,
    }
}

/// The token whose `token0` a reply of the second batch gives, when it has an id
/// and a result, its id is not a `getReserves` one, and it is `token0_` and a number.
pub open spec fn token0_reply_index(r: RpcResponse) -> Option<nat> {
    match (r.id, r.result) {
        (Some(id), Some(_)) => if reserves_reply_index(r) is Some {
            None
        } else {
            request_index_spec(encode_utf8(id@), "token0_".spec_bytes())
        },
        _ => None,
    }
}

/// The reserves in the result of a reply.
pub open spec fn reply_reserves(r: RpcResponse) -> (nat, nat) {
    match r.result {
        Some(text) => match result_bytes_spec(text@) {
            Ok(data) => (be_value(data.subrange(16, 32)), be_value(data.subrange(48, 64))),
            Err(_) => (0, 0),
        },
        None => (0, 0),
    }
}

/// True when a reply of the second batch can be read for a list of `n` tokens:
/// its result (when it has an id and a result) is hexadecimal, one that gives
/// reserves holds two words, one that gives `token0` holds one, and the token is
/// in the list.
pub open spec fn pool_reply_ok(n: nat, r: RpcResponse) -> bool {
    match (r.id, r.result) {
        (Some(_), Some(text)) => match result_bytes_spec(text@) {
            Ok(data) => {
                &&& (reserves_reply_index(r) matches Some(i) ==> data.len() >= 96 && i < n)
                &&& (token0_reply_index(r) matches Some(i) ==> data.len() >= 32 && i < n)
            },
            Err(_) => false,
        },
        _ => true,
    }
}

/// The reserves and the `token0` that the replies set, in order, from nothing.
pub open spec fn pool_assigned(n: nat, replies: Seq<RpcResponse>) -> (
    Seq<Option<(nat, nat)>>,
    Seq<Option<Seq<u8>>>,
)
    decreases replies.len(),
{
    if replies.len() == 0 {
        (Seq::new(n, |i: int| None), Seq::new(n, |i: int| None))
    } else {
        let prev = pool_assigned(n, replies.drop_last());
        let last = replies.last();
        match reserves_reply_index(last) {
            Some(i) => if i < n {
                (prev.0.update(i as int, Some(reply_reserves(last))), prev.1)
            } else {
                prev
            },
            None => match token0_reply_index(last) {
                Some(i) => if i < n {
                    (prev.0, prev.1.update(i as int, Some(reply_address(last))))
                } else {
                    prev
                },
                None => prev,
            },
        }
    }
}

/// No two replies of the second batch give the reserves of the same token, and
/// no two give the `token0` of the same token.
pub open spec fn distinct_pool_replies(replies: Seq<RpcResponse>) -> bool {
    &&& forall|a: int, b: int|
        0 <= a < replies.len() && 0 <= b < replies.len() && a != b && (
        #[trigger] reserves_reply_index(replies[a])) is Some ==> reserves_reply_index(replies[a])
            != #[trigger] reserves_reply_index(replies[b])
    &&& forall|a: int, b: int|
        0 <= a < replies.len() && 0 <= b < replies.len() && a != b && (
        #[trigger] token0_reply_index(replies[a])) is Some ==> token0_reply_index(replies[a])
            != #[trigger] token0_reply_index(replies[b])
}

/// Reading the second batch goes through exactly when every reply can be read,
/// and then gives the reserves and `token0` that the replies set.
proof fn lemma_pool_scan_shape(n: nat, replies: Seq<RpcResponse>)
    ensures
        pool_assigned(n, replies).0.len() == n,
        pool_assigned(n, replies).1.len() == n,
        (forall|k: int| 0 <= k < replies.len() ==> pool_reply_ok(n, #[trigger] replies[k]))
            ==> scan_pool_replies_spec(n, replies) == ScanState::Scanning(pool_assigned(n, replies)),
        !(forall|k: int| 0 <= k < replies.len() ==> pool_reply_ok(n, #[trigger] replies[k]))
            ==> !(scan_pool_replies_spec(n, replies) is Scanning),
    decreases replies.len(),
{
    if replies.len() > 0 {
        let prev = replies.drop_last();
        lemma_pool_scan_shape(n, prev);
        if !(forall|k: int| 0 <= k < prev.len() ==> pool_reply_ok(n, #[trigger] prev[k])) {
            let k = choose|k: int| 0 <= k < prev.len() && !pool_reply_ok(n, #[trigger] prev[k]);
            assert(replies[k] == prev[k]);
        } else {
            assert forall|k: int| 0 <= k < replies.len() - 1 implies pool_reply_ok(
                n,
                #[trigger] replies[k],
            ) by {
                assert(replies[k] == prev[k]);
            };
        }
    }
}

/// With distinct tokens named, the reserves and `token0` set for a token are the
/// ones in the reply that gives them, or nothing when no reply does.
proof fn lemma_pool_assigned_at(n: nat, replies: Seq<RpcResponse>, i: nat)
    requires
        distinct_pool_replies(replies),
        i < n,
    ensures
        forall|k: int|
            0 <= k < replies.len() && reserves_reply_index(#[trigger] replies[k]) == Some(i)
                ==> pool_assigned(n, replies).0[i as int] == Some(reply_reserves(replies[k])),
        (forall|k: int|
            0 <= k < replies.len() ==> reserves_reply_index(#[trigger] replies[k]) != Some(i))
            ==> pool_assigned(n, replies).0[i as int] is None,
        forall|k: int|
            0 <= k < replies.len() && token0_reply_index(#[trigger] replies[k]) == Some(i)
                ==> pool_assigned(n, replies).1[i as int] == Some(reply_address(replies[k])),
        (forall|k: int| 0 <= k < replies.len() ==> token0_reply_index(#[trigger] replies[k]) != Some(i))
            ==> pool_assigned(n, replies).1[i as int] is None,
    decreases replies.len(),
{
    lemma_pool_scan_shape(n, replies);
    if replies.len() > 0 {
        let prev = replies.drop_last();
        let last = (replies.len() - 1) as int;
        assert forall|a: int, b: int|
            0 <= a < prev.len() && 0 <= b < prev.len() && a != b && (
            #[trigger] reserves_reply_index(prev[a])) is Some implies reserves_reply_index(prev[a])
            != #[trigger] reserves_reply_index(prev[b]) by {
            assert(prev[a] == replies[a] && prev[b] == replies[b]);
        };
        assert forall|a: int, b: int|
            0 <= a < prev.len() && 0 <= b < prev.len() && a != b && (
            #[trigger] token0_reply_index(prev[a])) is Some implies token0_reply_index(prev[a])
            != #[trigger] token0_reply_index(prev[b]) by {
            assert(prev[a] == replies[a] && prev[b] == replies[b]);
        };
        lemma_pool_assigned_at(n, prev, i);
        lemma_pool_scan_shape(n, prev);
        assert forall|k: int|
            0 <= k < replies.len() && reserves_reply_index(#[trigger] replies[k]) == Some(i)
                implies pool_assigned(n, replies).0[i as int] == Some(reply_reserves(replies[k])) by {
            if k < last {
                assert(replies[k] == prev[k]);
                assert(reserves_reply_index(replies[k]) != reserves_reply_index(replies[last]));
            }
        };
        assert forall|k: int|
            0 <= k < replies.len() && token0_reply_index(#[trigger] replies[k]) == Some(i)
                implies pool_assigned(n, replies).1[i as int] == Some(reply_address(replies[k])) by {
            if k < last {
                assert(replies[k] == prev[k]);
                assert(token0_reply_index(replies[k]) != token0_reply_index(replies[last]));
            }
        };
        if forall|k: int|
            0 <= k < replies.len() ==> reserves_reply_index(#[trigger] replies[k]) != Some(i) {
            assert forall|k: int| 0 <= k < prev.len() implies reserves_reply_index(
                #[trigger] prev[k],
            ) != Some(i) by {
                assert(prev[k] == replies[k]);
            };
            assert(reserves_reply_index(replies[last]) != Some(i));
        }
        if forall|k: int| 0 <= k < replies.len() ==> token0_reply_index(#[trigger] replies[k]) != Some(i) {
            assert forall|k: int| 0 <= k < prev.len() implies token0_reply_index(#[trigger] prev[k])
                != Some(i) by {
                assert(prev[k] == replies[k]);
            };
            assert(token0_reply_index(replies[last]) != Some(i));
        }
    }
}

/// Replies are matched to tokens by their ids, not by their places: reading the
/// replies of the second batch in another order, when no two of them give the
/// reserves (or the `token0`) of the same token, goes through exactly when reading
/// them in the first order does, and then gives the same reserves and `token0`s.
/// So when neither order reaches a token beyond the list, both fail or both give
/// the same result.
pub proof fn lemma_pool_scan_order_free(
    n: nat,
    replies: Seq<RpcResponse>,
    replies2: Seq<RpcResponse>,
    perm: Seq<int>,
)
    requires
        is_reordering(replies, replies2, perm),
        distinct_pool_replies(replies),
        distinct_pool_replies(replies2),
    ensures
        scan_pool_replies_spec(n, replies) is Scanning <==> scan_pool_replies_spec(
            n,
            replies2,
        ) is Scanning,
        scan_pool_replies_spec(n, replies) is Scanning ==> scan_pool_replies_spec(n, replies)
            == scan_pool_replies_spec(n, replies2),
        !(scan_pool_replies_spec(n, replies) is OutOfRange) && !(scan_pool_replies_spec(
            n,
            replies2,
        ) is OutOfRange) ==> (scan_pool_replies_spec(n, replies) is Failed
            <==> scan_pool_replies_spec(n, replies2) is Failed),
{
    lemma_pool_scan_shape(n, replies);
    lemma_pool_scan_shape(n, replies2);
    let all1 = forall|k: int| 0 <= k < replies.len() ==> pool_reply_ok(n, #[trigger] replies[k]);
    let all2 = forall|k: int| 0 <= k < replies2.len() ==> pool_reply_ok(n, #[trigger] replies2[k]);
    if all1 {
        assert forall|k: int| 0 <= k < replies2.len() implies pool_reply_ok(
            n,
            #[trigger] replies2[k],
        ) by {
            assert(replies2[k] == replies[perm[k]]);
        };
    }
    if all2 {
        assert forall|j: int| 0 <= j < replies.len() implies pool_reply_ok(
            n,
            #[trigger] replies[j],
        ) by {
            assert(moved_to(perm, j));
            let k = choose|k: int| 0 <= k < perm.len() && perm[k] == j;
            assert(replies2[k] == replies[j]);
        };
    }
    if all1 && all2 {
        let v1 = pool_assigned(n, replies);
        let v2 = pool_assigned(n, replies2);
        assert forall|i: int| 0 <= i < n implies v1.0[i] == v2.0[i] && v1.1[i] == v2.1[i] by {
            lemma_pool_assigned_at(n, replies, i as nat);
            lemma_pool_assigned_at(n, replies2, i as nat);
            if exists|k: int|
                0 <= k < replies2.len() && reserves_reply_index(#[trigger] replies2[k]) == Some(
                    i as nat,
                ) {
                let k = choose|k: int|
                    0 <= k < replies2.len() && reserves_reply_index(#[trigger] replies2[k]) == Some(
                        i as nat,
                    );
                assert(replies2[k] == replies[perm[k]]);
            } else {
                assert forall|j: int| 0 <= j < replies.len() implies reserves_reply_index(
                    #[trigger] replies[j],
                ) != Some(i as nat) by {
                    assert(moved_to(perm, j));
                    let k = choose|k: int| 0 <= k < perm.len() && perm[k] == j;
                    assert(replies2[k] == replies[j]);
                };
            }
            if exists|k: int|
                0 <= k < replies2.len() && token0_reply_index(#[trigger] replies2[k]) == Some(
                    i as nat,
                ) {
                let k = choose|k: int|
                    0 <= k < replies2.len() && token0_reply_index(#[trigger] replies2[k]) == Some(
                        i as nat,
                    );
                assert(replies2[k] == replies[perm[k]]);
            } else {
                assert forall|j: int| 0 <= j < replies.len() implies token0_reply_index(
                    #[trigger] replies[j],
                ) != Some(i as nat) by {
                    assert(moved_to(perm, j));
                    let k = choose|k: int| 0 <= k < perm.len() && perm[k] == j;
                    assert(replies2[k] == replies[j]);
                };
            }
        };
        assert(v1.0 =~= v2.0);
        assert(v1.1 =~= v2.1);
    }
}

} // verus!
