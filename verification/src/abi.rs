//! Ethereum ABI words for the Uniswap V2 factory and pair contracts, and
//! addresses written as `0x`-prefixed hexadecimal text.

use vstd::prelude::*;
use vstd::string::StringExecFns;
use crate::decimal::{decimal_chars, decimal_string};
use crate::error::{is_api_error, UniswapDexError};
use crate::hexcodec::{decode_hex, encode_hex, hex_decode_spec, hex_encode_spec};

verus! {

/// Wrapped Ether on mainnet.
pub const WETH_ADDRESS: [u8; 20] = [
    0xC0, 0x2A, 0xAA, 0x39, 0xB2, 0x23, 0xFE, 0x8D, 0x0A, 0x0E, 0x5C, 0x4F, 0x27, 0xEA, 0xD9,
    0x08, 0x3C, 0x75, 0x6C, 0xC2,
];

/// The Uniswap V2 factory on mainnet.
pub const FACTORY_ADDRESS: [u8; 20] = [
    0x5C, 0x69, 0xBE, 0xE7, 0x01, 0xEF, 0x81, 0x4A, 0x2B, 0x6A, 0x3E, 0xDD, 0x4B, 0x16, 0x52,
    0xCB, 0x9C, 0xC5, 0xAA, 0x6F,
];

/// Selector of `getPair(address,address)`.
pub const SELECTOR_GET_PAIR: [u8; 4] = [0xE6, 0xA4, 0x39, 0x05];

/// Selector of `getReserves()`.
pub const SELECTOR_GET_RESERVES: [u8; 4] = [0x09, 0x02, 0xF1, 0xAC];

/// Selector of `token0()`.
pub const SELECTOR_TOKEN0: [u8; 4] = [0x0D, 0xFE, 0x16, 0x81];

/// The zero address, which the factory returns for a pair it does not know.
pub const ADDRESS_ZERO: [u8; 20] = [
    0x00, 0x00, 0x00, 0x00, 0x00, 0x00, 0x00, 0x00, 0x00, 0x00, 0x00, 0x00, 0x00, 0x00, 0x00,
    0x00, 0x00, 0x00, 0x00, 0x00,
];

/// A 20-byte address left-padded with twelve zero bytes to a 32-byte word.
pub open spec fn address_word(addr: Seq<u8>) -> Seq<u8> {
    Seq::new(12, |i: int| 0u8) + addr
}

/// The call data of `getPair(token_a, token_b)`.
pub open spec fn get_pair_call(token_a: Seq<u8>, token_b: Seq<u8>) -> Seq<u8> {
    SELECTOR_GET_PAIR@ + address_word(token_a) + address_word(token_b)
}

/// The message of a reply that is shorter than the ABI layout needs.
pub open spec fn short_data_message(what: Seq<char>, len: nat) -> Seq<char> {
    "Invalid "@ + what + " data length: "@ + decimal_chars(len)
}

/// The unsigned number held by big-endian bytes.
pub open spec fn be_value(s: Seq<u8>) -> nat
    decreases s.len(),
{
    if s.len() == 0 {
        0
    } else {
        be_value(s.drop_last()) * 256 + s.last() as nat
    }
}

/// `256` to the power `k`.
pub open spec fn byte_power(k: nat) -> nat
    decreases k,
{
    if k == 0 {
        1
    } else {
        256 * byte_power((k - 1) as nat)
    }
}

/// Left-pad a 20-byte address to 32 bytes (ABI encoding).
pub fn pad_address(addr: &[u8; 20]) -> (res: [u8; 32])
    ensures
        res@ == address_word(addr@),
{
    let mut padded = [0u8; 32];
    let mut i: usize = 0;
    while i < 20
        invariant
            0 <= i <= 20,
            padded@.len() == 32,
            forall|j: int| 0 <= j < 12 ==> padded@[j] == 0,
            forall|j: int| 0 <= j < i ==> padded@[12 + j] == addr@[j],
            forall|j: int| 12 + i <= j < 32 ==> padded@[j] == 0,
        decreases 20 - i,
    {
        padded[12 + i] = addr[i];
        i = i + 1;
    }
    assert(padded@ =~= address_word(addr@));
    padded
}

/// The error for a reply of `len` bytes that is too short for `what`.
fn short_data_error(what: &str, len: usize) -> (res: UniswapDexError)
    ensures
        is_api_error(res, short_data_message(what@, len as nat)),
{
    let mut msg = String::from_str("Invalid ");
    msg.append(what);
    msg.append(" data length: ");
    msg.append(decimal_string(len).as_str());
    UniswapDexError::ApiError(msg)
}

/// Extract a 20-byte address from a 32-byte ABI-encoded word: the last twenty
/// bytes of the first word.
pub fn decode_address(data: &[u8]) -> (res: Result<[u8; 20], UniswapDexError>)
    ensures
        data@.len() < 32 ==> (res matches Err(e) && is_api_error(
            e,
            short_data_message("address"@, data@.len()),
        )),
        data@.len() >= 32 ==> (res matches Ok(a) && a@ == data@.subrange(12, 32)),
{
    if data.len() < 32 {
        return Err(short_data_error("address", data.len()));
    }
    let mut addr = [0u8; 20];
    let mut i: usize = 0;
    while i < 20
        invariant
            0 <= i <= 20,
            data@.len() >= 32,
            addr@.len() == 20,
            forall|j: int| 0 <= j < i ==> addr@[j] == data@[12 + j],
        decreases 20 - i,
    {
        addr[i] = data[12 + i];
        i = i + 1;
    }
    assert(addr@ =~= data@.subrange(12, 32));
    Ok(addr)
}

/// Appends `bytes` to `out`.
fn push_all(out: &mut Vec<u8>, bytes: &[u8])
    ensures
        final(out)@ == old(out)@ + bytes@,
{
    let mut i: usize = 0;
    while i < bytes.len()
        invariant
            0 <= i <= bytes@.len(),
            out@ == old(out)@ + bytes@.subrange(0, i as int),
        decreases bytes@.len() - i,
    {
        out.push(bytes[i]);
        i = i + 1;
        assert(out@ =~= old(out)@ + bytes@.subrange(0, i as int));
    }
    assert(bytes@.subrange(0, bytes@.len() as int) =~= bytes@);
}

/// Call data of `getPair(token_a, token_b)`: the selector and two address words.
pub fn encode_get_pair(token_a: &[u8; 20], token_b: &[u8; 20]) -> (res: Vec<u8>)
    ensures
        res@ == get_pair_call(token_a@, token_b@),
{
    let mut data: Vec<u8> = Vec::with_capacity(68);
    push_all(&mut data, &SELECTOR_GET_PAIR);
    push_all(&mut data, &pad_address(token_a));
    push_all(&mut data, &pad_address(token_b));
    data
}

/// Call data of `getReserves()`.
pub fn encode_get_reserves() -> (res: Vec<u8>)
    ensures
        res@ == SELECTOR_GET_RESERVES@,
{
    let mut data: Vec<u8> = Vec::new();
    push_all(&mut data, &SELECTOR_GET_RESERVES);
    assert(data@ =~= SELECTOR_GET_RESERVES@);
    data
}

/// Call data of `token0()`.
pub fn encode_token0() -> (res: Vec<u8>)
    ensures
        res@ == SELECTOR_TOKEN0@,
{
    let mut data: Vec<u8> = Vec::new();
    push_all(&mut data, &SELECTOR_TOKEN0);
    assert(data@ =~= SELECTOR_TOKEN0@);
    data
}

/// The pair address that `getPair` returned.
pub fn decode_get_pair_returns(data: &[u8]) -> (res: Result<[u8; 20], UniswapDexError>)
    ensures
        data@.len() < 32 ==> (res matches Err(e) && is_api_error(
            e,
            short_data_message("address"@, data@.len()),
        )),
        data@.len() >= 32 ==> (res matches Ok(a) && a@ == data@.subrange(12, 32)),
{
    decode_address(data)
}

/// The token address that `token0` returned.
pub fn decode_token0_returns(data: &[u8]) -> (res: Result<[u8; 20], UniswapDexError>)
    ensures
        data@.len() < 32 ==> (res matches Err(e) && is_api_error(
            e,
            short_data_message("address"@, data@.len()),
        )),
        data@.len() >= 32 ==> (res matches Ok(a) && a@ == data@.subrange(12, 32)),
{
    decode_address(data)
}

/// A run of big-endian bytes is smaller than `256` to the power of its length.
proof fn lemma_be_value_bound(s: Seq<u8>)
    ensures
        be_value(s) < byte_power(s.len()),
    decreases s.len(),
{
    if s.len() > 0 {
        lemma_be_value_bound(s.drop_last());
    }
}

/// Reads sixteen big-endian bytes starting at `start` as a `u128`.
fn read_u128_be(data: &[u8], start: usize) -> (res: u128)
    requires
        start + 16 <= data@.len(),
    ensures
        res as nat == be_value(data@.subrange(start as int, start + 16)),
{
    assert(byte_power(16) == 0x1_0000_0000_0000_0000_0000_0000_0000_0000) by {
        reveal_with_fuel(byte_power, 17);
    }
    let n = data.len();
    let mut value: u128 = 0;
    let mut i: usize = 0;
    while i < 16
        invariant
            0 <= i <= 16,
            n == data@.len(),
            start + 16 <= data@.len(),
            byte_power(16) == 0x1_0000_0000_0000_0000_0000_0000_0000_0000,
            value as nat == be_value(data@.subrange(start as int, start + i)),
        decreases 16 - i,
    {
        let ghost prev = data@.subrange(start as int, start + i);
        let ghost next = data@.subrange(start as int, start + i + 1);
        assert(next.drop_last() =~= prev);
        proof {
            lemma_be_value_bound(prev);
            lemma_byte_power_monotonic(i as nat, 15);
        }
        value = value * 256 + data[start + i] as u128;
        i = i + 1;
    }
    value
}

/// `256` to a power grows with the power.
proof fn lemma_byte_power_monotonic(a: nat, b: nat)
    requires
        a <= b,
    ensures
        byte_power(a) <= byte_power(b),
    decreases b,
{
    if a < b {
        lemma_byte_power_monotonic(a, (b - 1) as nat);
    }
}

/// The two reserves that `getReserves` returned: the low sixteen bytes of the
/// first and of the second word (each reserve is a `uint112`).
pub fn decode_get_reserves_returns(data: &[u8]) -> (res: Result<(u128, u128), UniswapDexError>)
    ensures
        data@.len() < 96 ==> (res matches Err(e) && is_api_error(
            e,
            short_data_message("reserves"@, data@.len()),
        )),
        data@.len() >= 96 ==> (res matches Ok((r0, r1)) && r0 as nat == be_value(
            data@.subrange(16, 32),
        ) && r1 as nat == be_value(data@.subrange(48, 64))),
{
    if data.len() < 96 {
        return Err(short_data_error("reserves", data.len()));
    }
    let reserve0 = read_u128_be(data, 16);
    let reserve1 = read_u128_be(data, 48);
    Ok((reserve0, reserve1))
}

/// Decoding a padded address gives it back: `decode_address(pad_address(a)) == a`.
pub proof fn lemma_address_word_roundtrip(addr: Seq<u8>)
    requires
        addr.len() == 20,
    ensures
        address_word(addr).len() == 32,
        address_word(addr).subrange(12, 32) == addr,
{
    assert(address_word(addr).subrange(12, 32) =~= addr);
}

/// The `getPair` call data is the selector, then the word of the first token at
/// bytes 4 to 36, then the word of the second at bytes 36 to 68.
pub proof fn lemma_get_pair_call_layout(token_a: Seq<u8>, token_b: Seq<u8>)
    requires
        token_a.len() == 20,
        token_b.len() == 20,
    ensures
        get_pair_call(token_a, token_b).len() == 68,
        get_pair_call(token_a, token_b).subrange(0, 4) == SELECTOR_GET_PAIR@,
        get_pair_call(token_a, token_b).subrange(4, 36) == address_word(token_a),
        get_pair_call(token_a, token_b).subrange(36, 68) == address_word(token_b),
{
    let call = get_pair_call(token_a, token_b);
    assert(call.subrange(0, 4) =~= SELECTOR_GET_PAIR@);
    assert(call.subrange(4, 36) =~= address_word(token_a));
    assert(call.subrange(36, 68) =~= address_word(token_b));
}

/// The `k` big-endian bytes of `v` (the low `k` bytes, most significant first),
/// as `to_be_bytes` writes them.
pub open spec fn be_bytes(v: nat, k: nat) -> Seq<u8>
    decreases k,
{
    if k == 0 {
        Seq::empty()
    } else {
        be_bytes(v / 256, (k - 1) as nat).push((v % 256) as u8)
    }
}

/// Reading the big-endian bytes of a number that fits gives the number back.
pub proof fn lemma_be_bytes_value(v: nat, k: nat)
    requires
        v < byte_power(k),
    ensures
        be_bytes(v, k).len() == k,
        be_value(be_bytes(v, k)) == v,
    decreases k,
{
    if k > 0 {
        let p = byte_power((k - 1) as nat);
        assert(v / 256 < p) by (nonlinear_arith)
            requires
                v < 256 * p,
        ;
        lemma_be_bytes_value(v / 256, (k - 1) as nat);
        assert(be_bytes(v, k).drop_last() =~= be_bytes(v / 256, (k - 1) as nat));
        assert((v / 256) * 256 + v % 256 == v) by (nonlinear_arith);
    }
}

/// A `getReserves` reply whose first two words hold `reserve0` and `reserve1` in
/// their low sixteen bytes (`to_be_bytes`) decodes to those reserves, whatever the
/// third word (the time of the last update) holds.
pub proof fn lemma_reserves_words_roundtrip(reserve0: u128, reserve1: u128, last: Seq<u8>)
    requires
        last.len() == 32,
    ensures
        ({
            let zeros = Seq::new(16, |i: int| 0u8);
            let data = zeros + be_bytes(reserve0 as nat, 16) + zeros + be_bytes(reserve1 as nat, 16)
                + last;
            &&& data.len() == 96
            &&& be_value(data.subrange(16, 32)) == reserve0
            &&& be_value(data.subrange(48, 64)) == reserve1
        }),
{
    assert(byte_power(16) == 0x1_0000_0000_0000_0000_0000_0000_0000_0000) by {
        reveal_with_fuel(byte_power, 17);
    }
    lemma_be_bytes_value(reserve0 as nat, 16);
    lemma_be_bytes_value(reserve1 as nat, 16);
    let zeros = Seq::new(16, |i: int| 0u8);
    let data = zeros + be_bytes(reserve0 as nat, 16) + zeros + be_bytes(reserve1 as nat, 16)
        + last;
    assert(data.subrange(16, 32) =~= be_bytes(reserve0 as nat, 16));
    assert(data.subrange(48, 64) =~= be_bytes(reserve1 as nat, 16));
}

} // verus!
