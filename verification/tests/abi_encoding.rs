use dex_tokens::abi::{
    decode_address, decode_get_pair_returns, decode_get_reserves_returns, decode_token0_returns,
    encode_get_pair, encode_get_reserves, encode_token0, pad_address, SELECTOR_GET_PAIR,
    SELECTOR_GET_RESERVES, SELECTOR_TOKEN0,
};
use dex_tokens::address::{format_address, parse_address};
use dex_tokens::error::UniswapDexError;

fn api_message(e: UniswapDexError) -> String {
    match e {
        UniswapDexError::ApiError(m) => m,
        other => panic!("unexpected error {:?}", other),
    }
}

#[test]
fn test_address_encoding() {
    let addr: [u8; 20] = [
        0x6B, 0x17, 0x54, 0x74, 0xE8, 0x90, 0x94, 0xC4, 0x4D, 0xA9, 0x8B, 0x95, 0x4E, 0xED,
        0xEA, 0xC4, 0x95, 0x27, 0x1D, 0x0F,
    ];
    let formatted = format_address(&addr);
    assert_eq!(formatted, "0x6b175474e89094c44da98b954eedeac495271d0f");

    let parsed = parse_address(&formatted).unwrap();
    assert_eq!(parsed, addr);
}

#[test]
fn test_get_pair_encoding() {
    let token_a = [0xAA; 20];
    let token_b = [0xBB; 20];
    let encoded = encode_get_pair(&token_a, &token_b);
    assert_eq!(&encoded[0..4], &SELECTOR_GET_PAIR);
    // First address padded: 12 zero bytes + 20 address bytes
    assert_eq!(&encoded[4..16], &[0u8; 12]);
    assert_eq!(&encoded[16..36], &[0xAA; 20]);
}

#[test]
fn get_pair_encoding_second_word_and_length() {
    let encoded = encode_get_pair(&[0x11; 20], &[0x22; 20]);
    assert_eq!(encoded.len(), 68);
    assert_eq!(&encoded[36..48], &[0u8; 12]);
    assert_eq!(&encoded[48..68], &[0x22; 20]);
}

#[test]
fn selectors_alone_for_reserves_and_token0() {
    assert_eq!(encode_get_reserves(), SELECTOR_GET_RESERVES.to_vec());
    assert_eq!(encode_token0(), SELECTOR_TOKEN0.to_vec());
    assert_eq!(encode_get_reserves(), vec![0x09, 0x02, 0xF1, 0xAC]);
    assert_eq!(encode_token0(), vec![0x0D, 0xFE, 0x16, 0x81]);
}

#[test]
fn pad_then_decode_gives_the_address_back() {
    let addr = [0x5Cu8, 0x69, 0xBE, 0xE7, 0x01, 0xEF, 0x81, 0x4A, 0x2B, 0x6A, 0x3E, 0xDD, 0x4B,
        0x16, 0x52, 0xCB, 0x9C, 0xC5, 0xAA, 0x6F];
    let word = pad_address(&addr);
    assert_eq!(&word[0..12], &[0u8; 12]);
    assert_eq!(decode_address(&word).unwrap(), addr);
    assert_eq!(decode_get_pair_returns(&word).unwrap(), addr);
    assert_eq!(decode_token0_returns(&word).unwrap(), addr);
}

#[test]
fn decode_address_takes_bytes_12_to_32_of_a_longer_reply() {
    let mut data: Vec<u8> = (0u8..40).collect();
    data[0] = 0xFF;
    let addr = decode_address(&data).unwrap();
    let expected: Vec<u8> = (12u8..32).collect();
    assert_eq!(addr.to_vec(), expected);
}

#[test]
fn decode_address_refuses_a_short_reply() {
    let err = decode_address(&[0u8; 31]).unwrap_err();
    assert_eq!(api_message(err), "Invalid address data length: 31");
    let err = decode_token0_returns(&[]).unwrap_err();
    assert_eq!(api_message(err), "Invalid address data length: 0");
}

#[test]
fn decode_reserves_reads_the_low_halves_of_two_words() {
    let mut data = vec![0u8; 96];
    data[31] = 0x01;
    data[30] = 0x02;
    data[16] = 0x80;
    data[63] = 0x07;
    data[15] = 0xFF; // high half of the first word is ignored
    let (r0, r1) = decode_get_reserves_returns(&data).unwrap();
    assert_eq!(r0, (0x80u128 << 120) | 0x0201);
    assert_eq!(r1, 7);
}

#[test]
fn decode_reserves_refuses_a_short_reply() {
    let err = decode_get_reserves_returns(&[0u8; 95]).unwrap_err();
    assert_eq!(api_message(err), "Invalid reserves data length: 95");
}

#[test]
fn parse_address_accepts_both_cases_and_no_prefix() {
    let lower = parse_address("6b175474e89094c44da98b954eedeac495271d0f").unwrap();
    let upper = parse_address("0x6B175474E89094C44DA98B954EEDEAC495271D0F").unwrap();
    assert_eq!(lower, upper);
    assert_eq!(lower[0], 0x6B);
    assert_eq!(lower[19], 0x0F);
}

#[test]
fn parse_address_refuses_bad_text() {
    assert_eq!(parse_address(""), None);
    assert_eq!(parse_address("0x"), None);
    assert_eq!(parse_address("0x6b17"), None);
    assert_eq!(parse_address("0x6b175474e89094c44da98b954eedeac495271d0"), None);
    assert_eq!(parse_address("0x6b175474e89094c44da98b954eedeac495271d0g"), None);
    assert_eq!(parse_address("0X6b175474e89094c44da98b954eedeac495271d0f"), None);
    assert_eq!(parse_address("0x6b175474e89094c44da98b954eedeac495271d0f00"), None);
}

#[test]
fn reserves_read_back_from_to_be_bytes() {
    for (r0, r1) in [(0u128, 0u128), (1, 2), (u128::MAX, 12345), (0xDEAD_BEEF << 64, u128::MAX)] {
        let mut data = vec![0u8; 16];
        data.extend_from_slice(&r0.to_be_bytes());
        data.extend_from_slice(&[0u8; 16]);
        data.extend_from_slice(&r1.to_be_bytes());
        data.extend_from_slice(&[0xEE; 32]);
        assert_eq!(decode_get_reserves_returns(&data).unwrap(), (r0, r1));
    }
}

#[test]
fn formatted_address_reads_back_in_any_case_without_prefix() {
    let addr = parse_address("0x6b175474e89094c44da98b954eedeac495271d0f").unwrap();
    let text = format_address(&addr);
    assert_eq!(parse_address(&text[2..]), Some(addr));
    assert_eq!(parse_address(&text.to_uppercase().replacen("0X", "0x", 1)), Some(addr));
    assert_eq!(parse_address(&text[2..].to_uppercase()), Some(addr));
}
