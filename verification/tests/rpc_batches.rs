use dex_tokens::abi::{pad_address, ADDRESS_ZERO};
use dex_tokens::error::UniswapDexError;
use dex_tokens::rpc::{
    batch_next, batch_start, create_eth_call_request, pair_requests, price_inputs,
    replies_complete, request_index, reserve_requests, scan_pair_replies, scan_pool_replies,
    BatchStep, NodeOutcome, PoolReplies, RpcResponse, pair_replies_out_of_range,
    pool_replies_out_of_range,
};

const DAI: &str = "0x6B175474E89094C44Da98b954EedeAC495271d0F";

fn hex(bytes: &[u8]) -> String {
    let mut s = String::from("0x");
    for b in bytes {
        s.push_str(&format!("{:02x}", b));
    }
    s
}

fn reply(id: &str, result: &str) -> RpcResponse {
    RpcResponse { id: Some(id.to_string()), result: Some(result.to_string()), has_result: true }
}

fn failed_message(scan: Result<Vec<[u8; 20]>, UniswapDexError>) -> String {
    match scan {
        Err(UniswapDexError::ApiError(m)) => m,
        _ => panic!("expected an ApiError"),
    }
}

#[test]
fn eth_call_request_writes_hex_with_prefix() {
    let req = create_eth_call_request("x_1".to_string(), &[0xAB; 20], vec![0x01, 0xFE]);
    assert_eq!(req.id, "x_1");
    assert_eq!(req.to, format!("0x{}", "ab".repeat(20)));
    assert_eq!(req.data, "0x01fe");
    let empty = create_eth_call_request(String::new(), &[0; 20], vec![]);
    assert_eq!(empty.data, "0x");
}

#[test]
fn pair_requests_ask_the_factory_about_each_token() {
    let addresses = vec![DAI.to_string(), "not an address".to_string()];
    let reqs = pair_requests(&addresses);
    assert_eq!(reqs.len(), 2);
    assert_eq!(reqs[0].id, "getPair_0");
    assert_eq!(reqs[1].id, "getPair_1");
    assert_eq!(reqs[0].to, "0x5c69bee701ef814a2b6a3edd4b1652cb9cc5aa6f");
    let weth_word = "000000000000000000000000c02aaa39b223fe8d0a0e5c4f27ead9083c756cc2";
    assert_eq!(
        reqs[0].data,
        format!("0xe6a43905{}{}", "0000000000000000000000006b175474e89094c44da98b954eedeac495271d0f", weth_word)
    );
    assert_eq!(reqs[1].data, format!("0xe6a43905{}{}", "0".repeat(64), weth_word));
}

#[test]
fn request_index_reads_the_number_after_the_prefix() {
    assert_eq!(request_index("getPair_12", "getPair_"), Some(12));
    assert_eq!(request_index("getPair_+3", "getPair_"), Some(3));
    assert_eq!(request_index("getPair_", "getPair_"), None);
    assert_eq!(request_index("getPair_x", "getPair_"), None);
    assert_eq!(request_index("token0_1", "getPair_"), None);
    assert_eq!(request_index("get", "getPair_"), None);
}

#[test]
fn pair_replies_set_the_named_tokens() {
    let pair = [0x42u8; 20];
    let replies = vec![
        reply("getPair_1", &hex(&pad_address(&pair))),
        reply("somethingElse", "zz"),
        RpcResponse { id: None, result: Some("zz".to_string()), has_result: true },
        RpcResponse { id: Some("getPair_0".to_string()), result: None, has_result: true },
    ];
    match scan_pair_replies(2, &replies) {
        Ok(pairs) => {
            assert_eq!(pairs, vec![ADDRESS_ZERO, pair]);
        },
        _ => panic!("expected the pairs"),
    }
}

#[test]
fn pair_replies_without_prefix_and_later_ones_win() {
    let word_a = hex(&pad_address(&[1u8; 20]));
    let word_b = hex(&pad_address(&[2u8; 20]));
    let replies = vec![reply("getPair_0", &word_a), reply("getPair_0", &word_b[2..])];
    match scan_pair_replies(1, &replies) {
        Ok(pairs) => assert_eq!(pairs, vec![[2u8; 20]]),
        _ => panic!("expected the pairs"),
    }
}

#[test]
fn pair_replies_report_bad_hex() {
    let msg = failed_message(scan_pair_replies(1, &vec![reply("getPair_0", "0xzz")]));
    assert_eq!(msg, "Hex decode error: Invalid character 'z' at position 0");
    let msg = failed_message(scan_pair_replies(1, &vec![reply("getPair_0", "0x123")]));
    assert_eq!(msg, "Hex decode error: Odd number of digits");
}

#[test]
fn pair_replies_report_short_data() {
    let msg = failed_message(scan_pair_replies(1, &vec![reply("getPair_0", "0x00")]));
    assert_eq!(msg, "Invalid address data length: 1");
}

#[test]
fn pair_replies_beyond_the_list_stop_the_scan() {
    let word = hex(&pad_address(&[3u8; 20]));
    let replies = vec![reply("getPair_5", &word)];
    assert_eq!(pair_replies_out_of_range(2, &replies), Some(5));
    assert_eq!(pair_replies_out_of_range(6, &replies), None);
    // A failure before the out-of-range reply ends the reading first.
    let replies = vec![reply("getPair_0", "0x1"), reply("getPair_5", &word)];
    assert_eq!(pair_replies_out_of_range(2, &replies), None);
    assert!(scan_pair_replies(2, &replies).is_err());
    let replies = vec![reply("token0_3", &word)];
    assert_eq!(pool_replies_out_of_range(2, &replies), Some(3));
}

#[test]
fn reserve_requests_skip_tokens_without_a_pair() {
    let pair = [0x99u8; 20];
    let reqs = reserve_requests(&vec![ADDRESS_ZERO, pair]);
    assert_eq!(reqs.len(), 2);
    assert_eq!(reqs[0].id, "getReserves_1");
    assert_eq!(reqs[0].to, format!("0x{}", "99".repeat(20)));
    assert_eq!(reqs[0].data, "0x0902f1ac");
    assert_eq!(reqs[1].id, "token0_1");
    assert_eq!(reqs[1].data, "0x0dfe1681");
    assert!(reserve_requests(&vec![ADDRESS_ZERO]).is_empty());
}

#[test]
fn pool_replies_fill_reserves_and_token0() {
    let mut reserves = vec![0u8; 96];
    reserves[31] = 10;
    reserves[63] = 20;
    let token0 = [0x6Bu8; 20];
    let replies = vec![
        reply("getReserves_0", &hex(&reserves)),
        reply("token0_0", &hex(&pad_address(&token0))),
        reply("unknown_0", "0x"),
    ];
    match scan_pool_replies(2, &replies) {
        Ok(pools) => {
            assert_eq!(pools.reserves, vec![Some((10, 20)), None]);
            assert_eq!(pools.token0s, vec![Some(token0), None]);
        },
        _ => panic!("expected pools"),
    }
}

#[test]
fn pool_replies_decode_hex_before_looking_at_the_id() {
    match scan_pool_replies(1, &vec![reply("unknown", "0xz")]) {
        Err(UniswapDexError::ApiError(m)) => {
            assert_eq!(m, "Hex decode error: Odd number of digits")
        },
        _ => panic!("expected an error"),
    }
    match scan_pool_replies(1, &vec![reply("getReserves_0", "0x00")]) {
        Err(UniswapDexError::ApiError(m)) => {
            assert_eq!(m, "Invalid reserves data length: 1")
        },
        _ => panic!("expected an error"),
    }
}

#[test]
fn price_inputs_put_the_token_reserve_first() {
    let dai = dex_tokens::address::parse_address(DAI).unwrap();
    let addresses = vec![DAI.to_string(), DAI.to_string(), DAI.to_string(), DAI.to_string()];
    let pools = PoolReplies {
        reserves: vec![Some((5, 9)), Some((5, 9)), Some((0, 9)), None],
        token0s: vec![Some(dai), Some([1u8; 20]), Some(dai), Some(dai)],
    };
    let inputs = price_inputs(&addresses, &pools);
    assert_eq!(inputs, vec![Some((5, 9)), Some((9, 5)), None, None]);
}

#[test]
fn batch_tries_the_nodes_in_order() {
    assert!(matches!(batch_start(5), BatchStep::Send(0)));
    assert!(matches!(batch_next(5, 0, NodeOutcome::Unreachable), BatchStep::Send(1)));
    assert!(matches!(batch_next(5, 1, NodeOutcome::Rejected), BatchStep::Send(2)));
    assert!(matches!(batch_next(5, 2, NodeOutcome::Unreadable), BatchStep::FailUnreadable));
    let partial = vec![RpcResponse { id: None, result: None, has_result: false }];
    assert!(matches!(batch_next(5, 3, NodeOutcome::Answered(partial)), BatchStep::Send(4)));
    let full = vec![reply("a", "0x")];
    match batch_next(5, 4, NodeOutcome::Answered(full)) {
        BatchStep::Accept(v) => assert_eq!(v.len(), 1),
        _ => panic!("expected the replies"),
    }
}

#[test]
fn batch_fails_when_every_node_failed() {
    for step in [batch_start(0), batch_next(2, 1, NodeOutcome::Unreachable)] {
        match step {
            BatchStep::Fail(UniswapDexError::ApiError(m)) => {
                assert_eq!(m, "All nodes failed or returned errors")
            },
            _ => panic!("expected failure"),
        }
    }
}

#[test]
fn replies_complete_needs_every_result() {
    assert!(replies_complete(&vec![]));
    assert!(replies_complete(&vec![reply("a", "b")]));
    let missing = RpcResponse { id: None, result: None, has_result: false };
    assert!(!replies_complete(&vec![reply("a", "b"), missing]));
}

#[test]
fn each_request_id_reads_back_as_its_token() {
    let addresses: Vec<String> = (0..12).map(|_| DAI.to_string()).collect();
    for (i, req) in pair_requests(&addresses).iter().enumerate() {
        assert_eq!(request_index(&req.id, "getPair_"), Some(i));
    }
    let pairs: Vec<[u8; 20]> = (1u8..=11).map(|b| [b; 20]).collect();
    for (k, req) in reserve_requests(&pairs).iter().enumerate() {
        let prefix = if k % 2 == 0 { "getReserves_" } else { "token0_" };
        assert_eq!(request_index(&req.id, prefix), Some(k / 2));
    }
}

#[test]
fn reply_to_a_pair_request_sets_that_token() {
    let addresses = vec![DAI.to_string(), DAI.to_string(), DAI.to_string()];
    let reqs = pair_requests(&addresses);
    let word = pad_address(&[0x77; 20]);
    let replies = vec![reply(&reqs[2].id, &hex(&word))];
    match scan_pair_replies(3, &replies) {
        Ok(pairs) => assert_eq!(pairs, vec![ADDRESS_ZERO, ADDRESS_ZERO, [0x77; 20]]),
        _ => panic!("expected the pairs"),
    }
}

#[test]
fn replies_in_another_order_give_the_same_result() {
    let word_a = hex(&pad_address(&[0xA1; 20]));
    let word_b = hex(&pad_address(&[0xB2; 20]));
    let forward = vec![reply("getPair_0", &word_a), reply("getPair_2", &word_b), reply("other", "zz")];
    let backward = vec![reply("other", "zz"), reply("getPair_2", &word_b), reply("getPair_0", &word_a)];
    assert_eq!(scan_pair_replies(3, &forward).unwrap(), scan_pair_replies(3, &backward).unwrap());

    let mut reserves = vec![0u8; 96];
    reserves[31] = 4;
    reserves[63] = 6;
    let pool_a = vec![reply("token0_1", &word_a), reply("getReserves_1", &hex(&reserves))];
    let pool_b = vec![reply("getReserves_1", &hex(&reserves)), reply("token0_1", &word_a)];
    let a = scan_pool_replies(2, &pool_a).unwrap();
    let b = scan_pool_replies(2, &pool_b).unwrap();
    assert_eq!((a.reserves, a.token0s), (b.reserves, b.token0s));
}
