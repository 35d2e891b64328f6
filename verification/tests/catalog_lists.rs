use dex_tokens::address::parse_address;
use dex_tokens::catalog::{evm_tokens, mainnet_pools_v2};

#[test]
fn evm_token_list_in_order() {
    let tokens = evm_tokens();
    assert_eq!(tokens.len(), 30);
    assert_eq!(tokens[0].symbol, "aZIL");
    assert_eq!(tokens[0].address, "0x8a2afD8Fe79F8C694210eB71f4d726Fc8cAFdB31");
    assert_eq!(tokens[0].decimals, 18);
    let pool = tokens[0].pool.unwrap();
    assert_eq!(pool.name, "Amazing Pool - Avely and ZilPay");
    assert_eq!(pool.address, "0x1f0e86Bc299Cc66df2e5512a7786C3F528C0b5b6");
    assert!(tokens[1].pool.is_none());
    assert_eq!(tokens[29].symbol, "SEED");
    assert_eq!(tokens.iter().filter(|t| t.pool.is_some()).count(), 5);
}

#[test]
fn evm_token_addresses_are_addresses() {
    for t in evm_tokens() {
        assert!(parse_address(t.address).is_some(), "{}", t.address);
        if let Some(pool) = t.pool {
            assert!(parse_address(pool.address).is_some(), "{}", pool.address);
        }
    }
}

#[test]
fn mainnet_pool_list_in_order() {
    let pools = mainnet_pools_v2();
    assert_eq!(pools.len(), 21);
    assert_eq!(pools[0].name, "ZilPay Pool (Avely)");
    assert_eq!(pools[0].token.unwrap().symbol, "aZIL");
    assert!(!pools[0].hide);
    assert_eq!(pools[0].uptime, 100);
    assert!(pools[0].can_stake);
    assert_eq!(pools[20].name, "Stakin");
    assert_eq!(pools[20].uptime, 89);
    for p in &pools {
        assert!(parse_address(p.address).is_some(), "{}", p.address);
    }
}

#[test]
fn pool_backed_tokens_are_issued_by_listed_pools() {
    let pools = mainnet_pools_v2();
    for t in evm_tokens() {
        if let Some(pool) = t.pool {
            let p = pools
                .iter()
                .find(|p| p.address == pool.address.to_lowercase())
                .expect("the pool is listed");
            let issued = p.token.expect("the pool issues a token");
            assert_eq!(issued.address, t.address.to_lowercase());
            assert_eq!(issued.symbol, t.symbol);
            assert_eq!(issued.decimals, t.decimals);
        }
    }
}
