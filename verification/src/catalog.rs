//! The fixed lists that the service publishes: the EVM tokens of its wallet and
//! the mainnet staking pools.

use vstd::prelude::*;
use crate::routes::ascii_lowercase;

verus! {

/// The staking pool of a liquid-staking token.
#[derive(Debug, Clone, Copy)]
pub struct TokenPool {
    pub name: &'static str,
    pub address: &'static str,
}

/// An EVM token of the published list.
#[derive(Debug, Clone, Copy)]
pub struct EvmToken {
    pub address: &'static str,
    pub name: &'static str,
    pub symbol: &'static str,
    pub decimals: u8,
    pub pool: Option<TokenPool>,
}

/// The token that a staking pool issues.
#[derive(Debug, Clone, Copy)]
pub struct PoolToken {
    pub name: &'static str,
    pub symbol: &'static str,
    pub decimals: u8,
    pub address: &'static str,
}

/// A mainnet staking pool.
#[derive(Debug, Clone, Copy)]
pub struct EvmPoolV2 {
    pub address: &'static str,
    pub token: Option<PoolToken>,
    pub name: &'static str,
    pub hide: bool,
    pub uptime: u8,
    pub can_stake: bool,
}

/// The published EVM tokens, in order.
pub open spec fn evm_token_table() -> Seq<EvmToken> {
    seq![
        EvmToken {
            address: "0x8a2afD8Fe79F8C694210eB71f4d726Fc8cAFdB31",
            name: "Amazing Pool (Avely)",
            symbol: "aZIL",
            decimals: 18,
            pool: Some(TokenPool { name: "Amazing Pool - Avely and ZilPay", address: "0x1f0e86Bc299Cc66df2e5512a7786C3F528C0b5b6" }),
        },
        EvmToken {
            address: "0x17D5af5658A24bd964984b36d28e879a8626adC3",
            name: "Zilliqa-bridged ETH token",
            symbol: "zETH",
            decimals: 18,
            pool: None,
        },
        EvmToken {
            address: "0xea87bC6CcaE73bae35693639e22eF30667760F61",
            name: "Zilliqa-bridged BNB Coin",
            symbol: "zBNB",
            decimals: 18,
            pool: None,
        },
        EvmToken {
            address: "0x2274005778063684fbB1BfA96a2b725dC37D75f9",
            name: "Zilliqa-bridged USDT token",
            symbol: "zUSDT",
            decimals: 6,
            pool: None,
        },
        EvmToken {
            address: "0x2938fF251Aecc1dfa768D7d0276eB6d073690317",
            name: "Zilliqa-bridged WBTC token",
            symbol: "zWBTC",
            decimals: 8,
            pool: None,
        },
        EvmToken {
            address: "0x4345472A0c6164F35808CDb7e7eCCd3d326CC50b",
            name: "Zilliqa-bridged MATIC Token",
            symbol: "zMATIC",
            decimals: 18,
            pool: None,
        },
        EvmToken {
            address: "0x8DEAdC20f7218994c86b59eE1D5c7979fFcAa893",
            name: "Zilliqa-bridged OPUL token",
            symbol: "zOPUL",
            decimals: 18,
            pool: None,
        },
        EvmToken {
            address: "0xD819257C964A78A493DF93D5643E9490b54C5af2",
            name: "Zilliqa-bridged BRKL token",
            symbol: "zBRKL",
            decimals: 18,
            pool: None,
        },
        EvmToken {
            address: "0x9121A67cA79B6778eAb477c5F76dF6de7C79cC4b",
            name: "Zilliqa-bridged TRAXX token",
            symbol: "zTRAXX",
            decimals: 18,
            pool: None,
        },
        EvmToken {
            address: "0x097C26F8A93009fd9d98561384b5014D64ae17C2",
            name: "StZIL",
            symbol: "stZIL",
            decimals: 12,
            pool: None,
        },
        EvmToken {
            address: "0x8E3073b22F670d3A09C66D0Abb863f9E358402d2",
            name: "Encapsulate Zilliqa",
            symbol: "encapZIL",
            decimals: 18,
            pool: Some(TokenPool { name: "Encapsulate", address: "0x1311059DD836D7000Dc673eA4Cc834fe04e9933C" }),
        },
        EvmToken {
            address: "0x3B78f66651E2eCAbf13977817848F82927a17DcF",
            name: "litZil",
            symbol: "litZil",
            decimals: 18,
            pool: Some(TokenPool { name: "Lithium Digital", address: "0xBD6ca237f30A86eea8CF9bF869677F3a0496a990" }),
        },
        EvmToken {
            address: "0x737EBf814D2C14fb21E00Fd2990AFc364C2AF506",
            name: "StakeShark",
            symbol: "shZIL",
            decimals: 18,
            pool: Some(TokenPool { name: "StakeShark", address: "0xF7F4049e7472fC32805Aae5bcCE909419a34D254" }),
        },
        EvmToken {
            address: "0x63B991C17010C21250a0eA58C6697F696a48cdf3",
            name: "The Winners Circle",
            symbol: "HRSE",
            decimals: 18,
            pool: None,
        },
        EvmToken {
            address: "0x241c677D9969419800402521ae87C411897A029f",
            name: "WEB3WAR Token",
            symbol: "FPS",
            decimals: 12,
            pool: None,
        },
        EvmToken {
            address: "0x598FbD8B68a8B7e75b8B7182c750164f348907Bc",
            name: "XSGD",
            symbol: "XSGD",
            decimals: 6,
            pool: None,
        },
        EvmToken {
            address: "0xCcF3Ea256d42Aeef0EE0e39Bfc94bAa9Fa14b0Ba",
            name: "XCAD Network Token",
            symbol: "XCAD",
            decimals: 18,
            pool: None,
        },
        EvmToken {
            address: "0xc6F3dede529Af9D98a11C5B32DbF03Bf34272ED5",
            name: "The GARY Token",
            symbol: "GARY",
            decimals: 4,
            pool: None,
        },
        EvmToken {
            address: "0x7D2fF48c6b59229d448473D267a714d29F078D3E",
            name: "ZilStream",
            symbol: "STREAM",
            decimals: 8,
            pool: None,
        },
        EvmToken {
            address: "0xE9D47623bb2B3C497668B34fcf61E101a7ea4058",
            name: "Lunr",
            symbol: "Lunr",
            decimals: 4,
            pool: None,
        },
        EvmToken {
            address: "0x03A79429acc808e4261a68b0117aCD43Cb0FdBfa",
            name: "Governance ZIL",
            symbol: "gZIL",
            decimals: 15,
            pool: None,
        },
        EvmToken {
            address: "0x01035e423c40a9ad4F6be2E6cC014EB5617c8Bd6",
            name: "Zoge Coin",
            symbol: "ZOGE",
            decimals: 18,
            pool: None,
        },
        EvmToken {
            address: "0x9C3fE3f471d8380297e4fB222eFb313Ee94DFa0f",
            name: "ZilPepe",
            symbol: "ZILPEPE",
            decimals: 18,
            pool: None,
        },
        EvmToken {
            address: "0x20Dd5D5B5d4C72676514A0eA1052d0200003d69D",
            name: "Stellar Void",
            symbol: "VOID",
            decimals: 12,
            pool: None,
        },
        EvmToken {
            address: "0xbfDe2156aF75a29d36614bC1F8005DD816Bd9200",
            name: "Zhib Coin",
            symbol: "ZHIB",
            decimals: 4,
            pool: None,
        },
        EvmToken {
            address: "0xa0A5795e7eccc43Ba92d2A0b7804696F8B9e1a05",
            name: "dXCAD Token",
            symbol: "dXCAD",
            decimals: 18,
            pool: None,
        },
        EvmToken {
            address: "0xc85b0db68467dede96A7087F4d4C47731555cA7A",
            name: "PlunderSwap Staked ZIL",
            symbol: "pZIL",
            decimals: 18,
            pool: Some(TokenPool { name: "PlunderSwap", address: "0x691682FCa60Fa6B702a0a69F60d045c08f404220" }),
        },
        EvmToken {
            address: "0x1202078D298Ff0358A95b6fbf48Ec166dB414660",
            name: "Proof Of Receipt Token",
            symbol: "PORT",
            decimals: 4,
            pool: None,
        },
        EvmToken {
            address: "0xc99ECB82a27B45592eA02ACe9e3C42050f3c00C0",
            name: "UNIFEES",
            symbol: "FEES",
            decimals: 4,
            pool: None,
        },
        EvmToken {
            address: "0xe64cA52EF34FdD7e20C0c7fb2E392cc9b4F6D049",
            name: "Kalijo",
            symbol: "SEED",
            decimals: 18,
            pool: None,
        },
    ]
}

/// The EVM tokens that `GET /evm/tokens` publishes, in order.
pub fn evm_tokens() -> (res: Vec<EvmToken>)
    ensures
        res@ == evm_token_table(),
{
    vec![
        EvmToken {
            address: "0x8a2afD8Fe79F8C694210eB71f4d726Fc8cAFdB31",
            name: "Amazing Pool (Avely)",
            symbol: "aZIL",
            decimals: 18,
            pool: Some(TokenPool { name: "Amazing Pool - Avely and ZilPay", address: "0x1f0e86Bc299Cc66df2e5512a7786C3F528C0b5b6" }),
        },
        EvmToken {
            address: "0x17D5af5658A24bd964984b36d28e879a8626adC3",
            name: "Zilliqa-bridged ETH token",
            symbol: "zETH",
            decimals: 18,
            pool: None,
        },
        EvmToken {
            address: "0xea87bC6CcaE73bae35693639e22eF30667760F61",
            name: "Zilliqa-bridged BNB Coin",
            symbol: "zBNB",
            decimals: 18,
            pool: None,
        },
        EvmToken {
            address: "0x2274005778063684fbB1BfA96a2b725dC37D75f9",
            name: "Zilliqa-bridged USDT token",
            symbol: "zUSDT",
            decimals: 6,
            pool: None,
        },
        EvmToken {
            address: "0x2938fF251Aecc1dfa768D7d0276eB6d073690317",
            name: "Zilliqa-bridged WBTC token",
            symbol: "zWBTC",
            decimals: 8,
            pool: None,
        },
        EvmToken {
            address: "0x4345472A0c6164F35808CDb7e7eCCd3d326CC50b",
            name: "Zilliqa-bridged MATIC Token",
            symbol: "zMATIC",
            decimals: 18,
            pool: None,
        },
        EvmToken {
            address: "0x8DEAdC20f7218994c86b59eE1D5c7979fFcAa893",
            name: "Zilliqa-bridged OPUL token",
            symbol: "zOPUL",
            decimals: 18,
            pool: None,
        },
        EvmToken {
            address: "0xD819257C964A78A493DF93D5643E9490b54C5af2",
            name: "Zilliqa-bridged BRKL token",
            symbol: "zBRKL",
            decimals: 18,
            pool: None,
        },
        EvmToken {
            address: "0x9121A67cA79B6778eAb477c5F76dF6de7C79cC4b",
            name: "Zilliqa-bridged TRAXX token",
            symbol: "zTRAXX",
            decimals: 18,
            pool: None,
        },
        EvmToken {
            address: "0x097C26F8A93009fd9d98561384b5014D64ae17C2",
            name: "StZIL",
            symbol: "stZIL",
            decimals: 12,
            pool: None,
        },
        EvmToken {
            address: "0x8E3073b22F670d3A09C66D0Abb863f9E358402d2",
            name: "Encapsulate Zilliqa",
            symbol: "encapZIL",
            decimals: 18,
            pool: Some(TokenPool { name: "Encapsulate", address: "0x1311059DD836D7000Dc673eA4Cc834fe04e9933C" }),
        },
        EvmToken {
            address: "0x3B78f66651E2eCAbf13977817848F82927a17DcF",
            name: "litZil",
            symbol: "litZil",
            decimals: 18,
            pool: Some(TokenPool { name: "Lithium Digital", address: "0xBD6ca237f30A86eea8CF9bF869677F3a0496a990" }),
        },
        EvmToken {
            address: "0x737EBf814D2C14fb21E00Fd2990AFc364C2AF506",
            name: "StakeShark",
            symbol: "shZIL",
            decimals: 18,
            pool: Some(TokenPool { name: "StakeShark", address: "0xF7F4049e7472fC32805Aae5bcCE909419a34D254" }),
        },
        EvmToken {
            address: "0x63B991C17010C21250a0eA58C6697F696a48cdf3",
            name: "The Winners Circle",
            symbol: "HRSE",
            decimals: 18,
            pool: None,
        },
        EvmToken {
            address: "0x241c677D9969419800402521ae87C411897A029f",
            name: "WEB3WAR Token",
            symbol: "FPS",
            decimals: 12,
            pool: None,
        },
        EvmToken {
            address: "0x598FbD8B68a8B7e75b8B7182c750164f348907Bc",
            name: "XSGD",
            symbol: "XSGD",
            decimals: 6,
            pool: None,
        },
        EvmToken {
            address: "0xCcF3Ea256d42Aeef0EE0e39Bfc94bAa9Fa14b0Ba",
            name: "XCAD Network Token",
            symbol: "XCAD",
            decimals: 18,
            pool: None,
        },
        EvmToken {
            address: "0xc6F3dede529Af9D98a11C5B32DbF03Bf34272ED5",
            name: "The GARY Token",
            symbol: "GARY",
            decimals: 4,
            pool: None,
        },
        EvmToken {
            address: "0x7D2fF48c6b59229d448473D267a714d29F078D3E",
            name: "ZilStream",
            symbol: "STREAM",
            decimals: 8,
            pool: None,
        },
        EvmToken {
            address: "0xE9D47623bb2B3C497668B34fcf61E101a7ea4058",
            name: "Lunr",
            symbol: "Lunr",
            decimals: 4,
            pool: None,
        },
        EvmToken {
            address: "0x03A79429acc808e4261a68b0117aCD43Cb0FdBfa",
            name: "Governance ZIL",
            symbol: "gZIL",
            decimals: 15,
            pool: None,
        },
        EvmToken {
            address: "0x01035e423c40a9ad4F6be2E6cC014EB5617c8Bd6",
            name: "Zoge Coin",
            symbol: "ZOGE",
            decimals: 18,
            pool: None,
        },
        EvmToken {
            address: "0x9C3fE3f471d8380297e4fB222eFb313Ee94DFa0f",
            name: "ZilPepe",
            symbol: "ZILPEPE",
            decimals: 18,
            pool: None,
        },
        EvmToken {
            address: "0x20Dd5D5B5d4C72676514A0eA1052d0200003d69D",
            name: "Stellar Void",
            symbol: "VOID",
            decimals: 12,
            pool: None,
        },
        EvmToken {
            address: "0xbfDe2156aF75a29d36614bC1F8005DD816Bd9200",
            name: "Zhib Coin",
            symbol: "ZHIB",
            decimals: 4,
            pool: None,
        },
        EvmToken {
            address: "0xa0A5795e7eccc43Ba92d2A0b7804696F8B9e1a05",
            name: "dXCAD Token",
            symbol: "dXCAD",
            decimals: 18,
            pool: None,
        },
        EvmToken {
            address: "0xc85b0db68467dede96A7087F4d4C47731555cA7A",
            name: "PlunderSwap Staked ZIL",
            symbol: "pZIL",
            decimals: 18,
            pool: Some(TokenPool { name: "PlunderSwap", address: "0x691682FCa60Fa6B702a0a69F60d045c08f404220" }),
        },
        EvmToken {
            address: "0x1202078D298Ff0358A95b6fbf48Ec166dB414660",
            name: "Proof Of Receipt Token",
            symbol: "PORT",
            decimals: 4,
            pool: None,
        },
        EvmToken {
            address: "0xc99ECB82a27B45592eA02ACe9e3C42050f3c00C0",
            name: "UNIFEES",
            symbol: "FEES",
            decimals: 4,
            pool: None,
        },
        EvmToken {
            address: "0xe64cA52EF34FdD7e20C0c7fb2E392cc9b4F6D049",
            name: "Kalijo",
            symbol: "SEED",
            decimals: 18,
            pool: None,
        },
    ]
}

/// The mainnet staking pools, in order.
pub open spec fn mainnet_pool_table() -> Seq<EvmPoolV2> {
    seq![
        EvmPoolV2 {
            address: "0x1f0e86bc299cc66df2e5512a7786c3f528c0b5b6",
            token: Some(PoolToken {
                name: "Amazing Pool Liquid Staking",
                symbol: "aZIL",
                decimals: 18,
                address: "0x8a2afd8fe79f8c694210eb71f4d726fc8cafdb31",
            }),
            name: "ZilPay Pool (Avely)",
            hide: false,
            uptime: 100,
            can_stake: true,
        },
        EvmPoolV2 {
            address: "0xcdb0b23db1439b28689844fd093c478d73c0786a",
            token: None,
            name: "2ZilMoon (Make Zilliqa Great Again)",
            hide: false,
            uptime: 100,
            can_stake: true,
        },
        EvmPoolV2 {
            address: "0x068c599686d2511ad709b8b4c578549a65d19491",
            token: None,
            name: "AlphaZil (former Ezil)",
            hide: false,
            uptime: 100,
            can_stake: false,
        },
        EvmPoolV2 {
            address: "0x1311059dd836d7000dc673ea4cc834fe04e9933c",
            token: Some(PoolToken {
                name: "Encapsulate Zilliqa",
                symbol: "encapZIL",
                decimals: 18,
                address: "0x8e3073b22f670d3a09c66d0abb863f9e358402d2",
            }),
            name: "Encapsulate",
            hide: false,
            uptime: 99,
            can_stake: false,
        },
        EvmPoolV2 {
            address: "0x8776f1135b3583dbae79c8f7268a7e0d4c16462c",
            token: None,
            name: "DTEAM",
            hide: false,
            uptime: 99,
            can_stake: false,
        },
        EvmPoolV2 {
            address: "0x63ce81c023bb9f8a6ffa08fcf48ba885c21fcfbc",
            token: None,
            name: "Luganodes",
            hide: false,
            uptime: 99,
            can_stake: false,
        },
        EvmPoolV2 {
            address: "0x715f94264057df97e772ebdfe2c94a356244f142",
            token: None,
            name: "Stakefish",
            hide: false,
            uptime: 99,
            can_stake: false,
        },
        EvmPoolV2 {
            address: "0xbd6ca237f30a86eea8cf9bf869677f3a0496a990",
            token: Some(PoolToken {
                name: "litZil",
                symbol: "litZil",
                decimals: 18,
                address: "0x3b78f66651e2ecabf13977817848f82927a17dcf",
            }),
            name: "Lithium Digital",
            hide: false,
            uptime: 99,
            can_stake: false,
        },
        EvmPoolV2 {
            address: "0xf35e17333bd4ad7b11e18f750afbcce14e4101b7",
            token: None,
            name: "Moonlet",
            hide: false,
            uptime: 99,
            can_stake: false,
        },
        EvmPoolV2 {
            address: "0x691682fca60fa6b702a0a69f60d045c08f404220",
            token: Some(PoolToken {
                name: "PlunderSwap Staked ZIL",
                symbol: "pZIL",
                decimals: 18,
                address: "0xc85b0db68467dede96a7087f4d4c47731555ca7a",
            }),
            name: "PlunderSwap",
            hide: false,
            uptime: 100,
            can_stake: false,
        },
        EvmPoolV2 {
            address: "0xbb2cb8b573ec1ec4f77953128df7f1d08d9c34df",
            token: Some(PoolToken {
                name: "Torch Liquid ZIL",
                symbol: "tZIL",
                decimals: 18,
                address: "0x9e4e0f7a06e50da13c78cf8c83e907f792de54fd",
            }),
            name: "TorchWallet.io",
            hide: false,
            uptime: 99,
            can_stake: false,
        },
        EvmPoolV2 {
            address: "0x87297b0b63a0b93d3f7cafa9e0f4c849e92642eb",
            token: None,
            name: "BlackNodes",
            hide: false,
            uptime: 99,
            can_stake: false,
        },
        EvmPoolV2 {
            address: "0xe5e8158883a37449ae07fe70b69e658766b317fc",
            token: None,
            name: "Shardpool",
            hide: false,
            uptime: 99,
            can_stake: false,
        },
        EvmPoolV2 {
            address: "0x7e3a0aebbf8ec2f12a8a885cd663ee4a490f923f",
            token: None,
            name: "Zillet Staking Pool",
            hide: false,
            uptime: 77,
            can_stake: false,
        },
        EvmPoolV2 {
            address: "0xf7f4049e7472fc32805aae5bcce909419a34d254",
            token: Some(PoolToken {
                name: "StakeShark Staked ZIL",
                symbol: "shZIL",
                decimals: 18,
                address: "0x737ebf814d2c14fb21e00fd2990afc364c2af506",
            }),
            name: "StakeShark",
            hide: false,
            uptime: 98,
            can_stake: false,
        },
        EvmPoolV2 {
            address: "0xd12340c2d5a26e7f5c469b57ee81ee82c8cb7686",
            token: None,
            name: "Citadel.one",
            hide: false,
            uptime: 89,
            can_stake: false,
        },
        EvmPoolV2 {
            address: "0x18925ce668b2bbc26dfe6f630f5c285d46b937ae",
            token: None,
            name: "CEX.IO",
            hide: false,
            uptime: 78,
            can_stake: false,
        },
        EvmPoolV2 {
            address: "0xe67e119dcdc1168ec8089f4647702a72a0fcbc7f",
            token: None,
            name: "PathrockNetwork",
            hide: false,
            uptime: 99,
            can_stake: false,
        },
        EvmPoolV2 {
            address: "0x26322705fcbf5d3065707c408b6594912daa3488",
            token: None,
            name: "Cryptech-Hacken",
            hide: false,
            uptime: 90,
            can_stake: false,
        },
        EvmPoolV2 {
            address: "0x60571e6c6d55109e6705d17956201a0cf39f1198",
            token: None,
            name: "RockX",
            hide: false,
            uptime: 70,
            can_stake: false,
        },
        EvmPoolV2 {
            address: "0xba669cc6b49218624e84920dc8136a05411b1ec8",
            token: None,
            name: "Stakin",
            hide: false,
            uptime: 89,
            can_stake: false,
        },
    ]
}

/// The mainnet staking pools that `GET /stake/pools` publishes, in order.
pub fn mainnet_pools_v2() -> (res: Vec<EvmPoolV2>)
    ensures
        res@ == mainnet_pool_table(),
{
    vec![
        EvmPoolV2 {
            address: "0x1f0e86bc299cc66df2e5512a7786c3f528c0b5b6",
            token: Some(PoolToken {
                name: "Amazing Pool Liquid Staking",
                symbol: "aZIL",
                decimals: 18,
                address: "0x8a2afd8fe79f8c694210eb71f4d726fc8cafdb31",
            }),
            name: "ZilPay Pool (Avely)",
            hide: false,
            uptime: 100,
            can_stake: true,
        },
        EvmPoolV2 {
            address: "0xcdb0b23db1439b28689844fd093c478d73c0786a",
            token: None,
            name: "2ZilMoon (Make Zilliqa Great Again)",
            hide: false,
            uptime: 100,
            can_stake: true,
        },
        EvmPoolV2 {
            address: "0x068c599686d2511ad709b8b4c578549a65d19491",
            token: None,
            name: "AlphaZil (former Ezil)",
            hide: false,
            uptime: 100,
            can_stake: false,
        },
        EvmPoolV2 {
            address: "0x1311059dd836d7000dc673ea4cc834fe04e9933c",
            token: Some(PoolToken {
                name: "Encapsulate Zilliqa",
                symbol: "encapZIL",
                decimals: 18,
                address: "0x8e3073b22f670d3a09c66d0abb863f9e358402d2",
            }),
            name: "Encapsulate",
            hide: false,
            uptime: 99,
            can_stake: false,
        },
        EvmPoolV2 {
            address: "0x8776f1135b3583dbae79c8f7268a7e0d4c16462c",
            token: None,
            name: "DTEAM",
            hide: false,
            uptime: 99,
            can_stake: false,
        },
        EvmPoolV2 {
            address: "0x63ce81c023bb9f8a6ffa08fcf48ba885c21fcfbc",
            token: None,
            name: "Luganodes",
            hide: false,
            uptime: 99,
            can_stake: false,
        },
        EvmPoolV2 {
            address: "0x715f94264057df97e772ebdfe2c94a356244f142",
            token: None,
            name: "Stakefish",
            hide: false,
            uptime: 99,
            can_stake: false,
        },
        EvmPoolV2 {
            address: "0xbd6ca237f30a86eea8cf9bf869677f3a0496a990",
            token: Some(PoolToken {
                name: "litZil",
                symbol: "litZil",
                decimals: 18,
                address: "0x3b78f66651e2ecabf13977817848f82927a17dcf",
            }),
            name: "Lithium Digital",
            hide: false,
            uptime: 99,
            can_stake: false,
        },
        EvmPoolV2 {
            address: "0xf35e17333bd4ad7b11e18f750afbcce14e4101b7",
            token: None,
            name: "Moonlet",
            hide: false,
            uptime: 99,
            can_stake: false,
        },
        EvmPoolV2 {
            address: "0x691682fca60fa6b702a0a69f60d045c08f404220",
            token: Some(PoolToken {
                name: "PlunderSwap Staked ZIL",
                symbol: "pZIL",
                decimals: 18,
                address: "0xc85b0db68467dede96a7087f4d4c47731555ca7a",
            }),
            name: "PlunderSwap",
            hide: false,
            uptime: 100,
            can_stake: false,
        },
        EvmPoolV2 {
            address: "0xbb2cb8b573ec1ec4f77953128df7f1d08d9c34df",
            token: Some(PoolToken {
                name: "Torch Liquid ZIL",
                symbol: "tZIL",
                decimals: 18,
                address: "0x9e4e0f7a06e50da13c78cf8c83e907f792de54fd",
            }),
            name: "TorchWallet.io",
            hide: false,
            uptime: 99,
            can_stake: false,
        },
        EvmPoolV2 {
            address: "0x87297b0b63a0b93d3f7cafa9e0f4c849e92642eb",
            token: None,
            name: "BlackNodes",
            hide: false,
            uptime: 99,
            can_stake: false,
        },
        EvmPoolV2 {
            address: "0xe5e8158883a37449ae07fe70b69e658766b317fc",
            token: None,
            name: "Shardpool",
            hide: false,
            uptime: 99,
            can_stake: false,
        },
        EvmPoolV2 {
            address: "0x7e3a0aebbf8ec2f12a8a885cd663ee4a490f923f",
            token: None,
            name: "Zillet Staking Pool",
            hide: false,
            uptime: 77,
            can_stake: false,
        },
        EvmPoolV2 {
            address: "0xf7f4049e7472fc32805aae5bcce909419a34d254",
            token: Some(PoolToken {
                name: "StakeShark Staked ZIL",
                symbol: "shZIL",
                decimals: 18,
                address: "0x737ebf814d2c14fb21e00fd2990afc364c2af506",
            }),
            name: "StakeShark",
            hide: false,
            uptime: 98,
            can_stake: false,
        },
        EvmPoolV2 {
            address: "0xd12340c2d5a26e7f5c469b57ee81ee82c8cb7686",
            token: None,
            name: "Citadel.one",
            hide: false,
            uptime: 89,
            can_stake: false,
        },
        EvmPoolV2 {
            address: "0x18925ce668b2bbc26dfe6f630f5c285d46b937ae",
            token: None,
            name: "CEX.IO",
            hide: false,
            uptime: 78,
            can_stake: false,
        },
        EvmPoolV2 {
            address: "0xe67e119dcdc1168ec8089f4647702a72a0fcbc7f",
            token: None,
            name: "PathrockNetwork",
            hide: false,
            uptime: 99,
            can_stake: false,
        },
        EvmPoolV2 {
            address: "0x26322705fcbf5d3065707c408b6594912daa3488",
            token: None,
            name: "Cryptech-Hacken",
            hide: false,
            uptime: 90,
            can_stake: false,
        },
        EvmPoolV2 {
            address: "0x60571e6c6d55109e6705d17956201a0cf39f1198",
            token: None,
            name: "RockX",
            hide: false,
            uptime: 70,
            can_stake: false,
        },
        EvmPoolV2 {
            address: "0xba669cc6b49218624e84920dc8136a05411b1ec8",
            token: None,
            name: "Stakin",
            hide: false,
            uptime: 89,
            can_stake: false,
        },
    ]
}

/// True when the pool `p` is the pool that the token `t` names and `t` is the
/// token that `p` issues: the addresses agree once lowered, and the symbol and
/// decimals are the same.
pub open spec fn pool_issues(p: EvmPoolV2, t: EvmToken) -> bool {
    &&& t.pool matches Some(tp) && p.address@ == ascii_lowercase(tp.address@)
    &&& p.token matches Some(pt) && pt.address@ == ascii_lowercase(t.address@)
        && pt.symbol@ == t.symbol@ && pt.decimals == t.decimals
}

/// Every EVM token that names a staking pool is the token that a pool of the pool
/// list issues.
pub proof fn lemma_pool_tokens_listed()
    ensures
        forall|i: int|
            0 <= i < evm_token_table().len() && (#[trigger] evm_token_table()[i]).pool is Some
                ==> exists|j: int|
                0 <= j < mainnet_pool_table().len() && pool_issues(
                    mainnet_pool_table()[j],
                    evm_token_table()[i],
                ),
{
    let tokens = evm_token_table();
    let pools = mainnet_pool_table();
    assert(tokens.len() == 30);
    assert(pools.len() == 21);
    assert forall|i: int| 0 <= i < tokens.len() && (#[trigger] tokens[i]).pool is Some implies exists|
        j: int,
    | 0 <= j < pools.len() && pool_issues(pools[j], tokens[i]) by {
        if i == 0 {
            reveal_strlit("0x8a2afD8Fe79F8C694210eB71f4d726Fc8cAFdB31");
            reveal_strlit("0x1f0e86Bc299Cc66df2e5512a7786C3F528C0b5b6");
            reveal_strlit("0x1f0e86bc299cc66df2e5512a7786c3f528c0b5b6");
            reveal_strlit("0x8a2afd8fe79f8c694210eb71f4d726fc8cafdb31");
            assert(ascii_lowercase(tokens[0].address@) =~= pools[0].token->0.address@);
            assert(ascii_lowercase(tokens[0].pool->0.address@) =~= pools[0].address@);
            assert(pool_issues(pools[0], tokens[0]));
        }
        if i == 1 {
            assert(tokens[1].pool is None);
        }
        if i == 2 {
            assert(tokens[2].pool is None);
        }
        if i == 3 {
            assert(tokens[3].pool is None);
        }
        if i == 4 {
            assert(tokens[4].pool is None);
        }
        if i == 5 {
            assert(tokens[5].pool is None);
        }
        if i == 6 {
            assert(tokens[6].pool is None);
        }
        if i == 7 {
            assert(tokens[7].pool is None);
        }
        if i == 8 {
            assert(tokens[8].pool is None);
        }
        if i == 9 {
            assert(tokens[9].pool is None);
        }
        if i == 10 {
            reveal_strlit("0x8E3073b22F670d3A09C66D0Abb863f9E358402d2");
            reveal_strlit("0x1311059DD836D7000Dc673eA4Cc834fe04e9933C");
            reveal_strlit("0x1311059dd836d7000dc673ea4cc834fe04e9933c");
            reveal_strlit("0x8e3073b22f670d3a09c66d0abb863f9e358402d2");
            assert(ascii_lowercase(tokens[10].address@) =~= pools[3].token->0.address@);
            assert(ascii_lowercase(tokens[10].pool->0.address@) =~= pools[3].address@);
            assert(pool_issues(pools[3], tokens[10]));
        }
        if i == 11 {
            reveal_strlit("0x3B78f66651E2eCAbf13977817848F82927a17DcF");
            reveal_strlit("0xBD6ca237f30A86eea8CF9bF869677F3a0496a990");
            reveal_strlit("0xbd6ca237f30a86eea8cf9bf869677f3a0496a990");
            reveal_strlit("0x3b78f66651e2ecabf13977817848f82927a17dcf");
            assert(ascii_lowercase(tokens[11].address@) =~= pools[7].token->0.address@);
            assert(ascii_lowercase(tokens[11].pool->0.address@) =~= pools[7].address@);
            assert(pool_issues(pools[7], tokens[11]));
        }
        if i == 12 {
            reveal_strlit("0x737EBf814D2C14fb21E00Fd2990AFc364C2AF506");
            reveal_strlit("0xF7F4049e7472fC32805Aae5bcCE909419a34D254");
            reveal_strlit("0xf7f4049e7472fc32805aae5bcce909419a34d254");
            reveal_strlit("0x737ebf814d2c14fb21e00fd2990afc364c2af506");
            assert(ascii_lowercase(tokens[12].address@) =~= pools[14].token->0.address@);
            assert(ascii_lowercase(tokens[12].pool->0.address@) =~= pools[14].address@);
            assert(pool_issues(pools[14], tokens[12]));
        }
        if i == 13 {
            assert(tokens[13].pool is None);
        }
        if i == 14 {
            assert(tokens[14].pool is None);
        }
        if i == 15 {
            assert(tokens[15].pool is None);
        }
        if i == 16 {
            assert(tokens[16].pool is None);
        }
        if i == 17 {
            assert(tokens[17].pool is None);
        }
        if i == 18 {
            assert(tokens[18].pool is None);
        }
        if i == 19 {
            assert(tokens[19].pool is None);
        }
        if i == 20 {
            assert(tokens[20].pool is None);
        }
        if i == 21 {
            assert(tokens[21].pool is None);
        }
        if i == 22 {
            assert(tokens[22].pool is None);
        }
        if i == 23 {
            assert(tokens[23].pool is None);
        }
        if i == 24 {
            assert(tokens[24].pool is None);
        }
        if i == 25 {
            assert(tokens[25].pool is None);
        }
        if i == 26 {
            reveal_strlit("0xc85b0db68467dede96A7087F4d4C47731555cA7A");
            reveal_strlit("0x691682FCa60Fa6B702a0a69F60d045c08f404220");
            reveal_strlit("0x691682fca60fa6b702a0a69f60d045c08f404220");
            reveal_strlit("0xc85b0db68467dede96a7087f4d4c47731555ca7a");
            assert(ascii_lowercase(tokens[26].address@) =~= pools[9].token->0.address@);
            assert(ascii_lowercase(tokens[26].pool->0.address@) =~= pools[9].address@);
            assert(pool_issues(pools[9], tokens[26]));
        }
        if i == 27 {
            assert(tokens[27].pool is None);
        }
        if i == 28 {
            assert(tokens[28].pool is None);
        }
        if i == 29 {
            assert(tokens[29].pool is None);
        }
    };
}

/// A published token as plain values: address, name, symbol, decimals, and the
/// name and address of its staking pool.
pub open spec fn evm_token_row(t: EvmToken) -> (
    Seq<char>,
    Seq<char>,
    Seq<char>,
    u8,
    Option<(Seq<char>, Seq<char>)>,
) {
    (
        t.address@,
        t.name@,
        t.symbol@,
        t.decimals,
        match t.pool {
            Some(p) => Some((p.name@, p.address@)),
            None => None,
        },
    )
}

/// A published pool as plain values: address, name, the name, symbol, decimals
/// and address of the token it issues, and its `hide`, `uptime` and
/// `can_stake`.
pub open spec fn pool_row(p: EvmPoolV2) -> (
    Seq<char>,
    Seq<char>,
    Option<(Seq<char>, Seq<char>, u8, Seq<char>)>,
    bool,
    u8,
    bool,
) {
    (
        p.address@,
        p.name@,
        match p.token {
            Some(t) => Some((t.name@, t.symbol@, t.decimals, t.address@)),
            None => None,
        },
        p.hide,
        p.uptime,
        p.can_stake,
    )
}

/// The published EVM token list holds these thirty tokens, in this order, each with
/// its address, name, symbol, decimals (zUSDT and XSGD 6, zWBTC and STREAM 8,
/// ...) and staking pool.
pub proof fn lemma_published_evm_tokens()
    ensures
        evm_token_table().map_values(|t: EvmToken| evm_token_row(t)) == seq![
            ("0x8a2afD8Fe79F8C694210eB71f4d726Fc8cAFdB31"@, "Amazing Pool (Avely)"@, "aZIL"@, 18u8, Some(("Amazing Pool - Avely and ZilPay"@, "0x1f0e86Bc299Cc66df2e5512a7786C3F528C0b5b6"@))),
            ("0x17D5af5658A24bd964984b36d28e879a8626adC3"@, "Zilliqa-bridged ETH token"@, "zETH"@, 18u8, None),
            ("0xea87bC6CcaE73bae35693639e22eF30667760F61"@, "Zilliqa-bridged BNB Coin"@, "zBNB"@, 18u8, None),
            ("0x2274005778063684fbB1BfA96a2b725dC37D75f9"@, "Zilliqa-bridged USDT token"@, "zUSDT"@, 6u8, None),
            ("0x2938fF251Aecc1dfa768D7d0276eB6d073690317"@, "Zilliqa-bridged WBTC token"@, "zWBTC"@, 8u8, None),
            ("0x4345472A0c6164F35808CDb7e7eCCd3d326CC50b"@, "Zilliqa-bridged MATIC Token"@, "zMATIC"@, 18u8, None),
            ("0x8DEAdC20f7218994c86b59eE1D5c7979fFcAa893"@, "Zilliqa-bridged OPUL token"@, "zOPUL"@, 18u8, None),
            ("0xD819257C964A78A493DF93D5643E9490b54C5af2"@, "Zilliqa-bridged BRKL token"@, "zBRKL"@, 18u8, None),
            ("0x9121A67cA79B6778eAb477c5F76dF6de7C79cC4b"@, "Zilliqa-bridged TRAXX token"@, "zTRAXX"@, 18u8, None),
            ("0x097C26F8A93009fd9d98561384b5014D64ae17C2"@, "StZIL"@, "stZIL"@, 12u8, None),
            ("0x8E3073b22F670d3A09C66D0Abb863f9E358402d2"@, "Encapsulate Zilliqa"@, "encapZIL"@, 18u8, Some(("Encapsulate"@, "0x1311059DD836D7000Dc673eA4Cc834fe04e9933C"@))),
            ("0x3B78f66651E2eCAbf13977817848F82927a17DcF"@, "litZil"@, "litZil"@, 18u8, Some(("Lithium Digital"@, "0xBD6ca237f30A86eea8CF9bF869677F3a0496a990"@))),
            ("0x737EBf814D2C14fb21E00Fd2990AFc364C2AF506"@, "StakeShark"@, "shZIL"@, 18u8, Some(("StakeShark"@, "0xF7F4049e7472fC32805Aae5bcCE909419a34D254"@))),
            ("0x63B991C17010C21250a0eA58C6697F696a48cdf3"@, "The Winners Circle"@, "HRSE"@, 18u8, None),
            ("0x241c677D9969419800402521ae87C411897A029f"@, "WEB3WAR Token"@, "FPS"@, 12u8, None),
            ("0x598FbD8B68a8B7e75b8B7182c750164f348907Bc"@, "XSGD"@, "XSGD"@, 6u8, None),
            ("0xCcF3Ea256d42Aeef0EE0e39Bfc94bAa9Fa14b0Ba"@, "XCAD Network Token"@, "XCAD"@, 18u8, None),
            ("0xc6F3dede529Af9D98a11C5B32DbF03Bf34272ED5"@, "The GARY Token"@, "GARY"@, 4u8, None),
            ("0x7D2fF48c6b59229d448473D267a714d29F078D3E"@, "ZilStream"@, "STREAM"@, 8u8, None),
            ("0xE9D47623bb2B3C497668B34fcf61E101a7ea4058"@, "Lunr"@, "Lunr"@, 4u8, None),
            ("0x03A79429acc808e4261a68b0117aCD43Cb0FdBfa"@, "Governance ZIL"@, "gZIL"@, 15u8, None),
            ("0x01035e423c40a9ad4F6be2E6cC014EB5617c8Bd6"@, "Zoge Coin"@, "ZOGE"@, 18u8, None),
            ("0x9C3fE3f471d8380297e4fB222eFb313Ee94DFa0f"@, "ZilPepe"@, "ZILPEPE"@, 18u8, None),
            ("0x20Dd5D5B5d4C72676514A0eA1052d0200003d69D"@, "Stellar Void"@, "VOID"@, 12u8, None),
            ("0xbfDe2156aF75a29d36614bC1F8005DD816Bd9200"@, "Zhib Coin"@, "ZHIB"@, 4u8, None),
            ("0xa0A5795e7eccc43Ba92d2A0b7804696F8B9e1a05"@, "dXCAD Token"@, "dXCAD"@, 18u8, None),
            ("0xc85b0db68467dede96A7087F4d4C47731555cA7A"@, "PlunderSwap Staked ZIL"@, "pZIL"@, 18u8, Some(("PlunderSwap"@, "0x691682FCa60Fa6B702a0a69F60d045c08f404220"@))),
            ("0x1202078D298Ff0358A95b6fbf48Ec166dB414660"@, "Proof Of Receipt Token"@, "PORT"@, 4u8, None),
            ("0xc99ECB82a27B45592eA02ACe9e3C42050f3c00C0"@, "UNIFEES"@, "FEES"@, 4u8, None),
            ("0xe64cA52EF34FdD7e20C0c7fb2E392cc9b4F6D049"@, "Kalijo"@, "SEED"@, 18u8, None),
        ],
{
    assert(evm_token_table().map_values(|t: EvmToken| evm_token_row(t)) =~= seq![
            ("0x8a2afD8Fe79F8C694210eB71f4d726Fc8cAFdB31"@, "Amazing Pool (Avely)"@, "aZIL"@, 18u8, Some(("Amazing Pool - Avely and ZilPay"@, "0x1f0e86Bc299Cc66df2e5512a7786C3F528C0b5b6"@))),
            ("0x17D5af5658A24bd964984b36d28e879a8626adC3"@, "Zilliqa-bridged ETH token"@, "zETH"@, 18u8, None),
            ("0xea87bC6CcaE73bae35693639e22eF30667760F61"@, "Zilliqa-bridged BNB Coin"@, "zBNB"@, 18u8, None),
            ("0x2274005778063684fbB1BfA96a2b725dC37D75f9"@, "Zilliqa-bridged USDT token"@, "zUSDT"@, 6u8, None),
            ("0x2938fF251Aecc1dfa768D7d0276eB6d073690317"@, "Zilliqa-bridged WBTC token"@, "zWBTC"@, 8u8, None),
            ("0x4345472A0c6164F35808CDb7e7eCCd3d326CC50b"@, "Zilliqa-bridged MATIC Token"@, "zMATIC"@, 18u8, None),
            ("0x8DEAdC20f7218994c86b59eE1D5c7979fFcAa893"@, "Zilliqa-bridged OPUL token"@, "zOPUL"@, 18u8, None),
            ("0xD819257C964A78A493DF93D5643E9490b54C5af2"@, "Zilliqa-bridged BRKL token"@, "zBRKL"@, 18u8, None),
            ("0x9121A67cA79B6778eAb477c5F76dF6de7C79cC4b"@, "Zilliqa-bridged TRAXX token"@, "zTRAXX"@, 18u8, None),
            ("0x097C26F8A93009fd9d98561384b5014D64ae17C2"@, "StZIL"@, "stZIL"@, 12u8, None),
            ("0x8E3073b22F670d3A09C66D0Abb863f9E358402d2"@, "Encapsulate Zilliqa"@, "encapZIL"@, 18u8, Some(("Encapsulate"@, "0x1311059DD836D7000Dc673eA4Cc834fe04e9933C"@))),
            ("0x3B78f66651E2eCAbf13977817848F82927a17DcF"@, "litZil"@, "litZil"@, 18u8, Some(("Lithium Digital"@, "0xBD6ca237f30A86eea8CF9bF869677F3a0496a990"@))),
            ("0x737EBf814D2C14fb21E00Fd2990AFc364C2AF506"@, "StakeShark"@, "shZIL"@, 18u8, Some(("StakeShark"@, "0xF7F4049e7472fC32805Aae5bcCE909419a34D254"@))),
            ("0x63B991C17010C21250a0eA58C6697F696a48cdf3"@, "The Winners Circle"@, "HRSE"@, 18u8, None),
            ("0x241c677D9969419800402521ae87C411897A029f"@, "WEB3WAR Token"@, "FPS"@, 12u8, None),
            ("0x598FbD8B68a8B7e75b8B7182c750164f348907Bc"@, "XSGD"@, "XSGD"@, 6u8, None),
            ("0xCcF3Ea256d42Aeef0EE0e39Bfc94bAa9Fa14b0Ba"@, "XCAD Network Token"@, "XCAD"@, 18u8, None),
            ("0xc6F3dede529Af9D98a11C5B32DbF03Bf34272ED5"@, "The GARY Token"@, "GARY"@, 4u8, None),
            ("0x7D2fF48c6b59229d448473D267a714d29F078D3E"@, "ZilStream"@, "STREAM"@, 8u8, None),
            ("0xE9D47623bb2B3C497668B34fcf61E101a7ea4058"@, "Lunr"@, "Lunr"@, 4u8, None),
            ("0x03A79429acc808e4261a68b0117aCD43Cb0FdBfa"@, "Governance ZIL"@, "gZIL"@, 15u8, None),
            ("0x01035e423c40a9ad4F6be2E6cC014EB5617c8Bd6"@, "Zoge Coin"@, "ZOGE"@, 18u8, None),
            ("0x9C3fE3f471d8380297e4fB222eFb313Ee94DFa0f"@, "ZilPepe"@, "ZILPEPE"@, 18u8, None),
            ("0x20Dd5D5B5d4C72676514A0eA1052d0200003d69D"@, "Stellar Void"@, "VOID"@, 12u8, None),
            ("0xbfDe2156aF75a29d36614bC1F8005DD816Bd9200"@, "Zhib Coin"@, "ZHIB"@, 4u8, None),
            ("0xa0A5795e7eccc43Ba92d2A0b7804696F8B9e1a05"@, "dXCAD Token"@, "dXCAD"@, 18u8, None),
            ("0xc85b0db68467dede96A7087F4d4C47731555cA7A"@, "PlunderSwap Staked ZIL"@, "pZIL"@, 18u8, Some(("PlunderSwap"@, "0x691682FCa60Fa6B702a0a69F60d045c08f404220"@))),
            ("0x1202078D298Ff0358A95b6fbf48Ec166dB414660"@, "Proof Of Receipt Token"@, "PORT"@, 4u8, None),
            ("0xc99ECB82a27B45592eA02ACe9e3C42050f3c00C0"@, "UNIFEES"@, "FEES"@, 4u8, None),
            ("0xe64cA52EF34FdD7e20C0c7fb2E392cc9b4F6D049"@, "Kalijo"@, "SEED"@, 18u8, None),
    ]);
}

/// The published mainnet pool list holds these twenty-one pools, in this order.
pub proof fn lemma_published_pools()
    ensures
        mainnet_pool_table().map_values(|p: EvmPoolV2| pool_row(p)) == seq![
            ("0x1f0e86bc299cc66df2e5512a7786c3f528c0b5b6"@, "ZilPay Pool (Avely)"@, Some(("Amazing Pool Liquid Staking"@, "aZIL"@, 18u8, "0x8a2afd8fe79f8c694210eb71f4d726fc8cafdb31"@)), false, 100u8, true),
            ("0xcdb0b23db1439b28689844fd093c478d73c0786a"@, "2ZilMoon (Make Zilliqa Great Again)"@, None, false, 100u8, true),
            ("0x068c599686d2511ad709b8b4c578549a65d19491"@, "AlphaZil (former Ezil)"@, None, false, 100u8, false),
            ("0x1311059dd836d7000dc673ea4cc834fe04e9933c"@, "Encapsulate"@, Some(("Encapsulate Zilliqa"@, "encapZIL"@, 18u8, "0x8e3073b22f670d3a09c66d0abb863f9e358402d2"@)), false, 99u8, false),
            ("0x8776f1135b3583dbae79c8f7268a7e0d4c16462c"@, "DTEAM"@, None, false, 99u8, false),
            ("0x63ce81c023bb9f8a6ffa08fcf48ba885c21fcfbc"@, "Luganodes"@, None, false, 99u8, false),
            ("0x715f94264057df97e772ebdfe2c94a356244f142"@, "Stakefish"@, None, false, 99u8, false),
            ("0xbd6ca237f30a86eea8cf9bf869677f3a0496a990"@, "Lithium Digital"@, Some(("litZil"@, "litZil"@, 18u8, "0x3b78f66651e2ecabf13977817848f82927a17dcf"@)), false, 99u8, false),
            ("0xf35e17333bd4ad7b11e18f750afbcce14e4101b7"@, "Moonlet"@, None, false, 99u8, false),
            ("0x691682fca60fa6b702a0a69f60d045c08f404220"@, "PlunderSwap"@, Some(("PlunderSwap Staked ZIL"@, "pZIL"@, 18u8, "0xc85b0db68467dede96a7087f4d4c47731555ca7a"@)), false, 100u8, false),
            ("0xbb2cb8b573ec1ec4f77953128df7f1d08d9c34df"@, "TorchWallet.io"@, Some(("Torch Liquid ZIL"@, "tZIL"@, 18u8, "0x9e4e0f7a06e50da13c78cf8c83e907f792de54fd"@)), false, 99u8, false),
            ("0x87297b0b63a0b93d3f7cafa9e0f4c849e92642eb"@, "BlackNodes"@, None, false, 99u8, false),
            ("0xe5e8158883a37449ae07fe70b69e658766b317fc"@, "Shardpool"@, None, false, 99u8, false),
            ("0x7e3a0aebbf8ec2f12a8a885cd663ee4a490f923f"@, "Zillet Staking Pool"@, None, false, 77u8, false),
            ("0xf7f4049e7472fc32805aae5bcce909419a34d254"@, "StakeShark"@, Some(("StakeShark Staked ZIL"@, "shZIL"@, 18u8, "0x737ebf814d2c14fb21e00fd2990afc364c2af506"@)), false, 98u8, false),
            ("0xd12340c2d5a26e7f5c469b57ee81ee82c8cb7686"@, "Citadel.one"@, None, false, 89u8, false),
            ("0x18925ce668b2bbc26dfe6f630f5c285d46b937ae"@, "CEX.IO"@, None, false, 78u8, false),
            ("0xe67e119dcdc1168ec8089f4647702a72a0fcbc7f"@, "PathrockNetwork"@, None, false, 99u8, false),
            ("0x26322705fcbf5d3065707c408b6594912daa3488"@, "Cryptech-Hacken"@, None, false, 90u8, false),
            ("0x60571e6c6d55109e6705d17956201a0cf39f1198"@, "RockX"@, None, false, 70u8, false),
            ("0xba669cc6b49218624e84920dc8136a05411b1ec8"@, "Stakin"@, None, false, 89u8, false),
        ],
{
    assert(mainnet_pool_table().map_values(|p: EvmPoolV2| pool_row(p)) =~= seq![
            ("0x1f0e86bc299cc66df2e5512a7786c3f528c0b5b6"@, "ZilPay Pool (Avely)"@, Some(("Amazing Pool Liquid Staking"@, "aZIL"@, 18u8, "0x8a2afd8fe79f8c694210eb71f4d726fc8cafdb31"@)), false, 100u8, true),
            ("0xcdb0b23db1439b28689844fd093c478d73c0786a"@, "2ZilMoon (Make Zilliqa Great Again)"@, None, false, 100u8, true),
            ("0x068c599686d2511ad709b8b4c578549a65d19491"@, "AlphaZil (former Ezil)"@, None, false, 100u8, false),
            ("0x1311059dd836d7000dc673ea4cc834fe04e9933c"@, "Encapsulate"@, Some(("Encapsulate Zilliqa"@, "encapZIL"@, 18u8, "0x8e3073b22f670d3a09c66d0abb863f9e358402d2"@)), false, 99u8, false),
            ("0x8776f1135b3583dbae79c8f7268a7e0d4c16462c"@, "DTEAM"@, None, false, 99u8, false),
            ("0x63ce81c023bb9f8a6ffa08fcf48ba885c21fcfbc"@, "Luganodes"@, None, false, 99u8, false),
            ("0x715f94264057df97e772ebdfe2c94a356244f142"@, "Stakefish"@, None, false, 99u8, false),
            ("0xbd6ca237f30a86eea8cf9bf869677f3a0496a990"@, "Lithium Digital"@, Some(("litZil"@, "litZil"@, 18u8, "0x3b78f66651e2ecabf13977817848f82927a17dcf"@)), false, 99u8, false),
            ("0xf35e17333bd4ad7b11e18f750afbcce14e4101b7"@, "Moonlet"@, None, false, 99u8, false),
            ("0x691682fca60fa6b702a0a69f60d045c08f404220"@, "PlunderSwap"@, Some(("PlunderSwap Staked ZIL"@, "pZIL"@, 18u8, "0xc85b0db68467dede96a7087f4d4c47731555ca7a"@)), false, 100u8, false),
            ("0xbb2cb8b573ec1ec4f77953128df7f1d08d9c34df"@, "TorchWallet.io"@, Some(("Torch Liquid ZIL"@, "tZIL"@, 18u8, "0x9e4e0f7a06e50da13c78cf8c83e907f792de54fd"@)), false, 99u8, false),
            ("0x87297b0b63a0b93d3f7cafa9e0f4c849e92642eb"@, "BlackNodes"@, None, false, 99u8, false),
            ("0xe5e8158883a37449ae07fe70b69e658766b317fc"@, "Shardpool"@, None, false, 99u8, false),
            ("0x7e3a0aebbf8ec2f12a8a885cd663ee4a490f923f"@, "Zillet Staking Pool"@, None, false, 77u8, false),
            ("0xf7f4049e7472fc32805aae5bcce909419a34d254"@, "StakeShark"@, Some(("StakeShark Staked ZIL"@, "shZIL"@, 18u8, "0x737ebf814d2c14fb21e00fd2990afc364c2af506"@)), false, 98u8, false),
            ("0xd12340c2d5a26e7f5c469b57ee81ee82c8cb7686"@, "Citadel.one"@, None, false, 89u8, false),
            ("0x18925ce668b2bbc26dfe6f630f5c285d46b937ae"@, "CEX.IO"@, None, false, 78u8, false),
            ("0xe67e119dcdc1168ec8089f4647702a72a0fcbc7f"@, "PathrockNetwork"@, None, false, 99u8, false),
            ("0x26322705fcbf5d3065707c408b6594912daa3488"@, "Cryptech-Hacken"@, None, false, 90u8, false),
            ("0x60571e6c6d55109e6705d17956201a0cf39f1198"@, "RockX"@, None, false, 70u8, false),
            ("0xba669cc6b49218624e84920dc8136a05411b1ec8"@, "Stakin"@, None, false, 89u8, false),
    ]);
}

} // verus!
