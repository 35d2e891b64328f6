//! Building blocks of a token price service: hexadecimal address text,
//! Ethereum ABI words for the Uniswap V2 factory and pair contracts,
//! JSON-RPC batch planning, and the token list routes.

pub mod hexcodec;
pub mod decimal;
pub mod error;
pub mod abi;
pub mod address;
pub mod rpc;
pub mod routes;
pub mod catalog;
