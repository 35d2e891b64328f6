# dex_tokens

A verified core for a token price and listing service.

- `src/` is checked by Verus:
  - `hexcodec`: hexadecimal text as the `hex` crate reads and writes it;
  - `decimal`: unsigned decimal numbers as `str::parse` reads them and `Display` writes them;
  - `abi`: the ABI words of the Uniswap V2 `getPair`, `getReserves` and `token0` calls;
  - `address`: addresses as `0x`-prefixed text;
  - `rpc`: the two JSON-RPC batches of a price lookup, the reading of their replies, and the order in which nodes are tried;
  - `routes`: the decisions of the token routes (query paging, lookup by symbol, the reading of an update body and its application);
  - `catalog`: the published lists of EVM tokens and staking pools;
  - `error`: the error of a price lookup.
- `app/` holds the HTTP side: the `reqwest` calls to the Ethereum nodes, the floating-point price, and the `hyper` handlers.
- `tests/` runs the library on concrete values.
