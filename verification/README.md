# dropset

The verified core of the Dropset order book interface, written in Verus.

- `src/price`: eight-digit price mantissas with biased base-10 exponents packed in a `u32`, and
  the conversion of order parameters into atom amounts and an encoded price.
- `src/state`: the market account layout. A header and fixed-size sectors hold three doubly
  linked lists (seats, bids, asks) and a free stack; `market.rs` models them as disjoint chains of
  sector indices, which every list and stack operation keeps well formed. Bids and asks stay in
  price-time priority order.
- `src/instructions`, `src/events`, `src/pack.rs`: instruction tags and instruction data layouts.
- `src/tag_codegen.rs`: the discriminant logic behind generated `try_from_u8` functions.
- `app/`: the parts that talk to the Solana runtime (cross-program invocation, syscalls, account
  ownership), float conversions of prices, and `syn`/`quote` code generation.
