# ergo_node

Verified core rules of an Ergo node, written in Verus.

- `src/emission.rs`: the emission schedule. The miner reward at a height, the
  coins issued up to a height (capped at the total supply), the emission
  summary of a height, and the laws that relate them.
- `src/ordering.rs`: the weighted priority order of memory-pool
  transactions (higher weight first, then by ID), the fee per factor and its
  reconstruction, the fee-ordering entries, and the order laws.
- `src/byte_order.rs`: the lexicographic order of byte strings that breaks
  ties between equal weights, with its order laws.
- `app/lib.rs`: the HTTP handlers (axum, serde), and the floating-point fee
  per byte with the fee-per-byte order built on it.
