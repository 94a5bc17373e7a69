# zcash_mempool_visualizer

A terminal monitor for a Zcash node's mempool. Every few seconds it asks the
node (over JSON-RPC) for the mempool, classifies each transaction by the way
value moves between the transparent and the shielded (Sprout, Sapling,
Orchard) pools, and keeps running statistics of everything seen since start-up.

- `src/` is the verified library (Verus):
  - `pools.rs`: which pools a transaction touches, its pool label and net balances;
  - `flow.rs`: the flow types, their labels, and the classification;
  - `labels.rs`: laws tying flow types to their labels and to the pool labels;
  - `history.rs`: the running statistics (each txid counted once), their rows
    and group totals, and the monitor's start height;
  - `rpc.rs`: the JSON-RPC calls made to the node, in batches;
  - `cookie.rs`: reading credentials from a cookie file, and where to look for one.
- `app/main.rs` is the program: arguments, HTTP, JSON decoding, the refresh
  loop, and the screen and file output (percentages and ZEC amounts are
  floating point, so they are computed there).
- `tests/` exercises the library on concrete values.
