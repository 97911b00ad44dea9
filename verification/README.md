# multisig_mint

A mint contract for CosmWasm in which a fixed list of signers approves mint
requests and the owner of a request carries it out once.

- `src/` is the verified library: the decisions of each entry point
  (`contract.rs`), the messages, stored records and errors, and `model.rs`,
  a mathematical model of the contract's storage with the properties that
  every reachable storage keeps.
- `app/` holds the entry points: they read the chain's storage, hand what
  they read to the library, write what it decides and build the response.
- `tests/` runs the library on concrete values, including whole sequences
  of requests over an in-memory storage.
