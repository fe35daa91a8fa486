# witnet_chain

Chain management for a Witnet node, verified with Verus.

- `src/chain_manager.rs`: the chain manager, its model (`ChainManagerView`) and its operations.
- `src/laws.rs`: what holds over several operations, as proof functions over the model.
- `src/chain.rs`, `src/hash.rs`: blocks, transactions, announcements and their hashes.
- `src/hash_index.rs`: a map and a set keyed by hashes.
- `src/messages.rs`, `src/error.rs`: requests, answers and errors.
- `src/wallet_state.rs`: what a wallet keeps in memory.
- `app/`: the chain manager as an actix actor, which sends the requests.
- `tests/`: tests of the library.

The library trusts nothing beyond Verus and `vstd`: no item of it is accepted without proof.
