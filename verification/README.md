# centichain

The relay node of the Centichain network: it connects validators with each other,
checks the blocks and wallet transactions they exchange, keeps the ledger of unspent
outputs, and answers wallets over RPC.

- `src/` is the verified library. Every public function there carries a contract that Verus
  proves: block, coinbase and reward checks (`block`, `validation`, `chain`), wallet
  transactions and their receipts (`transaction`, `receipts`), the unspent-output
  ledger (`ledger`), the relay's view of the network and its answers to network events
  (`node`, `practical`, `routing`, `addresses`, `validators`), and the helpers they
  share (`text`, `hashing`, `amount`, `crypto`, `messages`). Calls into sha2,
  rust_decimal, sp-core, libp2p and rand sit behind small trusted wrappers whose
  contracts name what the outside function returns.
- `tests/` runs the library on concrete values, with the real outside crates linked.
- `app/` is the program around the library: the libp2p swarms, MongoDB, files, HTTP and
  the RPC server. It turns network and database values into the library's plain values,
  asks the library what to do, and does it.
