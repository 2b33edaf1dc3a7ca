# ln_dlc

The money side of trading contracts in lightning channels.

`src/` is a library whose functions are verified with Verus. It decides and computes; it does no I/O.

- `fees`, `amounts`: the fees that a channel's transactions have taken, and what each party gets when
  the channel is reverted.
- `channel`, `chain`: channels, and transactions with their witnesses.
- `notification`, `confirmation`: the two flows that revert a channel, from what came of one step to
  the next step.
- `coins`, `keys`, `history`, `ln_dlc_wallet`: choosing and locking outputs, keys and signatures, the
  order of the transaction history, and the wallet with its address cache.
- `cli`, `error`, `text`: options, errors and how values are written.

`app/` performs the steps: it talks to the database, the node, the blockchain and the trader, and
hands back what came of it. `tests/` runs the library together with the crates that it calls.
