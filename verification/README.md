# bim_business

The business server of the game Bim!: accounts and sessions of the players,
their wallets of coins, the shop and the inventory of game features, the
registry of game servers, the bookkeeping of games and their rewards, and the
administration of all of it.

## Layout

- `src/` is the library, written in Verus. Every function there carries a
  contract that Verus proves: the rules of the service (who is rewarded at the
  end of a game, when a coin transaction is refused, which game servers a
  client is offered, how a session expires, how a purchase is checked), the
  statements sent to the database, and the lemmas that hold across operations
  (a wallet never goes below zero, a game server that keeps notifying stays
  available, a ranking lists each player once).
- `app/` is the service around the library: the HTTP routes, the database
  pool and the calls to the Play Store. It reads and writes, and leaves each
  decision to the library.
- `tests/` runs the library on concrete values.

Calls into other crates that the library makes (the SQLSTATE of a database
error, random bytes, base64) go through a few wrappers whose contracts are
stated in their doc comments.
