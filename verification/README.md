# xlmate

Chess matches with stakes on the Stellar ledger.

- `src/` is the verified library.
  - `event_listener`, `poll`, `paging`, `topic`, `signal`, `channel`: matches are
    registered by the contract that holds their stake; polled events move the cursor,
    and the first event that confirms the stake of a match starts it and
    announces it to its subscribers, once.
  - `listener_laws`: what holds of the listener as a whole.
  - `game`: the game contract as a state machine over plain values. Calls change the
    state and list the token transfers that they bring about; wagers are kept in
    escrow until a draw, a forfeit, a payout or a tournament.
  - `game/laws`: what holds of the contract as a whole.
- `app/` is what surrounds the library: the polling worker that talks to Horizon, and
  the contract with its storage, authorization and token transfers.
- `tests/` runs the library together with the crates that it calls.

The library trusts the contracts of a few outside calls. They stand in `channel`
(`tokio` broadcast channels) and `topic` (`base64`, `String::from_utf8_lossy`).
