# otw_core

The decision-making core of the OpenTraderWorld server, written in Verus: every public
function carries a contract that Verus proves, and the laws the library promises stand as
public proof functions beside the code they are about.

- `src/live`: live market data — which socket and channel an instrument rides, how each
  venue's handshake, refusals and rollovers are read, how trades fold into candles, and how
  the hub shares, seeds and tears down subscriptions.
- `src/mailbox`: mail hygiene — parsing, sanitising and parking remote images, what a poll
  fetches, the OAuth sign-in steps and the mailbox forms.
- `src/mcp`: the agent gateway — the allowlisted catalog, permission levels, the JSON-RPC
  request reading and the shaping of large responses.
- `src/access`, `src/network`, `src/checks`, `src/mportfolios`: sign-in rules, network
  settings, request validators and the holdings-page parser.
- `app/`: a small command line around the library (file reading, serde, floating-point
  candle values).
- `tests/`: the behaviour, on concrete values, with the real outside crates linked.

Verify with Verus on `src/lib.rs`; the outside crates it calls are listed in `Cargo.toml`,
and each call goes through a small trusted wrapper whose contract says what it relies on.
