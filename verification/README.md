# oppai

The verified core of a points-game engine and its game server, written in Verus.

- `src/cli.rs` — the command-line grammar: the options, their defaults, the
  `NegaScout` group and the exact choice names, read from the program arguments.
- `src/config.rs` — the engine settings: the choice types, the defaults, and reading
  the command-line values into a configuration.
- `src/construct_field.rs` — reading a field image (a text picture of a position)
  into its size and ordered moves.
- `src/db.rs` — players signing in with OpenID Connect: the decisions of the
  sign-in transaction, and the ids of test players.
- `src/server.rs` — the lobby of open and started games and the requests of
  connected players.
- `src/player.rs`, `src/text.rs` — the two sides of a game; text helpers.

`app/` holds the server program around the library: reading the arguments, the
database queries, the websocket connections and the floating-point settings.
