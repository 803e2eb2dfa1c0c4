# mini_games_server

Game logic of a small multiplayer game server (snake, tic-tac-toe, stack
attack, and the settings checks of 2048 and numbers match), written in Verus
with contracts proved by the verifier.

Layout:

- `src/` — the verified library.
  - `tictactoe/` — board queries, win detection, the game state, and the
    minimax bot. `incremental.rs` proves that the bot's incremental score of a
    move equals the change of the static evaluation, which the search relies on.
  - `snake/` — the snake game state, its tick, start positions and bots.
  - `stack_attack/` — workers' start places, scoring, pacing and crane
    spawning of stack attack.
  - `replay/` — replay commands, the playback state machine, replaying
    recorded actions, and the states shown to viewers.
  - `connection.rs`, `connection_tracker.rs`, `game_stream.rs` — what a
    client connection does with each message, which streams are open, and
    the steps of a snake session's game stream and state feed.
  - `sessions.rs`, `game_over.rs` — the registry of running sessions and the
    steps that close a finished game: scores, recipients, replay file, the
    lobby's vote to play again, and the removal of the session.
  - `session_rng.rs` — seeded randomness (calls into `rand`).
  - `identifiers.rs`, `lobby.rs`, `config.rs`, `text.rs`, `proto/` — shared
    identifiers, members, configuration sources and wire records.
- `tests/` — tests run against the compiled library.
- `app/` — the process around the library: command-line options, logging,
  configuration files, the async driver of replays, and the drivers that run
  the game stream and game-over steps against the server's services.
