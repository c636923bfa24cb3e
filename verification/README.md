# gameday

A terminal sports board's data side, verified with Verus: the scoreboard
merge and its cuts, favorite alerts, the board's sections, tier budget and
window, the header and footer that shed to fit, the `:` commands and the `/`
filter, TV mode's state, the config and pin rules, and the captured-screen
formats.

- `src/` — the library. Its public functions state in their `ensures` what
  they return; where a part of the result comes from an outside crate and
  takes more than a few lines to state (a path joined by `std`, Unicode
  case), the contract names that part and states the rest. The laws that
  span functions are public proof functions (`lemma_*`). `session.rs` is the door a scoreboard or a summary comes in
  by; `merge.rs`, `alerts.rs`, `cut.rs` and `net.rs` are what reacts to it;
  `derive.rs`, `order.rs`, `layout.rs` and `board.rs` lay the board out and
  `rows.rs` fills each row's cells; `chrome.rs` and
  `footer.rs` fit the header and footer rows; `frame.rs` places them, the
  lane and a cut; `keys.rs` decides what a key press does; `command.rs` and
  `filter.rs` read what the viewer types.
- `tests/` — the library run on concrete boards.
- `app/` — the program: arguments, the config directory, reading and
  writing `config.toml` and `pins.json`.

Verify with `verus` on `src/lib.rs`; the outside crates are `time`, `serde`,
`serde_json`, `toml` and `thiserror`.
