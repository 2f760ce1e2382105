# cc_loadout

The logic of a terminal hub that manages a coding assistant's accounts and plugins: it
switches between accounts, keeps their usage windows warm, runs scheduled tasks, and
sorts plugins into profiles that apply to the repos their rules match.

`src/` is a Verus library. Every function in it has a contract over mathematical models
of the types, and Verus proves it.

- `profile/` holds the configuration, the rules and how they decide, which plugins a repo
  should have, and what has drifted.
- `tui/` holds the tabs and the hub. Each tab is a state machine: a key takes a state to
  the next one and may ask for an action. What is drawn is a function of the state. Work
  that takes time is named by the hub and performed elsewhere; its outcome comes back.
- `util/` merges into a JSON object through `serde_json`, and says when to start a program
  again.
- `list.rs`, `namemap.rs` and `text.rs` are what the rest is built on.

Public proof functions state what holds of the library as a whole.

A few functions call code that Verus does not read: `serde_json` in `util/jsonmerge.rs`,
ratatui's layout in `tui/layout.rs`, and two functions of the standard library in
`text.rs`. Their doc comments say what is believed of that code.

`app/` is ordinary Rust around the library: the terminal, threads, files, and a trait for
the stores that it reads and writes. `tests/` runs the library.
