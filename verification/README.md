# kodade_cli

The command-line client of Ködade, a terminal workspace for coding agents: tabs
and panes that live in a daemon, agents whose state is watched, machines that are
reached over SSH.

- `src/` is the library, verified with Verus. Every decision of the client stands
  there as a function on plain values with a contract: key and mouse handling, the
  step machines behind the subcommands, routing between machines, the layout of
  what is drawn, the files that are read and written. The functions named `law_..`
  state what holds across several of them.
- `app/` is the program around it: argument parsing, sockets, processes, files, the
  terminal.
- `tests/` holds the tests.

What the library takes on trust from other crates is marked
`#[verifier::external_body]` or `assume_specification`, each with a comment that
says what is claimed. These stand in `text.rs`, `commands.rs`, `graphics.rs`,
`image_paste.rs`, `help.rs`, `integrations.rs`, `remote_prepare.rs` and
`render.rs`.
