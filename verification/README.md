# ssync

Management of many hosts over SSH: snapshots of their state, commands and
scripts on all of them at once, and files that are kept in step. What the
program decides and computes is a verified library; connections, files, the
database and the terminal are ordinary Rust around it.

## Layout

- `src/`: the library, verified with Verus.
  - `config/`: the configuration file, the user's SSH configuration, paths.
  - `host/`: which hosts are meant, how they are reached, what is known of them.
  - `metrics/`: the commands that ask a host for its state, and the reading of
    the answers.
  - `commands/`: what each command does with the answers: checks, stored
    snapshots, commands, scripts, imports, the log, and `sync/`, which decides
    which host's version of a file goes where.
  - `output/`: lines, summaries and report files.
  - `state/`: the form of the database.
  - `tui/`: the interface as a machine that takes keys and events and says what
    to draw and to do.
  - `text.rs`, `scan.rs`, `order.rs`, `lookup.rs`, `path_parts.rs`: texts,
    searching in them, their order, maps by text, parts of paths.
- `tests/`: the library on concrete values.
- `app/`: the program.

## Contracts

Texts are modelled as sequences of characters, lists of texts as sequences of
those. Each function states what it returns over such values; where several
functions keep a promise together, it stands as a public proof function under
"Laws" at the end of the module.

What is believed rather than proved is marked `external_body` or
`assume_specification` and says in its doc comment which outside function it
speaks of: hashing (blake3), dates (chrono), nested JSON numbers (serde_json),
the settings table of a TOML document (toml_edit), display widths
(unicode-width), the login name (whoami), and a few functions of the standard
library on texts and paths.
