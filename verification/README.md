# rustcast

The logic of a launcher window, verified with Verus: the index of apps and its search, the ranking
of apps, the clipboard history, the file search, the notice of new releases, and what the window is
told of keys and of other windows.

- `src/` is the library. Each function states in its contract what it returns or changes, and the
  properties that span functions stand beside them as public proof functions. `src/parallel.rs`,
  `src/icons.rs`, `src/release.rs` and `src/text.rs` hold the calls into `rayon`, `image`,
  `serde_json` and the standard library whose contracts are taken on trust.
- `tests/` runs the library on concrete values.
- `app/` is ordinary Rust around it: the subscriptions, the channels, the network, the clipboard, the
  widgets and, on macOS, the metadata query.
