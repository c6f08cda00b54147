# navgator

The logic of the NavGator browser as a library verified with Verus: addresses and the address bar,
tabs, panes and windows, settings, history and bookmarks, syncing, saved logins and the credential
firewall, permissions, dialogs, user scripts and their bridge, request filtering, the
record-and-replay archive, and the browser's own `gator://` pages.

- `src/` is the library. Every executable function states what it returns or changes; proof functions
  without a caller state laws that hold across functions.
- `tests/` runs the library on concrete values, with the outside crates linked.
- `app/` is ordinary Rust around it: files, the network, the keyring, other browsers' databases, and
  the drawing of the chrome. The page engine comes in through a trait.

What is taken on trust stands beside the calls it is about: `address.rs` (`url`), `json.rs`
(`serde_json`), `i18n.rs` (`fluent-bundle`, `unic-langid`), `blocking.rs` (`adblock`), `favicon.rs`
(`png`), and `unicode.rs` and `text.rs` (the standard library).
