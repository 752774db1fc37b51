# bintui

`bintui` publishes local executables ("Targets") under stable Command Names. A Registration ties a
name to a Target; an enabled Registration is published as a symbolic link in one managed directory,
the Managed Link. The Registry is a TOML file, and where it lies in a Git worktree each change of it
is committed and pushed.

The library decides and computes; it performs no I/O. Operations are state machines: each says what
it wants done (`request`, `query` or a phase), takes what came of it (`advance`), and gives its
result at the end (`outcome`). Every function is verified with Verus against the contract above its
body.

## Layout

- `src/path.rs`, `src/text.rs`, `src/order.rs`, `src/views.rs`: paths as byte strings, text,
  sorting, and the mathematical views that contracts speak of.
- `src/environment.rs`, `src/configuration.rs`, `src/host.rs`: what the library is told of a process
  and its file system.
- `src/model.rs`: Registrations, what is observed of them, and results.
- `src/registry.rs`, `src/discovery_ignore.rs`, `src/atomic_write.rs`, `src/config_git.rs`: the
  files, how they are replaced, and how changes reach Git.
- `src/application.rs`, `src/lifecycle.rs`, `src/listing.rs`, `src/search.rs`, `src/discovery.rs`,
  `src/patterns.rs`: the operations.
- `src/cli.rs`, `src/tui.rs`, `src/screen.rs`, `src/theme.rs`, `src/terminal.rs`: what the user sees
  and does.
- `src/configuration_laws.rs`, `src/write_laws.rs`, `src/lifecycle_laws.rs`, `src/link_laws.rs`,
  `src/listing_laws.rs`, `src/search_laws.rs`, `src/discovery_laws.rs`, `src/tui_laws.rs`:
  properties that span several functions.
- `app/`: the `bin` command around the library, with all I/O.
- `tests/`: tests of the library.

## What is taken on trust

Matching of ignore patterns (`ignore`), the division of a screen and the width of text (`ratatui`),
and a few functions of the standard library on strings are called through small wrappers. Their
contracts, stated beside them in `patterns.rs`, `screen.rs` and `text.rs`, are not proved.
