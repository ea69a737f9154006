# rspack_plugins

Verified models of a few rspack bundler plugins, written in Verus.

- `src/external.rs` — the externals plugin: how a configured value (string,
  list, boolean or object) becomes an external module, and the resolution of a
  request against the configured entries, as a step function that asks the
  caller to run user functions.
- `src/modern_module.rs` — the `modern-module` library plugin: its options,
  the ESM `export` statement of the entry module, its chunk hash, its hooks,
  the modules it concatenates by themselves and (with `src/module_graph.rs`)
  the rewriting of dynamic imports of external modules.
- `src/dependency.rs` — dependency identities and the code that the
  dependency templates emit.
- `src/drive.rs` — the hooks of JavaScript modules plugins and the drive that
  runs them in order.
- `src/strict_plugin.rs`, `src/identifier.rs`, `src/runtime.rs`,
  `src/pattern.rs`, `src/text.rs`, `src/plugin.rs` — the strict-mode parser
  plugin, identifiers, runtimes and module sets, regular expressions (through
  the `regex` crate), character-level string helpers, hooks and errors.
- `app/lib.rs` — runs the externals resolution with asynchronous user
  functions.
