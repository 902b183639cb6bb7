# qax

Qt 6 bindings for Rust, with the decision-making parts proved correct by
Verus.

- `src/` is the verified library:
  - `ui` — the declarative element tree and its builders, the reconciler that
    turns a fresh tree into the exact list of widget operations
    (`reconcile`), the component runtime (`runtime`), the message queue
    (`dispatch`), canvases, menus and timers;
  - `i18n` — `tr!` extraction from Rust source, Qt Linguist `.ts` reading,
    writing and merging;
  - `qt_build` — what a build compiles and where Qt's tools are found;
  - `cli` — the `cargo qax` command line;
  - `reactive` — observable properties.
- `app/` is the native side: the Qt shim's entry points, the executor that
  performs the reconciler's operations on live widgets, the QML engine and
  model handles, dialogs, and the build-script and `cargo qax` drivers.
- `tests/` exercises the library on concrete values.
