# kestrelc (verified driver core)

The driver logic of the Kestrel compiler, written in Verus and proved
against its contracts.

- `src/` — the verified library:
  - `modules` — module discovery for `use name;` (looked up as `name.kes`
    next to the importing file), with cycle detection and repeated imports
    discovered once; a state machine that asks its caller for canonical
    paths, file contents and file existence.
  - `debounce` — coalescing a burst of change notifications into one signal.
  - `waits` — one wait on the notification channel and the record of it.
  - `watch`, `rebuild`, `jit` — `kestrelc watch`: the checks before watching,
    which events trigger a rebuild, the in-process JIT attempt and the
    fallback to compiling with the `kestrelc` executable.
  - `output`, `error`, `text` — what is written to the terminal, compile
    errors, decimal rendering.
  - `web` — the browser shim's UTF-8 check and 9-byte result header.
  - `devtool` — the dev server's routing, statuses and content types.
- `app/` — the I/O around it: file system, terminal, child processes, the
  `notify` watcher, the `tiny_http` server and the shim's linear memory.
  The compiler stages themselves are supplied by the embedding program.
- `tests/` — scenario tests of the library.
