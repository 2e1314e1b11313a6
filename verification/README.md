# sandbox-toolkit

An HTTP server that gives programs safe access to a directory — reading
files, searching a tree with globs, running commands and interactive
terminals, discovering agent skills (each also reachable as a read-only
workspace) and checking plugin packages — with its decisions proved correct in Verus.
The other file operations (writes, directory and symlink creation, metadata
patches, truncation, deletion, copies and moves) have their checks proved in
the library, while the `/fs` endpoint still answers them `not_implemented`.

## Layout

- `src/` — the verified library. Every rule the server applies lives here with
  a contract: the workspace registry and its id rule, path normalization and
  the workspace boundary, address decoding, the `type` dispatch and error
  envelope of the API, the line windows of file reads, directory listings and
  glob searches, the exec and terminal frame codecs, the order of an exec stream (output,
  then one status once the exit and both pipes are in), command planning and
  output summaries, process-group signalling, skill addressing, plugin
  archive reading and the plugin report and the materialization checks of the bundled tools.
  Calls into outside crates (`bytes`, `ropey`, `globset`, `percent-encoding`,
  `sha1`, `base64`, `blake3`, `zstd`, `chrono`, `mime_guess`, `tar`, `flate2`,
  `agent-plugins`) go through small
  trusted wrappers whose contracts say what the crates document.
- `tests/` — tests of the library on concrete values.
- `app/` — the server itself: argument parsing, the axum routes, and the
  reads of files and directories, the running of processes and terminals, each handing
  plain values to the library and acting on its answers.
