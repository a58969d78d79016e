# lune

A standalone Luau script runtime, written in Verus.

- `src/` is the library: the command line's plan, finding scripts, the
  bookkeeping of a running script, the interactive prompt, the pretty
  printer for values and errors, and the logic of the built-in libraries
  (the names of the serialization formats, hashing, compression and
  decompression in Brotli, gzip, LZ4 and zlib, URL encoding,
  request and server configuration, regular expressions, dates, prompts,
  processes, type definitions and their documentation comments, standalone
  binaries). Every function carries a contract that Verus proves; calls into
  other crates go through small functions whose contracts say what those
  crates document.
- `tests/` runs the library on concrete values.
- `app/` is the `lune` program: it parses the command line, talks to the
  file system, the network and the Luau VM, and asks the library what to do.
  Scripts get the globals `console`, `fs`, `net`, `process`, `require` and
  `task`.
