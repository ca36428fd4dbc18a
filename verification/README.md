# hurry

The logic of `hurry`, a build cache for Cargo projects, as a Verus library.

- `src/` is the verified library. Parsers (Cargo build arguments, `rustc`
  argument specs, build script output, rustc dep-info files, glibc
  versions), path handling, cache keys and object paths, the bookkeeping of
  saving and restoring units (progress, upload plans, save requests, restore
  plans), the `Cross.toml` passthrough settings for `cross`, and the text of
  progress reports. Reading and writing files, talking to the cache
  services, and hashing file contents happen outside it. Each
  public function has a contract; the `lemma_*` proof functions state the laws
  that hold across functions (mostly that rendering what was parsed gives the
  text back, and parsing what was rendered gives the value back).
- `src/text.rs` holds the character-level helpers that the parsers share.
- Outside crates are called behind a few trusted functions: `blake3` for
  content hashes, `humansize` for sizes, `bstr` for byte replacement, and
  `std::path` for path parents, components and prefixes.
- `tests/` exercises the library on concrete values.
- `app/` is the command line around the library: files, processes, the
  environment, threads, and `serde` forms of library types.
