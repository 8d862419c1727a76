# rattler_wheel

Installing Python wheels into conda environments: what a wheel's `RECORD` and
`entry_points.txt` say, where its files go, how it is unpacked, and what is
handed to the linker and recorded afterwards. Every decision is written in
Verus and proved against its contract.

- `src/` is the verified library.
  - `text`, `path`: lines, separators and numbers in text; paths and their
    components.
  - `category`: where each file of a wheel is installed.
  - `record`, `record_laws`, `hash`: the `RECORD` file, and that it reads back.
  - `entry_points`, `dist_info`, `shebang`: the metadata and the scripts.
  - `link`, `install`: what the linker is told, and what is recorded.
  - `package`, `extraction`, `stages`, `digest`: how archives are taken apart.
  - `memory`: zip archives whose bytes are all in memory, from their first byte
    on.
  - `error`: what can go wrong.
- `app/` reads and writes: files, streams and the cache.
- `tests/` runs the library, with the crates it calls.

Paths and file URLs are those of Unix: `/` separates names, and a path that
begins with it is absolute. A build for Windows would have to read backslashes
and drives in another way.

What the library takes on trust from other crates (`base64`, `hex`, `md-5`,
`sha2`, `url`, `zip`) stands in the doc comment of each function marked
`external_body`.
