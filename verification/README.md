# zpic

An image hosting command-line tool that reads PicGo configurations and
uploads to a local directory, a GitHub repository, S3-compatible storage or
Aliyun OSS, with Markdown link migration, an upload history, `doctor`
diagnostics, a PicGo-compatible HTTP server and Zed integration files.

## Layout

- `src/` — the library, written in Verus. Every function carries a
  `requires`/`ensures` contract over mathematical models (`Seq`, `Map`,
  views) and is proved. Calls into other crates (hashing, base64, MIME
  sniffing, image headers, Markdown parsing, TOML values, multipart
  boundaries, clock and random ids, platform directories, network
  interfaces) go through small trusted wrappers whose contracts are stated
  next to them.
  - configuration model and PicGo conversion: `config`, `fields`, `picgo`,
    `manager`, `loader`, `paths`, `resolve`, `setting`, `listing`
  - uploaders and request signing: `s3`, `oss`, `github`, `local`,
    `sigv4`, `factory`, `registry`, `plugins`, `wasm`, `body`
  - uploading and output: `upload`, `pipeline`, `media`, `template`,
    `format`, `output`, `progress`, `history`
  - Markdown migration: `migrate`, `migration`
  - integrations: `server`, `doctor`, `zed`, `mcp`, `assistant`
  - shared text and map utilities: `text`, `smap`, `seqs`, `placeholder`,
    `kinds`, `error`, `envvar`, `stamp`
- `tests/` — example-based tests of the library.
- `app/` — the `zpic` program: argument parsing, files, SQLite, the
  clipboard, HTTP transfers and the axum server, all deciding through the
  library.

Laws that relate several operations are public proof functions named
`law_*` (for example `manager::law_upsert_then_found`,
`registry::law_registered_alias_resolves`, `body::law_chunks_cover`,
`envvar::law_unset_references_kept`).
