# dep-doctor

Scans a folder of repos for dependencies with known problems (CVEs and
supply-chain attacks), reports them, and can rewrite manifests to the fixed
versions.

## Layout

- `src/` is the library, written in Verus. Every function there carries a
  contract that Verus proves: manifest and lock-file reading (npm, pip, Go,
  Cargo), version range matching, typosquat detection, advisory conversion
  and pagination, the selection of advisories from the OSV archives,
  manifest rewriting, deep-scan hits and their context, the Markdown report,
  the LLM prompt and pattern validation, and the pattern quality report's
  order. The calls into `semver`, `regex`, `serde_json`, `toml` and `zip` go
  through small trusted wrappers, each documented with what it assumes of
  the outside crate.
- `tests/` holds the tests, run against the compiled library.
- `app/` is the command-line program around the library: argument parsing,
  the file system, HTTP (OSV.dev, the feed, the LLM endpoint), the file
  watcher, console colours, and JSON input and output of the library's own
  records.
