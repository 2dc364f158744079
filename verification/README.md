# reposync

RepoSync migrates and synchronizes git repositories: it reads a source
repository into an in-memory snapshot, runs an ordered transformation
pipeline, diffs the result against a destination, checks a safety policy, and
only then commits and pushes. Mirror commits carry a `RepoSync-Generated:`
trailer so that a reverse sync recognizes its own output. Package sources
(`npm`, `pypi`) can be resolved into a local cache.

The library in `src/` is written in Verus. Its functions carry contracts
that Verus proves, except for a few small trusted wrappers around outside
crates (the SHA-256 and SHA-512 digests from `sha2`, base64 decoding, the
system clock, `String::push`, lossy UTF-8 decoding, and the archive readers
of `tar`, `flate2` and `zip`). Each wrapper is marked
`#[verifier::external_body]`, and its doc comment says what its contract
claims of the outside code; those claims are believed, not proved.

| Module | What it holds |
| --- | --- |
| `model` | repository paths, blobs and their SHA-256 ids, file modes, commits, snapshots |
| `diff` | the diff of two snapshots, with rename detection |
| `config` | the pipeline schema, its validation, git location checks, which nodes run |
| `policy` | globs over repository paths, and the policy check before a push |
| `marker` | the generated-commit trailer: writing it, and finding it again |
| `git` | commit specs, and how a snapshot is split into git trees |
| `history`, `sync`, `migrate` | the decisions of history replay, of a sync run, and of a migration run (a mapped head is a no-op; nothing is written unless the policy allows it) |
| `state`, `workdir` | mapping records and timestamps; how files are laid out on disk |
| `package` | package specs, the cache layout, the archive sandbox and the extraction plan, registry answers and download checks, and the order of work that brings a package into the cache |
| `text`, `entries` | the character-level helpers the rest is written with, and keyed lookups |

`app/` is the command-line program around it: YAML loading, git access
through libgit2, the SQLite state database, the filesystem, and the network.
It builds pipeline transforms from the `reposync_transform` engine. Policy
globs are the library's own syntax (see `src/policy.rs`), not those of that
engine.
