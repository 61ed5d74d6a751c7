# memo

A mount-scoped, policy-controlled file layer shared by people and agents: a daemon owns
the files, and clients reach them as `<Mount>:/path` under the rules of each mount.

`src/` is the library, verified with Verus. Its contracts state what each operation
returns, including:

- paths: relative paths are normalised and never climb out of their mount; mount paths
  print and parse back;
- policy: a read or write is allowed only inside the canonical mount root, without
  symbolic links, and under the mount's hide, deny and size rules; compiled policies are
  cached per mount and forgotten when a mount changes;
- tokens and scopes: scope texts parse back, scope sets keep each scope once in order,
  bearer headers and stored token rows are read exactly, expired tokens are refused;
- storage: mounts and tokens written as rows read back as written;
- listings, trees, searches and the audit log: what a reader may see, in which order, and
  where a walk or a search stops;
- the command line: argument reading, configuration precedence, and every line it prints.

Calls into outside crates (globset, regex, argon2, rand, time, uuid, serde_json, reqwest's
URL and status types) go through small trusted functions whose contracts say what the
crates document.

`app/` is the program around the library: argument parsing with clap, HTTP with reqwest,
SQLite with sqlx, and the disk. `tests/` exercise the library on concrete values.
