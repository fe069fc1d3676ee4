# cloak

A local-first secrets manager and AI loopback proxy, with its logic verified
in Verus.

- `src/` — the verified library: secret scopes and namespaces, the vault
  data model and its encryption (Argon2id, XChaCha20-Poly1305), the keyring
  index, domain rules and wildcard matching, the proxy's decisions
  (authentication, provider routing, header filtering, secret injection,
  JIT approvals), the child-process environment plan, and the desktop
  HUD's session lock. Laws that span several functions are public
  `law_*` proof functions.
- `tests/` — tests of the library on concrete values.
- `app/` — the `cloak` command line: argument parsing, the OS keyring and
  vault file, the HTTP/HTTPS proxy server, the certificate authority, and
  child processes, all driven by the library.
