pantalaimon
===========

An end-to-end encryption aware reverse proxy for Matrix. It stands between a client and its
homeserver, encrypts what goes out and decrypts what comes in.

The rules of the proxy are a library that is verified with Verus; the programs around it are
ordinary Rust.

- `src/`: the library. What it states is in the `ensures` clauses of its functions and in its
  public proof functions. The functions marked `external_body` are calls into other crates;
  what they are believed to do stands above each of them.
  - `config`: the configuration file.
  - `wire`, `error`, `json`, `ids`, `text`: requests and responses, errors, JSON, identifiers.
  - `store`, `table`, `maps`: the records, and the tables and maps that they are made of.
  - `client`: one session: its syncs, events, media, devices, verifications, commands, the
    room keys that others ask for, and the requests of its crypto machine.
  - `proxy`: the routes, the sessions of a homeserver, and what becomes of logins, syncs,
    history, messages and media.
  - `messages`, `dbus`, `panctl`: what the daemon and its control tool say to each other.
- `tests/`: the library at work, with the other crates linked in.
- `app/`: the programs `pantalaimon` and `panctl`: HTTP, SQLite, the keyring, D-Bus and the
  crypto machine.
