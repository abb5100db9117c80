# teamchat

A chat server and client, an identity service (users with login names, real
names and bcrypt-hashed passwords) and its replicated form, in which nodes elect
a leader and ship a log of database operations to each other.

The decisions of all of them live in a library verified with Verus; the programs
around it, in `app/`, own the sockets, timers, files and serialisation, and hand
each event to the library.

## Layout

- `src/keyed.rs`: sequences of key/value pairs read as maps (the login-name index
  and the chat channels, which are keyed by strings), with their lemmas. Tables
  keyed by integers are `HashMap`s and `HashSet`s.
- `src/user.rs`, `src/database.rs`: user records, the two-table database (users by
  id, ids by login name), the operations that the replication log carries, and
  the laws that tie them together (consistency of the tables, read after write,
  replay of a log in parts, save then load).
- `src/password.rs`: hashing and checking of passwords through `bcrypt`.
- `src/rpc_error.rs`: the service's errors and their JSON-RPC form.
- `src/service.rs`: the identity service: lookups and password-checked changes.
- `src/replication.rs`: the replication state machine: votes, elections, log
  shipping, snapshots; terms never go back and a vote is never changed.
- `src/naming.rs`: the name of a node's snapshot file.
- `src/chat_types.rs`, `src/chat_server.rs`, `src/chat_client.rs`, `src/text.rs`:
  the chat protocol, the server's channels and clients, and the client's
  parsing of typed lines.
- `app/`: the five programs (`chat-server`, `chat-client`, `id-server`,
  `id-client`, `replica-server`) and the serialisable copies of the library's types.
- `tests/`: tests of the library on concrete values.
