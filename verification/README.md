# keystone

A small application framework: configuration, a database with schema migrations, and a server.

The library makes the decisions, and Verus proves what they are. It performs nothing itself. What it
wants done it asks for, one request at a time, and it goes on with the reply:

- `src/config.rs`: the configuration, and which file and environment variables it is read from.
- `src/db/`: opening a connection (`connect`), which embedded scripts are still to be applied and in
  what order (`pending`), the lock that keeps two instances from migrating at once (`lock`), and a run
  of the migrations (`run`). `protocol` holds the requests and replies.
- `src/startup.rs`, `src/maintenance.rs`: starting an application, migrating its schema, freeing its
  lock.
- `src/application.rs`: the application, built up part by part.
- `*_laws.rs`: what holds of every conversation, whatever is answered; and, on a database whose lock
  does what the statements about it say, that two instances do not migrate at once and how the lock
  is found afterwards.

`app/` performs the requests: it reads the configuration, talks to SurrealDB, keeps the time, and
serves the routes with axum. The program embeds the `.surql` files that its packager
puts into `migrations/`; the library itself has none.
