# sdnc

The backend of the San Diego Nerf Club website: a small axum server that serves
the static site, shows the club's Discord scheduled events, and hands out
single-use Discord invites behind a reCAPTCHA check.

- `src/` is the verified library (Verus). It holds the decisions the server
  makes: configuration defaults and the configuration file's path, the row stored
  for a Discord event, what each gateway notification does to the `events`
  table, the synchronisation of the table with the guild, how the event grid
  shows an event, the reCAPTCHA assessment request and verdict, and the answer of
  the invite route, and the ids the `Double` id columns store. Date handling goes
  through `chrono`, JSON reading and writing
  through `serde_json`.
- `tests/` exercises the library.
- `app/` is the server: command line and TOML parsing, the SQLite database,
  the Discord client, the HTTP exchange with Google and the HTTP routes.
