# werewolf_backend

The game server of a werewolf-style party game: accounts and guest sessions,
a catalogue of roles, and game rooms driven over a WebSocket.

- `src/` is the library, verified with Verus: the role distribution table,
  grouping and dealing roles, user-name rules and searches, where access
  tokens are read from a request, the game rooms and the room protocol (how
  each client request changes the rooms and which messages go to whom).
- `app/` is the server around it: configuration, Redis storage, password
  hashes and signed tokens, the HTTP routes, the OpenAPI document, and the
  WebSocket loop that hands each request to the library and delivers what it
  answers.
- `tests/` runs the library on concrete values.
