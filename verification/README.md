# match_server

The verified core of a small matchmaking game server and its test client.

Clients speak JSON messages over TCP (`TcpMessage`): a UUID handshake, a name
handshake, then `connect` messages whose data asks to join or leave the
two-player match queue, or asks for other data. The server keeps a matching
state per player, queues players first come first served, starts sessions for
matched players and announces the match with both names.

- `src/` is the library, verified with Verus: the message and JSON model
  (`json`), the protocol steps and the messages the server sends (`protocol`),
  the per-player matching state machine (`handlers`), the match queues
  (`queue`), the decisions of the server's event loops (`server`), the
  client's requests (`client`), errors (`error`, `connect`), state names
  (`states`), player UUIDs (`ids`) and text helpers (`text`).
- `app/` is the program: sockets, tasks, channels, shared tables and the
  serde form of messages. Run it with no argument for the server, or with
  `client` for the test client.
- `tests/` runs the library on concrete values.
