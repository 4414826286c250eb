# server_128

The authoritative server logic of a browser-based multiplayer point-and-click
game, verified with Verus.

- `src/` is the verified library:
  - `query.rs`: the player number that a WebTransport session path requests
    (`/game?player=12`), with its round-trip law;
  - `state.rs`: the registry of connected players and the rules by which
    client events change it (datagram support, in-order pointer moves), the
    simulation tick, and who receives announcements and snapshots, and how;
  - `clock.rs`: the tick and snapshot rates;
  - `reliable.rs`: collecting a reliable client event under its size limit;
  - `separation.rs`: the direction in which coincident cursors are pushed apart.
- `app/` is the server program around it: WebTransport endpoint and sessions,
  JSON wire format, the floating-point cursor simulation, and the async loop.
- `tests/` exercises the library.
