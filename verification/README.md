# rustcode

The game logic of a small Godot multiplayer game, verified with Verus.

- `src/` is the verified library:
  - `clock` — timestamps since the Unix epoch, read from the system clock;
  - `common` — actions, their states and the frames that carry them;
  - `ring` — a bounded action buffer over `ringbuffer::AllocRingBuffer`;
  - `player` — a player's logic state and the decisions of a physics step;
  - `client` — what the client sends, when, and how it reacts to answers;
  - `server` — per-player server data, frame intake, validation, and the
    registry of connected players.
- `app/` is the unverified shell: the Godot nodes, the renet networking, the
  bincode wire format and the headless client and server loops.
- `tests/` exercises the library on concrete values.
