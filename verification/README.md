# Border Wars

A two-player strategy game on a hexagonal map: players build on their
tiles, harvest forests and hills, train troops, take neighbouring tiles
and fight over the enemy's. A server holds the game; each player runs a
client window.

The rules are a library verified with Verus; the program around it is
ordinary Rust.

## Layout

- `src/` — the verified library.
  - `model.rs`: tiles, owners, players, troops, resources and their tables.
  - `hexgrid.rs`: neighbours on the offset hexagonal grid and the zone
    within a number of steps.
  - `board.rs`, `map.rs`: the server's board and the starting map.
  - `server.rs`: the server's answer to each request (build, harvest,
    demolish, train, move, take a tile, fight), with the laws that tie
    them together.
  - `combat.rs`: the score of a fight and its loser.
  - `client.rs`: what each key does to the client's state and which
    requests it sends; what the display shows.
  - `text.rs`: the texts and picture paths of the display.
  - `wire.rs`, `packet.rs`: length-prefixed frames, packet identifiers and
    the table of packet handlers.
  - `random.rs`: the draws of chance.
- `app/` — the program: `border-wars server [address]` or
  `border-wars [client] [address]`. It runs the network threads, the bevy
  ECS, serialization and the display, and hands every decision to the
  library.
- `tests/` — tests of the library on concrete games.
