# empire_core

Core of a real-time strategy game, verified with Verus.

- `src/` — the verified library: the entity-component store (entity
  allocator, sparse component sets, world), the battle map and its
  generator, fog of war, the path cache and path reconstruction, the
  behaviour trees of the computer players and their strategic move list,
  win conditions, capture-point presence, production lines, reinforcement
  queues, deployment confirmation, replay recording, research requirements,
  and the byte layouts of the render, event and UI buffers shared with the
  client. Laws relating these operations are stated as proof functions
  whose names begin with `law_`.
- `app/` — the game around it: everything computed with floating point
  (positions, health, timers, costs, influence), the per-tick systems, the
  planners, the campaign layer, and the serialised messages and replays.
- `tests/` — tests of the library.
