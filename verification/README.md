# rusty_crab

The decision logic of the explorers and the planet of a turn-based galaxy
game, with contracts proved by Verus.

- `src/` is the verified library:
  - `resources`, `table`, `bag`, `idmap`, `graph`, `text`: resource kinds and
    recipes, counting tables, bags of items, id maps, walks and shortest paths
    in a galaxy, message texts;
  - `allegory`, `cetto`, `planner`: the three families of explorers: what
    they know, what they carry, how they answer the orchestrator and the
    planets, and what they decide during a turn;
  - `planet`: the planet's answers to sunrays, asteroids and explorers;
  - `config`, `factory`, `gui`: the configuration, the choice and assembly of
    explorers, and the events shown to a display;
  - `laws`: properties that span several operations.
- `tests/` runs the library on concrete cases.
- `app/` is the program around it: reading the configuration, logging, the
  game's message types, the channels, and the loops that carry out what the
  library decides.
