# sulis

Game-data logic of the Sulis role-playing game, verified with Verus.

- `src/` is the verified library: tile definitions and tilesets (`tile`),
  AI templates (`ai`), actor hit points and stats (`actor_state`), the lunge
  of a melee attack (`melee_attack`), and the id-keyed table (`id_map`) that
  resource definitions use.
- `tests/` runs the library on concrete values.
- `app/` reads resources from YAML (serde), converts library errors to I/O
  errors, and holds the floating-point parts of combat.
