# nikolaj

A StarCraft II Terran bot. The decisions it takes every game step live in
`src/`, a library verified with Verus: what to build and train, when to
expand, which workers go where, when the army attacks, what the enemy is up
to, and which orders each structure gets. Unit types, abilities and upgrades
are the game's numeric ids; times are game loops.

`app/` is the bot around it: it runs the game through rust-sc2, turns what it
sees into the library's observations, works out positions and distances (in
floating point, which the library does not hold), and issues the orders the
library returns.

- `src/unit_types.rs`, `economy.rs`, `vec_map.rs`, `seq_util.rs`: ids, costs, small collections.
- `src/build_strategy.rs`, `build_order.rs`, `production.rs`, `upgrades.rs`: what is produced and researched.
- `src/conditions.rs`, `structures.rs`, `construction.rs`, `defenses.rs`, `townhall.rs`: structures and bases.
- `src/workers.rs`, `scv_control.rs`: workers on minerals, gas and repairs.
- `src/army.rs`, `memory.rs`, `readings.rs`, `cheese.rs`, `offense.rs`, `occupancy.rs`, `targeting.rs`: armies and the enemy.
- `src/chat.rs`, `debugger.rs`: chat commands and debugging state.
