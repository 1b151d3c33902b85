# ender_dragon

The Ender Dragon: its phases, its flight, the damage it takes, and its death,
verified with Verus.

- `src/float/` works out 32 and 64 bit floating point numbers on their bit
  patterns, rounded to nearest with ties to even.
- `src/vector.rs`, `src/block.rs`: points and block positions.
- `src/phase.rs`, `src/part.rs`, `src/dragon.rs`: the dragon and what it is made of.
- `src/death.rs`, `src/damage.rs`: how it is hurt and how it dies.
- `src/flight.rs`, `src/brain.rs`, `src/graph.rs`: how it flies.
- `src/save.rs`: what a save keeps of it.
- `src/explosion.rs`: how explosions report themselves.
- `src/host.rs`: what the dragon asks of the world, and the record of it. Nothing
  is taken for granted of the answers: contracts say which calls are made, in
  order and no others, and what happens for each answer.
- `src/laws.rs`: what holds of the dragon as a whole.
- `app/` puts the dragon into a running world.
