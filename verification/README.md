# quake_psx

Verified logic of a Quake client for the original PlayStation.

The library under `src/` is a set of functions of plain values. Every function
in it carries a contract that Verus proves, and the properties that span several
functions are stated as public proof functions beside them.

- Input: `input_policy`, `input`, `button`.
- The game loop: `quake`, `effects_of_play`, `sound`, `music`, `intro`, `player`,
  `pusher`, `episode`.
- The renderer: `world`, `visibility`, `selection`, `cell`, `census`, `frame`,
  `world_pass`, `materialize`, `light`, `clip`, `liquid`, `sky`, `sprite`,
  `effects`, `entities`, `packet_stream`, `topology`, `subdivision`,
  `slab_model`, and the layers over the world: `screen`, `hud`, `menu`.
- The machine: `present`, `performance`, `vram`, `storage`,
  `forward_chunk_reader`, `render_section`.
- Scripts that play by themselves: `regression`, `monster_regression`,
  `monsterjump_regression`, `episode1_regression`, over the record in `probe`.

What only the hardware or the simulation can compute comes in as an argument: a
projected point, the answer of the pad, a sector of the disc. Where outside work
and decisions alternate, the library holds the state and says what to do next,
and the caller hands back what came of it.

The application under `app/` is the caller. `console.rs` and `level.rs` say what
it asks of the machine and of the level; `devices.rs` drives the machine.

The tests under `tests/` run the library on concrete values.
