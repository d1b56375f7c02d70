# yw_look

Reads meshes, materials, skeletons and animations out of a composed scene, for a viewer.

A `Stage` holds what the scene answers: the value of each field, the targets of each relationship,
the order of a traversal, and what went wrong while it was composed. Everything else is computed
from those answers, and proved.

- `src/text.rs`, `src/path.rs`: text and scene paths.
- `src/num.rs`, `src/close.rs`: floating-point numbers as bit patterns, with exact conversions,
  rounding, and a test for numbers that are less than the machine epsilon apart.
- `src/value.rs`, `src/table.rs`, `src/stage.rs`, `src/read.rs`: values, fields and the stage.
- `src/scene.rs`, `src/assets.rs`, `src/binding.rs`, `src/material.rs`, `src/mesh.rs`,
  `src/times.rs`, `src/skel.rs`: the queries.
- `src/laws.rs`: what holds across the queries.
- `app/`: the same queries with floats, files and `anyhow`.
