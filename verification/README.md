# mlsim_common

A logic-gate simulator whose core is verified with Verus.

- `src/sim.rs`: bit-packed simulation nodes and sources, node regions, truth
  tables and the synchronous simulation step.
- `src/scene.rs`: scenes of devices (builtin devices and placed chips),
  external nodes and wires.
- `src/save.rs`: saved chips, the chip library, starting chips and projects;
  packing a scene into a chip and placing a saved chip into a scene.
- `src/pages.rs`: the state and the decisions of the program's pages.
- `src/input.rs`, `src/keymap.rs`: modifier keys, text field editing and
  dead-key combining.
- `src/graphics.rs`, `src/geom.rs`, `src/storage.rs`: colours, positions kept
  as `f32` bit patterns, and the 4-bit text form of binary data.
- `src/atlas.rs`: images of the texture atlas and the lookup of images and
  fonts by name and style.
- `src/platform.rs`: frame pacing, the app lifetime, the on-screen keyboard
  and the operating system named by a browser's version string.
- `app/`: the desktop program around the library: files, serde copies of the
  saved types, and the egui pages that draw scenes.
