# bevy_procedural_grass

The decision logic of a Bevy plugin that grows procedural grass on a mesh,
written in Verus and proved against its contracts.

- `src/` is the verified library:
  - `debug`: per-frame render debug counters (wrapping counters, reset per frame);
  - `grass::chunk`: which chunks are rendered each frame and at which level of detail;
  - `grass::grass`: the triangles over which blades are scattered;
  - `grass::interaction`: which interactors get a slot in the interaction uniform;
  - `grass::performance`: the quality / balanced / performance presets;
  - `render::draw`: the render pass commands that draw an entity's chunks;
  - `render::prepare`: indirect draw commands and buffer update decisions;
  - `render::compute`: compute dispatch sizes and the wind compute plan;
  - `render::deferred_lighting`: deferred lighting pass ids and the debug switch;
  - the crate root: the plugin settings.
- `tests/` runs the library on concrete values.
- `app/` is the Bevy plugin itself: ECS systems, GPU buffers, pipelines, render
  phases and graph nodes, floating-point geometry and random blade placement.
  It asks the library for every decision listed above.
