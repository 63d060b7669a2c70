# interact

An interactive 3D scene (path-traced room with procedural meshes, falling and
shattering balls, draggable objects and hot-reloadable scene logic).

- `src/` is the verified core, written in Verus: model-name buffers, the
  fixed-capacity scene description, mesh index buffers, Radiance HDR encoding,
  the add/remove decisions of object synchronisation, window-event handling,
  hot-reload planning, frame statistics and HUD colours.
- `app/` is the program around it: window and event loop (winit), GUI (egui),
  the GPU engine (blade), dynamic loading of the logic library (libloading),
  and everything that computes on floating-point vectors (physics, vertex
  positions, lighting, ray picking).
- `tests/` exercises the library on concrete values.
