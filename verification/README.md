# orrery

A small planet renderer whose integer and structural logic is verified with
Verus.

- `src/` is the verified library: the vertex layouts and index buffers of the
  meshes (cube, UV sphere, cube sphere, octahedron sphere, wavy surface), the
  level-of-detail subdivision of the cube planet's faces, a quadtree over a
  face with exact dyadic bounds, the order of render passes, the keyboard and
  mouse state of the camera controls, a ring of frame timings, and the checks
  made when textures are loaded (image decoding goes through the `image`
  crate).
- `app/` is the program around it: the window and event loop (`winit`), the
  GPU work (`wgpu`), the overlay (`egui`), and everything that computes with
  floating-point numbers (positions, normals, matrices, camera motion).
- `tests/` runs the library on concrete inputs.
