# wgpu_renderer

A small 2D rendering engine on wgpu, whose core is verified with Verus.

- `src/` is the verified library: resource descriptions (buffers, textures,
  samplers, bind group layouts, bind groups, render pipelines, shaders,
  materials, meshes, geometry), the dirty-tracked data tables that hold
  per-instance data and the packing of their changes into buffer updates, the
  resource handler that decides when resources are requested, delivered,
  released or given up, the tracker of requested resources, the choice of the
  resources a bind group is made from, the shelf packing of font atlases and
  the signed distance field sweeps. Each public function carries a contract;
  `src/laws.rs` states the properties that relate several operations.
- `tests/` runs the library on concrete values.
- `app/` is the program around it: the window, the graphics device, the worker
  tasks that run resource builders, the font rasterizer, transforms, cameras,
  animations, the particle systems' motion and the game that uses them
  (everything that is floating point or talks to the gpu).

## Keyed collections

The property tables, the resource handler and the resource tracker are keyed
by strings. Over a `std::collections::HashMap<String, _>` Verus proves nothing
about what a lookup returns: a map that had `"a"` inserted with 7 was not
shown to give back 7 for a second `"a"` string. So these collections are held
as vectors of keys beside vectors of values, with the invariant that no key
occurs twice, and their contracts speak of the map (or set) that the vectors
stand for.
