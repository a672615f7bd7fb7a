# voxel

The verified core of a brickmap voxel engine and its GPU renderer.

- `src/bricks.rs` — an 8x8x8 brick as 512 voxel bits in sixteen `u32` words
  (`Msb0` order), with proved bit reads and writes, and its shader-side form.
- `src/gpu_types.rs` — the integer types the shaders read (cells, pool
  placements, allocator instructions, start constants).
- `src/chunk_table.rs` — the chunk table and the set of chunk generations in
  flight, held in `hashbrown` collections behind trusted wrappers.
- `src/world.rs` — answering the renderer's cell requests from the chunk
  table, starting chunk generation, storing generated chunks.
- `src/chunk_laws.rs` — what answering requests keeps and guarantees.
- `src/feedback.rs` — turning the shader's feedback buffer into a request
  without repeated cells.
- `src/pool.rs` — placing answered bricks in the GPU brick pool and laying the
  allocator's instructions out for upload.
- `src/image.rs` — pixel words to texture bytes, and the test brick grid.
- `src/render_setup.rs` — the buffers the shaders start from.

`app/` holds the bevy program around the library: plugins, systems, the
compute worker, the camera, and the shader-side copies of the library's types
that carry bevy and bytemuck derives.
