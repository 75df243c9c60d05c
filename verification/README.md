# terrarium

The placement and decision logic of the terrarium renderer, verified with Verus.

`src/` is the verified library:

- `linear_block_allocator` — the first-fit range allocator behind the vertex pool. Its
  contracts describe every call exactly over a model of two maps (free and used regions), and
  its lemmas show that allocation never overlaps a live allocation, that freeing coalesces
  neighbours and adds exactly the freed range, that the regions cover the buffer and their
  lengths add up to its size, and that freeing undoes an allocation.
- `vertex_pool` — which slice slot, vertex range and index range each mesh occupies, and the
  material slots each submitted instance fills.
- `material_pool` — which texture slot each texture takes (a texture is uploaded once) and the
  texture slots each material records.
- `gpu_resources` — which meshes are dropped and how, the acceleration structures' instance
  slots, and when the static instances are rebuilt.
- `frame_plan` — which passes a frame encodes, the renderer's frame counter, and which shading
  target each frame writes.
- `bloom_schedule` — the order and sizes of the bloom pass's dispatches over the mip chain.
- `pipeline_cache` — which shader modules and pipelines are built and which are shared.
- `linear_transformed_cosines` — the packed sidedness flag of area lights and the instance limit.
- `xr_session` — what the XR frame loop does with each runtime event.
- `app_loop`, `input`, `shade_pass`, `xr`, `timer` — window-event decisions, pressed keys and
  buttons, shading modes, XR controller profiles and bindings, and the frame-rate counter.

`app/` is thin glue that carries out the library's decisions: winit and OpenXR event
conversion, the XR session's begin and end, wgpu buffer uploads for the vertex pool, texture
uploads for the material pool, the shader module and pipeline caches, the mesh list's cleanup,
the bloom dispatch order, the wall clock read as seconds, and the floating-point transform,
light, camera, resolution-scale and jitter code. It does not hold the render passes, the GPU
context or the swapchain.

`tests/` runs the library on concrete values.
