# engine

A Vulkan mesh-shading renderer whose decisions are verified with Verus.

- `src/` is the verified library: the generational pools of buffers,
  samplers, mesh buffers and textures; the material store and the placement
  of material data; the flattening of an imported scene hierarchy and the
  plan of which meshes to build; descriptor set layouts in a descriptor
  buffer; the choices made while setting up the device and the swapchain;
  the classification of validation-layer messages; the per-frame buffers;
  and the plans of what the renderer creates at setup. Every public function
  states its result in `requires`/`ensures`, and the `law_*` proof functions
  state properties that span several calls.
- `app/` drives the library: it talks to the Vulkan driver, the memory
  allocator, the window system, the model importer and the ECS world, and it
  holds the floating-point code (matrices, colors, vertex data).
- `tests/` runs the library on concrete values.
