# vulkano

Render pass descriptions and CPU-accessible buffers for Vulkan, written and proved in Verus.

- `src/framebuffer/traits.rs`: what a render pass is made of, and `Subpass`.
- `src/framebuffer/compatibility.rs`: when two render passes are compatible.
- `src/buffer/creation.rs`: the requests that create a buffer, and what follows each outcome.
- `src/buffer/cpu_access.rs`: `CpuAccessibleBuffer`, and `CpuAccess` to its content.
- `src/buffer/family_ids.rs`: the queue families of a buffer, in a `SmallVec`.
- `src/device.rs`, `src/memory.rs`, `src/sync.rs`, `src/command_buffer.rs`, `src/format.rs`,
  `src/image.rs`, `src/error.rs`: what the above reads of a device, as plain values.
- `app/`: the calls into a device and the lock of a buffer.

Functions whose names start with `law_` are proofs of properties that hold of the whole library.
