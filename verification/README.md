# gfx_core

Command recording and buffer-access bookkeeping of a graphics API layer,
verified with Verus.

- `src/command/access.rs`: which mapped buffers a bunch of commands reads
  and writes (`AccessInfo`), taking the exclusive access to their mappings
  before submission (`take_accesses`), the guard that holds it
  (`AccessGuard`) and hands the buffers out, and the laws of that
  exclusion.
- `src/mapping.rs`: the access gates of mapped buffers.
- `src/handle.rs`: raw buffer handles.
- `src/command/buffer.rs`: encoders, finished command buffers and the
  capability-tagged command buffers.
- `src/command/clear.rs`: clear colors.
- `app/`: the Vulkan backend's command buffers (calls into the driver
  through `ash`) and clear colors with `f32` components.
