# fern

The core of a small game engine, written in Verus.

- `src/` is the verified library:
  - `input`: actions registered by name (keyed by the FNV-1a hash of the
    name), bound to a key or mouse button, and updated once per frame from
    the frame's events. `input::laws` holds what holds across operations.
    The pending registrations sit in a `crossbeam_queue::SegQueue` and each
    binding's actions in a `smallvec::SmallVec`, both behind the functions in
    `input::pending_queue` and `input::action_list`.
  - `logging`: severities, the text of each log line, and the decision taken
    when the global logger is initialised.
  - `graphics`: the decisions of the Vulkan backend (queue family, swapchain
    shape) and of the WGpu backend (surface format, resizing, presenting),
    taken on plain values read from the driver.
  - `math::mesh`: the mesh type.
- `app/` is the rest: the SDL window and event pump, the GPU calls, the
  logger's file and worker thread, and a demo scene.
- `tests/` runs the library on concrete values.
