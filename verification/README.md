# sos

The verified core of a small x86_64 kernel and its UEFI loader.

- `src/frame_model.rs`: the model of a frame allocator (`FrameMap`) and its
  operations as spec functions.
- `src/frame.rs`: the bitmap frame allocator, built from the loader's memory
  map, proved against the model; `check_memory_map` says when a map can be
  used.
- `src/frame_laws.rs`: what holds of the allocator as a whole (the frames
  free after start-up, allocation and freeing).
- `src/kernel_image.rs`: the plan for loading the kernel's ELF image, on
  top of goblin's parser.
- `src/uefi_memory.rs`: UEFI memory descriptors as the kernel's regions.
- `src/serial.rs`, `src/logger.rs`: the 16550 UART protocol and the log
  line format.
- `app/`: boot services, file systems, raw memory, port I/O and the global
  logger, acting on the library's decisions.
