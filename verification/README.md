# image_views

The set-up decisions of a Vulkan application that opens a window and
creates a swap chain with one image view per swap chain image, written in
Verus and proved against their contracts.

- `src/` is the verified library. Given the plain values that the Vulkan
  driver reports, it decides which queue families, physical device, surface
  format, present mode, extent and image count to use, which layers and
  extensions to enable, which API version to declare, how to classify
  validation messages, how the event loop reacts to window events, and in
  which order everything is destroyed. `src/vulkan.rs` holds the few trusted
  items through which it takes Vulkan constants and version packing from
  `ash`.
- `tests/` runs the library on concrete values.
- `app/` is the program: it opens the window with `winit`, makes the
  (unsafe) driver calls with `ash`, hands their results to the library and
  carries out what it decides.

Debug builds of the program enable the validation layers.
