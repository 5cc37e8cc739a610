# teeter

The verified core of the teeter audio-reactive visualizer, written in Verus.

- `src/` is the library: every function in it is proved against its contract.
  - `fivecell`: the edge list of the 5-cell overlay (the complete graph on five vertices).
  - `vulkan`: the renderer's decisions: warp shader metadata and cycling, the
    frame protocol (fences per frame-in-flight slot, the per-frame barrier
    and blit plan), swapchain sizing, memory-type and queue-family
    choice, image-layout barrier masks, and SPIR-V word decoding.
  - `audio`: the detected genre and the rule that announces each change once.
  - `ring`: the bounded sample ring of the analyzer and its analysis window.
  - `engine`: the preset seed hash and the preset index steps.
  - `input`: gamepad, trigger and keyboard mapping, and the per-poll edge flags.
  - `cli`: the `--shader N` / `--preset N` command line.
- `app/` is the program around it: the window and event loop (winit), the
  Vulkan calls (ash), audio devices and the FFT (cpal, rustfft), the gamepad
  (gilrs), and the floating-point signal processing and uniforms.
- `tests/` runs the library on concrete values.
