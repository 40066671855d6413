# ale_gui

A voice and camera assistant, verified with Verus.

- `src/` is the library: sample windows, PCM and WAVE encoding, YUV conversion, JPEG frames, the
  course of a capture session, the settings window and the state of the application. Every function
  carries a contract, and the laws that relate them stand beside them as proof functions.
- `app/` is the application around it: audio streams, the Android camera, the window and the engine.
- `tests/` runs the library on concrete values, among them all 16-bit samples and every pair of
  chroma values against the hardware's arithmetic.

Samples are single-precision numbers. The library handles them as bit patterns and carries out the
rounding on integers, so that its contracts say exactly which values come out.

What the library takes on trust is what `hound` writes into a WAVE file, and what `image` does when it
drops an alpha channel and encodes a JPEG file. Each of these calls has a small wrapper that says what
is claimed of it.
