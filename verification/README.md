# ff_helper

Helpers for video files: duration, rotation and size of the video stream,
screenshots at a timestamp, and preview grids of screenshots.

- `src/` is the library, verified with Verus:
  - `rational.rs`: rescaling timestamps between time bases, rounded to the
    nearest value (as `av_rescale_q`), and its laws.
  - `helper.rs`: what is read of an opened input (`MediaProbe`), the duration in
    milliseconds, the rotation in `0..360`, and `VideoInfo` with the display size.
  - `screengen.rs`: the plan of a screenshot (frame size, seek window), the
    decisions of the decoding loop, packing the scaled picture plane and
    turning it upright.
  - `frame.rs`: RGBA images (`RgbaFrame`) over the `image` crate's rotations and
    overlay.
  - `preview.rs`: the grid layout, collecting the frames and composing the
    preview canvas.
- `app/` holds the Node.js bindings (napi) and the ffmpeg I/O: opening files,
  seeking, decoding, scaling, JPEG encoding.
- `tests/` runs the library on concrete values.
