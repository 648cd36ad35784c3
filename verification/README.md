# hybrid_screen_capture

Screen capture to MP4 or RTSP, with token-saving scaling and DeepSeek-OCR
"Gundam" tiling of frames for vision-language models.

The library under `src/` is verified with Verus: every public function
carries a `requires`/`ensures` contract over mathematical models (`Seq`,
`Map`, `int`), and the properties that span several functions stand as
public proof functions (`lemma_*`).

- `presets`: scaling plans (fit by longest side, fit inside a box, pad,
  distort) and the token presets.
- `cpu`: BGRA scaling through `fast_image_resize`, with compaction of
  strided sources into a staging buffer.
- `gundam`: the tile grid, tile rectangles and packing of tiles plus a
  global view.
- `rtsp`: frames, timestamps, the server's launch description and the
  composite frame of tiles and global view.
- `processing`: the Gundam and scaling frame processors and file-stream
  helpers.
- `capture`: the synthetic capture source, FFmpeg command lines and the
  capture-loop decisions.
- `capture_core`: buffer pool, memory-mapped ring buffer, performance
  analysis.
- `config`, `cli`, `error`, `deps`, `recorder`, `text`: configuration,
  argument parsing, errors and their classification, dependency-check
  reports, the recorder state machine, decimal text.

`app/` is the `cap` program around the library: argument handling,
FFmpeg and GStreamer pipelines, the RTSP server thread, the portal-based
Wayland capture and the async capture session.

`tests/` holds the library's tests.
