# kalicut

The logic of KALICUT, a lossless audio/video cutter, as a verified library: every
function in `src/` carries a contract that Verus proves. Times are whole
milliseconds and frame rates thousandths of a frame per second, so no floating point
enters the proofs.

- `src/edit.rs` — the edit timeline: blade, delete, undo, selection range, and the
  ranges program playback runs through (pieces joined, deleted gaps skipped).
- `src/ffmpeg.rs` — cut requests and the ffmpeg arguments of a stream-copy or
  re-encoded cut, multi-piece plans, the concat list, error texts.
- `src/encode_settings.rs` — re-encode presets and settings.
- `src/probe.rs` — the media info read from an `ffprobe` report.
- `src/timecode.rs`, `src/number.rs`, `src/text.rs` — time text (`MM:SS.mmm`, `1:02:03.5`),
  decimals, strings.
- `src/player.rs` — decoded PCM and the player's clock as a state machine.
- `src/video_viz.rs`, `src/preview_quality.rs`, `src/mpv_player.rs` — preview profiles,
  sizes, stream and still arguments, frame pacing, the embedded player's state.
- `src/timeline.rs`, `src/time_edit.rs` — timeline labels and time fields.

`app/` is the desktop program around it (egui GUI, ffmpeg/ffprobe processes, rodio
audio output, libmpv, threads) and a `selftest` command; `tests/` runs the library.
