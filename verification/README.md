# zm_streaming

Live and recorded video streaming for ZoneMinder monitors: reading the
media a capture worker writes (FIFOs and stream sockets), cutting it into
fMP4 segments for HLS and MSE, assembling access units for WebRTC, snapshot
and VOD packaging decisions, and the bookkeeping of worker status and
on-demand commands.

- `src/` is the library, verified with Verus: every public function has a
  contract over spec functions and views, and the laws the library keeps
  stand there as public proof functions.
- `tests/` runs the library on concrete values.
- `app/` is the runtime around it (tokio tasks, sockets and files, the
  webrtc peer connections, libav decoding, JSON and serde copies of the
  library's types). It takes every decision from the library.
