# rumble

The core of a small HLS media server, verified with Verus.

- `src/text.rs`: decimal formatting and parsing (as `format!` and
  `str::parse::<usize>` do them), white-space trimming and line splitting,
  stated over character sequences.
- `src/media_info.rs`: the `ffprobe` command lines, the stream model, and the
  reading of `ffprobe`'s resolution answer.
- `src/playlist.rs`: master and media playlists, with the laws that the
  segments of a media playlist cover the media and start every six seconds.
- `src/segment.rs`: segment-name checking (through the `regex` crate) and the
  `ffmpeg` command lines that cut segments, with the laws that tie segment
  names and start times back to the playlists.
- `app/`: the warp server, which runs `ffprobe` and `ffmpeg`, parses JSON with
  serde and the duration as a float, and answers with what the library computes.

Durations are counted in ticks of a ten-thousandth of a second, the precision
at which playlists print them.
