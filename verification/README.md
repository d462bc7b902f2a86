# flv_mp4

An FLV demuxer and fragmented-MP4 remuxer for media source playback, written in Verus.
The library in `src/` is verified: its parsers, sample queues, timeline arithmetic and
box writers carry contracts that Verus proves.

- `bytes`: big-endian reads (through `byteorder`) and writes.
- `amf_parser`: AMF0 script data (`onMetaData`).
- `exp_golomb`, `sps_parser`: the H.264 sequence parameter set.
- `flv_codec`: AAC AudioSpecificConfig and MPEG audio headers.
- `flv_demuxer`, `flv_tags`, `flv_parse`: the FLV header, the audio, video and script tags,
  and the walk over the tags of a chunk.
- `media_info`, `media_segment_info`: what is known of the stream and of the segments sent.
- `mp4_generator`, `mp4_remuxer`: the init segment, `moof`/`mdat` fragments and the
  timeline of each track.

`app/` binds the library to the browser with `wasm-bindgen`: it hands chunks in, turns the
doubles of `onMetaData` into the integers the library takes, and hands segments to
JavaScript callbacks. `tests/` runs the library on concrete streams.
