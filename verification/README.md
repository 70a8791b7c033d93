# pdf2vid

pdf2vid turns the pages of a PDF into narrated videos (YouTube 16:9 and
TikTok 9:16): each page becomes a scene whose script is optionally
translated, spoken by a local or cloud voice, and rendered by FFmpeg with a
blurred backdrop, a slow zoom and read-along captions.

## Layout

- `src/` is the verified library (Verus). It holds the provider registry,
  the FFmpeg filter graphs and argument lists, caption wrapping and timing,
  font resolution and escaping, subtitle parsing, the export plan and every
  decision taken while an export runs (translation route, voice fallback
  chain, render fallback, final report), model-id and checksum rules, the
  job slot, and the checks behind the interface's commands. Each public
  function states its result in its contract; the laws that tie functions
  together are public proof functions.
- `src/codec.rs`, the reply readers of `src/cloud.rs` and a few functions
  in `src/text.rs` are the trusted boundary to `base64`, `sha2`, `hex`,
  `serde_json` and std; their doc comments say what is assumed of each
  call.
- `tests/` exercises the library on concrete values.
- `app/` is the host side: processes, files, HTTP, the keyring and the
  event stream to the interface. It performs the work the library plans and
  hands every outcome back to it.
