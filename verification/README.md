# sermon

The playback and library core of a desktop music player, written in Verus:
every function in `src/` carries a contract that Verus proves.

`src/` holds the logic:

- `dop`, `sample_ring`, `channels`: DSD-over-PCM packing, bounded sample
  buffers, channel-count conversion.
- `dsd`, `dff`: DSF header parsing and block interleaving, and a step-by-step
  reader of the DSDIFF chunk structure that never touches the file itself.
- `encoder_delay`, `gapless`: LAME/iTunSMPB encoder delay, the trimming of
  decoded chunks and the preload/transition bookkeeping of gapless playback.
- `queue`, `engine`, `types`: the play queue and the transport/session state,
  specified against abstract models.
- `search`, `models`, `settings`, `scan`, `identity`: FTS5 query
  normalisation, paging, suggestion budgets, migrations due, scan filters and
  tallies, file identity and content hashing.
- `tags`, `safe_write`: the edits a tag patch makes, error messages, backup and
  temporary file names, timestamps, the commit retry policy, and the steps of
  a safe write (temporary copy, edit, flush, backup, commit, check) as a
  state machine.
- `devices`, `wasapi_plan`, `asio_plan`, `decode_plan`: the output backends'
  vocabulary; exclusive-mode format order, timing and negotiation; the ASIO
  worker as a state machine with its answers; the decoder's packet loop.

Laws of the library are public proof functions named `lemma_*`.

`app/` is ordinary Rust around the library: file and database I/O, the tag
library, folder walking, PCM decoding and resampling, and the floating-point
sample conversions. The Windows audio bindings are not part of this build;
the ASIO worker loop and exclusive-mode negotiation are written there over
small traits that a Windows host implements.
