# wayclick

A low-latency input sound engine: key presses and mouse clicks play short
sounds. The verified library (`src/`) holds the logic:

- `domain` — sound ids, mouse buttons, input events, actions, rules.
- `config` — compiling a raw configuration (defaults and key → file mappings)
  into a sound table and `SoundId` rules; the mapping-key parser.
- `pipeline` — filter → map → execute for each event, with counters.
- `executor`, `audio` — the engine seam sounds are played through.
- `backend` — the per-event and per-device decisions of the evdev and Windows
  input backends.
- `app`, `launcher` — run settings, the self-check report, the launcher
  guards and the choice of configuration directory.

`app/` is the program around it: command line, reading `config.json`, audio
decoding and playback (rodio), the evdev and Win32 input plumbing, and the
async loop that feeds events to the pipeline.

The pipeline keeps its counters twice: as shared atomics (`Metrics`), which
`Pipeline::metrics()` hands out as a live `Arc` handle, and as a proved model
(`Counts`, read with `Pipeline::counts()`) that receives the same increments.
The engine is owned by the pipeline's executor, and its `play`/`stop` take
`&mut self`. The `AudioEngine` trait carries a model of the calls an engine
receives (`records_calls`, `calls`); the executor and pipeline contracts state,
for any engine that keeps the model, exactly which sounds reach it and in what
order.
