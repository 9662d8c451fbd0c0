# strudel_clap_plugin

Core of the Strudel CLAP/VST3 plugin, verified with Verus.

- `src/` — the verified library:
  - `sound` — sound names to instrument families, General MIDI notes and synth
    frequencies; the priority of an event's note sources.
  - `voice` — the polyphonic voice scheduler (slot choice, note lifetime,
    envelope stages).
  - `event`, `event_buffer` — pattern events, evaluation results, the event
    buffer and its read/write double buffer.
  - `eval_state` — what the evaluation thread does with the buffer after
    code, tempo and transport messages.
  - `script` — the JavaScript snippets sent to the pattern engine.
- `app/` — the host side: nih-plug plugin, Deno/V8 runtime, evaluation thread,
  locks, and the floating-point synthesis.
- `tests/` — tests of the library.

The engine bundle `bundled/strudel-runtime.js` is produced by the JavaScript
build and is not part of this tree.
