# shoop_egui

The decisions behind the egui interface of the ShoopDaLoop looper, written in Verus and
proved against their contracts.

- `src/` is the verified library: the connection graph and its dialog state, composite
  loop lanes and event selection, MIDI note spans, latency observations, policies and
  warnings and the latency panel's edits, cue output choices, the loop widget's classes,
  transition marks, controls, actions and raw-export confirmation, the
  built-in effect controls, the key events that scripts receive, driver and new-track
  settings, the save ledger of new-track defaults, the add-track request and how it follows
  the processors on offer, the channel mapping and selection of loop import and export, the
  click track dialog's target and buttons, the queue of run-once scripts, and the piano's
  destinations.
- `tests/` runs the library on concrete values.
- `app/` holds what the library does not: conversions from egui's events and into egui's
  colors, the helpers that compute with floating point, and the lookup of the bundled
  scripts on disk.

Each module states its laws as public proof functions next to the operations they are
about.
