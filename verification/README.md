# pulse-vis

Terminal audio visualizers for PulseAudio and PipeWire, with their logic verified by
Verus.

- `src/` is the verified library. `studio` holds the full visualizer's configuration,
  themes, source selection, key handling, screen geometry and the decisions of its
  audio backend (which requests to send, which stream to open or drop); `multi` the
  compact visualizer's settings, key handling, source list and capture plan; `viz` the
  minimal visualizer's modes, sample rings, source decoding and frame text. `text`,
  `seqs` and `order` hold the string, sequence and ordering facts they share.
- `app/` is the program around it: command lines, configuration files, the audio
  server connections and capture threads, the floating-point signal analysis and the
  drawing. `pulse-vis` runs the full visualizer, `pulse-vis compact` and
  `pulse-vis minimal` the other two.
- `tests/` runs the library on concrete values.
