# aether

The verified core of Just Music, a desktop audio player with a Hebrew
(right-to-left) and an English interface.

- `src/` is the library, verified with Verus: bidirectional text handling,
  the track model and formats, duration text, the virtual list's visible
  rows, the LRU artwork cache and its two-tier manager, the track database
  with its full-text index and the search engine that answers from it, the
  playback engine's decisions, probing a file's bytes and assembling its
  track record,
  themes and settings, opening files, the interface's reactions to clicks,
  keys and engine events, and the file-type registration plan.
- `app/` is the program around it: the audio thread (decoding, DSP and the
  output device), files on disk, configuration, directory scanning and
  watching, and the interface's floating-point parts.
  On Windows it also carries out the registration plan on the registry.
  The graphical views are not part of this project: the program is a
  headless front end that plays a file and reports the engine's events; the
  decisions the views make (tabs, buttons, shortcuts, notices) are in
  `src/controls.rs`.
- `tests/` runs the library on concrete values.
