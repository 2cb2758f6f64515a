# beatcraft_editor

The logic of the Beatcraft map and light-mesh editor as a Verus-verified
library, with a thin command-line program around it.

`src/` is verified:

- `audio` — decoded-range bookkeeping for streamed audio, queue refills and
  the full-mode playback queue update,
  seek targets, the spectrogram worker's steps, and the audio worker's task queue.
- `mesh`, `part`, `dedupe`, `named_maps` — light-mesh topology: vertex, uv and
  normal references, the compact stored triangle list, topology edits (cascade,
  delete, flip, toggle), listing and selection, and merging duplicate data.
- `expression` — tokenizing and parsing the expressions typed into numeric fields.
- `map_values` — named values of the map editor and their resolution,
  with references that run in a circle reported as errors.
- `export` — export of the editor's elements to a version 2 beatmap, one
  error per failing element.
- `info`, `projects`, `song_core`, `player_settings`, `beatmap_data`,
  `easing`, `light_mesh`, `obstacle_font`, `spline`, `window_snap` — format
  value types, info export, the recent-projects list, and small decisions.
- `atlas`, `menu` — shelf packing of textures into the renderer's atlas, and
  the layout of menu labels.

Numbers that the editor keeps as `f32` are carried as their bit patterns; the
floating-point work (easing curves, computed vertices, evaluating expressions,
colour conversion, atlas texture coordinates) lives in `app/`, together with file I/O and threads.
