//! Verified core of the Beatcraft editor.
//!
//! - `audio`: loaded-sample bookkeeping for streaming, the playback queue of
//!   a fully decoded sound, the worker's task queue and the spectrogram's
//!   chunk plan;
//! - `mesh`, `part`, `dedupe`, `named_maps`, `light_mesh`: light-mesh topology
//!   (triangles, sections, named and computed vertices) and its editing;
//! - `map_values`, `expression`: the editor's value tables and the expression
//!   language of its text fields;
//! - `export`: export of the editor's data to a version 2 beatmap;
//! - `beatmap_data`, `info`, `song_core`, `player_settings`: value types of the
//!   beatmap formats and the export of `Info.dat`;
//! - `easing`, `spline`: easing kinds and Bezier paths;
//! - `atlas`, `window_snap`, `menu`, `obstacle_font`, `projects`: texture
//!   atlas packing, note pairing for window snaps, menu layout, glyph lookup,
//!   and the list of recent projects.
use vstd::prelude::*;

pub mod atlas;
pub mod audio;
pub mod beatmap_data;
pub mod dedupe;
pub mod easing;
pub mod export;
pub mod expression;
pub mod info;
pub mod light_mesh;
pub mod map_values;
pub mod menu;
pub mod mesh;
pub mod named_maps;
pub mod obstacle_font;
pub mod part;
pub mod player_settings;
pub mod projects;
pub mod song_core;
pub mod spline;
pub mod window_snap;

verus! {

} // verus!
