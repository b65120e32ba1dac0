//! Scene composition and movement engine for a tile-based, top-down viewer.
//!
//! The engine works on plain values. Whoever decodes the assets hands it a
//! map, sprite sheets and, for a cutscene, the placement of its characters;
//! whoever owns the window hands it key events, the elapsed time and the
//! window's size. Each frame it hands back the draw operations of the scene
//! in painting order, textures named by number.
//!
//! - `geometry`: rectangles, and the resolution of a frame index to the
//!   rectangle it occupies on a sheet.
//! - `clock`: which frame of an animation cycle shows.
//! - `direction`, `sprite`: facing directions and the sheets that depend on
//!   them.
//! - `tilemap`, `row_major`: the map, its validation, the collision probe,
//!   and the order of tiles that painting relies on.
//! - `player`, `input`, `camera`: movement within and between cells, the
//!   held keys and the facing they give, and the view that follows.
//! - `script`, `character`: the text of a cutscene, and the characters it
//!   places.
//! - `compositor`, `depth`: the draw operations of a frame, and what their
//!   order guarantees.
//! - `engine`: the state between frames and the update and render steps.
//! - `pixels`: pixel data as textures are made from it.

pub mod camera;
pub mod character;
pub mod clock;
pub mod compositor;
pub mod depth;
pub mod direction;
pub mod engine;
pub mod geometry;
pub mod input;
pub mod pixels;
pub mod player;
pub mod row_major;
pub mod script;
pub mod sprite;
pub mod tilemap;
