//! A tile-based 2D level built from images.
//!
//! A spritesheet arrives as a decoded RGBA byte buffer and is sliced into a
//! grid of sprite bitmaps; a level-definition image's pixel colors are mapped
//! onto a grid of typed tiles with neighbor-dependent variants; the level can
//! be panned and turned into a sequence of draw submissions for a host
//! renderer. Decoding image files and presenting frames belong to the host.

pub mod gfx;
pub mod level;
pub mod render;
pub mod rng;
pub mod tile;
pub mod types;
