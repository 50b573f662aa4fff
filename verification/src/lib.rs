//! Verified core of a small Quake-2-style 3D engine: BSP map file parsing,
//! visibility and the integer side of map rendering, entity property
//! parsing, console variables and commands, the resource cache, texture
//! decoding, atlas packing, and the OpenGL state of materials.
use vstd::prelude::*;

pub mod le_bytes;
pub mod text;
pub mod misc;
pub mod parse_utils;
pub mod bsp;
pub mod cvar;
pub mod asset_loader;
pub mod graphics;
pub mod consolewin;
pub mod ccmd_system;
pub mod serialization;
pub mod packing;
pub mod ui;
pub mod effect;

verus! {
} // verus!
