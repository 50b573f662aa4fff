//! Quake 2 style BSP map data.
pub mod bspfile;
pub mod entities;
pub mod faces;
pub mod visibility;
pub mod lightmap;
pub mod textures;
pub mod lightgrid;
