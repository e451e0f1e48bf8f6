//! The bit-level core of a tile-based, depth-buffered triangle rasterizer.
//!
//! Every number that reaches this crate is a lane: a single-precision value
//! held as its bit pattern. Evaluating barycentric coordinates and shading are
//! the caller's arithmetic; coverage, depth testing, pixel iteration, tile
//! binning and framebuffer storage are decided here.

#![allow(non_camel_case_types)]

pub mod barycentric;
pub mod f32x4;
pub mod f32x8;
pub mod frame;
pub mod group;
pub mod index;
pub mod interpolate;
pub mod lane;
pub mod pixel;
pub mod position;
pub mod schedule;
pub mod tile;
pub mod worker;

pub use barycentric::{Barycentric, BarycentricCoordinate};
pub use frame::Frame;
pub use group::{Group, GroupIter};
pub use interpolate::{Flat, Triangle};
pub use pixel::Rgba;
pub use position::FetchPosition;
pub use schedule::{bin, is_backface, Batch, Footprint, TileSpan};
pub use tile::{Tile, TileGroup};
