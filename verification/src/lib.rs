//! Deterministic sled-and-rider track simulation: a spatial index of track
//! lines, a per-frame physics pipeline for jointed entities, and a frame
//! cache that answers "where is every entity at frame N".
//!
//! Every real number in this crate is carried as the bit pattern of an
//! IEEE 754 binary64 value in a `u64`; see the `ieee` module.

pub mod cell;
pub mod grid;
pub mod grid_laws;
pub mod ieee;
pub mod line;
pub mod physics;
pub mod physics_laws;
pub mod rider;
pub mod track;
pub mod track_laws;
pub mod vector;

pub use line::{Line, LineBuilder, LinePoint, LineType};
pub use track::{Track, TrackMeta};
pub use vector::Vector2D;
