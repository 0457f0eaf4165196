//! Backend of an infinite-canvas application: camera transforms, a tile
//! registry with z-order hit-testing, tile content variants, and the
//! bookkeeping for windows that back embedded web-page tiles.
//!
//! All geometry is fixed-point: a coordinate is an `i64` holding ten
//! thousandths of a world or screen unit, and an angle is an `i64` holding
//! microradians. The `fx` module defines the scale and the arithmetic.

pub mod fx;
pub mod angle;
pub mod camera;
pub mod jsonval;
pub mod tile;
pub mod assoc;
pub mod canvas;
pub mod idtext;
pub mod host;
pub mod variants;
pub mod commands;
