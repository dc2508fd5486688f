//! Scene composition for an isometric renderer.
//!
//! Every quantity is a 32.32 fixed-point number ([`fixed::Fixed`]), so that
//! the geometry a scene derives (draw-call origins, depth keys, collider
//! boxes) is an exact function of its inputs. The library owns the entity
//! table, the bookkeeping side of the physics adapter and the depth-ordered
//! draw list; the simulation itself, rasterisation and input polling are the
//! caller's.

pub mod fixed;
pub mod linear;
pub mod math;
pub mod coords;
pub mod asset;
pub mod render;
pub mod physics;
pub mod scene;
pub mod demo;
