//! Extruded building footprints packaged as Batched 3D Model tiles.
//!
//! The crate lays out triangle meshes into one binary glTF buffer, wraps the
//! buffer and its scene description into a binary glTF container, and wraps
//! that container into a `b3dm` tile.  Every byte offset and length is
//! specified over mathematical sequences and proved.

pub mod align;
pub mod b3dm;
pub mod buffer;
pub mod glb;
pub mod layout;
pub mod le;
pub mod mesh;
pub mod name;
pub mod tileset;
