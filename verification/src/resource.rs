//! Resources of the game world that are built from deserialized builders.

pub mod size;
pub mod tile;
