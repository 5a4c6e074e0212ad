//! Resource definitions and widget logic of the Sulis game engine:
//! sizes, tiles, spritesheets and ability lists built from their
//! deserialized builders, a keyed resource registry, and the scrolling
//! and widget-tree logic of the user interface.

pub mod resource;
pub mod resource_map;
pub mod text;
pub mod util;
pub mod raster;
pub mod spritesheet;
pub mod ability_list;
pub mod ui;
pub mod game;
