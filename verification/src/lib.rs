//! A rectangular room-and-corridor dungeon generator, the dense grid it
//! carves into, and a symmetric field-of-view engine with fog-of-war memory.

pub mod ai;
pub mod components;
pub mod corridor;
pub mod dim;
pub mod drawing;
pub mod fov;
pub mod generators;
pub mod keymapper;
pub mod level_data;
pub mod levels;
pub mod matrix;
pub mod pos;
pub mod pos_order;
pub mod query;
pub mod races;
pub mod random;
pub mod render;
pub mod room;
pub mod sorting;
pub mod structures;
pub mod systems;
pub mod ui;
pub mod validation;
pub mod validations;
pub mod vision;
pub mod world_data;
