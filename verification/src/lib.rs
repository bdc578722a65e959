//! Game-data logic of Sulis: tile definitions, AI templates and actor hit points.

pub mod point;
pub mod id_map;
pub mod error;
pub mod ai;
pub mod tile;
pub mod actor_state;
pub mod melee_attack;
