//! Decision logic of the explorers and planets of a turn-based galaxy game:
//! knowledge bookkeeping, path finding, bags of resources, crafting plans and
//! the message-driven state machines of the explorers.

pub mod resources;
pub mod graph;
pub mod allegory;
pub mod cetto;
pub mod planner;
pub mod table;
pub mod bag;
pub mod protocol;
pub mod text;
pub mod idmap;
pub mod config;
pub mod factory;
pub mod gui;
pub mod laws;
pub mod planet;
