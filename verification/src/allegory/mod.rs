//! The allegory explorer: it maps the galaxy, collects the basic resources its
//! task needs and crafts the complex ones.

pub mod knowledge;
pub mod bag;
pub mod explorer;
pub mod ai;
pub mod communication;
pub mod turn;
