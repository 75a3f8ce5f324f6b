//! The cetto explorer: it exploits the planet it is on, combining what it
//! can and generating the basic resources its goal still needs.

pub mod knowledge;
pub mod explorer;
pub mod communication;
pub mod turn;
