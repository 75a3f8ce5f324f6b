//! The planning explorers: each turn they tour the galaxy, plan which
//! complex resource to make next and carry out the plan.

pub mod galaxy;
pub mod bag;
pub mod explorer;
pub mod planning;
pub mod routes;
pub mod round;
