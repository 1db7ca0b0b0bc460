//! An in-memory voting registry: candidates, voters, ballots and the tally,
//! with every operation specified over an abstract model and proved to keep
//! the registry consistent.

pub mod error;
pub mod laws;
pub mod model;
pub mod system;
