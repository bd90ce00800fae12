//! The consensus of the RPUs: a byzantine fault tolerant agreement on blocks
//! (PRaftBFT), held as state machines whose steps are verified.

pub mod error;
pub mod message;
pub mod consensus_core;
pub mod follower;
pub mod stateful_validation;
pub mod view_change;
pub mod synchronizer;
pub mod leader;
pub mod censorship;
