//! A matching-pool allocator: a funder deposits a fixed fund into an escrow,
//! projects register with a voting pool, voters cast weighted votes, and at
//! settlement the fund is split across projects in proportion to the votes
//! each one received.

pub mod types;
pub mod registration;
pub mod voting;
pub mod settlement;
pub mod laws;
