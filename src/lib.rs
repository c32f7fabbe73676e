//! Decision engine of a HotStuff-style BFT replica: proposal validation,
//! the voting safety rules, vote aggregation, the pacemaker and the
//! three-chain commit rule, written as verified state transitions.
//! Effects (storage, network, timers, signing) are returned as orders.

pub mod messages;
pub mod committee;
pub mod aggregator;
pub mod replica;
pub mod safety;
