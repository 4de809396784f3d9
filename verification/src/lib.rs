//! A testbed for the stochastic k-armed bandit problem: agents that choose
//! among arms, bandits that answer with rewards, and the loop that plays one
//! against the other and records what happened.
//!
//! Numbers are binary64 values held by their bit pattern, so that every rule
//! that compares them is stated and proved over integers.

pub mod number;
pub mod argmax;
pub mod random;
pub mod agent;
pub mod bandit;
pub mod record;
