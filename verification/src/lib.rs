//! The Ender Dragon: its phases, its flight, the damage it takes and its death.
//!
//! All numbers are worked out on their bit patterns, so that every result is
//! fixed to the last bit.

pub mod block;
pub mod brain;
pub mod damage;
pub mod death;
pub mod dragon;
pub mod explosion;
pub mod flight;
pub mod float;
pub mod graph;
pub mod host;
pub mod laws;
pub mod part;
pub mod phase;
pub mod save;
pub mod vector;
