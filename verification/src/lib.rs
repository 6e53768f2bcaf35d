//! A virtual aquarium: participants adopt fish, must feed them within a day,
//! and lose them to hunger otherwise.
//!
//! The crate is the verified core of the game. A host supplies the current
//! time, the sender's canonical address and optional randomness with each
//! call; the functions here decide what happens to the tank.

pub mod colour;
pub mod contract;
pub mod entity_store;
pub mod error;
pub mod id_allocator;
pub mod laws;
pub mod model;
pub mod msg;
pub mod owner_index;
pub mod state;

