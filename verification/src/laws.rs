//! What holds of the engine as a whole.
pub mod collections;
pub mod evaluation;
pub mod events;
pub mod pools;
pub mod programs;
pub mod setup;
pub mod startup;
pub mod text;
