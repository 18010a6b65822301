//! The decision logic of a block storage engine.
//!
//! The engine keeps a table of pools that are set up, a map of the devices of
//! pools that could not be set up yet, and the last event number seen on each
//! watched device. What it does with the outside world (reading devices,
//! running programs, making links) is asked for and answered from outside.
pub mod assoc;
pub mod cmd;
pub mod engine;
pub mod errors;
pub mod events;
pub mod laws;
pub mod setup;
pub mod startup;
pub mod table;
pub mod text;
pub mod types;
pub mod uuids;
