//! Marshalling between a host's dynamic values and the strict value model of a
//! remapping engine, and the execution of compiled remap programs on them.

pub mod engine;
pub mod error;
pub mod float;
pub mod host;
pub mod laws;
pub mod transform;
pub mod value;
