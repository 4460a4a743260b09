//! The sans-I/O core of a bidirectional agent control protocol.

pub mod encode;
pub mod envelope;
pub mod errors;
pub mod hooks;
pub mod ident;
pub mod interrupt;
pub mod json;
pub mod laws;
pub mod laws_decisions;
pub mod laws_wire;
pub mod model;
pub mod permission;
pub mod protocol;
pub mod query;
pub mod table;
