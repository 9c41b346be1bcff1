//! Explorer registry and ring-buffered event log, verified.

pub mod types;
pub mod table;
pub mod events;
pub mod model;
pub mod contract;
pub mod laws;
pub mod operation_laws;
