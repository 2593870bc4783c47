//! Modules: what they export and import, in which order they run, and how an evaluation that waits
//! goes on.
pub mod evaluate;
pub mod evaluate_laws;
pub mod exports;
pub mod graph;
pub mod import_laws;
pub mod instantiate;
pub mod laws;
pub mod link;
pub mod load;
pub mod order;
pub mod plan;
pub mod progress;
pub mod register;
pub mod resolve;
pub mod source;
pub mod table;
