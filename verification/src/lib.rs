//! Lumen: a JavaScript engine core.
pub mod ast;
pub mod bigint;
pub mod engine;
pub mod grammar;
pub mod interp;
pub mod jobs;
pub mod literal;
pub mod modules;
pub mod number;
pub mod runner;
pub mod scan;
pub mod scope;
pub mod snapshot;
pub mod text;
pub mod token;
pub mod tree;
pub mod units;
pub mod value;
