//! Running a program: statements, expressions and what they ask of the object model.
pub mod call_laws;
pub mod class;
pub mod class_laws;
pub mod class_part_laws;
pub mod dynamic;
pub mod eval;
pub mod exec;
pub mod expression_laws;
pub mod object_laws;
pub mod pattern_laws;
pub mod laws;
pub mod object;
pub mod operate;
pub mod operator_laws;
pub mod program;
pub mod program_laws;
pub mod promise;
pub mod promise_laws;
pub mod resource_laws;
pub mod session;
pub mod statement_laws;
pub mod suspend;
pub mod tail;
pub mod wait_laws;
