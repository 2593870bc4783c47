//! The decisions of a conformance runner: what to run, how to judge it, and how to count it.
pub mod frontmatter;
pub mod judge;
pub mod lines;
pub mod report;
pub mod schedule;
