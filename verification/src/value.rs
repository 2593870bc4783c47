//! The object model: properties, shapes, typed arrays and number formats.
pub mod heap;
pub mod props;
pub mod shape;
pub mod typed;
pub mod width;
