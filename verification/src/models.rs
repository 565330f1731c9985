pub mod elements;
pub mod error;
pub mod model;
pub mod typed_lines;
pub mod unified_model;
pub mod unit;
