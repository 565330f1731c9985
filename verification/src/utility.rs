pub mod parse;
pub mod calculation;
