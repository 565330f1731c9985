pub mod lists;
pub mod lists_config;
