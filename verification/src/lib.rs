pub mod app_state;
pub mod derive_expand;
pub mod derive_syntax;
pub mod domain;
pub mod dto;
pub mod file_browser;
pub mod key_data;
pub mod lists_schema;
pub mod literal;
pub mod models;
pub mod parse;
pub mod schema;
pub mod str_map;
pub mod text;
pub mod unit_enum_expand;
pub mod utility;
