pub mod item_line_conversion_error;
