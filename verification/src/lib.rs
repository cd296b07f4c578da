//! Cleans lines of terminal output: strips ANSI escape sequences and maps
//! Unicode box-drawing glyphs to ASCII equivalents.

pub mod cleaner;
pub mod escape;
pub mod glyph;

pub use cleaner::clean_text;
pub use cleaner::output_file_name;
