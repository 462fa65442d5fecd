//! A small, verified substring-search library.
//!
//! Given a query and the text of a file, the library selects every line that
//! contains the query, optionally after lowercasing both sides, and reports
//! each hit as a pair of the zero-based line index and the line itself.

pub mod args;
pub mod lines;
pub mod render;
pub mod search;
pub mod text;

pub use args::{ArgumentError, Args};
pub use lines::split_lines;
pub use render::render_match;
pub use search::search;
pub use text::contains;
