//! Tables of text for the terminal.
//!
//! A [`Table`] holds rows of cells, as they are read from CSV text or handed
//! over by the caller. It is rendered in one of two styles: the basic style
//! lines the columns up with spaces, the fancy style draws the table with box
//! characters. Either way a column is as wide as its longest cell, counted in
//! characters.
//!
//! What a table renders to is stated by the functions `basic_text` and
//! `fancy_text` over the rows alone, and the rendering functions are proved to
//! give exactly that text.

pub mod basic;
pub mod fancy;
pub mod records;
pub mod table;
pub mod text;
pub mod widths;

pub use table::{FormatError, LoadError, Options, Style, Table};
