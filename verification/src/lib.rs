//! A toroidal Game of Life engine with per-cell age tracking, together with a
//! decoder for run-length-encoded (RLE) pattern files.
//!
//! `parsers` turns RLE text into a sparse [`parsers::Pattern`]; `universe`
//! owns the cell grid and advances it one generation at a time; `render`
//! maps two stacked grid rows onto one character cell for a terminal
//! compositor; `text` holds the character-sequence helpers the decoder is
//! built from.

pub mod laws;
pub mod parsers;
pub mod render;
pub mod text;
pub mod universe;

