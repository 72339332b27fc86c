//! Renders text as large block letters in a five-row font, with optional
//! horizontal squashing of neighbouring glyphs.
pub mod font;
pub mod compose;
pub mod lemmas;
