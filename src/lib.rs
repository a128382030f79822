//! Building SVG documents as trees of elements and rendering them to markup text.

pub mod element;
pub mod path;
pub mod text;
pub mod value;
