//! Line-art rendering of text: glyph coverage is laid out into line images,
//! binarized, and traced with marching squares into box-drawing characters.

pub mod coverage;
pub mod glyph;
pub mod grid;
pub mod layout;
pub mod marching;
pub mod render;
