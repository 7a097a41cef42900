//! Hash visualisation: a byte string is stretched with HKDF-SHA256 into a
//! 256-bit key, and the key is drawn as a grid of coloured terminal cells, one
//! palette colour per nibble.

pub mod palette;
pub mod ansi;
pub mod mozaic;
pub mod shape;

pub use mozaic::Mozaic;
pub use ansi::render;
