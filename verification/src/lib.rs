//! Parsing and validation of shapez shape keys.
//!
//! A shape key is the compact text form of a layered shape, such as
//! `RuCrSgWw:Rr------`: up to four layers separated by `:`, each layer made of
//! four quadrants, each quadrant either `--` (empty) or a sub-shape code
//! followed by a color code. [`shapez_shape`] turns a key into a [`Shape`] or
//! into the diagnostics that reject it; [`Shape::short_key`] writes a shape
//! back as its key.

pub mod error;
pub mod faults;
pub mod grammar;
pub mod key;
pub mod ordinal;
pub mod parse;
pub mod shape;
pub mod split;
pub mod text;

pub use crate::error::{LengthFault, ParseError};
pub use crate::ordinal::ordinal;
pub use crate::parse::{check_key, check_layer, check_quad, get_color, get_sub_shape, shapez_shape};
pub use crate::shape::{Color, Layer, Quad, Shape, Subshape, MAX_LAYERS, QUADS_AMOUNT};
