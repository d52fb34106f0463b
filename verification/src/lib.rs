//! A codec for the fill of a drawing: the `rainbow` token, one hex colour,
//! or a gradient of hex colours.
//!
//! A document presents a fill as a [`Shape`]: a text, or a sequence of
//! texts. [`Fill::deserialize`] reads it, [`Fill::serialize`] writes it back,
//! and [`laws`] states what holds of the two together.

pub mod color;
pub mod error;
pub mod fill;
pub mod hex;
pub mod laws;
pub mod shape;
pub mod text;

pub use color::Color;
pub use error::DecodeError;
pub use fill::Fill;
pub use shape::Shape;
