//! Decoding of IDX-style image and label files, and the forward pass of a
//! single dense layer over the decoded images.
//!
//! Every function in this crate carries a contract that Verus proves. The
//! contracts speak of the mathematical views of the data: a [`FlatImage`]
//! is a sequence of pixels with a height and a width, a file is a sequence
//! of bytes, and a [`Layer`] is a matrix of weights with one bias per row.

pub mod models;
pub mod neural_networks;
pub mod utils;

pub use models::{FlatImage, FlatImageView, Label};
