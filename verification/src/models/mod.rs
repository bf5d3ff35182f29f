//! The values that the decoders produce and the layer consumes.

pub mod flat_image;
pub mod label;

pub use flat_image::{FlatImage, FlatImageView};
pub use label::Label;
