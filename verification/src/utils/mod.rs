//! Decoders for the dataset's files.

pub mod data_loading;
