//! HWPX serialization of a word-processor document model, with the
//! formatting rules stated and proved.

pub mod text;
pub mod model;
pub mod utils;
pub mod error;
pub mod header;
pub mod shape;
pub mod picture;
pub mod section;
pub mod table;
pub mod zip_writer;
pub mod static_assets;
pub mod content;
pub mod hwpx;
