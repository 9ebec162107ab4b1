//! What rendering a page needs besides its fragments: the addresses of its
//! images and the translations of its labels.

pub mod images;
pub mod translations;

pub use images::ImageProcessor;
