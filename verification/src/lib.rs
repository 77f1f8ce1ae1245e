//! Queries and rewrites of markup documents: the image sources that a page
//! references, and a multi-slide page cut down to one slide.

pub mod element;
pub mod images;
pub mod index;
pub mod transform;

pub use images::extract_images;
pub use transform::single_slide;
