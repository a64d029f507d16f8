//! Rendering data structures: HTML elements and documents, tags, bibliography item types and
//! rows of the Unimarkup interchange format.
pub mod context;
pub mod csl;
pub mod highlight;
pub mod html;
pub mod html_render;
pub mod html_text;
pub mod log_id;
pub mod tag;
pub mod umi;
