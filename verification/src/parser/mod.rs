//! Block-level parsing helpers: element kinds, heading levels, list keywords and parser context.
pub mod block_parser;
pub mod bullet_list;
pub mod context;
pub mod heading;
pub mod kind;
pub mod log_id;
pub mod types;
pub mod verbatim;
