//! Tokens as inline parsing reads them.
pub mod kind;
