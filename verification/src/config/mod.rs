//! Configuration files.

pub mod parse;
