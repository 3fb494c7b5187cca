//! Verified building blocks of a version-control toolkit: the engine that
//! decides how fetched references update local ones, a parser for
//! configuration files, and tag objects.

pub mod bytes;
pub mod hash;
pub mod fetch;
pub mod config;
pub mod tag;
