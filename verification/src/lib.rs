//! Builds the bootable Onyx kernel image: a kernel binary with its metadata
//! record rewritten in place, the loader at a page-aligned offset behind it,
//! and a terminal guard page, optionally compressed.

pub mod builder;
pub mod compress;
pub mod config;
pub mod endian;
pub mod error;
pub mod image;
pub mod locate;
pub mod meta;
pub mod validate;
pub mod workspace;
