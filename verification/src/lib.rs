//! A catalog of media files: records built from the entries of a directory
//! walk, kept in a keyed store, and looked up or relabelled by identifier.

pub mod record;
pub mod ident;
pub mod crawl;
pub mod store;
pub mod service;
pub mod migrate;
