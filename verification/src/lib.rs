//! A reader and query engine for operator catalogs: a catalog is a stream of
//! YAML documents, each a package, a channel or a bundle. The crate decodes
//! the documents, groups them by owning package and answers `list` and `show`
//! queries as text.

pub mod catalog;
pub mod decode;
pub mod loader;
pub mod model;
pub mod query;
pub mod render;
pub mod yaml;
