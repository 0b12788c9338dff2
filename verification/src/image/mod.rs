//! Images: registries, copying between them, archives, and moving images into
//! and out of the nodes of clusters without access to a registry.
pub mod archive;
pub mod export;
pub mod import;
pub mod repo;
pub mod scan;
pub mod sync;
