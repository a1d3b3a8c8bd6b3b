//! Incremental mirror of a serialized web publication.
//!
//! The library keeps a catalog of volumes and chapters, reconciles it
//! against a freshly fetched table-of-contents listing, detects content
//! changes when chapter bodies are fetched, and tracks which entities
//! still need their e-book artifact regenerated.  Network access,
//! persistence and artifact packaging are collaborators that live
//! outside this crate; the catalog logic here is verified.

pub mod catalog;
pub mod config;
pub mod fetch;
pub mod mail;
pub mod plan;
pub mod rate;
pub mod store;
pub mod sync;
