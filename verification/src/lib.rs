//! The rules of a node that replicates archives: which blob stands at which path, what is said of
//! it over gossip, which announced archives are downloaded, and how nodes find each other through
//! a registry.
//!
//! Nothing here talks to a network or a disk. Where that is needed, the library says what is to be
//! done as a plain value, and is told what came of it as another.

pub mod config;
pub mod discovery;
pub mod discovery_laws;
pub mod gossip;
pub mod gossip_laws;
pub mod http;
pub mod ids;
pub mod index;
pub mod json;
pub mod laws;
pub mod peer_laws;
pub mod peers;
pub mod proxy;
pub mod registry;
pub mod registry_laws;
pub mod replicator;
pub mod replicator_laws;
pub mod store;
pub mod store_laws;
pub mod text;
pub mod text_laws;
