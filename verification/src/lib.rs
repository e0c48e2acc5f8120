//! Backend core for a skin-sharing service: account registration and login
//! with encrypted-at-rest credentials, session-token authentication, CSRF
//! validation, and an image-upload pipeline with content-type, dimension,
//! size and duplicate-content checks.
//!
//! The document store is modelled as in-memory state owned by [`service::Service`];
//! every decision the endpoints make is verified against that model. The
//! outside collaborators — the cipher, the MIME sniffer, the image-header
//! reader, the UUID generator — are reached through small trusted wrappers
//! whose contracts state what their sources show.

pub mod codec;
pub mod ingest;
pub mod laws;
pub mod model;
pub mod service;
pub mod users;
