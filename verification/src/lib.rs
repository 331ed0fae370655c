//! Core of a lighting-show project manager: users identified by PEM-encoded
//! RSA public keys, a tagged/scoped permission model, an authorization engine
//! gating every mutating operation, a storage-agnostic data-access contract
//! with an in-memory backend, a project-bootstrap state machine, and a
//! round-tripping project-descriptor codec.

pub mod authorize;
pub mod codec;
pub mod dao;
pub mod dao_memory;
pub mod error;
pub mod init;
pub mod keys;
pub mod permission;
pub mod project;
pub mod project_types;
pub mod sequence;
pub mod user;
