//! The verified core of simple-request, a desktop tool for testing HTTP APIs.
//!
//! The largest part is the secret vault. It keeps a registry of non-sensitive
//! reference records for secrets whose values live in the platform
//! credential store ([`registry`], [`reference`]), names the place of each
//! secret in that store and the meaning of the store's failures
//! ([`backend`]), decides how the registry changes for every outcome of a
//! call on the store ([`vault`]), and packs a payload into a
//! password-protected blob for export and import ([`codec`], [`blob`]).
//! What the codec takes from other crates stands in [`primitives`].
//!
//! Beside the vault stand the plan of an HTTP request ([`request`]) and the
//! order and file names of request collections ([`collections`]).
//!
//! Reading and writing files, talking to the credential store and sending
//! requests are left to the application around this library.

pub mod backend;
pub mod blob;
pub mod codec;
pub mod collections;
pub mod error;
pub mod primitives;
pub mod reference;
pub mod registry;
pub mod request;
pub mod text;
pub mod vault;
