//! Key lifecycle management for a PKCS#11-token-backed key store.
//!
//! The library keeps a durable mapping from a logical key name (a triple of
//! application, provider and key name) to the 4-byte identifier that links the
//! record to the objects held on the token, and implements the four lifecycle
//! operations (generate, import, export, destroy) as compensable sagas over
//! that mapping.

pub mod asn1;
pub mod attributes;
pub mod error;
pub mod key_management;
pub mod key_types;
pub mod local_ids;
pub mod store;
