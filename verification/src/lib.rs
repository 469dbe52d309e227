//! Core of a secure group-messaging client: group lifecycle over epoch-
//! versioned membership, the welcome (invitation) handshake, message
//! tokenization and reaction aggregation, and the per-account registries
//! (profiles, relays, key packages, follows) they rest on.
//!
//! Every operation works on one explicit `session::Whitenoise` value and on
//! plain data: timestamps as seconds, identifiers as lowercase hexadecimal,
//! keys as 64-digit strings. Transport, storage and the cryptographic
//! primitives live outside and hand such values in.

pub mod accounts;
pub mod encoding;
pub mod error;
pub mod groups;
pub mod messages;
pub mod metadata;
pub mod reactions;
pub mod relays;
pub mod session;
pub mod tokenizer;
pub mod users;
pub mod welcomes;
