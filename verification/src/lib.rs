//! Credential lifecycle core for an identity service.
//!
//! The library covers secret generation and hashed storage (`crypto`), the
//! credential store with its atomic operations (`store`), the network-facing
//! operations — validation, the one-time activation exchange, and
//! enumeration-resistant registration (`handlers`) — the administrative
//! operations (`admin`), and the role-based access gate that dependent
//! services build on the validation verdict (`auth`). Every operation takes
//! the store and the current timestamp as plain arguments; reading the
//! clock, the HTTP surface, persistence and outbound email live outside the
//! library and hand plain values in.

pub mod admin;
pub mod auth;
pub mod crypto;
pub mod handlers;
pub mod store;
pub mod strutil;
pub mod tickets;
pub mod timefmt;
