//! Ownership-based authorization and on-demand image derivatives for an
//! emote hosting service.
//!
//! Identifiers (UUIDs) are carried as their 128-bit value.
pub mod authz;
pub mod config;
pub mod derivative;
pub mod display;
pub mod guards;
pub mod image_type;
pub mod session;
pub mod slug;
pub mod store;
pub mod token;
