//! A destination-discovery cache for an outbound proxy data path.
//!
//! For every accepted connection the proxy must decide whether to perform
//! dynamic service discovery for the destination address, reuse the resulting
//! per-destination service across concurrent and sequential connections, and
//! drop the entry once the destination has gone cold.
//!
//! The crate models that decision layer as a deterministic state machine
//! driven by explicit events: time, resolution outcomes and terminal-service
//! construction are supplied by the caller, so every rule of the cache —
//! single-flight resolution, idle eviction, failure handling, the policy
//! gate — is stated in contracts and proved.

pub mod addr;
pub mod cache;
pub mod discover;
pub mod laws;
