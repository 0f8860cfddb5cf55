//! A server-push connection registry.
//!
//! The registry tracks one long-lived outbound event channel per logical
//! session, delivers named events to one session or to all of them, reports
//! dead channels to its caller, and tells the caller which external session
//! state must be removed when a connection is lost. A small styling helper
//! module rides along for the builder layer above the transport.

mod channel;
pub mod connection;
pub mod session;
pub mod sse;
pub mod style;
