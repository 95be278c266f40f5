//! Typed protocol values for a federated messaging client: validated identifiers,
//! event content and envelopes with their construction rules, the binding of
//! requests and responses to wire messages, and base64 data.
pub mod api;
pub mod encoding;
pub mod events;
pub mod identifiers;
pub mod json;
pub mod percent;
