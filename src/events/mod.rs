//! Event content shapes, their dispatch by event type, the room event envelope
//! and redaction.
pub mod content;
pub mod envelope;
pub mod redaction;
pub mod verification_start;
