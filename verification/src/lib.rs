//! Follow a growing text file and hand out its lines as they are completed.
//!
//! The crate separates the pure decisions of a tailing session from the
//! file-system work that drives it.  `lines` assembles complete lines out of
//! arbitrarily chunked byte reads; `session` is the state machine that opens,
//! reads, and reopens one path across rotation and truncation; `chat` holds
//! the command decisions of the chat collaborator that consumes the lines.

pub mod chat;
pub mod lines;
pub mod session;
