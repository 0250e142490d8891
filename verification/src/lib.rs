//! A message-dispatch core: topics are registered with ordered handler lists
//! and an optional per-topic consumption strategy; sealed registrations route
//! every incoming message to each of its topic's handlers in order, feeding
//! each handler its own extraction result.

pub mod extract;
pub mod message;
pub mod subscriber;
pub mod topic_handler;
