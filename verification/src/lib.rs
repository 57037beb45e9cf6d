//! An in-place chat line editor with incremental-search autocompletion.
//!
//! The engine is a single state machine: a text buffer with cursor semantics,
//! command history navigation, word-boundary-aware editing, and a hint-cycling
//! protocol layered on top of an external search provider. The host
//! application delivers key and character events and performs the outside
//! work (running the search, emitting status lines, replicating the buffer to
//! the host's own display); this crate makes every decision and proves that
//! its state invariants hold across every event.

pub mod chat;
pub mod hints;
pub mod keys;
pub mod laws;

pub use chat::Chat;
pub use chat::ChatModel;
pub use chat::KeyOutcome;
pub use hints::RenderOutcome;
