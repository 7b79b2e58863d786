//! A line-editing engine for an interactive shell: a bounded command history
//! with prefix search, an edit buffer with a logical cursor, completion
//! planning, and the key-event state machine that ties them together.

mod ring;
pub mod text;
pub mod history;
pub mod edit;
pub mod session;
pub mod completion;
pub mod command;
pub mod prompt;
