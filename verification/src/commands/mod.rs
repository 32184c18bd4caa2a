//! The slash commands' decisions and replies.
pub mod dad;
pub mod fun;
pub mod info;
pub mod luau;
pub mod quote;
pub mod rock_paper_scissors;
pub mod traitor_only;
