//! The API routes.
pub mod activity;
pub mod message;
