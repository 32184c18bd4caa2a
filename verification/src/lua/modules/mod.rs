//! The `@skekbot/*` modules that scripts can `require`.
pub mod db;
pub mod env;
pub mod events;
pub mod hidden;
pub mod log;
pub mod me;
pub mod rest;
pub mod types;
