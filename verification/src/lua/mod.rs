//! The Luau scripting layer: modules, type declarations, event callbacks and `require`.
pub mod builder;
pub mod callbacks;
pub mod modules;
pub mod require;
pub mod types;
