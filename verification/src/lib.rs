//! The decision logic of the skekbot Discord bot, verified.
pub mod text;
pub mod util;
pub mod config;
pub mod db;
pub mod features;
pub mod random;
pub mod startup;
pub mod commands;
pub mod web;
pub mod lua;
