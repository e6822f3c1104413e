//! The image generation client.
pub mod errors;
pub mod api;
pub mod output;
pub mod cli;
pub mod config;
pub mod client;
pub mod logging;
