//! The playground server controller.
pub mod error;
pub mod guides;
pub mod html;
pub mod slug;
pub mod templates;
pub mod server;
pub mod proc;
pub mod project;
pub mod index;
pub mod cli;
pub mod lifecycle;
pub mod commands;
