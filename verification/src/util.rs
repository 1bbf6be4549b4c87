//! Building blocks shared by the commands.

pub mod config;
pub mod document;
pub mod model;
pub mod text;
