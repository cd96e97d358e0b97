//! Verified core of a deployment tool for 1Panel servers: compose-file image
//! updates, API response handling, configuration precedence and the small
//! string computations that the command-line front end relies on.

pub mod api;
pub mod compose;
pub mod config;
pub mod error;
pub mod json;
pub mod laws;
pub mod panel;
pub mod requests;
pub mod site;
pub mod text;
pub mod yaml;
