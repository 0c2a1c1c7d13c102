//! The logic of a small Discord command line client, verified with Verus: the webhook and
//! bot-token configuration, the requests sent to Discord, and the text it shows.

pub mod api;
pub mod color;
pub mod commands;
pub mod config;
pub mod json;
pub mod text;
pub mod webhooks;
