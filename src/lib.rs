//! Short-lived Gists: upload files, wait for an interrupt, delete them again.
//!
//! The library decides; the program around it reads files, talks HTTP and waits for
//! signals. `app::App::step` takes the run from one event to the next action.
pub mod app;
pub mod auth;
pub mod client;
pub mod data;
pub mod error;
pub mod names;
pub mod response;
pub mod utils;
