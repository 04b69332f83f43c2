//! Karl: hosts that run compute requests for clients, the controller that
//! finds them, and the dashboard that lists them.
pub mod controller;
pub mod dashboard;
pub mod error;
pub mod host;
pub mod package;
pub mod packet;
pub mod path;
pub mod request;
pub mod service;
pub mod text;
