//! Decision logic for an agent gateway: the `read_image` tool and the Discord
//! account plugin. Everything here is free of I/O. The surrounding process
//! performs the actions that this crate hands out and reports back what happened.

pub mod base64_codec;
pub mod discord;
pub mod error;
pub mod file_name;
pub mod json;
pub mod megabytes;
pub mod numeral;
pub mod read_image;
pub mod sandbox;
pub mod session_read;
pub mod shell;
pub mod text;
