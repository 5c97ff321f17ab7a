//! The Discord channel plugin: its accounts and the gateway task of each.

pub mod account;
pub mod bot_token;
pub mod gateway;
pub mod plugin;
pub mod stop;
