//! The Telegram bot.
pub mod api;
pub mod board;
pub mod bot;
pub mod config;
pub mod history;
pub mod labels;
pub mod menus;
pub mod preview;
pub mod projects;
pub mod updates;
