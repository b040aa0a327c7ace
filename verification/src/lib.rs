//! The logic of CodexManager.
pub mod app_server;
pub mod bot_settings;
pub mod codex_provider;
pub mod config;
pub mod json;
pub mod startup_permissions;
pub mod telegram;
pub mod text;
pub mod text_map;
pub mod toml_text;
pub mod tray;
pub mod wire;
pub mod workdir;
