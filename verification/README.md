# codex_manager

The logic of CodexManager: a desktop program that switches between Codex providers, and a
Telegram bot through which one person talks to Codex. The library in `src/` is written in Verus;
each of its functions has a contract that Verus proves.

| Module | What it holds |
| --- | --- |
| `json`, `wire` | JSON values, and their text |
| `text`, `text_map` | Texts as sequences of characters; maps from texts |
| `toml_text` | TOML documents, as they are written and read |
| `workdir` | Directories in which Codex works; which of them are projects |
| `app_server` | The protocol of `codex app-server`: requests, replies, events, turns, approvals |
| `config`, `codex_provider` | The configuration, the providers, and the files that Codex reads |
| `bot_settings` | The settings of the bot and its service |
| `telegram` | The bot: updates, menus, messages, previews, and the state of the conversation |
| `tray` | The menu in the menu bar |
| `startup_permissions` | Permissions that the host grants |

What a function of an outside crate returns is stated in the wrapper that calls it (`wire.rs`, `toml_text.rs`,
`workdir.rs`, `codex_provider.rs` and a few others); those statements are not proved.

`app/` is ordinary Rust around the library: processes, files, HTTP and the desktop window.
`tests/` runs the library on concrete values.
