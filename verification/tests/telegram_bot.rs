//! The Telegram bot.
use codex_manager::app_server::events::TurnProgress;
use codex_manager::app_server::replies::AppServerThread;
use codex_manager::app_server::requests::RequestIds;
use codex_manager::app_server::turns::{AppServerTurnHandle, AppServerTurnResult};
use codex_manager::app_server::usage::{RateLimitSummary, ThreadTokenUsageSummary};
use codex_manager::json::Json;
use codex_manager::telegram::api::{
    answer_callback_payload, delete_message_payload, drop_pending_payload, edit_message_payload,
    edit_outcome, get_updates_payload, remove_keyboard_payload, send_message_payload, sent_message,
    startup_calls, telegram_outcome, telegram_url, TelegramReply,
};
use codex_manager::telegram::board::EventBoard;
use codex_manager::telegram::bot::{
    should_resume_thread, thread_selected_text, turn_delivery, BotState, BotStep, Delivery,
    StopOutcome, ThreadTarget,
};
use codex_manager::telegram::config::{load_config, BotConfig, BotEnv};
use codex_manager::telegram::history::{format_turn_history, thread_history_text};
use codex_manager::telegram::labels::{
    bot_commands, current_context_label, format_runtime_status, menu_action, new_thread_notice,
    project_label, slash_command, split_long_text, status_label, thread_label, truncate,
    MenuAction, RuntimeStatusView, TELEGRAM_TEXT_CHUNK_LIMIT,
};
use codex_manager::telegram::menus::{find_token, status_view, MenuView};
use codex_manager::telegram::preview::{on_progress, turn_preview, StreamPreviewState};
use codex_manager::telegram::projects::{group_by_project, group_projects};
use codex_manager::telegram::updates::{
    callback_to_answer, next_offset, CallbackQuery, Message, Update,
};
use codex_manager::wire::{json_text, parse_json};

fn json(text: &str) -> Json {
    parse_json(text).expect("JSON")
}

fn same(left: &Json, right: &str) -> bool {
    json_text(left) == json_text(&json(right))
}

fn thread(id: &str, cwd: Option<&str>, updated_at: Option<i64>) -> AppServerThread {
    AppServerThread {
        id: id.to_string(),
        title: None,
        cwd: cwd.map(str::to_string),
        preview: None,
        rollout_path: None,
        updated_at,
        status: None,
    }
}

fn buttons(view: &MenuView) -> Vec<(String, String)> {
    let rows = view.reply_markup.get("inline_keyboard").unwrap().as_array().unwrap();
    let mut found = Vec::new();
    for row in rows {
        for button in row.as_array().unwrap() {
            let part = |key: &str| button.get(key).unwrap().as_str().unwrap().to_string();
            found.push((part("text"), part("callback_data")));
        }
    }
    found
}

// Commands and labels

#[test]
fn slash_command_accepts_plain_and_mentioned_commands() {
    assert_eq!(slash_command("/start").as_deref(), Some("start"));
    assert_eq!(slash_command("/start@nova_bot").as_deref(), Some("start"));
    assert_eq!(slash_command("菜单").as_deref(), None);
}

#[test]
fn menu_action_handles_reply_keyboard_text_before_codex_prompt() {
    assert_eq!(menu_action("项目"), Some(MenuAction::Projects));
    assert_eq!(menu_action("对话"), Some(MenuAction::Sessions));
    assert_eq!(menu_action("新对话"), Some(MenuAction::NewThread));
    assert_eq!(menu_action("状态"), Some(MenuAction::Status));
    assert_eq!(menu_action("停止"), Some(MenuAction::Stop));
    assert_eq!(menu_action("帮我改代码"), None);
}

#[test]
fn menu_action_supports_projects_command() {
    assert_eq!(menu_action("/projects"), Some(MenuAction::Projects));
    assert_eq!(menu_action("/projects@nova_bot"), Some(MenuAction::Projects));
}

#[test]
fn commands_are_the_first_word_after_the_slash() {
    assert_eq!(menu_action("/new later"), Some(MenuAction::NewThread));
    assert_eq!(menu_action("/ status"), Some(MenuAction::Status));
    assert_eq!(menu_action("/stop"), Some(MenuAction::UnsupportedCommand));
    assert_eq!(menu_action("/@bot"), None);
    assert_eq!(menu_action("/"), None);
    assert_eq!(menu_action("菜单"), Some(MenuAction::Menu));
}

#[test]
fn bot_commands_omit_menu_to_avoid_duplicate_menu_entry() {
    let commands = bot_commands();
    let values = commands.get("commands").unwrap().as_array().expect("commands");

    let is = |command: &Json, name: &str| command.get("command").unwrap().as_str() == Some(name);
    assert!(values.iter().any(|command| is(command, "start")));
    assert!(!values.iter().any(|command| is(command, "menu")));
}

#[test]
fn current_context_label_shows_project_new_thread_state() {
    assert_eq!(current_context_label(None, None), "未绑定");
    assert_eq!(current_context_label(Some("thread-1"), None), "thread-1");
    assert_eq!(
        current_context_label(None, Some("/Users/example/workspaces/codex-bot")),
        "codex-bot · 新对话"
    );
    assert_eq!(
        current_context_label(Some("thread-1"), Some("/Users/example/workspaces/codex-bot")),
        "codex-bot · thread-1"
    );
}

#[test]
fn thread_label_includes_status_when_present() {
    let thread = AppServerThread {
        id: "thread-1".to_string(),
        title: Some("修复问题".to_string()),
        cwd: None,
        preview: None,
        rollout_path: None,
        updated_at: None,
        status: Some("running".to_string()),
    };

    assert_eq!(thread_label(&thread), "运行中 · 修复问题");
}

#[test]
fn thread_label_falls_back_and_is_cut() {
    let mut given = thread("thread-1", None, None);
    assert_eq!(thread_label(&given), "thread-1");
    given.preview = Some(format!(" {} ", "长".repeat(60)));
    assert_eq!(thread_label(&given), format!("{}...", "长".repeat(53)));
}

#[test]
fn status_label_handles_structured_active_status() {
    assert_eq!(status_label("active:waitingOnApproval"), "等待确认");
    assert_eq!(status_label("idle"), "空闲");
}

#[test]
fn statuses_have_names() {
    let names: Vec<String> =
        ["in_progress", "active", "queued", "completed", "failed", "cancelled", "other"]
            .iter()
            .map(|status| status_label(status))
            .collect();
    assert_eq!(
        names,
        vec!["运行中", "运行中", "排队中", "已完成", "失败", "已取消", "other"]
    );
}

#[test]
fn project_label_is_the_last_name() {
    assert_eq!(project_label("/work/codex-bot//"), "codex-bot");
    assert_eq!(project_label("demo"), "demo");
    assert_eq!(project_label("//"), "//");
    assert_eq!(project_label(""), "");
}

#[test]
fn truncate_leaves_room_for_dots() {
    assert_eq!(truncate("abcdef", 6), "abcdef");
    assert_eq!(truncate("abcdefg", 6), "abc...");
    assert_eq!(truncate("abcdefg", 2), "...");
}

#[test]
fn format_turn_history_renders_last_page_messages() {
    let history = format_turn_history(&vec![
        json(
            r#"{
                "items": [
                    { "role": "user", "text": "帮我看看状态" },
                    { "role": "assistant", "text": "当前状态正常" }
                ]
            }"#,
        ),
        json(
            r#"{
                "items": [
                    { "type": "user_message", "content": [{ "type": "input_text", "text": "继续" }] },
                    { "type": "agent_message", "text": "已经继续处理" }
                ]
            }"#,
        ),
    ]);

    assert_eq!(
        history,
        "你：帮我看看状态\n\nCodex：当前状态正常\n\n你：继续\n\nCodex：已经继续处理"
    );
}

#[test]
fn history_is_shown_oldest_first() {
    let page = thread_history_text(json(
        r#"{ "turns": [
            { "messages": [{ "type": "assistantReply", "message": " b " }] },
            { "role": "user", "content": "a" },
            { "role": "tool", "text": "hidden" },
            { "role": "user", "text": "  " }
        ] }"#,
    ));
    assert_eq!(page, Ok("最近聊天记录：\n你：a\n\nCodex：b".to_string()));
    assert_eq!(
        thread_history_text(json("[]")),
        Ok("最近聊天记录：\n暂无可显示内容。".to_string())
    );
    assert_eq!(
        thread_history_text(json("1")),
        Err("未知 thread/turns/list 响应结构：1".to_string())
    );
}

#[test]
fn split_long_text_keeps_first_chunk_for_processing_message() {
    let chunks = split_long_text(&"a".repeat(TELEGRAM_TEXT_CHUNK_LIMIT + 2));

    assert_eq!(chunks.len(), 2);
    assert_eq!(chunks[0].len(), TELEGRAM_TEXT_CHUNK_LIMIT);
    assert_eq!(chunks[1].len(), 2);
}

#[test]
fn chunks_make_up_the_text() {
    let text = "字é😀a".repeat(1000);
    let chunks = split_long_text(&text);
    assert_eq!(chunks.concat(), text);
    for chunk in &chunks {
        assert!(chunk.len() < TELEGRAM_TEXT_CHUNK_LIMIT + 4);
        assert!(!chunk.is_empty());
    }
    for chunk in &chunks[..chunks.len() - 1] {
        assert!(chunk.len() >= TELEGRAM_TEXT_CHUNK_LIMIT);
    }
    assert!(split_long_text("").is_empty());
}

#[test]
fn stream_preview_flushes_only_after_min_delta_or_interval() {
    let mut preview = StreamPreviewState::new(1500, 8, 120);

    assert_eq!(preview.push("短", 0), None);
    assert_eq!(preview.push("消息", 200), None);
    assert_eq!(
        preview.push("，这次足够长", 400).as_deref(),
        Some("短消息，这次足够长")
    );
    assert_eq!(preview.push("追加", 600), None);
    assert_eq!(
        preview.push("内容", 2100).as_deref(),
        Some("短消息，这次足够长追加内容")
    );
}

#[test]
fn previews_show_text_that_is_written() {
    let mut preview = turn_preview();
    let delta = TurnProgress::Delta("好".repeat(40));
    assert_eq!(
        on_progress(&mut preview, &delta, 0),
        Some(format!("正在处理...\n\n{}", "好".repeat(40)))
    );
    let other = TurnProgress::ApprovalResolved { request_id: 1 };
    assert_eq!(on_progress(&mut preview, &other, 9000), None);
    let nothing = TurnProgress::Delta(String::new());
    assert_eq!(on_progress(&mut preview, &nothing, 9000), None);
    let mut blank = StreamPreviewState::new(10, 1, 20);
    assert_eq!(blank.push("   ", 0), None);
    let mut short = StreamPreviewState::new(10, 1, 6);
    assert_eq!(short.push("abcdefgh", 0).as_deref(), Some("abc..."));
    assert_eq!(short.push("ij", 100), None);
}

#[test]
fn format_runtime_status_includes_usage_and_context() {
    let text = format_runtime_status(&RuntimeStatusView {
        running: true,
        current_context: "demo · thread-1".to_string(),
        thread_status: Some("active:waitingOnApproval".to_string()),
        usage: Some(RateLimitSummary {
            plan: Some("plus".to_string()),
            bucket: Some("Codex".to_string()),
            used_percent: Some(70),
            resets_at: Some(3000),
        }),
        token_usage: Some(ThreadTokenUsageSummary {
            thread_id: "thread-1".to_string(),
            turn_id: "turn-1".to_string(),
            used_tokens: 2500,
            context_window: Some(10000),
            used_percent: Some(25),
        }),
    });

    assert!(text.contains("状态：运行中"));
    assert!(text.contains("当前线程：等待确认"));
    assert!(text.contains("额度：Codex · plus · 70%"));
    assert!(text.contains("上下文：2500/10000 · 25%"));
    assert_eq!(
        text,
        "状态：运行中\n当前对话：demo · thread-1\n当前线程：等待确认\n额度：Codex · plus · 70%\n上下文：2500/10000 · 25%"
    );
}

#[test]
fn format_runtime_status_names_what_is_unknown() {
    let text = format_runtime_status(&RuntimeStatusView {
        running: false,
        current_context: "未绑定".to_string(),
        thread_status: None,
        usage: Some(RateLimitSummary {
            plan: None,
            bucket: None,
            used_percent: None,
            resets_at: None,
        }),
        token_usage: Some(ThreadTokenUsageSummary {
            thread_id: "t".to_string(),
            turn_id: "u".to_string(),
            used_tokens: -7,
            context_window: Some(0),
            used_percent: None,
        }),
    });
    assert_eq!(
        text,
        "状态：已停止\n当前对话：未绑定\n当前线程：未知\n额度：额度 · 未知套餐 · 未知\n上下文：-7"
    );
}

#[test]
fn new_thread_notice_respects_project_context() {
    assert_eq!(new_thread_notice(None, Some("/work/codex-manager")), None);
    assert_eq!(
        new_thread_notice(None, None),
        Some("已切换到独立新对话。直接发送消息即可开始。")
    );
    assert_eq!(new_thread_notice(Some("thread-1"), None), None);
}

#[test]
fn should_resume_thread_skips_loaded_threads() {
    let loaded = vec!["thread-precreated".to_string()];

    assert!(!should_resume_thread(Some("thread-precreated"), &loaded));
    assert!(should_resume_thread(Some("thread-from-history"), &loaded));
    assert!(!should_resume_thread(None, &loaded));
}

#[test]
fn group_projects_uses_project_threads_only_and_sorts_by_activity() {
    let groups = group_projects(
        &mut RequestIds::new(),
        &vec![
            thread("solo", None, Some(900)),
            thread(
                "codex-desktop-chat",
                Some("/Users/example/Documents/Codex/2026-04-25/new-chat"),
                Some(800),
            ),
            thread("p1-old", Some("/work/codex-bot"), Some(100)),
            thread("p2", Some("/work/test2"), Some(300)),
            thread("p1-new", Some("/work/codex-bot"), Some(500)),
        ],
    );

    assert_eq!(
        groups
            .iter()
            .map(|group| (
                project_label(&group.cwd),
                group.thread_count,
                group.latest_updated_at
            ))
            .collect::<Vec<_>>(),
        vec![
            ("codex-bot".to_string(), 2, 500),
            ("test2".to_string(), 1, 300)
        ]
    );
}

#[test]
fn projects_updated_alike_are_sorted_by_name() {
    let groups = group_projects(
        &mut RequestIds::new(),
        &vec![
            thread("1", Some("/a/zeta"), Some(5)),
            thread("2", Some(" /z/alpha "), Some(5)),
            thread("3", Some("/m/mid"), None),
            thread("4", Some("/m/late"), Some(9)),
        ],
    );
    let cwds: Vec<&str> = groups.iter().map(|group| group.cwd.as_str()).collect();
    assert_eq!(cwds, vec!["/m/late", "/z/alpha", "/a/zeta", "/m/mid"]);
    assert_eq!(groups[3].latest_updated_at, 0);
}

#[test]
fn the_order_of_threads_matters_for_ties_only() {
    let threads = vec![
        thread("1", Some("/a/x"), Some(5)),
        thread("2", Some("/b/x"), Some(5)),
        thread("3", Some("/a/x"), Some(2)),
        thread("4", Some("/c/y"), Some(7)),
    ];
    let grouped = |threads: &Vec<AppServerThread>| {
        let cwds = threads.iter().map(|thread| thread.cwd.clone()).collect();
        group_by_project(threads, &cwds)
    };
    let one = grouped(&threads);
    let mut turned = threads.clone();
    turned.reverse();
    let other = grouped(&turned);
    assert_eq!(one.len(), 3);
    assert_eq!(one[0], other[0]);
    for (a, b) in one.iter().zip(other.iter()) {
        assert_eq!(a.latest_updated_at, b.latest_updated_at);
        assert_eq!(project_label(&a.cwd), project_label(&b.cwd));
        assert!(other.contains(a) && one.contains(b));
    }
}

// Updates

fn message(text: &str) -> Message {
    Message { chat_id: 5, message_id: 6, from: Some(1), text: Some(text.to_string()) }
}

fn update() -> Update {
    let callback = CallbackQuery {
        id: "q".to_string(),
        from: 1,
        message: Some((5, 6)),
        data: Some("projects".to_string()),
    };
    Update { update_id: 8, message: None, edited_message: None, callback_query: Some(callback) }
}

#[test]
fn a_message_counts_before_an_edited_one_and_both_before_a_button() {
    let mut bot = BotState::new(1);
    let button = update();
    assert_eq!(callback_to_answer(&button).as_deref(), Some("q"));
    assert!(matches!(
        bot.on_update(&button, false),
        BotStep::ListProjects { chat_id: 5, message_id: Some(6) }
    ));
    let edited = Update { edited_message: Some(message("x")), ..update() };
    assert_eq!(callback_to_answer(&edited), None);
    assert!(matches!(bot.on_update(&edited, false), BotStep::Say { chat_id: 5, .. }));
    let sent = Update { message: Some(message("/sessions")), ..edited };
    assert_eq!(callback_to_answer(&sent), None);
    assert!(matches!(
        bot.on_update(&sent, false),
        BotStep::ListSessions { chat_id: 5, message_id: None }
    ));
    let empty = Update { callback_query: None, ..update() };
    assert_eq!(callback_to_answer(&empty), None);
    assert!(matches!(bot.on_update(&empty, false), BotStep::Nothing));
    assert_eq!(next_offset(empty.update_id), 9);
}

#[test]
fn the_bot_starts_with_its_commands_and_may_drop_what_is_pending() {
    let config = load_config(&env("t", "1", None, None)).unwrap();
    let calls = startup_calls(&config);
    let methods: Vec<&str> = calls.iter().map(|call| call.0.as_str()).collect();
    assert_eq!(methods, vec!["deleteMyCommands", "setMyCommands", "deleteWebhook"]);
    assert!(same(&calls[0].1, "{}"));
    assert_eq!(json_text(&calls[1].1), json_text(&bot_commands()));
    assert!(same(&calls[2].1, r#"{ "drop_pending_updates": true }"#));
    let config = load_config(&env("t", "1", None, Some("0"))).unwrap();
    assert_eq!(startup_calls(&config).len(), 2);
}

// Configuration

fn env(token: &str, user: &str, path: Option<&str>, drop: Option<&str>) -> BotEnv {
    BotEnv {
        telegram_bot_token: Some(token.to_string()),
        telegram_allowed_user_id: Some(user.to_string()),
        codex_path: path.map(str::to_string),
        drop_pending_updates: drop.map(str::to_string),
    }
}

#[test]
fn the_bot_is_configured_by_the_environment() {
    assert_eq!(
        load_config(&env(" t ", " -12 ", None, None)),
        Ok(BotConfig {
            token: "t".to_string(),
            allowed_user_id: -12,
            codex_path: "codex".to_string(),
            drop_pending_updates: true,
        })
    );
    let config = load_config(&env("t", "+7", Some("/bin/codex"), Some("no"))).unwrap();
    assert_eq!(config.allowed_user_id, 7);
    assert_eq!(config.codex_path, "/bin/codex");
    assert!(!config.drop_pending_updates);
    for yes in ["1", " true ", "TRUE", "yes", "YES", "on", "ON"] {
        assert!(load_config(&env("t", "1", None, Some(yes))).unwrap().drop_pending_updates);
    }
}

#[test]
fn a_bot_without_token_or_user_is_refused() {
    assert_eq!(
        load_config(&env(" ", "1", None, None)),
        Err("TELEGRAM_BOT_TOKEN 未配置".to_string())
    );
    let missing = BotEnv { telegram_allowed_user_id: None, ..env("t", "", None, None) };
    assert_eq!(
        load_config(&missing),
        Err("TELEGRAM_ALLOWED_USER_ID 未配置".to_string())
    );
    assert_eq!(
        load_config(&env("t", "12a", None, None)),
        Err("TELEGRAM_ALLOWED_USER_ID 不是有效数字：invalid digit found in string".to_string())
    );
    assert_eq!(
        load_config(&env("t", "9223372036854775808", None, None)),
        Err(
            "TELEGRAM_ALLOWED_USER_ID 不是有效数字：number too large to fit in target type"
                .to_string()
        )
    );
}

// The API

#[test]
fn calls_of_the_api_are_addressed_and_judged() {
    assert_eq!(
        telegram_url("123:abc", "getMe"),
        "https://api.telegram.org/bot123:abc/getMe"
    );
    let answer = |success: bool, ok: bool, said: Option<&str>| TelegramReply::Answer {
        success,
        status: "404 Not Found".to_string(),
        ok,
        description: said.map(str::to_string),
    };
    assert_eq!(telegram_outcome("m", &answer(true, true, None)), Ok(()));
    assert_eq!(
        telegram_outcome("m", &answer(true, false, Some("no"))),
        Err("Telegram API m 失败：no".to_string())
    );
    assert_eq!(
        telegram_outcome("m", &answer(false, true, None)),
        Err("Telegram API m 失败：404 Not Found".to_string())
    );
    assert_eq!(
        telegram_outcome("m", &TelegramReply::NotSent("x".to_string())),
        Err("请求 Telegram API 失败：x".to_string())
    );
    assert_eq!(
        telegram_outcome("m", &TelegramReply::Unreadable("x".to_string())),
        Err("解析 Telegram API 响应失败：x".to_string())
    );
    assert_eq!(edit_outcome(Err("Bad: message is not modified".to_string())), Ok(()));
    assert_eq!(edit_outcome(Err("gone".to_string())), Err("gone".to_string()));
    assert_eq!(sent_message(Some(4)), Ok(4));
    assert_eq!(sent_message(None), Err("Telegram sendMessage 响应缺少消息".to_string()));
}

#[test]
fn calls_of_the_api_say_what_they_are_about() {
    assert!(same(
        &get_updates_payload(-3),
        r#"{ "offset": -3, "timeout": 25, "allowed_updates": ["message", "edited_message", "callback_query"] }"#
    ));
    assert!(same(&drop_pending_payload(), r#"{ "drop_pending_updates": true }"#));
    assert!(same(
        &send_message_payload(-5, "好", None),
        r#"{ "chat_id": -5, "text": "好" }"#
    ));
    assert!(same(
        &edit_message_payload(5, 6, "好", Some(json("{}"))),
        r#"{ "chat_id": 5, "message_id": 6, "text": "好", "reply_markup": {} }"#
    ));
    assert!(same(&delete_message_payload(5, 6), r#"{ "chat_id": 5, "message_id": 6 }"#));
    assert!(same(
        &remove_keyboard_payload(5),
        r#"{ "chat_id": 5, "text": "正在打开菜单。", "reply_markup": { "remove_keyboard": true } }"#
    ));
    assert!(same(&answer_callback_payload("q"), r#"{ "callback_query_id": "q" }"#));
}

// The board

#[test]
fn the_board_keeps_what_was_heard_last() {
    let mut board = EventBoard::new();
    for status in ["running", "idle"] {
        board.on_event(&json(&format!(
            r#"{{ "method": "thread/status/changed", "params": {{ "threadId": "t", "status": "{status}" }} }}"#
        )));
    }
    board.on_event(&json(
        r#"{ "method": "account/rateLimits/updated", "params": { "rateLimits": { "planType": "pro" } } }"#,
    ));
    board.on_event(&json(
        r#"{ "method": "thread/tokenUsage/updated", "params": { "threadId": "t", "turnId": "u",
            "tokenUsage": { "total": { "totalTokens": 50 }, "modelContextWindow": 200 } } }"#,
    ));
    assert_eq!(board.status_of("t").as_deref(), Some("idle"));
    assert_eq!(board.status_of("u"), None);
    assert_eq!(board.usage_of("t").unwrap().used_percent, Some(25));
    let listed = board.with_live_status(vec![thread("t", None, None), thread("u", None, None)]);
    assert_eq!(listed[0].status.as_deref(), Some("idle"));
    assert_eq!(listed[1].status, None);
    let view = status_view(&board, Some("t"), None);
    assert_eq!(
        view.text,
        "状态：运行中\n当前对话：t\n当前线程：空闲\n额度：额度 · pro · 0%\n上下文：50/200 · 25%"
    );
    board.on_rate_limit(None);
    assert!(board.limit().is_some());
}

// The bot

const USER: i64 = 77;

fn say(step: BotStep) -> String {
    match step {
        BotStep::Say { text, .. } => text,
        other => panic!("{other:?}"),
    }
}

fn running(bot: &mut BotState, message_id: i64) {
    bot.task_begun();
    bot.turn_begun(
        5,
        message_id,
        Some("/work/demo".to_string()),
        &AppServerTurnHandle { thread_id: "t".to_string(), turn_id: "u".to_string() },
    );
}

#[test]
fn strangers_are_refused() {
    let mut bot = BotState::new(USER);
    assert_eq!(
        say(bot.on_message(Some(1), 5, 6, Some("/start"), false)),
        "没有权限使用这个 bot。"
    );
    assert_eq!(
        say(bot.on_message(None, 5, 6, Some("x"), false)),
        "没有权限使用这个 bot。"
    );
    assert!(matches!(
        bot.on_edited_message(Some(1), 5, 6, Some("x"), false),
        BotStep::Nothing
    ));
    assert!(matches!(
        bot.on_callback(1, Some((5, 6)), Some("new"), false),
        BotStep::Nothing
    ));
}

#[test]
fn messages_open_menus_and_lists() {
    let mut bot = BotState::new(USER);
    let mut send = |text: &str| bot.on_message(Some(USER), 5, 6, Some(text), false);
    match send(" /start ") {
        BotStep::OpenMenu { chat_id: 5, view } => {
            assert_eq!(
                view.text,
                "CodexManager\n\n当前对话：未绑定\n\n直接发送文本即可继续当前对话。"
            );
            let data: Vec<String> = buttons(&view).into_iter().map(|found| found.1).collect();
            assert_eq!(data, vec!["projects", "sessions", "new", "status", "stop"]);
        }
        other => panic!("{other:?}"),
    }
    assert!(matches!(send("/new"), BotStep::StartThread { project_dir: None, .. }));
    assert!(matches!(send("项目"), BotStep::ListProjects { message_id: None, .. }));
    assert!(matches!(send("对话"), BotStep::ListSessions { message_id: None, .. }));
    assert!(matches!(send("状态"), BotStep::ShowStatus { message_id: None, .. }));
    assert_eq!(say(send("停止")), "当前没有可停止的任务。");
    assert_eq!(say(send("/help")), "暂不支持这个命令。可用 /start 打开菜单。");
    assert!(matches!(send("  "), BotStep::Nothing));
    assert!(matches!(bot.on_message(Some(USER), 5, 6, None, false), BotStep::Nothing));
}

#[test]
fn a_prompt_starts_a_turn_and_the_next_one_joins_it() {
    let mut bot = BotState::new(USER);
    match bot.on_message(Some(USER), 5, 6, Some(" 你好 "), false) {
        BotStep::Ask { chat_id, message_id, prompt, notice, said, thread_id, project_dir, resume } => {
            assert_eq!((chat_id, message_id, prompt.as_str()), (5, 6, "你好"));
            assert_eq!(said, "正在处理...");
            assert_eq!(
                notice.as_deref(),
                Some("已切换到独立新对话。直接发送消息即可开始。")
            );
            assert_eq!((thread_id, project_dir, resume), (None, None, false));
        }
        other => panic!("{other:?}"),
    }
    running(&mut bot, 6);
    match bot.on_message(Some(USER), 5, 7, Some("再来"), false) {
        BotStep::Steer { thread_id, turn_id, prompt, said, .. } => {
            assert_eq!(said, "已追加到当前运行。");
            assert_eq!((thread_id.as_str(), turn_id.as_str(), prompt.as_str()), ("t", "u", "再来"));
        }
        other => panic!("{other:?}"),
    }
    match bot.on_message(Some(USER), 5, 8, Some("新的"), true) {
        BotStep::Ask { notice, thread_id, resume, .. } => {
            assert_eq!((notice, thread_id.as_deref(), resume), (None, Some("t"), false));
        }
        other => panic!("{other:?}"),
    }
}

#[test]
fn an_edited_prompt_goes_back_to_its_thread() {
    let mut bot = BotState::new(USER);
    assert_eq!(
        say(bot.on_edited_message(Some(USER), 5, 6, Some("改"), false)),
        "这条消息没有可回退的 Codex 记录，请直接发送新消息继续。"
    );
    running(&mut bot, 6);
    assert_eq!(
        say(bot.on_edited_message(Some(USER), 5, 6, Some("改"), false)),
        "Codex 正在处理当前任务，请等待完成或点击停止。"
    );
    assert!(matches!(
        bot.on_edited_message(Some(USER), 5, 6, Some("/start"), false),
        BotStep::Nothing
    ));
    bot.clear_finished_task(true);
    bot.thread_started("other", None);
    match bot.on_edited_message(Some(USER), 5, 6, Some(" 改 "), true) {
        BotStep::Ask { prompt, thread_id, project_dir, resume, .. } => {
            assert_eq!(prompt, "改");
            assert_eq!(thread_id.as_deref(), Some("t"));
            assert_eq!(project_dir.as_deref(), Some("/work/demo"));
            assert!(!resume);
        }
        other => panic!("{other:?}"),
    }
    assert_eq!(bot.current_thread(), Some("t"));
    assert_eq!(bot.current_project(), Some("/work/demo"));
}

#[test]
fn a_turn_is_stopped_from_its_chat() {
    let mut bot = BotState::new(USER);
    running(&mut bot, 6);
    assert_eq!(
        say(bot.on_message(Some(USER), 9, 1, Some("停止"), false)),
        "当前没有可停止的任务。"
    );
    assert!(matches!(
        bot.on_callback(USER, Some((5, 6)), Some("stop"), false),
        BotStep::Interrupt { chat_id: 5 }
    ));
    assert_eq!(bot.finish_stop(&StopOutcome::Failed("x".to_string())), "停止失败：x");
    assert_eq!(bot.finish_stop(&StopOutcome::TaskGone), "停止失败：生成任务已结束。");
    assert_eq!(
        bot.finish_stop(&StopOutcome::TimedOut),
        "停止失败：等待 app-server 确认超时。"
    );
    assert_eq!(
        say(bot.on_message(Some(USER), 5, 1, Some("停止"), false)),
        "当前没有可停止的任务。"
    );
    running(&mut bot, 7);
    assert!(matches!(
        bot.on_message(Some(USER), 5, 1, Some("停止"), false),
        BotStep::Interrupt { .. }
    ));
    assert_eq!(bot.finish_stop(&StopOutcome::Stopped), "已停止当前生成。");
    assert!(matches!(
        bot.on_message(Some(USER), 5, 8, Some("再来"), false),
        BotStep::Ask { .. }
    ));
    assert_eq!(bot.finish_stop(&StopOutcome::NotDelivered), "当前没有可停止的任务。");
}

#[test]
fn buttons_of_lists_lead_to_what_they_show() {
    let mut bot = BotState::new(USER);
    let mut ids = RequestIds::new();
    let threads = vec![
        thread("a", Some("/work/demo"), Some(5)),
        thread("b", None, Some(6)),
        thread("c", Some("/work/other"), Some(7)),
        thread("d", Some("/work/demo"), Some(1)),
    ];
    let view = bot.projects_listed(&mut ids, &threads);
    assert_eq!(view.text, "项目：");
    assert_eq!(
        buttons(&view),
        vec![
            ("other (1)".to_string(), "project:1".to_string()),
            ("demo (2)".to_string(), "project:2".to_string()),
            ("返回".to_string(), "menu".to_string()),
        ]
    );
    let dir = match bot.on_callback(USER, Some((5, 6)), Some("project:2"), false) {
        BotStep::ListProject { chat_id: 5, message_id: 6, project_dir } => project_dir,
        other => panic!("{other:?}"),
    };
    assert_eq!(dir, "/work/demo");
    let view = bot.project_listed(&threads, &dir);
    assert_eq!(view.text, "项目：demo");
    let data: Vec<String> = buttons(&view).into_iter().map(|found| found.1).collect();
    assert_eq!(data, vec!["thread:1", "thread:2", "project_new:2", "projects", "menu"]);
    match bot.on_callback(USER, Some((5, 6)), Some("thread:2"), false) {
        BotStep::ShowSelected { target, .. } => {
            assert_eq!(
                target,
                ThreadTarget {
                    thread_id: "d".to_string(),
                    project_dir: Some("/work/demo".to_string())
                }
            );
        }
        other => panic!("{other:?}"),
    }
    assert_eq!(bot.current_thread(), Some("d"));
    assert!(matches!(
        bot.on_callback(USER, Some((5, 6)), Some("project_new:2"), false),
        BotStep::StartThread { project_dir: Some(_), .. }
    ));
    let view = bot.sessions_listed(&mut ids, &threads);
    assert_eq!(view.text, "独立对话：");
    match bot.on_callback(USER, Some((5, 6)), Some("history:1"), false) {
        BotStep::ShowHistory { thread_id, .. } => assert_eq!(thread_id, "b"),
        other => panic!("{other:?}"),
    }
}

#[test]
fn empty_lists_say_so() {
    let mut bot = BotState::new(USER);
    let mut ids = RequestIds::new();
    let none = Vec::new();
    assert_eq!(bot.projects_listed(&mut ids, &none).text, "暂无项目会话。");
    assert_eq!(bot.sessions_listed(&mut ids, &none).text, "暂无独立对话。");
    assert_eq!(bot.project_listed(&none, "/work/x").text, "项目：x");
    let one = vec![thread("a", Some("/work/x"), None)];
    assert_eq!(bot.project_listed(&one, "/work/x").text, "项目：x\n暂无会话。");
    bot.projects_listed(&mut ids, &one);
    assert_eq!(bot.project_listed(&none, "/work/x").text, "项目：x\n暂无会话。");
}

#[test]
fn old_buttons_are_refused() {
    let mut bot = BotState::new(USER);
    let mut press = |data: &str| bot.on_callback(USER, Some((5, 6)), Some(data), false);
    assert_eq!(say(press("history:1")), "这个历史入口已过期，请重新打开对话列表。");
    assert_eq!(say(press("thread:1")), "这个对话入口已过期，请重新打开对话列表。");
    assert_eq!(say(press("project:1")), "这个项目入口已过期，请重新打开项目列表。");
    assert_eq!(say(press("project_new:x")), "这个项目入口已过期，请重新打开项目列表。");
    assert!(matches!(press("else"), BotStep::Nothing));
    assert!(matches!(press("new"), BotStep::StartThread { project_dir: None, .. }));
    assert!(matches!(press("projects"), BotStep::ListProjects { message_id: Some(6), .. }));
    assert!(matches!(press("sessions"), BotStep::ListSessions { message_id: Some(6), .. }));
    assert!(matches!(press("status"), BotStep::ShowStatus { message_id: Some(6), .. }));
    assert!(matches!(press("menu"), BotStep::EditMenu { message_id: 6, .. }));
    assert!(matches!(bot.on_callback(USER, None, Some("new"), false), BotStep::Nothing));
    assert!(matches!(bot.on_callback(USER, Some((5, 6)), None, false), BotStep::Nothing));
    assert_eq!(find_token("3", 3), Some(2));
    assert_eq!(find_token("03", 3), None);
    assert_eq!(find_token("4", 3), None);
    assert_eq!(find_token("0", 3), None);
}

#[test]
fn new_threads_are_announced() {
    let mut bot = BotState::new(USER);
    assert_eq!(
        bot.thread_started("t", Some("/work/demo/".to_string())),
        "已切换到项目新对话：demo。直接发送消息即可开始。"
    );
    assert_eq!(
        bot.thread_started("u", None),
        "已切换到独立新对话。直接发送消息即可开始。"
    );
    assert_eq!((bot.current_thread(), bot.current_project()), (Some("u"), None));
    let target = ThreadTarget { thread_id: "t".to_string(), project_dir: None };
    assert_eq!(
        thread_selected_text(&target, Err("x".to_string())),
        "已切换到对话：t\n项目：独立对话\n\n历史记录读取失败：x"
    );
    let target = ThreadTarget { project_dir: Some("/work/demo".to_string()), ..target };
    assert_eq!(
        thread_selected_text(&target, Ok("最近聊天记录：\n你：a".to_string())),
        "已切换到对话：t\n项目：demo\n\n最近聊天记录：\n你：a"
    );
}

#[test]
fn the_output_of_a_turn_is_delivered() {
    let result = |output: &str, completed: bool| {
        Ok(AppServerTurnResult {
            thread_id: "t".to_string(),
            turn_id: None,
            output: output.to_string(),
            completed,
        })
    };
    assert_eq!(turn_delivery(result("半", false)), Delivery::Nothing);
    assert_eq!(
        turn_delivery(result(" \n", true)),
        Delivery::Output(vec!["Codex 已完成，但没有返回文本。".to_string()])
    );
    match turn_delivery(result(&"a".repeat(4000), true)) {
        Delivery::Output(chunks) => {
            let lengths: Vec<usize> = chunks.iter().map(|chunk| chunk.len()).collect();
            assert_eq!(lengths, vec![3500, 500]);
        }
        other => panic!("{other:?}"),
    }
    assert_eq!(
        turn_delivery(Err("x".to_string())),
        Delivery::Failure("Codex 调用失败：x".to_string())
    );
}
