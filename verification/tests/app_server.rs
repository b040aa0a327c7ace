//! Requests, replies, events and turns of the app-server.
use codex_manager::app_server::approvals::{
    approval_response_result, automatic_server_request_response, mark_auto_server_request_resolved,
    server_request_response, PendingApprovalRequest,
};
use codex_manager::app_server::calls::CallOnce;
use codex_manager::app_server::events::{
    agent_completed_message, agent_delta, apply_agent_event_to_output, event_matches_turn,
    server_request_progress, tool_label, turn_completed, TurnProgress,
};
use codex_manager::app_server::process::{search_path, search_path_for, spawn_error_text};
use codex_manager::app_server::reader::{
    awaited_reply, read_response, reading_ended, write_error_event, Awaited, ReaderAction,
    Received, ServerRequests,
};
use codex_manager::app_server::replies::{
    after_turns_list, is_unsupported_thread_resume_error, is_unsupported_thread_turns_list_error,
    normalize_thread_list, parse_thread_list_result, parse_thread_read_result,
    parse_thread_start_result, parse_thread_turns_list_result, thread_live_status,
    thread_read_status, thread_read_to_turns_list_result, thread_status_is_active, AppServerThread,
    TurnsListStep,
};
use codex_manager::app_server::requests::{
    account_rate_limits_request, initialize_request, initialized_notification, message_line,
    notification, request, thread_archive_request, thread_list_request, thread_read_request,
    thread_resume_request, thread_rollback_request, thread_start_request,
    thread_turns_list_request, turn_interrupt_request, turn_start_request, turn_steer_request,
    RequestIds,
};
use codex_manager::app_server::turns::{
    on_idle_status, on_interrupted, on_shared_event, on_turn_received, plan_turn, plan_turn_with,
    started_turn, started_turn_id, turn_result, AppServerTurnHandle, IdleStep, SharedEvent,
    TurnOutput, TurnRefusal, TurnStep,
};
use codex_manager::app_server::usage::{
    parse_rate_limits_update, parse_thread_status_change, parse_thread_token_usage_update,
    summarize_rate_limits, token_usage_is_countable, ThreadStatusChange,
};
use codex_manager::json::Json;
use codex_manager::wire::{encode_json, json_text, parse_json, pretty_text};
use codex_manager::workdir::{
    effective_cwd, is_codex_desktop_chat_cwd, is_iso_date, normalize_thread_cwd,
    normalize_thread_cwd_against, own_cwd_from, path_components, paths_equal, process_cwd,
    standalone_cwd, standalone_cwd_for_new_thread, standalone_cwd_in, HostPath,
};

fn json(text: &str) -> Json {
    parse_json(text).expect("JSON")
}

fn text_at<'a>(value: &'a Json, key: &str) -> Option<&'a str> {
    value.get(key).and_then(|found| found.as_str())
}

fn number_at(value: &Json, key: &str) -> Option<u64> {
    value.get(key).and_then(|found| found.as_u64())
}

fn same(left: &Json, right: &str) -> bool {
    json_text(left) == json_text(&json(right))
}

fn documents(text: &str) -> Option<HostPath> {
    Some(HostPath { text: text.to_string(), raw: None })
}

fn thread(id: &str, cwd: Option<&str>) -> AppServerThread {
    AppServerThread {
        id: id.to_string(),
        title: None,
        cwd: cwd.map(str::to_string),
        preview: None,
        rollout_path: None,
        updated_at: None,
        status: None,
    }
}

// Requests

#[test]
fn thread_list_request_uses_json_rpc() {
    let rpc = thread_list_request(&mut RequestIds::new(), 10);

    assert_eq!(rpc.jsonrpc, "2.0");
    assert_eq!(rpc.method, "thread/list");
    let params = rpc.params.unwrap();
    assert_eq!(number_at(&params, "limit"), Some(10));
    assert_eq!(text_at(&params, "sortKey"), Some("updated_at"));
    assert_eq!(text_at(&params, "sortDirection"), Some("desc"));
    assert!(params.get("sourceKinds").is_none());
}

#[test]
fn thread_list_request_asks_for_25_in_place_of_none() {
    let rpc = thread_list_request(&mut RequestIds::new(), 0);
    assert_eq!(number_at(&rpc.params.unwrap(), "limit"), Some(25));
}

#[test]
fn initialize_request_declares_app_server_capabilities() {
    let rpc = initialize_request(&mut RequestIds::new(), "1.2.3");

    let params = rpc.params.unwrap();
    assert_eq!(text_at(params.get("clientInfo").unwrap(), "name"), Some("codex-manager"));
    assert_eq!(text_at(params.get("clientInfo").unwrap(), "version"), Some("1.2.3"));
    assert_eq!(
        params.get("capabilities").unwrap().get("experimentalApi").unwrap().as_bool(),
        Some(true)
    );
}

#[test]
fn account_rate_limits_request_uses_app_server_method() {
    let rpc = account_rate_limits_request(&mut RequestIds::new());

    assert_eq!(rpc.method, "account/rateLimits/read");
    assert!(same(&rpc.params.unwrap(), "{}"));
}

#[test]
fn thread_turns_list_request_uses_pagination_params() {
    let rpc = thread_turns_list_request(
        &mut RequestIds::new(),
        "thread-1",
        Some("cursor-1"),
        6,
        "desc",
    );

    assert_eq!(rpc.method, "thread/turns/list");
    let params = rpc.params.unwrap();
    assert_eq!(text_at(&params, "threadId"), Some("thread-1"));
    assert_eq!(text_at(&params, "cursor"), Some("cursor-1"));
    assert_eq!(number_at(&params, "limit"), Some(6));
    assert_eq!(text_at(&params, "sortDirection"), Some("desc"));
}

#[test]
fn thread_turns_list_request_leaves_out_a_blank_cursor() {
    let mut ids = RequestIds::new();
    let rpc = thread_turns_list_request(&mut ids, "thread-1", Some("  "), 6, "desc");
    assert!(rpc.params.unwrap().get("cursor").is_none());
    let rpc = thread_turns_list_request(&mut ids, "thread-1", Some(" c "), 6, "desc");
    assert_eq!(text_at(&rpc.params.unwrap(), "cursor"), Some("c"));
}

#[test]
fn thread_rollback_request_uses_num_turns() {
    let rpc = thread_rollback_request(&mut RequestIds::new(), "thread-1", 3);

    assert_eq!(rpc.method, "thread/rollback");
    let params = rpc.params.unwrap();
    assert_eq!(text_at(&params, "threadId"), Some("thread-1"));
    assert_eq!(number_at(&params, "numTurns"), Some(3));
}

#[test]
fn thread_rollback_request_drops_one_turn_at_least() {
    let rpc = thread_rollback_request(&mut RequestIds::new(), "thread-1", 0);
    assert_eq!(number_at(&rpc.params.unwrap(), "numTurns"), Some(1));
}

#[test]
fn turn_steer_request_uses_expected_turn_id() {
    let rpc = turn_steer_request(&mut RequestIds::new(), "thread-1", "turn-1", "追加说明");

    assert_eq!(rpc.method, "turn/steer");
    let params = rpc.params.unwrap();
    assert_eq!(text_at(&params, "threadId"), Some("thread-1"));
    assert_eq!(text_at(&params, "expectedTurnId"), Some("turn-1"));
    let input = params.get("input").unwrap().as_array().unwrap();
    assert_eq!(text_at(&input[0], "text"), Some("追加说明"));
}

#[test]
fn thread_read_request_uses_include_turns() {
    let rpc = thread_read_request(&mut RequestIds::new(), "thread-1", true);

    assert_eq!(rpc.method, "thread/read");
    let params = rpc.params.unwrap();
    assert_eq!(text_at(&params, "threadId"), Some("thread-1"));
    assert_eq!(params.get("includeTurns").unwrap().as_bool(), Some(true));
}

#[test]
fn thread_resume_request_uses_thread_id() {
    let rpc = thread_resume_request(&mut RequestIds::new(), "thread-1");

    assert_eq!(rpc.method, "thread/resume");
    let params = rpc.params.unwrap();
    assert_eq!(text_at(&params, "threadId"), Some("thread-1"));
    assert_eq!(text_at(&params, "approvalPolicy"), Some("never"));
    assert_eq!(text_at(&params, "sandbox"), Some("danger-full-access"));
}

#[test]
fn thread_archive_request_uses_thread_id() {
    let rpc = thread_archive_request(&mut RequestIds::new(), "thread-1");

    assert_eq!(rpc.method, "thread/archive");
    assert_eq!(text_at(&rpc.params.unwrap(), "threadId"), Some("thread-1"));
}

#[test]
fn turn_interrupt_request_uses_thread_and_turn_id() {
    let rpc = turn_interrupt_request(&mut RequestIds::new(), "thread-1", "turn-1");

    assert_eq!(rpc.method, "turn/interrupt");
    let params = rpc.params.unwrap();
    assert_eq!(text_at(&params, "threadId"), Some("thread-1"));
    assert_eq!(text_at(&params, "turnId"), Some("turn-1"));
}

#[test]
fn thread_start_request_without_cwd_uses_full_access_permissions() {
    let rpc = thread_start_request(&mut RequestIds::new(), None);

    assert_eq!(rpc.method, "thread/start");
    assert!(same(
        &rpc.params.unwrap(),
        r#"{ "approvalPolicy": "never", "sandbox": "danger-full-access" }"#
    ));
}

#[test]
fn thread_start_request_tells_a_cwd_that_is_not_blank() {
    let mut ids = RequestIds::new();
    let rpc = thread_start_request(&mut ids, Some("/work/demo"));
    assert_eq!(text_at(&rpc.params.unwrap(), "cwd"), Some("/work/demo"));
    let rpc = thread_start_request(&mut ids, Some(" \t"));
    assert!(rpc.params.unwrap().get("cwd").is_none());
}

#[test]
fn turn_start_request_uses_full_access_permissions() {
    let rpc = turn_start_request(&mut RequestIds::new(), "thread-1", "继续", None);

    assert_eq!(rpc.method, "turn/start");
    let params = rpc.params.unwrap();
    assert_eq!(text_at(&params, "threadId"), Some("thread-1"));
    assert_eq!(text_at(&params, "approvalPolicy"), Some("never"));
    assert!(same(
        params.get("sandboxPolicy").unwrap(),
        r#"{ "type": "dangerFullAccess" }"#
    ));
}

#[test]
fn requests_are_numbered_and_written_on_one_line() {
    let mut ids = RequestIds::new();
    let first = request(&mut ids, "a", None);
    let second = request(&mut ids, "b", Some(json(r#"{ "text": "x\ny" }"#)));
    assert_eq!((first.id, second.id), (1, 2));

    let first = first.to_json();
    assert!(same(&first, r#"{ "jsonrpc": "2.0", "id": 1, "method": "a" }"#));
    let line = message_line(&second.to_json()).unwrap();
    assert_eq!(
        line,
        r#"{"id":2,"jsonrpc":"2.0","method":"b","params":{"text":"x\ny"}}"#
    );
    assert!(same(&json(&line), &line));
    assert!(same(
        &initialized_notification(),
        r#"{ "method": "initialized", "params": {} }"#
    ));
    assert!(same(&notification("note", None), r#"{ "method": "note" }"#));
}

// Working directories

#[test]
fn normalize_thread_cwd_treats_codex_desktop_chat_as_standalone() {
    let mut ids = RequestIds::new();
    assert_eq!(
        normalize_thread_cwd(
            &mut ids,
            Some("/Users/example/Documents/Codex/2026-04-25/new-chat".to_string())
        ),
        None
    );
    assert_eq!(
        normalize_thread_cwd(&mut ids, Some("/Users/example/workspaces/codex-bot".to_string()))
            .as_deref(),
        Some("/Users/example/workspaces/codex-bot")
    );
}

#[test]
fn normalize_thread_cwd_knows_directories_of_standalone_chats() {
    let standalone = standalone_cwd_in(documents("/d"), "2026-05-01", "101112013", 7);
    let project = |cwd: &str| normalize_thread_cwd_against(Some(cwd.to_string()), &standalone);
    assert_eq!(project(" /work/demo// "), Some("/work/demo".to_string()));
    assert_eq!(project(" / "), None);
    assert_eq!(project("/d/Codex/./2026-05-01//chat-101112013-7"), None);
    assert_eq!(
        project("/Users/a/Library/Application Support/CodexManager/standalone"),
        None
    );
    let unknown = Err("无法定位文稿目录".to_string());
    assert_eq!(
        normalize_thread_cwd_against(
            Some("/a/ApplicationSupport/CodexManager/standalone".to_string()),
            &unknown
        ),
        Some("/a/ApplicationSupport/CodexManager/standalone".to_string())
    );
    assert_eq!(normalize_thread_cwd_against(None, &standalone), None);
    let once = project(" /work/demo// ");
    assert_eq!(normalize_thread_cwd_against(once.clone(), &standalone), once);
}

#[test]
fn an_id_is_taken_only_where_there_is_a_directory_to_judge() {
    let mut ids = RequestIds::new();
    assert_eq!(normalize_thread_cwd(&mut ids, None), None);
    assert_eq!(normalize_thread_cwd(&mut ids, Some(" // ".to_string())), None);
    assert_eq!(request(&mut ids, "m", None).id, 1);
    normalize_thread_cwd(&mut ids, Some("/w".to_string()));
    assert_eq!(request(&mut ids, "m", None).id, 3);
}

#[test]
fn steps_are_taken_on_the_bytes_of_a_path() {
    let path = HostPath { text: "/d/\u{fffd}".to_string(), raw: Some(b"/d/\xff".to_vec()) };
    let chat = standalone_cwd_in(Some(path), "2026-05-01", "101112013", 7).unwrap();
    assert_eq!(chat.text, "/d/\u{fffd}/Codex/2026-05-01/chat-101112013-7");
    assert_eq!(chat.raw, Some(b"/d/\xff/Codex/2026-05-01/chat-101112013-7".to_vec()));
    let root = HostPath { text: "\u{fffd}/".to_string(), raw: Some(b"\xff/".to_vec()) };
    assert_eq!(root.join("文").raw, Some(b"\xff/\xe6\x96\x87".to_vec()));
    assert_eq!(documents("/d").unwrap().join("文"), documents("/d/文").unwrap());
    let empty = HostPath { text: String::new(), raw: Some(Vec::new()) };
    assert_eq!(empty.join("a").raw, Some(b"a".to_vec()));
}

/// The shape of a live chat directory, whatever documents directory this host has.
fn assert_chat_shape(cwd: &str) {
    let names = path_components(cwd);
    let last = names.len() - 1;
    assert_eq!(names[last - 2], "Codex");
    assert!(is_iso_date(&names[last - 1]));
    assert!(names[last].starts_with("chat-"));
    let first = names.iter().position(|name| name == "Documents");
    if first == Some(last - 3) {
        assert!(cwd.contains("/Documents/Codex/"));
        assert!(is_codex_desktop_chat_cwd(cwd));
    }
}

#[test]
fn standalone_cwd_uses_codex_desktop_chat_directory_shape() {
    match standalone_cwd(&mut RequestIds::new()) {
        Ok(cwd) => assert_chat_shape(&cwd.text),
        Err(message) => assert_eq!(message, "无法定位文稿目录"),
    }
    let cwd = standalone_cwd_in(
        documents("/Users/example/Documents"),
        "2026-05-01",
        "101112013",
        7,
    )
    .expect("standalone cwd");

    assert!(cwd.text.contains("/Documents/Codex/"));
    assert!(is_codex_desktop_chat_cwd(&cwd.text));
    assert_eq!(cwd.text, "/Users/example/Documents/Codex/2026-05-01/chat-101112013-7");
    let again = Ok(cwd.clone());
    assert_eq!(normalize_thread_cwd_against(Some(cwd.text), &again), None);
}

#[test]
fn standalone_cwd_uses_distinct_directory_per_new_thread() {
    let mut ids = RequestIds::new();
    match (standalone_cwd(&mut ids), standalone_cwd(&mut ids)) {
        (Ok(first), Ok(second)) => {
            assert_ne!(first, second);
            let names = path_components(&first.text);
            assert!(is_iso_date(&names[names.len() - 2]));
            let name = &names[names.len() - 1];
            assert!(name.starts_with("chat-") && name.ends_with("-1"));
            assert_eq!(name.len(), "chat-101112013-1".len());
        }
        (Err(first), Err(second)) => {
            assert_eq!(first, "无法定位文稿目录");
            assert_eq!(second, "无法定位文稿目录");
        }
        _ => panic!("the documents directory came or went"),
    }
    let first = standalone_cwd_in(documents("/d/Documents"), "2026-05-01", "101112013", 1);
    let second = standalone_cwd_in(documents("/d/Documents"), "2026-05-01", "101112013", 2);
    assert_ne!(first.unwrap(), second.unwrap());
}

#[test]
fn standalone_cwd_for_new_thread_only_applies_to_new_standalone_threads() {
    let standalone = own_cwd_from(standalone_cwd_in(
        documents("/Users/example/Documents"),
        "2026-05-01",
        "101112013",
        7,
    ))
    .expect("standalone cwd");
    assert!(standalone
        .as_deref()
        .is_some_and(|cwd| cwd.contains("/Documents/Codex/") && is_codex_desktop_chat_cwd(cwd)));

    let mut ids = RequestIds::new();
    match standalone_cwd_for_new_thread(&mut ids, None, None) {
        Ok(own) => assert_chat_shape(&own.expect("a directory")),
        Err(message) => assert_eq!(message, "无法定位文稿目录"),
    }
    assert_eq!(
        standalone_cwd_for_new_thread(&mut ids, Some("thread-1"), None).unwrap(),
        None
    );
    assert_eq!(
        standalone_cwd_for_new_thread(&mut ids, None, Some("/work/project")).unwrap(),
        None
    );
}

#[test]
fn paths_that_are_no_unicode_are_reported() {
    let path = HostPath { text: "/d/\u{fffd}".to_string(), raw: Some(b"/d/\xff".to_vec()) };
    let report = "cwd 不是有效 UTF-8：/d/\u{fffd}".to_string();
    assert_eq!(effective_cwd(None, &path), Err(report.clone()));
    assert_eq!(effective_cwd(Some(" /w "), &path), Ok("/w".to_string()));
    assert_eq!(own_cwd_from(Ok(path.clone())), Err(report));
    assert!(!paths_equal("/d/\u{fffd}", &path));
    assert_eq!(
        standalone_cwd_in(None, "2026-05-01", "101112013", 7),
        Err("无法定位文稿目录".to_string())
    );
}

#[test]
fn paths_are_taken_apart_by_slashes() {
    assert_eq!(path_components("/a//b/./../c/"), vec!["a", "b", "c"]);
    let path = HostPath { text: "/a/b".to_string(), raw: None };
    assert!(paths_equal("/a/./b/", &path));
    assert!(!paths_equal("a/b", &path));
    assert!(!paths_equal("/a/../b", &path));
    let here = HostPath { text: "./a".to_string(), raw: None };
    assert!(paths_equal("./a", &here));
    assert!(!paths_equal("a", &here));
    assert!(is_iso_date("2026-05-01"));
    assert!(!is_iso_date("2026-05-1"));
    assert!(!is_iso_date("2026/05/01"));
    assert!(!is_iso_date("２026-05-01"));
}

#[test]
fn a_second_documents_directory_is_no_chat() {
    assert!(is_codex_desktop_chat_cwd("/u/Documents/Codex/2026-05-01/x"));
    assert!(!is_codex_desktop_chat_cwd("/Documents/u/Documents/Codex/2026-05-01/x"));
    assert!(!is_codex_desktop_chat_cwd("/u/Documents/Codex/2026-05-01/x/y"));
    assert!(!is_codex_desktop_chat_cwd("/u/Documents/Codex/today/x"));
}

#[test]
fn a_given_directory_is_used_as_it_stands() {
    let mut ids = RequestIds::new();
    let given = process_cwd(&mut ids, Some(" /w ")).unwrap();
    assert_eq!(given.path.text, " /w ");
    assert!(!given.create);
    if let Ok(made) = process_cwd(&mut ids, Some(" ")) {
        assert!(made.create);
        assert!(made.path.text.contains("/chat-"));
    }
}

// Replies

#[test]
fn parse_thread_list_result_accepts_threads_key() {
    let threads = parse_thread_list_result(json(
        r#"{
            "threads": [
                { "id": "thread-1", "title": "测试", "cwd": "/work/demo", "updatedAt": 100 }
            ]
        }"#,
    ))
    .expect("parse");

    assert_eq!(threads[0].id, "thread-1");
    assert_eq!(threads[0].title.as_deref(), Some("测试"));
    assert_eq!(threads[0].cwd.as_deref(), Some("/work/demo"));
    assert_eq!(threads[0].updated_at, Some(100));
}

#[test]
fn parse_thread_list_result_accepts_array() {
    let threads = parse_thread_list_result(json(r#"[{ "id": "thread-1" }, { "id": "thread-2" }]"#))
        .expect("parse");

    assert_eq!(threads.len(), 2);
}

#[test]
fn parse_thread_list_result_accepts_app_server_data_key() {
    let threads = parse_thread_list_result(json(
        r#"{
            "data": [
                {
                    "id": "thread-1",
                    "cwd": "/work/demo",
                    "preview": "第一条消息",
                    "path": "/tmp/rollout.jsonl",
                    "updatedAt": 1777105074,
                    "status": "running"
                }
            ],
            "nextCursor": "cursor"
        }"#,
    ))
    .expect("parse");

    assert_eq!(threads[0].id, "thread-1");
    assert_eq!(threads[0].preview.as_deref(), Some("第一条消息"));
    assert_eq!(threads[0].rollout_path.as_deref(), Some("/tmp/rollout.jsonl"));
    assert_eq!(threads[0].updated_at, Some(1777105074));
    assert_eq!(threads[0].status.as_deref(), Some("running"));
}

#[test]
fn parse_thread_list_result_accepts_object_status() {
    let threads = parse_thread_list_result(json(
        r#"{
            "data": [
                {
                    "id": "thread-1",
                    "status": { "type": "active", "activeFlags": ["waitingOnApproval"] }
                }
            ]
        }"#,
    ))
    .expect("parse");

    assert_eq!(threads[0].status.as_deref(), Some("active:waitingOnApproval"));
}

#[test]
fn parse_thread_list_result_reports_what_does_not_fit() {
    let error = |text: &str| parse_thread_list_result(json(text)).unwrap_err();
    assert_eq!(
        error(r#"{ "threads": [{ "id": "a" }, { "title": "x" }] }"#),
        "解析 thread/list 结果失败：missing field `id`"
    );
    assert_eq!(
        error(r#"[{ "id": 5 }]"#),
        "解析 thread/list 结果失败：invalid type: integer `5`, expected a string"
    );
    assert_eq!(
        error(r#"[{ "id": "a", "updatedAt": 1.5 }]"#),
        "解析 thread/list 结果失败：invalid type: floating point `1.5`, expected i64"
    );
    assert_eq!(
        error(r#"[{ "id": "a", "updatedAt": 18446744073709551615 }]"#),
        "解析 thread/list 结果失败：invalid value: integer `18446744073709551615`, expected i64"
    );
    assert_eq!(
        error(r#"[{ "id": "a", "cwd": ["x"], "title": 1 }]"#),
        "解析 thread/list 结果失败：invalid type: sequence, expected a string"
    );
    assert_eq!(
        error(r#"[null]"#),
        "解析 thread/list 结果失败：invalid type: null, expected struct AppServerThread"
    );
    assert_eq!(
        error(r#"{ "items": "x\"y" }"#),
        "解析 thread/list 结果失败：invalid type: string \"x\\\"y\", expected a sequence"
    );
    assert_eq!(
        error(r#"[[]]"#),
        "解析 thread/list 结果失败：invalid length 0, expected struct AppServerThread with 7 elements"
    );
    assert_eq!(
        error(r#"[["a", null, null, null, null, null, null, null]]"#),
        "解析 thread/list 结果失败：invalid length 8, expected fewer elements in array"
    );
    assert_eq!(error(r#"{ "x": true }"#), "未知 thread/list 响应结构：{\"x\":true}");
}

#[test]
fn parse_thread_list_result_accepts_a_list_of_fields() {
    let threads = parse_thread_list_result(json(
        r#"[["a", "t", null, "p", "/r", -3, { "type": "idle" }], ["b"]]"#,
    ))
    .unwrap();
    assert_eq!(
        threads[0],
        AppServerThread {
            id: "a".to_string(),
            title: Some("t".to_string()),
            cwd: None,
            preview: Some("p".to_string()),
            rollout_path: Some("/r".to_string()),
            updated_at: Some(-3),
            status: Some("idle".to_string()),
        }
    );
    assert_eq!(threads[1], thread("b", None));
}

#[test]
fn normalize_thread_list_keeps_everything_but_the_directory() {
    let mut ids = RequestIds::new();
    let threads = normalize_thread_list(
        &mut ids,
        vec![thread("a", Some("/work/demo/")), thread("b", None)],
    );
    assert_eq!(threads, vec![thread("a", Some("/work/demo")), thread("b", None)]);
    assert_eq!(request(&mut ids, "m", None).id, 2);
}

#[test]
fn joined_lists_are_normalized_one_after_the_other() {
    let first = vec![thread("a", Some("/work/demo/")), thread("b", None)];
    let second = vec![thread("c", Some(" / ")), thread("d", Some("/work/other"))];
    let mut ids = RequestIds::new();
    let mut apart = normalize_thread_list(&mut ids, first.clone());
    apart.extend(normalize_thread_list(&mut ids, second.clone()));
    let mut joined = first;
    joined.extend(second);
    let mut other = RequestIds::new();
    assert_eq!(normalize_thread_list(&mut other, joined), apart);
    assert_eq!(request(&mut ids, "m", None).id, request(&mut other, "m", None).id);
}

#[test]
fn values_are_read_back_down_to_the_depth_that_is_read() {
    let nested = |depth: usize| format!("{}1{}", "[".repeat(depth), "]".repeat(depth));
    let deepest = json(&nested(127));
    assert!(same(&json(&encode_json(&deepest).unwrap()), &nested(127)));
    assert!(same(&json(&pretty_text(&deepest).unwrap()), &nested(127)));
    let message = parse_json(&nested(128)).unwrap_err();
    assert!(message.starts_with("recursion limit exceeded"));
    let deeper = Json::Array(vec![deepest]);
    assert_eq!(encode_json(&deeper), Ok(nested(128)));
}

#[test]
fn parse_thread_start_result_returns_thread_id() {
    let thread_id = parse_thread_start_result(json(r#"{ "thread": { "id": "thread-precreated" } }"#))
        .expect("parse");

    assert_eq!(thread_id, "thread-precreated");
    assert_eq!(
        parse_thread_start_result(json(r#"{ "thread": { "id": " " } }"#)),
        Err("thread/start 响应缺少 thread.id：{\"thread\":{\"id\":\" \"}}".to_string())
    );
}

#[test]
fn parse_thread_read_result_requires_thread_key() {
    let read = parse_thread_read_result(json(r#"{ "thread": { "id": "thread-1", "turns": [] } }"#))
        .expect("parse");

    assert_eq!(text_at(&read.thread, "id"), Some("thread-1"));
    assert_eq!(
        parse_thread_read_result(json("[]")).unwrap_err(),
        "thread/read 响应缺少 thread：[]"
    );
}

#[test]
fn parse_thread_turns_list_result_finds_the_list() {
    let turns = |text: &str| parse_thread_turns_list_result(json(text)).map(|turns| turns.len());
    assert_eq!(turns(r#"{ "turns": [1, 2] }"#), Ok(2));
    assert_eq!(turns(r#"{ "items": [1] }"#), Ok(1));
    assert_eq!(turns(r#"[1, 2, 3]"#), Ok(3));
    assert_eq!(
        turns(r#"{ "data": 1 }"#),
        Err("thread/turns/list 响应 turns 不是数组：{\"data\":1}".to_string())
    );
    assert_eq!(turns("7"), Err("未知 thread/turns/list 响应结构：7".to_string()));
}

#[test]
fn unsupported_thread_resume_errors_are_detected() {
    assert!(is_unsupported_thread_resume_error(
        "app-server 返回错误：thread resume path is no longer supported by the current app-server protocol"
    ));
    assert!(!is_unsupported_thread_resume_error("其他错误"));
}

#[test]
fn unsupported_thread_turns_list_errors_are_detected() {
    assert!(is_unsupported_thread_turns_list_error(
        "app-server 返回错误：{\"code\":-32600,\"message\":\"Invalid request: unknown variant `thread/turns/list`\"}"
    ));
    assert!(!is_unsupported_thread_turns_list_error("其他错误"));
}

#[test]
fn thread_read_to_turns_list_result_returns_latest_turns_first() {
    let result = thread_read_to_turns_list_result(
        json(
            r#"{
                "id": "thread-1",
                "turns": [
                    { "id": "old" },
                    { "id": "middle" },
                    { "id": "new" }
                ]
            }"#,
        ),
        2,
    );

    let turns = result.get("turns").unwrap().as_array().unwrap();
    assert_eq!(text_at(&turns[0], "id"), Some("new"));
    assert_eq!(text_at(&turns[1], "id"), Some("middle"));
    assert_eq!(turns.len(), 2);
}

#[test]
fn turns_are_read_from_the_thread_only_where_they_cannot_be_listed() {
    assert!(matches!(
        after_turns_list(Err("unknown variant `thread/turns/list`".to_string())),
        TurnsListStep::ReadThread
    ));
    assert!(matches!(
        after_turns_list(Err("其他错误".to_string())),
        TurnsListStep::Done(Err(_))
    ));
    assert!(matches!(after_turns_list(Ok(json("1"))), TurnsListStep::Done(Ok(_))));
}

#[test]
fn thread_read_status_detects_active_structured_status() {
    let value = json(
        r#"{
            "thread": {
                "id": "thread-1",
                "status": { "type": "active", "activeFlags": ["waitingOnApproval"] }
            }
        }"#,
    );

    assert_eq!(thread_read_status(&value).as_deref(), Some("active:waitingOnApproval"));
    assert!(thread_status_is_active(Some("active:waitingOnApproval")));
    assert!(!thread_status_is_active(Some("idle")));
    assert!(!thread_status_is_active(None));
    assert_eq!(
        thread_live_status(&json(r#"{ "status": " " }"#)),
        Err("thread/read 响应缺少 status：{\"status\":\" \"}".to_string())
    );
    assert_eq!(
        thread_live_status(&json(
            r#"{ "status": { "type": " a ", "active_flags": ["x", 1, " ", "y "] } }"#
        )),
        Ok("a:x,y".to_string())
    );
    assert_eq!(
        thread_live_status(&json(r#"{ "status": "a:x,y" }"#)),
        Ok("a:x,y".to_string())
    );
}

// Status, usage and limits

#[test]
fn parse_thread_status_change_accepts_object_status() {
    let change = parse_thread_status_change(&json(
        r#"{
            "method": "thread/status/changed",
            "params": {
                "threadId": "thread-1",
                "status": { "type": "active", "activeFlags": ["waitingOnApproval"] }
            }
        }"#,
    ))
    .expect("change");

    assert_eq!(
        change,
        ThreadStatusChange {
            thread_id: "thread-1".to_string(),
            status: "active:waitingOnApproval".to_string(),
        }
    );
}

#[test]
fn parse_thread_token_usage_update_reports_context_percent() {
    let usage = parse_thread_token_usage_update(&json(
        r#"{
            "method": "thread/tokenUsage/updated",
            "params": {
                "threadId": "thread-1",
                "turnId": "turn-1",
                "tokenUsage": {
                    "total": {
                        "totalTokens": 2500,
                        "inputTokens": 1800,
                        "cachedInputTokens": 1000,
                        "outputTokens": 500,
                        "reasoningOutputTokens": 200
                    },
                    "last": {
                        "totalTokens": 300,
                        "inputTokens": 200,
                        "cachedInputTokens": 50,
                        "outputTokens": 80,
                        "reasoningOutputTokens": 20
                    },
                    "modelContextWindow": 10000
                }
            }
        }"#,
    ))
    .expect("usage");

    assert_eq!(usage.thread_id, "thread-1");
    assert_eq!(usage.turn_id, "turn-1");
    assert_eq!(usage.used_tokens, 2500);
    assert_eq!(usage.context_window, Some(10000));
    assert_eq!(usage.used_percent, Some(25));
}

fn usage_event(used: &str, window: &str) -> Json {
    json(&format!(
        r#"{{ "method": "thread/tokenUsage/updated", "params": {{
            "thread_id": "t", "turn_id": "u",
            "token_usage": {{
                "total": {{ "total_tokens": {used} }}, "model_context_window": {window}
            }} }} }}"#
    ))
}

#[test]
fn token_usage_is_rounded_to_the_nearest_percent() {
    let percent = |used: &str, window: &str| {
        parse_thread_token_usage_update(&usage_event(used, window)).unwrap().used_percent
    };
    assert_eq!(percent("1", "3"), Some(33));
    assert_eq!(percent("2", "3"), Some(67));
    assert_eq!(percent("1", "200"), Some(1));
    assert_eq!(percent("3", "3"), Some(100));
    assert_eq!(percent("0", "3"), Some(0));
    assert_eq!(percent("-5", "3"), Some(-166));
    assert_eq!(percent("5", "0"), None);
    assert_eq!(percent("5", "null"), None);
    assert!(token_usage_is_countable(&usage_event("92233720368547757", "100")));
    assert!(!token_usage_is_countable(&usage_event("92233720368547759", "100")));
    assert!(token_usage_is_countable(&usage_event("92233720368547759", "0")));
}

#[test]
fn summarize_rate_limits_picks_strictest_bucket() {
    let summary = summarize_rate_limits(&json(
        r#"{
            "rateLimitsByLimitId": {
                "codex": {
                    "limitName": "Codex",
                    "planType": "plus",
                    "primary": { "usedPercent": 35, "windowDurationMins": 300, "resetsAt": 2000 },
                    "secondary": { "usedPercent": 70, "windowDurationMins": 10080, "resetsAt": 3000 }
                }
            }
        }"#,
    ))
    .expect("summary");

    assert_eq!(summary.plan.as_deref(), Some("plus"));
    assert_eq!(summary.bucket.as_deref(), Some("Codex"));
    assert_eq!(summary.used_percent, Some(70));
}

#[test]
fn among_limits_used_alike_the_last_one_counts() {
    let summary = summarize_rate_limits(&json(
        r#"{ "rate_limits_by_limit_id": {
            "b": { "limitId": "second", "primary": { "used_percent": 5 } },
            "a": { "limitId": "first", "primary": { "used_percent": 5 } },
            "c": { "limitId": "third", "primary": { "used_percent": 4 } }
        } }"#,
    ))
    .unwrap();
    assert_eq!(summary.bucket.as_deref(), Some("second"));
    let summary = summarize_rate_limits(&json(
        r#"{ "primary": { "usedPercent": 5, "resetsAt": 1 }, "secondary": { "usedPercent": 5, "resetsAt": 2 } }"#,
    ))
    .unwrap();
    assert_eq!(summary.resets_at, Some(2));
    assert_eq!(summarize_rate_limits(&json(r#"{ "rateLimits": {} }"#)), None);
    assert_eq!(summarize_rate_limits(&json("{}")), None);
}

#[test]
fn parse_rate_limits_update_reads_its_own_method_only() {
    let event = |method: &str| {
        json(&format!(
            r#"{{ "method": "{method}", "params": {{ "rateLimits": {{ "planType": "pro" }} }} }}"#
        ))
    };
    let limit = parse_rate_limits_update(&event("account/rateLimits/updated")).unwrap();
    assert_eq!(limit.plan.as_deref(), Some("pro"));
    assert_eq!(limit.used_percent, Some(0));
    assert_eq!(parse_rate_limits_update(&event("account/other")), None);
}

// Events

#[test]
fn agent_delta_reads_delta_param() {
    let value = json(r#"{ "method": "item/agentMessage/delta", "params": { "delta": "hello" } }"#);

    assert_eq!(agent_delta(&value), Some("hello"));
}

#[test]
fn agent_completed_message_reads_item_completed_text() {
    let value = json(
        r#"{
            "method": "item/completed",
            "params": {
                "threadId": "thread-1",
                "turnId": "turn-1",
                "item": {
                    "type": "agentMessage",
                    "text": "最终回复"
                }
            }
        }"#,
    );

    assert_eq!(agent_completed_message(&value), Some("最终回复"));
}

#[test]
fn apply_agent_event_sends_completed_message_to_progress() {
    let value = json(
        r#"{
            "method": "item/completed",
            "params": {
                "threadId": "thread-1",
                "turnId": "turn-1",
                "item": {
                    "id": "message-1",
                    "type": "agentMessage",
                    "text": "中间回复"
                }
            }
        }"#,
    );
    let mut output = String::new();

    let progress = apply_agent_event_to_output(&value, &mut output);

    assert_eq!(output, "中间回复");
    assert_eq!(
        progress,
        vec![TurnProgress::Message {
            item_id: "message-1".to_string(),
            text: "中间回复".to_string(),
        }]
    );
}

#[test]
fn apply_agent_event_appends_multiple_completed_messages() {
    let first = json(
        r#"{
            "method": "item/completed",
            "params": {
                "item": { "id": "message-1", "type": "agentMessage", "text": "第一段回复" }
            }
        }"#,
    );
    let second = json(
        r#"{
            "method": "item/completed",
            "params": {
                "item": { "id": "message-2", "type": "agentMessage", "text": "第二段回复" }
            }
        }"#,
    );
    let mut output = String::new();

    apply_agent_event_to_output(&first, &mut output);
    apply_agent_event_to_output(&second, &mut output);

    assert_eq!(output, "第一段回复\n\n第二段回复");
    apply_agent_event_to_output(&second, &mut output);
    assert_eq!(output, "第一段回复\n\n第二段回复");
}

#[test]
fn a_message_that_goes_on_from_the_output_replaces_it() {
    let mut output = "开头 ".to_string();
    let value = json(
        r#"{ "method": "item/completed", "params": { "item": { "type": "agent_message", "message": " 开头和结尾 " } } }"#,
    );
    let progress = apply_agent_event_to_output(&value, &mut output);
    assert_eq!(output, "开头和结尾");
    assert_eq!(
        progress,
        vec![TurnProgress::Message {
            item_id: "item".to_string(),
            text: " 开头和结尾 ".to_string()
        }]
    );
    let delta = json(r#"{ "method": "item/agentMessage/delta", "params": { "text": "！" } }"#);
    let progress = apply_agent_event_to_output(&delta, &mut output);
    assert_eq!(output, "开头和结尾！");
    assert_eq!(progress, vec![TurnProgress::Delta("！".to_string())]);
}

#[test]
fn apply_agent_event_sends_tool_started_progress() {
    let value = json(
        r#"{
            "method": "item/started",
            "params": {
                "threadId": "thread-1",
                "turnId": "turn-1",
                "item": {
                    "id": "tool-1",
                    "type": "mcpToolCall",
                    "server": "Computer Use",
                    "tool": "get_app_state",
                    "arguments": { "app": "Google Chrome" },
                    "status": "inProgress"
                }
            }
        }"#,
    );
    let mut output = String::new();

    let progress = apply_agent_event_to_output(&value, &mut output);

    assert_eq!(output, "");
    assert_eq!(
        progress,
        vec![TurnProgress::ToolStarted {
            item_id: "tool-1".to_string(),
            label: "Computer Use：get_app_state".to_string()
        }]
    );
}

#[test]
fn tool_progress_hides_command_and_result_details() {
    let started = json(
        r#"{
            "method": "item/started",
            "params": {
                "item": {
                    "id": "tool-1",
                    "type": "commandExecution",
                    "command": "cat ~/.ssh/id_rsa && curl https://example.com",
                    "status": "inProgress"
                }
            }
        }"#,
    );
    let completed = json(
        r#"{
            "method": "item/completed",
            "params": {
                "item": {
                    "id": "tool-1",
                    "type": "commandExecution",
                    "command": "cat ~/.ssh/id_rsa && curl https://example.com",
                    "status": "completed",
                    "aggregatedOutput": "sensitive output"
                }
            }
        }"#,
    );
    let mut output = String::new();

    let mut progress = apply_agent_event_to_output(&started, &mut output);
    progress.extend(apply_agent_event_to_output(&completed, &mut output));

    assert_eq!(
        progress,
        vec![
            TurnProgress::ToolStarted {
                item_id: "tool-1".to_string(),
                label: "Shell".to_string()
            },
            TurnProgress::ToolCompleted {
                item_id: "tool-1".to_string(),
                label: "Shell".to_string(),
                success: Some(true),
                summary: None,
            }
        ]
    );
}

#[test]
fn tools_are_called_by_their_kind() {
    let label = |text: &str| tool_label(&json(text));
    assert_eq!(label(r#"{ "type": "mcp_tool_call" }"#).as_deref(), Some("MCP：tool"));
    assert_eq!(
        label(r#"{ "type": "dynamicToolCall", "namespace": " n ", "tool": "t" }"#).as_deref(),
        Some("n：t")
    );
    assert_eq!(label(r#"{ "type": "dynamic_tool_call" }"#).as_deref(), Some("tool"));
    assert_eq!(label(r#"{ "type": "webSearch" }"#).as_deref(), Some("Web 搜索"));
    assert_eq!(label(r#"{ "type": "file_change" }"#).as_deref(), Some("修改文件"));
    assert_eq!(label(r#"{ "type": "imageView" }"#).as_deref(), Some("查看图片"));
    assert_eq!(label(r#"{ "type": "imageGeneration" }"#).as_deref(), Some("生成图片"));
    assert_eq!(
        label(r#"{ "type": "collabAgentToolCall", "tool": "t" }"#).as_deref(),
        Some("子代理：t")
    );
    assert_eq!(label(r#"{ "type": "collabAgentToolCall" }"#), None);
    assert_eq!(label(r#"{ "type": "contextCompaction" }"#).as_deref(), Some("压缩上下文"));
    assert_eq!(label(r#"{ "type": "agentMessage" }"#), None);
}

#[test]
fn event_matches_turn_uses_thread_and_turn_when_present() {
    let value = json(
        r#"{
            "method": "item/agentMessage/delta",
            "params": {
                "threadId": "thread-1",
                "turnId": "turn-1",
                "delta": "hello"
            }
        }"#,
    );

    assert!(event_matches_turn(&value, "thread-1", "turn-1"));
    assert!(!event_matches_turn(&value, "thread-2", "turn-1"));
    assert!(!event_matches_turn(&value, "thread-1", "turn-2"));
    assert!(event_matches_turn(&json(r#"{ "method": "x" }"#), "a", "b"));
}

#[test]
fn turn_completed_tells_thread_and_turn() {
    let value = json(
        r#"{ "method": "turn/completed", "params": { "thread_id": "a", "turn": { "id": "b" } } }"#,
    );
    assert_eq!(turn_completed(&value), Some(("a".to_string(), "b".to_string())));
    assert_eq!(turn_completed(&json(r#"{ "method": "turn/completed" }"#)), None);
}

// Requests of the app-server

#[test]
fn server_approval_request_parses_progress_without_command_details() {
    let value = json(
        r#"{
            "jsonrpc": "2.0",
            "id": 42,
            "method": "item/commandExecution/requestApproval",
            "params": {
                "threadId": "thread-1",
                "turnId": "turn-1",
                "itemId": "tool-1",
                "command": "open -a 'Google Chrome' 'https://example.com'",
                "reason": "需要打开页面"
            }
        }"#,
    );

    assert_eq!(
        server_request_progress(&value),
        Some(TurnProgress::ApprovalRequested {
            request_id: 42,
            label: "Shell".to_string(),
        })
    );
}

#[test]
fn permissions_approval_request_parses_progress_without_permission_details() {
    let value = json(
        r#"{
            "jsonrpc": "2.0",
            "id": 43,
            "method": "item/permissions/requestApproval",
            "params": {
                "threadId": "thread-1",
                "turnId": "turn-1",
                "itemId": "tool-1",
                "cwd": "/tmp/project",
                "permissions": {
                    "fileSystem": { "write": ["/tmp/project"] },
                    "network": { "enabled": true }
                },
                "reason": "需要额外权限"
            }
        }"#,
    );

    assert_eq!(
        server_request_progress(&value),
        Some(TurnProgress::ApprovalRequested {
            request_id: 43,
            label: "权限申请".to_string(),
        })
    );
}

#[test]
fn server_request_response_uses_json_rpc_result() {
    let value = server_request_response(42, json(r#"{ "decision": "accept" }"#));

    assert!(same(
        &value,
        r#"{ "jsonrpc": "2.0", "id": 42, "result": { "decision": "accept" } }"#
    ));
}

#[test]
fn automatic_server_request_response_skips_tool_user_input() {
    let value = automatic_server_request_response(50, "item/tool/requestUserInput")
        .expect("request_user_input should be answered");

    assert!(same(&value, r#"{ "jsonrpc": "2.0", "id": 50, "result": { "answers": {} } }"#));
}

#[test]
fn automatic_server_request_response_cancels_mcp_elicitation() {
    let value = automatic_server_request_response(51, "mcpServer/elicitation/request")
        .expect("MCP elicitation should be answered");

    assert!(same(
        &value,
        r#"{
            "jsonrpc": "2.0",
            "id": 51,
            "result": {
                "action": "cancel",
                "content": null,
                "_meta": null
            }
        }"#
    ));
}

#[test]
fn automatic_server_request_response_rejects_dynamic_tool_call() {
    let value = automatic_server_request_response(52, "item/tool/call")
        .expect("dynamic tool call should be answered");

    assert_eq!(text_at(&value, "jsonrpc"), Some("2.0"));
    assert_eq!(number_at(&value, "id"), Some(52));
    let result = value.get("result").unwrap();
    assert_eq!(result.get("success").unwrap().as_bool(), Some(false));
    let items = result.get("contentItems").unwrap().as_array().unwrap();
    assert_eq!(text_at(&items[0], "type"), Some("inputText"));
}

#[test]
fn automatic_server_request_response_fails_auth_refresh_immediately() {
    let value = automatic_server_request_response(53, "account/chatgptAuthTokens/refresh")
        .expect("auth refresh should receive an immediate error");

    assert_eq!(text_at(&value, "jsonrpc"), Some("2.0"));
    assert_eq!(number_at(&value, "id"), Some(53));
    let error = value.get("error").unwrap();
    assert!(text_at(error, "message").unwrap().contains("无法刷新 ChatGPT 登录"));
    assert_eq!(error.get("code").unwrap().as_i64(), Some(-32001));
}

#[test]
fn automatic_server_request_response_leaves_modern_approvals_pending() {
    assert!(
        automatic_server_request_response(54, "item/commandExecution/requestApproval").is_none()
    );
    assert!(automatic_server_request_response(55, "item/fileChange/requestApproval").is_none());
    assert!(automatic_server_request_response(56, "item/permissions/requestApproval").is_none());
}

#[test]
fn server_request_progress_reports_non_approval_fallbacks() {
    let user_input = json(
        r#"{
            "jsonrpc": "2.0",
            "id": 60,
            "method": "item/tool/requestUserInput",
            "params": {
                "threadId": "thread-1",
                "turnId": "turn-1",
                "itemId": "tool-1",
                "questions": []
            }
        }"#,
    );
    let mcp = json(
        r#"{
            "jsonrpc": "2.0",
            "id": 61,
            "method": "mcpServer/elicitation/request",
            "params": {
                "threadId": "thread-1",
                "turnId": "turn-1",
                "serverName": "demo",
                "mode": "url",
                "message": "需要授权",
                "url": "https://example.com",
                "elicitationId": "e1",
                "_meta": null
            }
        }"#,
    );

    assert_eq!(
        server_request_progress(&user_input),
        Some(TurnProgress::ClientRequestHandled {
            request_id: 60,
            label: "用户输入请求已自动跳过".to_string(),
        })
    );
    assert_eq!(
        server_request_progress(&mcp),
        Some(TurnProgress::ClientRequestHandled {
            request_id: 61,
            label: "MCP 输入请求已自动取消".to_string(),
        })
    );
}

#[test]
fn approval_response_result_uses_decision_for_command_and_file_requests() {
    let approval = PendingApprovalRequest {
        method: "item/commandExecution/requestApproval".to_string(),
        permissions: None,
    };

    assert!(same(
        &approval_response_result(&approval, "accept"),
        r#"{ "decision": "accept" }"#
    ));
    assert!(same(
        &approval_response_result(&approval, "session"),
        r#"{ "decision": "acceptForSession" }"#
    ));
    assert!(same(
        &approval_response_result(&approval, "decline"),
        r#"{ "decision": "decline" }"#
    ));
}

#[test]
fn approval_response_result_grants_requested_permissions_subset() {
    let permissions = json(
        r#"{
            "fileSystem": { "write": ["/tmp/project"] },
            "network": { "enabled": true }
        }"#,
    );
    let approval = PendingApprovalRequest {
        method: "item/permissions/requestApproval".to_string(),
        permissions: Some(permissions),
    };

    assert!(same(
        &approval_response_result(&approval, "session"),
        r#"{
            "permissions": {
                "fileSystem": { "write": ["/tmp/project"] },
                "network": { "enabled": true }
            },
            "scope": "session"
        }"#
    ));
    assert!(same(
        &approval_response_result(&approval, "decline"),
        r#"{ "permissions": {}, "scope": "turn" }"#
    ));
}

#[test]
fn server_request_resolved_emits_progress_to_clear_approval() {
    let value = json(
        r#"{
            "method": "serverRequest/resolved",
            "params": {
                "threadId": "thread-1",
                "requestId": 42
            }
        }"#,
    );
    let mut output = String::new();

    let progress = apply_agent_event_to_output(&value, &mut output);

    assert_eq!(output, "");
    assert_eq!(progress, vec![TurnProgress::ApprovalResolved { request_id: 42 }]);
}

#[test]
fn auto_handled_server_request_resolved_does_not_emit_approval_progress() {
    let mut value = json(
        r#"{
            "method": "serverRequest/resolved",
            "params": {
                "threadId": "thread-1",
                "requestId": 42
            }
        }"#,
    );
    mark_auto_server_request_resolved(&mut value);
    let mut output = String::new();

    let progress = apply_agent_event_to_output(&value, &mut output);

    assert_eq!(output, "");
    assert!(progress.is_empty());
}

// Reading

#[test]
fn an_automatic_request_is_answered_and_runs_silently() {
    let mut requests = ServerRequests::new();
    let actions = requests.on_line(r#"{ "id": 9, "method": "item/tool/call" }"#);
    assert_eq!(actions.len(), 2);
    match &actions[0] {
        ReaderAction::Write(reply) => assert_eq!(number_at(reply, "id"), Some(9)),
        other => panic!("{other:?}"),
    }
    assert!(matches!(&actions[1], ReaderAction::Broadcast(_)));
    let resolved = r#"{ "method": "serverRequest/resolved", "params": { "request_id": 9 } }"#;
    for silent in [true, false] {
        let actions = requests.on_line(resolved);
        match &actions[..] {
            [ReaderAction::Broadcast(event)] => {
                let progress = apply_agent_event_to_output(event, &mut String::new());
                assert_eq!(progress.is_empty(), silent);
            }
            other => panic!("{other:?}"),
        }
    }
}

#[test]
fn an_approval_can_be_answered_until_it_is_resolved() {
    let mut requests = ServerRequests::new();
    let actions = requests.on_line(
        r#"{ "id": 4, "method": "item/permissions/requestApproval", "params": { "permissions": { "a": 1 } } }"#,
    );
    assert!(matches!(&actions[..], [ReaderAction::Broadcast(_)]));
    let reply = requests.respond_approval(4, "accept").unwrap();
    assert!(same(
        &reply,
        r#"{ "jsonrpc": "2.0", "id": 4, "result": { "permissions": { "a": 1 }, "scope": "turn" } }"#
    ));
    requests.on_line(r#"{ "method": "serverRequest/resolved", "params": { "requestId": 4 } }"#);
    assert_eq!(
        requests.respond_approval(4, "accept").unwrap_err(),
        "审批请求已结束或未找到，请重新查看当前状态。"
    );
}

#[test]
fn replies_go_to_their_requests() {
    let mut requests = ServerRequests::new();
    let outcome = |requests: &mut ServerRequests, line: &str| match requests.on_line(line).pop() {
        Some(ReaderAction::Complete { id, result }) => (id, result.map(|value| json_text(&value))),
        other => panic!("{other:?}"),
    };
    assert_eq!(
        outcome(&mut requests, r#"{ "id": 1, "result": { "x": 2 } }"#),
        (1, Ok(r#"{"x":2}"#.to_string()))
    );
    assert_eq!(
        outcome(&mut requests, r#"{ "id": 2, "error": "no" }"#),
        (2, Err(r#"app-server 返回错误："no""#.to_string()))
    );
    assert_eq!(
        outcome(&mut requests, r#"{ "id": 3 }"#),
        (3, Err("app-server 响应缺少 result".to_string()))
    );
}

#[test]
fn a_line_that_is_no_json_is_told_as_an_event() {
    let mut requests = ServerRequests::new();
    match &requests.on_line("{")[..] {
        [ReaderAction::Broadcast(event)] => {
            assert_eq!(text_at(event, "method"), Some("app-server/parse-error"));
            let params = event.get("params").unwrap();
            assert_eq!(text_at(params, "line"), Some("{"));
            assert_eq!(
                text_at(params, "error"),
                Some("EOF while parsing an object at line 1 column 1")
            );
        }
        other => panic!("{other:?}"),
    }
    assert!(same(
        &write_error_event("gone"),
        r#"{ "method": "app-server/write-error", "params": { "error": "gone" } }"#
    ));
}

#[test]
fn waiting_for_a_reply_ends_with_the_reply_or_the_connection() {
    let line = |text: &str| Received::Line(text.to_string());
    assert!(read_response(&line(r#"{ "id": 1, "result": 5 }"#), 2).is_none());
    let reply = read_response(&line(r#"{ "id": 2, "result": 5 }"#), 2).unwrap().unwrap();
    assert_eq!(reply.as_u64(), Some(5));
    assert_eq!(
        read_response(&line("x"), 2).unwrap().unwrap_err(),
        "解析 app-server JSON 失败：expected value at line 1 column 1; line=x"
    );
    assert_eq!(
        read_response(&Received::End, 2).unwrap().unwrap_err(),
        "app-server 提前退出"
    );
    assert_eq!(
        read_response(&Received::Timeout, 2).unwrap().unwrap_err(),
        "等待 app-server 响应超时"
    );
    assert_eq!(
        reading_ended(&Received::Failed("broken".to_string())).as_deref(),
        Some("读取 app-server 响应失败：broken")
    );
    assert_eq!(reading_ended(&line("x")), None);
}

#[test]
fn a_reply_that_never_comes_is_reported() {
    let outcome = |awaited: Awaited| awaited_reply(awaited).map(|reply| json_text(&reply));
    assert_eq!(outcome(Awaited::Reply(Ok(json("[1]")))), Ok("[1]".to_string()));
    assert_eq!(outcome(Awaited::Reply(Err("no".to_string()))), Err("no".to_string()));
    assert_eq!(outcome(Awaited::Closed), Err("app-server 响应通道已关闭".to_string()));
    assert_eq!(outcome(Awaited::TimedOut), Err("等待 app-server 响应超时".to_string()));
}

#[test]
fn replies_are_handed_on_with_all_their_numbers() {
    let line = r#"{ "id": 1, "result": [1.5, -3, 18446744073709551615, 1e300, null, true] }"#;
    let reply = read_response(&Received::Line(line.to_string()), 1).unwrap().unwrap();
    assert_eq!(json_text(&reply), "[1.5,-3,18446744073709551615,1e+300,null,true]");
    assert_eq!(reply.as_array().unwrap()[1].as_i64(), Some(-3));
    assert_eq!(reply.as_array().unwrap()[0].as_i64(), None);
    assert_eq!(reply.as_array().unwrap()[2].as_i64(), None);
    assert_eq!(reply.as_array().unwrap()[2].as_u64(), Some(u64::MAX));
}

#[test]
fn calls_are_made_in_order_and_the_last_reply_counts() {
    let mut ids = RequestIds::new();
    let mut calls = CallOnce::new(vec![
        initialize_request(&mut ids, "1"),
        thread_list_request(&mut ids, 5),
    ]);
    let first = calls.next_request().unwrap();
    assert_eq!(first.method, "initialize");
    let follow_up = calls.on_reply(&first.method, json("1")).unwrap();
    assert_eq!(text_at(&follow_up, "method"), Some("initialized"));
    let second = calls.next_request().unwrap();
    assert!(calls.on_reply(&second.method, json("2")).is_none());
    assert!(calls.next_request().is_none());
    assert_eq!(calls.outcome().unwrap().as_u64(), Some(2));
    assert_eq!(
        CallOnce::new(Vec::new()).outcome().unwrap_err(),
        "缺少 app-server 响应"
    );
}

#[test]
fn the_search_path_begins_with_the_usual_places() {
    assert_eq!(
        search_path_for("/bin:/usr/bin", documents("/home/a")),
        "/opt/homebrew/bin:/usr/local/bin:/home/a/.local/bin:/bin:/usr/bin"
    );
    assert_eq!(search_path_for("/bin", None), "/opt/homebrew/bin:/usr/local/bin:/bin");
    assert!(search_path("/bin").ends_with(":/bin"));
    assert_eq!(
        spawn_error_text("codex", true, "x"),
        "未找到 codex 命令（codex）。请在「设置」中配置 Codex 路径，或确保 codex 已安装且可被访问。"
    );
    assert_eq!(spawn_error_text("codex", false, "x"), "启动 codex app-server 失败：x");
}

// Turns

fn chat_dir() -> Result<HostPath, String> {
    standalone_cwd_in(documents("/d/Documents"), "2026-05-01", "101112013", 7)
}

#[test]
fn a_turn_needs_a_prompt() {
    let mut ids = RequestIds::new();
    assert_eq!(
        plan_turn(&mut ids, None, None, " \n").unwrap_err(),
        TurnRefusal { message: "prompt is required".to_string(), make_first: None }
    );
    assert_eq!(request(&mut ids, "m", None).id, 1);
}

#[test]
fn a_new_chat_works_in_a_directory_of_its_own() {
    let plan = plan_turn_with(None, None, "继续", chat_dir()).unwrap();
    let own = "/d/Documents/Codex/2026-05-01/chat-101112013-7";
    assert_eq!(plan.own_cwd.as_deref(), Some(own));
    assert_eq!(plan.process_cwd.path.text, own);
    assert!(!plan.process_cwd.create);
    assert_eq!(plan.turn_cwd.as_deref(), Some(own));

    let mut ids = RequestIds::new();
    let ask = plan.thread_request(&mut ids, true).unwrap();
    assert_eq!(ask.method, "thread/start");
    assert_eq!(text_at(&ask.params.unwrap(), "cwd"), Some(own));
    assert_eq!(
        plan.thread_from_reply(Ok(json(r#"{ "thread": { "id": "t" } }"#))),
        Ok("t".to_string())
    );
    assert_eq!(
        plan.thread_from_reply(Ok(json("{}"))),
        Err("thread/start 响应缺少 thread.id：{}".to_string())
    );
    assert_eq!(plan.thread_from_reply(Err("no".to_string())), Err("no".to_string()));
    let turn = plan.turn_request(&mut ids, "t");
    assert_eq!(turn.method, "turn/start");
    assert_eq!(text_at(&turn.params.unwrap(), "cwd"), Some(own));
}

#[test]
fn a_given_thread_is_loaded_again_or_kept() {
    let plan = plan_turn_with(Some(" t "), None, "继续", chat_dir()).unwrap();
    assert_eq!(plan.thread.as_deref(), Some("t"));
    assert_eq!(plan.own_cwd, None);
    assert!(plan.process_cwd.create);
    assert_eq!(plan.turn_cwd, None);
    let mut ids = RequestIds::new();
    assert!(plan.thread_request(&mut ids, false).is_none());
    assert_eq!(plan.thread_request(&mut ids, true).unwrap().method, "thread/resume");
    let after = |reply: Result<Json, String>| plan.thread_from_reply(reply);
    assert_eq!(after(Ok(json("{}"))), Ok("t".to_string()));
    assert_eq!(after(Ok(json(r#"{ "thread": { "id": "u" } }"#))), Ok("u".to_string()));
    assert_eq!(
        after(Err("thread resume history is no longer supported".to_string())),
        Ok("t".to_string())
    );
    assert_eq!(after(Err("no".to_string())), Err("no".to_string()));
}

#[test]
fn a_given_directory_is_told_to_thread_and_turn() {
    let mut ids = RequestIds::new();
    let plan = plan_turn(&mut ids, None, Some(" /work/demo "), "继续").unwrap();
    assert_eq!(plan.process_cwd.path.text, " /work/demo ");
    assert_eq!(plan.effective_cwd, "/work/demo");
    assert_eq!(plan.turn_cwd.as_deref(), Some("/work/demo"));
    assert_eq!(plan.own_cwd, None);
    let blank = plan_turn_with(Some("t"), Some(" "), "继续", chat_dir()).unwrap();
    assert_eq!(
        blank.turn_cwd.as_deref(),
        Some("/d/Documents/Codex/2026-05-01/chat-101112013-7")
    );
}

#[test]
fn a_directory_that_cannot_be_told_is_made_for_a_given_thread_only() {
    let path = HostPath { text: "/d/\u{fffd}".to_string(), raw: Some(b"/d/\xff".to_vec()) };
    let message = "cwd 不是有效 UTF-8：/d/\u{fffd}".to_string();
    assert_eq!(
        plan_turn_with(Some("t"), Some(" "), "继续", Ok(path.clone())).unwrap_err(),
        TurnRefusal { message: message.clone(), make_first: Some(path.clone()) }
    );
    assert_eq!(
        plan_turn_with(Some(" "), None, "继续", Ok(path)).unwrap_err(),
        TurnRefusal { message, make_first: None }
    );
    assert_eq!(
        plan_turn_with(Some("t"), None, "继续", Err("x".to_string())).unwrap_err(),
        TurnRefusal { message: "x".to_string(), make_first: None }
    );
}

#[test]
fn a_started_turn_is_known_by_its_id() {
    let reply = json(r#"{ "turn": { "id": "u" } }"#);
    assert_eq!(started_turn_id(&reply).as_deref(), Some("u"));
    assert_eq!(
        started_turn("t", &reply),
        Ok(AppServerTurnHandle { thread_id: "t".to_string(), turn_id: "u".to_string() })
    );
    assert_eq!(
        started_turn("t", &json("{}")),
        Err("turn/start 响应缺少 turn.id：{}".to_string())
    );
}

#[test]
fn a_turn_is_followed_on_its_own_connection() {
    let mut output = String::new();
    let line = |text: &str| Received::Line(text.to_string());
    let delta = line(r#"{ "method": "item/agentMessage/delta", "params": { "delta": "好" } }"#);
    assert!(matches!(on_turn_received(&mut output, &delta), TurnStep::Running(_)));
    let done = line(r#"{ "method": "turn/completed" }"#);
    assert!(matches!(on_turn_received(&mut output, &done), TurnStep::Completed(_)));
    assert_eq!(output, "好");
    let failure = |received: Received| match on_turn_received(&mut String::new(), &received) {
        TurnStep::Failed(message) => message,
        other => panic!("{other:?}"),
    };
    assert_eq!(failure(Received::End), "app-server 提前退出");
    assert_eq!(failure(Received::Timeout), "等待 Codex turn 通知空闲超时");
    assert_eq!(failure(Received::Failed("x".to_string())), "读取 app-server 通知失败：x");
    assert_eq!(
        failure(line("?")),
        "解析 app-server 通知失败：expected value at line 1 column 1; line=?"
    );
}

#[test]
fn a_turn_is_followed_among_events_of_others() {
    let mut output = String::new();
    let event = |turn: &str| {
        SharedEvent::Event(json(&format!(
            r#"{{ "method": "item/agentMessage/delta", "params": {{ "turnId": "{turn}", "delta": "好" }} }}"#
        )))
    };
    assert!(matches!(on_shared_event(&mut output, &event("v"), "t", "u"), TurnStep::Ignored));
    assert_eq!(output, "");
    assert!(matches!(on_shared_event(&mut output, &event("u"), "t", "u"), TurnStep::Running(_)));
    assert_eq!(output, "好");
    assert!(matches!(
        on_shared_event(&mut output, &SharedEvent::Lagged, "t", "u"),
        TurnStep::Ignored
    ));
    match on_shared_event(&mut output, &SharedEvent::Closed, "t", "u") {
        TurnStep::Failed(message) => assert_eq!(message, "app-server 事件通道已关闭"),
        other => panic!("{other:?}"),
    }
}

#[test]
fn a_silent_turn_is_judged_by_the_status_of_its_thread() {
    match on_idle_status("out", "u", Ok("active:x".to_string())) {
        IdleStep::StillRunning(TurnProgress::ToolStarted { item_id, label }) => {
            assert_eq!(item_id, "u:status");
            assert_eq!(label, "当前会话仍在运行（active:x）");
        }
        other => panic!("{other:?}"),
    }
    match on_idle_status("out", "u", Ok("idle".to_string())) {
        IdleStep::Ended(ended) => {
            assert_eq!(ended, TurnOutput { output: "out".to_string(), completed: true })
        }
        other => panic!("{other:?}"),
    }
    let failure = |status: Result<String, String>| match on_idle_status("out", "u", status) {
        IdleStep::Failed(message) => message,
        other => panic!("{other:?}"),
    };
    assert_eq!(failure(Ok("systemError".to_string())), "当前会话进入 systemError 状态");
    assert_eq!(
        failure(Err("x".to_string())),
        "当前会话长时间无事件，且状态查询失败：x"
    );
}

#[test]
fn an_interrupted_turn_keeps_its_output_and_is_not_completed() {
    let ended = on_interrupted("半".to_string(), Ok(json("{}"))).unwrap();
    let result = turn_result("t".to_string(), Some("u".to_string()), ended);
    assert_eq!(result.output, "半");
    assert!(!result.completed);
    assert_eq!(on_interrupted("半".to_string(), Err("no".to_string())), Err("no".to_string()));
}
