//! Events of a turn: what they add to its output and what they tell of its progress.
use vstd::prelude::*;

use crate::app_server::approvals;
use crate::app_server::replies;
use crate::app_server::usage;
use crate::json;
use crate::json::{Json, JsonView};
use crate::text;
use crate::workdir;

verus! {

/// What happens in a turn.
#[derive(Debug, Clone, PartialEq, Eq)]
pub enum TurnProgress {
    Delta(String),
    Message { item_id: String, text: String },
    ToolStarted { item_id: String, label: String },
    ToolCompleted {
        item_id: String,
        label: String,
        success: Option<bool>,
        summary: Option<String>,
    },
    ApprovalRequested { request_id: u64, label: String },
    ApprovalResolved { request_id: u64 },
    ClientRequestHandled { request_id: u64, label: String },
}

/// What a `TurnProgress` says.
pub enum ProgressModel {
    Delta(Seq<char>),
    Message { item_id: Seq<char>, text: Seq<char> },
    ToolStarted { item_id: Seq<char>, label: Seq<char> },
    ToolCompleted {
        item_id: Seq<char>,
        label: Seq<char>,
        success: Option<bool>,
        summary: Option<Seq<char>>,
    },
    ApprovalRequested { request_id: u64, label: Seq<char> },
    ApprovalResolved { request_id: u64 },
    ClientRequestHandled { request_id: u64, label: Seq<char> },
}

impl View for TurnProgress {
    type V = ProgressModel;

    open spec fn view(&self) -> ProgressModel {
        match *self {
            TurnProgress::Delta(s) => ProgressModel::Delta(s@),
            TurnProgress::Message { item_id, text } => ProgressModel::Message {
                item_id: item_id@,
                text: text@,
            },
            TurnProgress::ToolStarted { item_id, label } => ProgressModel::ToolStarted {
                item_id: item_id@,
                label: label@,
            },
            TurnProgress::ToolCompleted { item_id, label, success, summary } =>
            ProgressModel::ToolCompleted {
                item_id: item_id@,
                label: label@,
                success,
                summary: text::opt_text(summary),
            },
            TurnProgress::ApprovalRequested { request_id, label } =>
            ProgressModel::ApprovalRequested { request_id, label: label@ },
            TurnProgress::ApprovalResolved { request_id } => ProgressModel::ApprovalResolved {
                request_id,
            },
            TurnProgress::ClientRequestHandled { request_id, label } =>
            ProgressModel::ClientRequestHandled { request_id, label: label@ },
        }
    }
}

/// The views of a list of progress.
pub open spec fn progress_views(progress: Seq<TurnProgress>) -> Seq<ProgressModel> {
    progress.map_values(|step: TurnProgress| step@)
}

/// The view of optional progress.
pub open spec fn opt_progress(progress: Option<TurnProgress>) -> Option<ProgressModel> {
    match progress {
        Some(progress) => Some(progress@),
        None => None,
    }
}

// ---------------------------------------------------------------------------
// Messages
// ---------------------------------------------------------------------------

/// The piece of text that an event adds to a message.
pub open spec fn delta_text(value: JsonView) -> Option<Seq<char>> {
    if usage::is_method(value, "item/agentMessage/delta"@) {
        match value.get("params"@) {
            Some(params) => json::text_in(params.get_either("delta"@, "text"@)),
            None => None,
        }
    } else {
        None
    }
}

/// The piece of text that an event adds to a message.
pub fn agent_delta(value: &Json) -> (res: Option<&str>)
    ensures
        text::opt_str(res) == delta_text(value@),
{
    if !json::member_is(value, "method", "item/agentMessage/delta") {
        return None;
    }
    match value.get("params") {
        Some(params) => json::str_in(params.get_either("delta", "text")),
        None => None,
    }
}

/// The item of an event.
pub open spec fn item_of(value: JsonView) -> Option<JsonView> {
    json::member(value.get("params"@), "item"@)
}

/// The item of an event.
pub fn event_item(value: &Json) -> (res: Option<&Json>)
    ensures
        json::opt_json(res) == item_of(value@),
{
    json::member_in(value.get("params"), "item")
}

/// Whether items of this type are messages of the agent.
pub open spec fn is_message_type(kind: Seq<char>) -> bool {
    kind == "agentMessage"@ || kind == "agent_message"@
}

/// The message that an event completes, where it is not blank.
pub open spec fn completed_text(value: JsonView) -> Option<Seq<char>> {
    match item_of(value) {
        Some(item) => {
            let kind = json::text_at(item, "type"@);
            let message = json::text_in(item.get_either("text"@, "message"@));
            if usage::is_method(value, "item/completed"@) && kind is Some && is_message_type(
                kind->0,
            ) && workdir::given(message) {
                message
            } else {
                None
            }
        },
        None => None,
    }
}

/// The message that an event completes, where it is not blank.
pub fn agent_completed_message(value: &Json) -> (res: Option<&str>)
    ensures
        text::opt_str(res) == completed_text(value@),
{
    if !json::member_is(value, "method", "item/completed") {
        return None;
    }
    let item = match event_item(value) {
        Some(item) => item,
        None => {
            return None;
        },
    };
    match json::str_in(item.get("type")) {
        Some(kind) => if !text::eq(kind, "agentMessage") && !text::eq(kind, "agent_message") {
            return None;
        },
        None => {
            return None;
        },
    }
    match json::str_in(item.get_either("text", "message")) {
        Some(message) => if text::trimmed(message).is_empty() {
            None
        } else {
            Some(message)
        },
        None => None,
    }
}

/// The output of a turn after a completed message: what the output ends with already is not
/// added again, and a message that begins with the output replaces it.
pub open spec fn with_message(output: Seq<char>, message: Seq<char>) -> Seq<char> {
    let message = text::trim(message);
    if message.len() == 0 || text::has_suffix(text::trim_end(output), message) {
        output
    } else if text::trim(output).len() == 0 || text::has_prefix(message, text::trim(output)) {
        message
    } else {
        output + "\n\n"@ + message
    }
}

/// Adds a completed message to the output of a turn.
pub fn append_agent_message(output: &mut String, message: &str)
    ensures
        final(output)@ == with_message(old(output)@, message@),
{
    let message = text::trimmed(message);
    if message.is_empty() || text::finishes_with(text::trimmed_end(output.as_str()), message) {
        return ;
    }
    let so_far = text::trimmed(output.as_str());
    let replaces = so_far.is_empty() || text::begins_with(message, so_far);
    if replaces {
        *output = message.to_owned();
    } else {
        let longer = text::cat3(output.as_str(), "\n\n", message);
        *output = longer;
    }
}

// ---------------------------------------------------------------------------
// Tools
// ---------------------------------------------------------------------------

/// The id of an item, or a word in its place.
pub open spec fn item_name(item: JsonView) -> Seq<char> {
    if workdir::given(json::text_at(item, "id"@)) {
        json::text_at(item, "id"@)->0
    } else {
        "item"@
    }
}

/// The id of an item, or a word in its place.
pub fn item_id(item: &Json) -> (res: String)
    ensures
        res@ == item_name(item@),
{
    match json::str_in(item.get("id")) {
        Some(id) => if text::trimmed(id).is_empty() {
            "item".to_owned()
        } else {
            id.to_owned()
        },
        None => "item".to_owned(),
    }
}

/// `s`, or `otherwise` where there is none.
pub open spec fn text_or(s: Option<Seq<char>>, otherwise: Seq<char>) -> Seq<char> {
    match s {
        Some(s) => s,
        None => otherwise,
    }
}

/// A member of an item that is a string, trimmed, where anything is left of it.
pub open spec fn named(item: JsonView, key: Seq<char>) -> Option<Seq<char>> {
    replies::trimmed_text(json::text_at(item, key))
}

/// What a tool is called in messages.
pub open spec fn label_of(item: JsonView) -> Option<Seq<char>> {
    match json::text_at(item, "type"@) {
        Some(kind) => if kind == "commandExecution"@ || kind == "command_execution"@ {
            Some("Shell"@)
        } else if kind == "mcpToolCall"@ || kind == "mcp_tool_call"@ {
            Some(
                text_or(named(item, "server"@), "MCP"@) + "："@ + text_or(
                    named(item, "tool"@),
                    "tool"@,
                ),
            )
        } else if kind == "dynamicToolCall"@ || kind == "dynamic_tool_call"@ {
            let tool = text_or(named(item, "tool"@), "tool"@);
            match named(item, "namespace"@) {
                Some(namespace) => Some(namespace + "："@ + tool),
                None => Some(tool),
            }
        } else if kind == "webSearch"@ || kind == "web_search"@ {
            Some("Web 搜索"@)
        } else if kind == "fileChange"@ || kind == "file_change"@ {
            Some("修改文件"@)
        } else if kind == "imageView"@ || kind == "image_view"@ {
            Some("查看图片"@)
        } else if kind == "imageGeneration"@ || kind == "image_generation"@ {
            Some("生成图片"@)
        } else if kind == "collabAgentToolCall"@ || kind == "collab_agent_tool_call"@ {
            match named(item, "tool"@) {
                Some(tool) => Some("子代理："@ + tool),
                None => None,
            }
        } else if kind == "contextCompaction"@ || kind == "context_compaction"@ {
            Some("压缩上下文"@)
        } else {
            None
        },
        None => None,
    }
}

/// A member of an item that is a string, trimmed, where anything is left of it.
fn name_in(item: &Json, key: &str) -> (res: Option<String>)
    ensures
        text::opt_text(res) == named(item@, key@),
{
    match replies::trimmed_or_none(json::str_in(item.get(key))) {
        Some(s) => Some(s.to_owned()),
        None => None,
    }
}

/// A member of an item, or a word in its place.
fn name_or(item: &Json, key: &str, otherwise: &str) -> (res: String)
    ensures
        res@ == text_or(named(item@, key@), otherwise@),
{
    match name_in(item, key) {
        Some(s) => s,
        None => otherwise.to_owned(),
    }
}

/// Tells whether `kind` is one of two spellings.
fn either(kind: &str, a: &str, b: &str) -> (res: bool)
    ensures
        res == (kind@ == a@ || kind@ == b@),
{
    text::eq(kind, a) || text::eq(kind, b)
}

/// What a tool is called in messages.
pub fn tool_label(item: &Json) -> (res: Option<String>)
    ensures
        text::opt_text(res) == label_of(item@),
{
    let kind = match json::str_in(item.get("type")) {
        Some(kind) => kind,
        None => {
            return None;
        },
    };
    if either(kind, "commandExecution", "command_execution") {
        Some("Shell".to_owned())
    } else if either(kind, "mcpToolCall", "mcp_tool_call") {
        let server = name_or(item, "server", "MCP");
        let tool = name_or(item, "tool", "tool");
        Some(text::cat3(server.as_str(), "：", tool.as_str()))
    } else if either(kind, "dynamicToolCall", "dynamic_tool_call") {
        let tool = name_or(item, "tool", "tool");
        match name_in(item, "namespace") {
            Some(namespace) => Some(text::cat3(namespace.as_str(), "：", tool.as_str())),
            None => Some(tool),
        }
    } else if either(kind, "webSearch", "web_search") {
        Some("Web 搜索".to_owned())
    } else if either(kind, "fileChange", "file_change") {
        Some("修改文件".to_owned())
    } else if either(kind, "imageView", "image_view") {
        Some("查看图片".to_owned())
    } else if either(kind, "imageGeneration", "image_generation") {
        Some("生成图片".to_owned())
    } else if either(kind, "collabAgentToolCall", "collab_agent_tool_call") {
        match name_in(item, "tool") {
            Some(tool) => Some(text::cat("子代理：", tool.as_str())),
            None => None,
        }
    } else if either(kind, "contextCompaction", "context_compaction") {
        Some("压缩上下文".to_owned())
    } else {
        None
    }
}

/// The progress that the start of an item tells.
pub open spec fn started_progress(item: JsonView) -> Option<ProgressModel> {
    match label_of(item) {
        Some(label) => Some(ProgressModel::ToolStarted { item_id: item_name(item), label }),
        None => None,
    }
}

/// The progress that the start of an item tells.
pub fn tool_started_progress(item: &Json) -> (res: Option<TurnProgress>)
    ensures
        opt_progress(res) == started_progress(item@),
{
    match tool_label(item) {
        Some(label) => Some(TurnProgress::ToolStarted { item_id: item_id(item), label }),
        None => None,
    }
}

/// Whether an item with this status went well.
pub open spec fn status_is_success(status: Seq<char>) -> bool {
    ||| status == "completed"@
    ||| status == "in_progress"@
    ||| status == "inProgress"@
    ||| status == "succeeded"@
    ||| status == "success"@
}

/// The progress that the end of an item tells; messages are told otherwise.
pub open spec fn ended_progress(item: JsonView) -> Option<ProgressModel> {
    match (json::text_at(item, "type"@), label_of(item)) {
        (Some(kind), Some(label)) => if is_message_type(kind) {
            None
        } else {
            Some(
                ProgressModel::ToolCompleted {
                    item_id: item_name(item),
                    label,
                    success: match named(item, "status"@) {
                        Some(status) => Some(status_is_success(status)),
                        None => None,
                    },
                    summary: None,
                },
            )
        },
        _ => None,
    }
}

/// The progress that the end of an item tells.
pub fn tool_completed_progress(item: &Json) -> (res: Option<TurnProgress>)
    ensures
        opt_progress(res) == ended_progress(item@),
{
    match json::str_in(item.get("type")) {
        Some(kind) => if either(kind, "agentMessage", "agent_message") {
            return None;
        },
        None => {
            return None;
        },
    }
    let label = match tool_label(item) {
        Some(label) => label,
        None => {
            return None;
        },
    };
    let success = match name_in(item, "status") {
        Some(status) => {
            let status = status.as_str();
            Some(
                either(status, "completed", "in_progress") || either(
                    status,
                    "inProgress",
                    "succeeded",
                ) || text::eq(status, "success"),
            )
        },
        None => None,
    };
    Some(TurnProgress::ToolCompleted { item_id: item_id(item), label, success, summary: None })
}

// ---------------------------------------------------------------------------
// Requests of the app-server
// ---------------------------------------------------------------------------

/// The progress that a request of the app-server tells: one that is put to a person, or one
/// that was answered at once.
pub open spec fn request_progress(value: JsonView) -> Option<ProgressModel> {
    match (json::text_at(value, "method"@), json::u64_in(value.get("id"@))) {
        (Some(method), Some(request_id)) => {
            let asked = |label: Seq<char>|
                Some(ProgressModel::ApprovalRequested { request_id, label });
            let handled = |label: Seq<char>|
                Some(ProgressModel::ClientRequestHandled { request_id, label });
            if method == "item/commandExecution/requestApproval"@ {
                asked("Shell"@)
            } else if method == "item/fileChange/requestApproval"@ {
                asked("修改文件"@)
            } else if method == "item/permissions/requestApproval"@ {
                asked("权限申请"@)
            } else if method == "item/tool/requestUserInput"@ {
                handled("用户输入请求已自动跳过"@)
            } else if method == "mcpServer/elicitation/request"@ {
                handled("MCP 输入请求已自动取消"@)
            } else if method == "item/tool/call"@ {
                handled("动态工具请求已返回不支持"@)
            } else if method == "account/chatgptAuthTokens/refresh"@ {
                handled("登录刷新请求已返回错误"@)
            } else if method == "applyPatchApproval"@ || method == "execCommandApproval"@ {
                handled("旧版审批请求已自动拒绝"@)
            } else {
                None
            }
        },
        _ => None,
    }
}

/// The progress that a request of the app-server tells.
pub fn server_request_progress(value: &Json) -> (res: Option<TurnProgress>)
    ensures
        opt_progress(res) == request_progress(value@),
{
    let method = match json::str_in(value.get("method")) {
        Some(method) => method,
        None => {
            return None;
        },
    };
    let request_id = match json::unsigned_in(value.get("id")) {
        Some(id) => id,
        None => {
            return None;
        },
    };
    let (asked, label) = if text::eq(method, "item/commandExecution/requestApproval") {
        (true, "Shell")
    } else if text::eq(method, "item/fileChange/requestApproval") {
        (true, "修改文件")
    } else if text::eq(method, "item/permissions/requestApproval") {
        (true, "权限申请")
    } else if text::eq(method, "item/tool/requestUserInput") {
        (false, "用户输入请求已自动跳过")
    } else if text::eq(method, "mcpServer/elicitation/request") {
        (false, "MCP 输入请求已自动取消")
    } else if text::eq(method, "item/tool/call") {
        (false, "动态工具请求已返回不支持")
    } else if text::eq(method, "account/chatgptAuthTokens/refresh") {
        (false, "登录刷新请求已返回错误")
    } else if either(method, "applyPatchApproval", "execCommandApproval") {
        (false, "旧版审批请求已自动拒绝")
    } else {
        return None;
    };
    let label = label.to_owned();
    if asked {
        Some(TurnProgress::ApprovalRequested { request_id, label })
    } else {
        Some(TurnProgress::ClientRequestHandled { request_id, label })
    }
}

/// The progress that the resolution of a request tells: none for one that was answered
/// automatically.
pub open spec fn resolved_progress(value: JsonView) -> Option<ProgressModel> {
    match approvals::resolved_id(value) {
        Some(request_id) => if approvals::is_auto_handled(value) {
            None
        } else {
            Some(ProgressModel::ApprovalResolved { request_id })
        },
        None => None,
    }
}

/// The progress that the resolution of a request tells.
pub fn resolved_request_progress(value: &Json) -> (res: Option<TurnProgress>)
    ensures
        opt_progress(res) == resolved_progress(value@),
{
    if approvals::auto_server_request_resolved(value) {
        return None;
    }
    match approvals::resolved_request_id(value) {
        Some(request_id) => Some(TurnProgress::ApprovalResolved { request_id }),
        None => None,
    }
}

// ---------------------------------------------------------------------------
// All of an event
// ---------------------------------------------------------------------------

/// The list of the one step there may be.
pub open spec fn at_most_one(step: Option<ProgressModel>) -> Seq<ProgressModel> {
    match step {
        Some(step) => seq![step],
        None => seq![],
    }
}

/// The tool that starts with an event.
pub open spec fn tool_start(value: JsonView) -> Option<ProgressModel> {
    match item_of(value) {
        Some(item) => if usage::is_method(value, "item/started"@) {
            started_progress(item)
        } else {
            None
        },
        None => None,
    }
}

/// The tool that ends with an event.
pub open spec fn tool_end(value: JsonView) -> Option<ProgressModel> {
    match item_of(value) {
        Some(item) => if usage::is_method(value, "item/completed"@) {
            ended_progress(item)
        } else {
            None
        },
        None => None,
    }
}

/// The text that an event adds, as progress.
pub open spec fn delta_progress(value: JsonView) -> Option<ProgressModel> {
    match delta_text(value) {
        Some(delta) => Some(ProgressModel::Delta(delta)),
        None => None,
    }
}

/// The message that an event completes, as progress.
pub open spec fn message_progress(value: JsonView) -> Option<ProgressModel> {
    match (completed_text(value), item_of(value)) {
        (Some(message), Some(item)) => Some(
            ProgressModel::Message { item_id: item_name(item), text: message },
        ),
        _ => None,
    }
}

/// All progress that an event tells, in order.
pub open spec fn progress_of(value: JsonView) -> Seq<ProgressModel> {
    at_most_one(request_progress(value)) + at_most_one(resolved_progress(value)) + at_most_one(
        tool_start(value),
    ) + at_most_one(delta_progress(value)) + at_most_one(message_progress(value)) + at_most_one(
        tool_end(value),
    )
}

/// The output of a turn after an event.
pub open spec fn output_after(output: Seq<char>, value: JsonView) -> Seq<char> {
    let output = output + text_or(delta_text(value), seq![]);
    match completed_text(value) {
        Some(message) => with_message(output, message),
        None => output,
    }
}

/// Adds the step there may be.
fn push_step(steps: &mut Vec<TurnProgress>, step: Option<TurnProgress>)
    ensures
        progress_views(final(steps)@) == progress_views(old(steps)@) + at_most_one(
            opt_progress(step),
        ),
{
    match step {
        Some(step) => {
            let ghost view = step@;
            steps.push(step);
            assert(progress_views(steps@) =~= progress_views(old(steps)@) + seq![view]);
        },
        None => {
            assert(progress_views(steps@) =~= progress_views(old(steps)@) + Seq::<
                ProgressModel,
            >::empty());
        },
    }
}

/// Adds to the output of a turn what an event says, and tells the progress.
pub fn apply_agent_event_to_output(value: &Json, output: &mut String) -> (res: Vec<TurnProgress>)
    ensures
        final(output)@ == output_after(old(output)@, value@),
        progress_views(res@) == progress_of(value@),
{
    let mut steps: Vec<TurnProgress> = Vec::new();
    assert(progress_views(steps@) =~= Seq::<ProgressModel>::empty());
    push_step(&mut steps, server_request_progress(value));
    assert(progress_views(steps@) =~= at_most_one(request_progress(value@)));
    push_step(&mut steps, resolved_request_progress(value));
    let item = event_item(value);
    let started = match item {
        Some(item) => if json::member_is(value, "method", "item/started") {
            tool_started_progress(item)
        } else {
            None
        },
        None => None,
    };
    push_step(&mut steps, started);
    let delta = match agent_delta(value) {
        Some(delta) => {
            output.append(delta);
            Some(TurnProgress::Delta(delta.to_owned()))
        },
        None => {
            assert(output@ + Seq::<char>::empty() =~= output@);
            None
        },
    };
    push_step(&mut steps, delta);
    let message = match agent_completed_message(value) {
        Some(message) => {
            append_agent_message(output, message);
            match item {
                Some(item) => Some(
                    TurnProgress::Message { item_id: item_id(item), text: message.to_owned() },
                ),
                None => None,
            }
        },
        None => None,
    };
    push_step(&mut steps, message);
    let ended = match item {
        Some(item) => if json::member_is(value, "method", "item/completed") {
            tool_completed_progress(item)
        } else {
            None
        },
        None => None,
    };
    push_step(&mut steps, ended);
    steps
}

/// Whether an event belongs to a turn: an event that names no thread or no turn belongs to any.
pub open spec fn belongs_to_turn(
    value: JsonView,
    thread_id: Seq<char>,
    turn_id: Seq<char>,
) -> bool {
    match value.get("params"@) {
        Some(params) => {
            let event_thread = json::text_in(params.get_either("threadId"@, "thread_id"@));
            let event_turn = turn_in(params);
            &&& event_thread is None || event_thread == Some(thread_id)
            &&& event_turn is None || event_turn == Some(turn_id)
        },
        None => true,
    }
}

/// The turn that the parameters of an event name.
pub open spec fn turn_in(params: JsonView) -> Option<Seq<char>> {
    json::text_in(
        if params.get_either("turnId"@, "turn_id"@) is Some {
            params.get_either("turnId"@, "turn_id"@)
        } else {
            json::member(params.get("turn"@), "id"@)
        },
    )
}

/// The turn that the parameters of an event name.
fn event_turn<'a>(params: &'a Json) -> (res: Option<&'a str>)
    ensures
        text::opt_str(res) == turn_in(params@),
{
    let found = match params.get_either("turnId", "turn_id") {
        Some(found) => Some(found),
        None => json::member_in(params.get("turn"), "id"),
    };
    json::str_in(found)
}

/// Tells whether an event belongs to a turn.
pub fn event_matches_turn(value: &Json, thread_id: &str, turn_id: &str) -> (res: bool)
    ensures
        res == belongs_to_turn(value@, thread_id@, turn_id@),
{
    let params = match value.get("params") {
        Some(params) => params,
        None => {
            return true;
        },
    };
    let thread_fits = match json::str_in(params.get_either("threadId", "thread_id")) {
        Some(found) => text::eq(found, thread_id),
        None => true,
    };
    let turn_fits = match event_turn(params) {
        Some(found) => text::eq(found, turn_id),
        None => true,
    };
    thread_fits && turn_fits
}

/// The thread and the turn that an event says are completed.
pub open spec fn completed_turn(value: JsonView) -> Option<(Seq<char>, Seq<char>)> {
    match value.get("params"@) {
        Some(params) => if usage::is_method(value, "turn/completed"@) {
            match (json::text_in(params.get_either("threadId"@, "thread_id"@)), turn_in(params)) {
                (Some(thread_id), Some(turn_id)) => Some((thread_id, turn_id)),
                _ => None,
            }
        } else {
            None
        },
        None => None,
    }
}

/// The thread and the turn that an event says are completed.
pub fn turn_completed(value: &Json) -> (res: Option<(String, String)>)
    ensures
        match res {
            Some((thread_id, turn_id)) => completed_turn(value@) == Some((thread_id@, turn_id@)),
            None => completed_turn(value@) is None,
        },
{
    if !json::member_is(value, "method", "turn/completed") {
        return None;
    }
    let params = match value.get("params") {
        Some(params) => params,
        None => {
            return None;
        },
    };
    match (json::str_in(params.get_either("threadId", "thread_id")), event_turn(params)) {
        (Some(thread_id), Some(turn_id)) => Some((thread_id.to_owned(), turn_id.to_owned())),
        _ => None,
    }
}

// ---------------------------------------------------------------------------
// Laws
// ---------------------------------------------------------------------------

/// A text is a suffix of itself and of what it is appended to.
proof fn lemma_suffix(front: Seq<char>, back: Seq<char>)
    ensures
        text::has_suffix(front + back, back),
{
    let whole = front + back;
    assert(whole.skip(whole.len() - back.len()) =~= back);
}

/// After a message that is not blank the output ends with it, and the same message once more
/// changes nothing.
pub proof fn law_message_ends_output(output: Seq<char>, message: Seq<char>)
    requires
        text::trim(message).len() > 0,
    ensures
        text::has_suffix(text::trim_end(with_message(output, message)), text::trim(message)),
        with_message(with_message(output, message), message) == with_message(output, message),
{
    let short = text::trim(message);
    text::lemma_trim_start_shape(message);
    text::lemma_trim_end_shape(text::trim_start(message));
    let after = with_message(output, message);
    if after == short {
        assert(text::trim_end(short) == short);
        assert(Seq::<char>::empty() + short =~= short);
        lemma_suffix(Seq::<char>::empty(), short);
    } else if after != output {
        let front = output + "\n\n"@;
        assert(after == front + short);
        assert(after.last() == short.last());
        assert(text::trim_end(after) == after);
        lemma_suffix(front, short);
    }
}

/// What is told of a tool depends on its type, its names, its id and its status alone: two
/// items that agree on these are told alike, whatever commands, paths or output they hold.
pub proof fn law_tool_details_stay_hidden(a: JsonView, b: JsonView)
    requires
        forall|key: Seq<char>|
            key == "type"@ || key == "server"@ || key == "tool"@ || key == "namespace"@ || key
                == "id"@ || key == "status"@ ==> #[trigger] a.get(key) == b.get(key),
    ensures
        started_progress(a) == started_progress(b),
        ended_progress(a) == ended_progress(b),
        ended_progress(a) matches Some(ProgressModel::ToolCompleted { summary, .. }) ==> summary
            is None,
{
    assert(a.get("type"@) == b.get("type"@));
    assert(a.get("server"@) == b.get("server"@));
    assert(a.get("tool"@) == b.get("tool"@));
    assert(a.get("namespace"@) == b.get("namespace"@));
    assert(a.get("id"@) == b.get("id"@));
    assert(a.get("status"@) == b.get("status"@));
}

/// What is told of a request of the app-server depends on its method and its id alone: the
/// commands, files and permissions that it is about are not told.
pub proof fn law_request_details_stay_hidden(a: JsonView, b: JsonView)
    requires
        a.get("method"@) == b.get("method"@),
        a.get("id"@) == b.get("id"@),
    ensures
        request_progress(a) == request_progress(b),
{
}

/// Every request of the app-server that is told of is either put to a person or answered at
/// once, and told accordingly.
pub proof fn law_requests_are_asked_or_answered(value: JsonView)
    requires
        json::text_at(value, "method"@) is Some,
        json::u64_in(value.get("id"@)) is Some,
    ensures
        ({
            let method = json::text_at(value, "method"@)->0;
            let id = json::u64_in(value.get("id"@))->0;
            let told = request_progress(value);
            &&& approvals::needs_approval(method) <==> (told is Some && told->0 is ApprovalRequested)
            &&& approvals::automatic_response(id, method) is Some <==> (told is Some
                && told->0 is ClientRequestHandled)
        }),
{
    let method = json::text_at(value, "method"@)->0;
    let id = json::u64_in(value.get("id"@))->0;
    if approvals::needs_approval(method) {
        approvals::law_approvals_wait_for_a_person(id, method);
    }
}

/// The resolution of a request that was answered automatically is not told.
pub proof fn law_automatic_resolution_is_silent(value: JsonView)
    requires
        approvals::resolved_id(value) is Some,
    ensures
        resolved_progress(approvals::auto_handled(value)) is None,
{
    approvals::law_mark_is_found(value);
}

/// Whether an event is of a method.
pub open spec fn says(value: JsonView, method: Seq<char>) -> bool {
    value.get("method"@) == Some(JsonView::Str(method))
}

/// Methods that are told apart.
spec fn told_methods() -> Seq<Seq<char>> {
    seq![
        "item/agentMessage/delta"@,
        "item/started"@,
        "item/completed"@,
        "serverRequest/resolved"@,
        "item/commandExecution/requestApproval"@,
        "item/fileChange/requestApproval"@,
        "item/permissions/requestApproval"@,
        "item/tool/requestUserInput"@,
        "mcpServer/elicitation/request"@,
        "item/tool/call"@,
        "account/chatgptAuthTokens/refresh"@,
        "applyPatchApproval"@,
        "execCommandApproval"@,
        "turn/completed"@,
    ]
}

/// An event of one of the methods that are told apart is of no other of them.
proof fn lemma_told_apart(value: JsonView, i: int)
    requires
        0 <= i < told_methods().len(),
        says(value, told_methods()[i]),
    ensures
        usage::is_method(value, told_methods()[i]),
        i != 0 ==> !usage::is_method(value, "item/agentMessage/delta"@),
        i != 1 ==> !usage::is_method(value, "item/started"@),
        i != 2 ==> !usage::is_method(value, "item/completed"@),
        i != 3 ==> !usage::is_method(value, "serverRequest/resolved"@),
        i != 4 ==> !usage::is_method(value, "item/commandExecution/requestApproval"@),
        i != 5 ==> !usage::is_method(value, "item/fileChange/requestApproval"@),
        i != 6 ==> !usage::is_method(value, "item/permissions/requestApproval"@),
        i != 7 ==> !usage::is_method(value, "item/tool/requestUserInput"@),
        i != 8 ==> !usage::is_method(value, "mcpServer/elicitation/request"@),
        i != 9 ==> !usage::is_method(value, "item/tool/call"@),
        i != 10 ==> !usage::is_method(value, "account/chatgptAuthTokens/refresh"@),
        i != 11 ==> !usage::is_method(value, "applyPatchApproval"@),
        i != 12 ==> !usage::is_method(value, "execCommandApproval"@),
        i != 13 ==> !usage::is_method(value, "turn/completed"@),
{
    reveal_strlit("item/agentMessage/delta");
    reveal_strlit("item/started");
    reveal_strlit("item/completed");
    reveal_strlit("serverRequest/resolved");
    reveal_strlit("item/commandExecution/requestApproval");
    reveal_strlit("item/fileChange/requestApproval");
    reveal_strlit("item/permissions/requestApproval");
    reveal_strlit("item/tool/requestUserInput");
    reveal_strlit("mcpServer/elicitation/request");
    reveal_strlit("item/tool/call");
    reveal_strlit("account/chatgptAuthTokens/refresh");
    reveal_strlit("applyPatchApproval");
    reveal_strlit("execCommandApproval");
    reveal_strlit("turn/completed");
    assert("item/agentMessage/delta"@.len() == 23);
    assert("item/started"@.len() == 12);
    assert("item/completed"@.len() == 14);
    assert("serverRequest/resolved"@.len() == 22);
    assert("item/commandExecution/requestApproval"@.len() == 37);
    assert("item/fileChange/requestApproval"@.len() == 31);
    assert("item/permissions/requestApproval"@.len() == 32);
    assert("item/tool/requestUserInput"@.len() == 26);
    assert("mcpServer/elicitation/request"@.len() == 29);
    assert("item/tool/call"@.len() == 14);
    assert("account/chatgptAuthTokens/refresh"@.len() == 33);
    assert("applyPatchApproval"@.len() == 18);
    assert("execCommandApproval"@.len() == 19);
    assert("turn/completed"@.len() == 14);
    assert("item/completed"@[0] == 'i');
    assert("item/completed"@[5] == 'c');
    assert("item/tool/call"@[0] == 'i');
    assert("item/tool/call"@[5] == 't');
    assert("turn/completed"@[0] == 't');
    assert(told_methods()[0] == "item/agentMessage/delta"@);
    assert(told_methods()[1] == "item/started"@);
    assert(told_methods()[2] == "item/completed"@);
    assert(told_methods()[3] == "serverRequest/resolved"@);
    assert(told_methods()[4] == "item/commandExecution/requestApproval"@);
    assert(told_methods()[5] == "item/fileChange/requestApproval"@);
    assert(told_methods()[6] == "item/permissions/requestApproval"@);
    assert(told_methods()[7] == "item/tool/requestUserInput"@);
    assert(told_methods()[8] == "mcpServer/elicitation/request"@);
    assert(told_methods()[9] == "item/tool/call"@);
    assert(told_methods()[10] == "account/chatgptAuthTokens/refresh"@);
    assert(told_methods()[11] == "applyPatchApproval"@);
    assert(told_methods()[12] == "execCommandApproval"@);
    assert(told_methods()[13] == "turn/completed"@);
}

/// A piece of text is taken as it is, character for character, from an event that adds one, and
/// from no other event.
pub proof fn law_delta_is_taken_as_it_is<'a>(value: &'a Json, res: Option<&'a str>)
    requires
        call_ensures(agent_delta, (value,), res),
    ensures
        says(value@, "item/agentMessage/delta"@) ==> match value@.get("params"@) {
            Some(params) => match (params.get("delta"@), params.get("text"@)) {
                (Some(JsonView::Str(delta)), _) => text::opt_str(res) == Some(delta),
                (Some(_), _) => res is None,
                (None, Some(JsonView::Str(delta))) => text::opt_str(res) == Some(delta),
                _ => res is None,
            },
            None => res is None,
        },
        !says(value@, "item/agentMessage/delta"@) ==> res is None,
{
}

/// An event that adds a piece of text adds it to the end of the output, character for character,
/// and is told as that piece of text and as nothing else.
pub proof fn law_delta_is_appended(
    value: &Json,
    output: &mut String,
    res: Vec<TurnProgress>,
    delta: Seq<char>,
)
    requires
        call_ensures(apply_agent_event_to_output, (value, output), res),
        says(value@, "item/agentMessage/delta"@),
        json::member(value@.get("params"@), "delta"@) == Some(JsonView::Str(delta)),
    ensures
        final(output)@ == old(output)@ + delta,
        progress_views(res@) == seq![ProgressModel::Delta(delta)],
{
    lemma_told_apart(value@, 0);
    assert(progress_views(res@) =~= seq![ProgressModel::Delta(delta)]);
}

/// Texts one after another.
pub open spec fn all_texts(parts: Seq<Seq<char>>) -> Seq<char>
    decreases parts.len(),
{
    if parts.len() == 0 {
        seq![]
    } else {
        all_texts(parts.drop_last()) + parts.last()
    }
}

/// Whether the output runs through `outputs` while `events` are taken in, one by one.
pub open spec fn output_runs(outputs: Seq<Seq<char>>, events: Seq<JsonView>) -> bool {
    &&& outputs.len() == events.len() + 1
    &&& forall|i: int|
        0 <= i < events.len() ==> outputs[i + 1] == output_after(outputs[i], #[trigger] events[i])
}

/// After a run of events that add text the output is what it was before, followed by all of
/// these texts in order.
pub proof fn law_deltas_make_up_the_output(
    outputs: Seq<Seq<char>>,
    events: Seq<JsonView>,
    deltas: Seq<Seq<char>>,
)
    requires
        output_runs(outputs, events),
        deltas.len() == events.len(),
        forall|i: int|
            0 <= i < events.len() ==> says(#[trigger] events[i], "item/agentMessage/delta"@)
                && json::member(events[i].get("params"@), "delta"@) == Some(
                JsonView::Str(deltas[i]),
            ),
    ensures
        outputs.last() == outputs[0] + all_texts(deltas),
    decreases events.len(),
{
    if events.len() == 0 {
        assert(outputs[0] + all_texts(deltas) =~= outputs[0]);
    } else {
        let n = events.len() - 1;
        let front = events.drop_last();
        assert forall|i: int| 0 <= i < front.len() implies outputs.drop_last()[i + 1]
            == output_after(outputs.drop_last()[i], #[trigger] front[i]) by {
            assert(front[i] == events[i]);
        }
        assert forall|i: int| 0 <= i < front.len() implies says(
            #[trigger] front[i],
            "item/agentMessage/delta"@,
        ) && json::member(front[i].get("params"@), "delta"@) == Some(
            JsonView::Str(deltas.drop_last()[i]),
        ) by {
            assert(front[i] == events[i]);
        }
        law_deltas_make_up_the_output(outputs.drop_last(), front, deltas.drop_last());
        lemma_told_apart(events[n], 0);
        assert(outputs[n + 1] == outputs[n] + deltas[n]);
        assert(outputs[0] + all_texts(deltas) =~= outputs[0] + all_texts(deltas.drop_last())
            + deltas.last());
    }
}

/// The message of a completed item of the agent is taken as it is, unless it is blank; nothing is
/// taken from other items and other events.
pub proof fn law_completed_message_is_taken_as_it_is<'a>(
    value: &'a Json,
    item: JsonView,
    res: Option<&'a str>,
)
    requires
        call_ensures(agent_completed_message, (value,), res),
        json::member(value@.get("params"@), "item"@) == Some(item),
    ensures
        !says(value@, "item/completed"@) ==> res is None,
        says(value@, "item/completed"@) ==> match item.get("type"@) {
            Some(JsonView::Str(kind)) => if kind == "agentMessage"@ || kind == "agent_message"@ {
                match (item.get("text"@), item.get("message"@)) {
                    (Some(JsonView::Str(message)), _) => text::opt_str(res) == if text::is_blank(
                        message,
                    ) {
                        None
                    } else {
                        Some(message)
                    },
                    (Some(_), _) => res is None,
                    (None, Some(JsonView::Str(message))) => text::opt_str(res)
                        == if text::is_blank(message) {
                        None
                    } else {
                        Some(message)
                    },
                    _ => res is None,
                }
            } else {
                res is None
            },
            _ => res is None,
        },
{
    if let Some(message) = json::text_in(item.get_either("text"@, "message"@)) {
        text::lemma_trim_blank(message);
    }
}

/// A message is added to the output without white space around it: nothing is added where the
/// output ends with it, it takes the place of output that it begins with, and otherwise it follows
/// what was there after an empty line.
pub proof fn law_message_follows_the_output(output: &mut String, message: &str)
    requires
        call_ensures(append_agent_message, (output, message), ()),
    ensures
        ({
            let said = text::trim(message@);
            let before = old(output)@;
            let after = final(output)@;
            let known = text::has_suffix(text::trim_end(before), said);
            let continued = text::has_prefix(said, text::trim(before));
            &&& text::is_blank(message@) ==> after == before
            &&& known ==> after == before
            &&& text::is_blank(before) && !text::is_blank(message@) ==> after == said
            &&& continued && !known ==> after == said
            &&& !known && !continued && !text::is_blank(before) && !text::is_blank(message@)
                ==> after == before + "\n\n"@ + said
            &&& !text::is_blank(message@) ==> text::has_suffix(text::trim_end(after), said)
        }),
{
    text::lemma_trim_blank(message@);
    text::lemma_trim_blank(old(output)@);
    if text::trim(message@).len() > 0 {
        law_message_ends_output(old(output)@, message@);
        if text::is_blank(old(output)@)
            && text::has_suffix(text::trim_end(old(output)@), text::trim(message@)) {
            let before = old(output)@;
            let end = text::trim_end(before);
            text::lemma_trim_end_shape(before);
            assert(end.len() > 0);
            assert(end.last() == before[end.len() - 1]);
        }
    } else {
        let before = old(output)@;
        assert(text::trim_end(before).skip(text::trim_end(before).len() as int)
            =~= text::trim(message@));
    }
}

/// An item is known by its id as it is, where that is not blank.
pub proof fn law_item_keeps_its_id(item: &Json, res: String)
    requires
        call_ensures(item_id, (item,), res),
    ensures
        match item@.get("id"@) {
            Some(JsonView::Str(id)) => res@ == if text::is_blank(id) {
                "item"@
            } else {
                id
            },
            _ => res@ == "item"@,
        },
{
    if let Some(id) = json::text_at(item@, "id"@) {
        text::lemma_trim_blank(id);
    }
}

/// A member of an item that is a string which is not blank, trimmed, or a word in its place.
pub open spec fn name_of(item: JsonView, key: Seq<char>, otherwise: Seq<char>) -> Seq<char> {
    match item.get(key) {
        Some(JsonView::Str(s)) => if text::is_blank(s) {
            otherwise
        } else {
            text::trim(s)
        },
        _ => otherwise,
    }
}

/// Whether a member of an item is a string that is not blank.
pub open spec fn is_named(item: JsonView, key: Seq<char>) -> bool {
    item.get(key) matches Some(JsonView::Str(s)) && !text::is_blank(s)
}

/// What is named is the member, trimmed.
proof fn lemma_named(item: JsonView, key: Seq<char>, otherwise: Seq<char>)
    ensures
        text_or(named(item, key), otherwise) == name_of(item, key, otherwise),
        named(item, key) is Some <==> is_named(item, key),
        is_named(item, key) ==> named(item, key) == Some(name_of(item, key, otherwise)),
{
    if let Some(s) = json::text_at(item, key) {
        text::lemma_trim_blank(s);
    }
}

/// Tools are called by what they are, those of others by the names they have there; what is no
/// tool is called nothing.
pub proof fn law_tools_are_called_by_name(item: &Json, res: Option<String>)
    requires
        call_ensures(tool_label, (item,), res),
    ensures
        match item@.get("type"@) {
            Some(JsonView::Str(kind)) => {
                let called = text::opt_text(res);
                let tool = name_of(item@, "tool"@, "tool"@);
                &&& kind == "commandExecution"@ || kind == "command_execution"@ ==> called == Some(
                    "Shell"@,
                )
                &&& kind == "mcpToolCall"@ || kind == "mcp_tool_call"@ ==> called == Some(
                    name_of(item@, "server"@, "MCP"@) + "："@ + tool,
                )
                &&& kind == "dynamicToolCall"@ || kind == "dynamic_tool_call"@ ==> called == Some(
                    if is_named(item@, "namespace"@) {
                        name_of(item@, "namespace"@, tool) + "："@ + tool
                    } else {
                        tool
                    },
                )
                &&& kind == "webSearch"@ || kind == "web_search"@ ==> called == Some("Web 搜索"@)
                &&& kind == "fileChange"@ || kind == "file_change"@ ==> called == Some(
                    "修改文件"@,
                )
                &&& kind == "imageView"@ || kind == "image_view"@ ==> called == Some("查看图片"@)
                &&& kind == "imageGeneration"@ || kind == "image_generation"@ ==> called == Some(
                    "生成图片"@,
                )
                &&& kind == "collabAgentToolCall"@ || kind == "collab_agent_tool_call"@ ==> called
                    == if is_named(item@, "tool"@) {
                    Some("子代理："@ + tool)
                } else {
                    None
                }
                &&& kind == "contextCompaction"@ || kind == "context_compaction"@ ==> called
                    == Some("压缩上下文"@)
                &&& kind == "agentMessage"@ || kind == "agent_message"@ ==> called is None
                &&& called is Some ==> {
                    ||| kind == "commandExecution"@
                    ||| kind == "command_execution"@
                    ||| kind == "mcpToolCall"@
                    ||| kind == "mcp_tool_call"@
                    ||| kind == "dynamicToolCall"@
                    ||| kind == "dynamic_tool_call"@
                    ||| kind == "webSearch"@
                    ||| kind == "web_search"@
                    ||| kind == "fileChange"@
                    ||| kind == "file_change"@
                    ||| kind == "imageView"@
                    ||| kind == "image_view"@
                    ||| kind == "imageGeneration"@
                    ||| kind == "image_generation"@
                    ||| kind == "collabAgentToolCall"@
                    ||| kind == "collab_agent_tool_call"@
                    ||| kind == "contextCompaction"@
                    ||| kind == "context_compaction"@
                }
            },
            _ => res is None,
        },
{
    reveal_strlit("commandExecution");
    reveal_strlit("command_execution");
    reveal_strlit("mcpToolCall");
    reveal_strlit("mcp_tool_call");
    reveal_strlit("dynamicToolCall");
    reveal_strlit("dynamic_tool_call");
    reveal_strlit("webSearch");
    reveal_strlit("web_search");
    reveal_strlit("fileChange");
    reveal_strlit("file_change");
    reveal_strlit("imageView");
    reveal_strlit("image_view");
    reveal_strlit("imageGeneration");
    reveal_strlit("image_generation");
    reveal_strlit("collabAgentToolCall");
    reveal_strlit("collab_agent_tool_call");
    reveal_strlit("contextCompaction");
    reveal_strlit("context_compaction");
    reveal_strlit("agentMessage");
    reveal_strlit("agent_message");
    assert("commandExecution"@.len() == 16);
    assert("command_execution"@.len() == 17);
    assert("mcpToolCall"@.len() == 11);
    assert("mcp_tool_call"@.len() == 13);
    assert("dynamicToolCall"@.len() == 15);
    assert("dynamic_tool_call"@.len() == 17);
    assert("webSearch"@.len() == 9);
    assert("web_search"@.len() == 10);
    assert("fileChange"@.len() == 10);
    assert("file_change"@.len() == 11);
    assert("imageView"@.len() == 9);
    assert("image_view"@.len() == 10);
    assert("imageGeneration"@.len() == 15);
    assert("image_generation"@.len() == 16);
    assert("collabAgentToolCall"@.len() == 19);
    assert("collab_agent_tool_call"@.len() == 22);
    assert("contextCompaction"@.len() == 17);
    assert("context_compaction"@.len() == 18);
    assert("agentMessage"@.len() == 12);
    assert("agent_message"@.len() == 13);
    assert("commandExecution"@[0] == 'c');
    assert("command_execution"@[0] == 'c');
    assert("command_execution"@[2] == 'm');
    assert("mcpToolCall"@[0] == 'm');
    assert("mcp_tool_call"@[0] == 'm');
    assert("dynamicToolCall"@[0] == 'd');
    assert("dynamic_tool_call"@[0] == 'd');
    assert("webSearch"@[0] == 'w');
    assert("web_search"@[0] == 'w');
    assert("fileChange"@[0] == 'f');
    assert("file_change"@[0] == 'f');
    assert("imageView"@[0] == 'i');
    assert("image_view"@[0] == 'i');
    assert("imageGeneration"@[0] == 'i');
    assert("image_generation"@[0] == 'i');
    assert("contextCompaction"@[0] == 'c');
    assert("contextCompaction"@[2] == 'n');
    assert("agent_message"@[0] == 'a');
    lemma_named(item@, "tool"@, "tool"@);
    lemma_named(item@, "server"@, "MCP"@);
    lemma_named(item@, "namespace"@, name_of(item@, "tool"@, "tool"@));
}

/// The start of an item is told exactly where the item is a tool, by its id and by what it is
/// called.
pub proof fn law_tool_start_is_told(
    item: &Json,
    id: String,
    label: Option<String>,
    res: Option<TurnProgress>,
)
    requires
        call_ensures(item_id, (item,), id),
        call_ensures(tool_label, (item,), label),
        call_ensures(tool_started_progress, (item,), res),
    ensures
        opt_progress(res) == match label {
            Some(label) => Some(ProgressModel::ToolStarted { item_id: id@, label: label@ }),
            None => None,
        },
{
}

/// The end of an item is told exactly where the item is a tool, by its id, by what it is called,
/// and by whether its status, where it has one, is that of success; nothing else is told of it.
pub proof fn law_tool_end_is_told(
    item: &Json,
    id: String,
    label: Option<String>,
    res: Option<TurnProgress>,
)
    requires
        call_ensures(item_id, (item,), id),
        call_ensures(tool_label, (item,), label),
        call_ensures(tool_completed_progress, (item,), res),
    ensures
        opt_progress(res) is Some <==> label is Some,
        opt_progress(res) matches Some(told) ==> {
            let status = name_of(item@, "status"@, seq![]);
            &&& told is ToolCompleted
            &&& told->ToolCompleted_item_id == id@
            &&& label is Some && told->ToolCompleted_label == label->0@
            &&& told->ToolCompleted_success == if is_named(item@, "status"@) {
                Some(
                    status == "completed"@ || status == "in_progress"@ || status == "inProgress"@
                        || status == "succeeded"@ || status == "success"@,
                )
            } else {
                None
            }
            &&& told->ToolCompleted_summary is None
        },
{
    law_tools_are_called_by_name(item, label);
    lemma_named(item@, "status"@, seq![]);
}

/// A request to run a command, to change files or for permissions is told as one that waits for
/// approval under its own id, every other request that is known as one that was dealt with, and
/// what is no request of the app-server is told as none.
pub proof fn law_requests_are_told_by_their_id(value: &Json, res: Option<TurnProgress>, id: u64)
    requires
        call_ensures(server_request_progress, (value,), res),
        value@.get("id"@) == Some(JsonView::Unsigned(id)),
    ensures
        ({
            let told = opt_progress(res);
            let asked = |label: Seq<char>|
                told == Some(ProgressModel::ApprovalRequested { request_id: id, label });
            let handled = |label: Seq<char>|
                told == Some(ProgressModel::ClientRequestHandled { request_id: id, label });
            &&& says(value@, "item/commandExecution/requestApproval"@) ==> asked("Shell"@)
            &&& says(value@, "item/fileChange/requestApproval"@) ==> asked("修改文件"@)
            &&& says(value@, "item/permissions/requestApproval"@) ==> asked("权限申请"@)
            &&& says(value@, "item/tool/requestUserInput"@) ==> handled(
                "用户输入请求已自动跳过"@,
            )
            &&& says(value@, "mcpServer/elicitation/request"@) ==> handled(
                "MCP 输入请求已自动取消"@,
            )
            &&& says(value@, "item/tool/call"@) ==> handled("动态工具请求已返回不支持"@)
            &&& says(value@, "account/chatgptAuthTokens/refresh"@) ==> handled(
                "登录刷新请求已返回错误"@,
            )
            &&& says(value@, "applyPatchApproval"@) ==> handled("旧版审批请求已自动拒绝"@)
            &&& says(value@, "execCommandApproval"@) ==> handled("旧版审批请求已自动拒绝"@)
            &&& told is Some ==> {
                ||| says(value@, "item/commandExecution/requestApproval"@)
                ||| says(value@, "item/fileChange/requestApproval"@)
                ||| says(value@, "item/permissions/requestApproval"@)
                ||| says(value@, "item/tool/requestUserInput"@)
                ||| says(value@, "mcpServer/elicitation/request"@)
                ||| says(value@, "item/tool/call"@)
                ||| says(value@, "account/chatgptAuthTokens/refresh"@)
                ||| says(value@, "applyPatchApproval"@)
                ||| says(value@, "execCommandApproval"@)
            }
        }),
{
    reveal_strlit("item/commandExecution/requestApproval");
    reveal_strlit("item/fileChange/requestApproval");
    reveal_strlit("item/permissions/requestApproval");
    reveal_strlit("item/tool/requestUserInput");
    reveal_strlit("mcpServer/elicitation/request");
    reveal_strlit("item/tool/call");
    reveal_strlit("account/chatgptAuthTokens/refresh");
    reveal_strlit("applyPatchApproval");
    reveal_strlit("execCommandApproval");
    assert("item/commandExecution/requestApproval"@.len() == 37);
    assert("item/fileChange/requestApproval"@.len() == 31);
    assert("item/permissions/requestApproval"@.len() == 32);
    assert("item/tool/requestUserInput"@.len() == 26);
    assert("mcpServer/elicitation/request"@.len() == 29);
    assert("item/tool/call"@.len() == 14);
    assert("account/chatgptAuthTokens/refresh"@.len() == 33);
    assert("applyPatchApproval"@.len() == 18);
    assert("execCommandApproval"@.len() == 19);
}

/// What has no id is no request.
pub proof fn law_no_id_no_request(value: &Json, res: Option<TurnProgress>)
    requires
        call_ensures(server_request_progress, (value,), res),
        !(value@.get("id"@) matches Some(JsonView::Unsigned(_))),
    ensures
        res is None,
{
}

/// The resolution of a request is told by the id of that request, unless it is marked as answered
/// automatically.
pub proof fn law_resolution_is_told_by_its_id(
    value: &Json,
    res: Option<TurnProgress>,
    params: JsonView,
    id: u64,
)
    requires
        call_ensures(resolved_request_progress, (value,), res),
        value@.get("params"@) == Some(params),
        params.get("requestId"@) == Some(JsonView::Unsigned(id)) || params.get("requestId"@) is None
            && params.get("request_id"@) == Some(JsonView::Unsigned(id)),
    ensures
        !says(value@, "serverRequest/resolved"@) ==> res is None,
        params.get("_codexManagerAutoHandled"@) == Some(JsonView::Bool(true)) ==> res is None,
        says(value@, "serverRequest/resolved"@) && params.get("_codexManagerAutoHandled"@) != Some(
            JsonView::Bool(true),
        ) ==> opt_progress(res) == Some(ProgressModel::ApprovalResolved { request_id: id }),
{
}

/// The start of a tool leaves the output alone, and is told as the start of that tool and as
/// nothing else.
pub proof fn law_started_item_is_told_alone(
    value: &Json,
    item: &Json,
    output: &mut String,
    res: Vec<TurnProgress>,
    step: Option<TurnProgress>,
)
    requires
        call_ensures(apply_agent_event_to_output, (value, output), res),
        call_ensures(tool_started_progress, (item,), step),
        says(value@, "item/started"@),
        json::member(value@.get("params"@), "item"@) == Some(item@),
    ensures
        final(output)@ == old(output)@,
        progress_views(res@) == match opt_progress(step) {
            Some(step) => seq![step],
            None => seq![],
        },
{
    lemma_told_apart(value@, 1);
    assert(progress_views(res@) =~= at_most_one(opt_progress(step)));
}

/// The end of an item is told as the end of a tool, or as a message, which is also added to the
/// output; a message that is blank is neither told nor added.
pub proof fn law_completed_item_is_told_alone<'a>(
    value: &'a Json,
    item: &'a Json,
    output: &mut String,
    res: Vec<TurnProgress>,
    step: Option<TurnProgress>,
    id: String,
    message: Option<&'a str>,
)
    requires
        call_ensures(apply_agent_event_to_output, (value, output), res),
        call_ensures(tool_completed_progress, (item,), step),
        call_ensures(item_id, (item,), id),
        call_ensures(agent_completed_message, (value,), message),
        says(value@, "item/completed"@),
        json::member(value@.get("params"@), "item"@) == Some(item@),
    ensures
        match message {
            Some(message) => {
                &&& progress_views(res@) == seq![
                    ProgressModel::Message { item_id: id@, text: message@ },
                ]
                &&& text::has_suffix(text::trim_end(final(output)@), text::trim(message@))
            },
            None => {
                &&& final(output)@ == old(output)@
                &&& progress_views(res@) == match opt_progress(step) {
                    Some(step) => seq![step],
                    None => seq![],
                }
            },
        },
{
    lemma_told_apart(value@, 2);
    let said = text::opt_str(message);
    if let Some(said) = said {
        law_completed_message_is_taken_as_it_is(value, item@, message);
        text::lemma_trim_blank(said);
        law_message_ends_output(old(output)@, said);
        reveal_strlit("commandExecution");
        reveal_strlit("command_execution");
        reveal_strlit("mcpToolCall");
        reveal_strlit("mcp_tool_call");
        reveal_strlit("dynamicToolCall");
        reveal_strlit("dynamic_tool_call");
        reveal_strlit("webSearch");
        reveal_strlit("web_search");
        reveal_strlit("fileChange");
        reveal_strlit("file_change");
        reveal_strlit("imageView");
        reveal_strlit("image_view");
        reveal_strlit("imageGeneration");
        reveal_strlit("image_generation");
        reveal_strlit("collabAgentToolCall");
        reveal_strlit("collab_agent_tool_call");
        reveal_strlit("contextCompaction");
        reveal_strlit("context_compaction");
        reveal_strlit("agentMessage");
        reveal_strlit("agent_message");
        assert("commandExecution"@.len() == 16);
        assert("command_execution"@.len() == 17);
        assert("mcpToolCall"@.len() == 11);
        assert("mcp_tool_call"@.len() == 13);
        assert("dynamicToolCall"@.len() == 15);
        assert("dynamic_tool_call"@.len() == 17);
        assert("webSearch"@.len() == 9);
        assert("web_search"@.len() == 10);
        assert("fileChange"@.len() == 10);
        assert("file_change"@.len() == 11);
        assert("imageView"@.len() == 9);
        assert("image_view"@.len() == 10);
        assert("imageGeneration"@.len() == 15);
        assert("image_generation"@.len() == 16);
        assert("collabAgentToolCall"@.len() == 19);
        assert("collab_agent_tool_call"@.len() == 22);
        assert("contextCompaction"@.len() == 17);
        assert("context_compaction"@.len() == 18);
        assert("agentMessage"@.len() == 12);
        assert("agent_message"@.len() == 13);
        assert("commandExecution"@[0] == 'c');
        assert("command_execution"@[0] == 'c');
        assert("command_execution"@[2] == 'm');
        assert("mcpToolCall"@[0] == 'm');
        assert("mcp_tool_call"@[0] == 'm');
        assert("dynamicToolCall"@[0] == 'd');
        assert("dynamic_tool_call"@[0] == 'd');
        assert("webSearch"@[0] == 'w');
        assert("web_search"@[0] == 'w');
        assert("fileChange"@[0] == 'f');
        assert("file_change"@[0] == 'f');
        assert("imageView"@[0] == 'i');
        assert("image_view"@[0] == 'i');
        assert("imageGeneration"@[0] == 'i');
        assert("image_generation"@[0] == 'i');
        assert("contextCompaction"@[0] == 'c');
        assert("contextCompaction"@[2] == 'n');
        assert("agent_message"@[0] == 'a');
        assert(old(output)@ + Seq::<char>::empty() =~= old(output)@);
        assert(progress_views(res@) =~= seq![ProgressModel::Message { item_id: id@, text: said }]);
    } else {
        assert(old(output)@ + Seq::<char>::empty() =~= old(output)@);
        assert(progress_views(res@) =~= at_most_one(opt_progress(step)));
    }
}

/// A request of the app-server leaves the output alone, and is told as such and as nothing else.
pub proof fn law_request_is_told_alone(
    value: &Json,
    output: &mut String,
    res: Vec<TurnProgress>,
    step: Option<TurnProgress>,
)
    requires
        call_ensures(apply_agent_event_to_output, (value, output), res),
        call_ensures(server_request_progress, (value,), step),
        step is Some,
    ensures
        final(output)@ == old(output)@,
        progress_views(res@) == seq![opt_progress(step)->0],
{
    let method = json::text_at(value@, "method"@)->0;
    if method == "item/commandExecution/requestApproval"@ {
        lemma_told_apart(value@, 4);
    }
    if method == "item/fileChange/requestApproval"@ {
        lemma_told_apart(value@, 5);
    }
    if method == "item/permissions/requestApproval"@ {
        lemma_told_apart(value@, 6);
    }
    if method == "item/tool/requestUserInput"@ {
        lemma_told_apart(value@, 7);
    }
    if method == "mcpServer/elicitation/request"@ {
        lemma_told_apart(value@, 8);
    }
    if method == "item/tool/call"@ {
        lemma_told_apart(value@, 9);
    }
    if method == "account/chatgptAuthTokens/refresh"@ {
        lemma_told_apart(value@, 10);
    }
    if method == "applyPatchApproval"@ {
        lemma_told_apart(value@, 11);
    }
    if method == "execCommandApproval"@ {
        lemma_told_apart(value@, 12);
    }
    assert(old(output)@ + Seq::<char>::empty() =~= old(output)@);
    assert(progress_views(res@) =~= seq![opt_progress(step)->0]);
}

/// The end of a turn leaves the output alone, and is not told as progress.
pub proof fn law_turn_end_is_no_progress(
    value: &Json,
    output: &mut String,
    res: Vec<TurnProgress>,
)
    requires
        call_ensures(apply_agent_event_to_output, (value, output), res),
        says(value@, "turn/completed"@),
    ensures
        final(output)@ == old(output)@,
        progress_views(res@) == Seq::<ProgressModel>::empty(),
{
    lemma_told_apart(value@, 13);
    assert(progress_views(res@) =~= Seq::<ProgressModel>::empty());
}

/// An event that names another thread or another turn is none of the turn; one that names the
/// thread and the turn, or neither, is.
pub proof fn law_events_of_others_are_left_out(
    value: &Json,
    thread_id: &str,
    turn_id: &str,
    res: bool,
)
    requires
        call_ensures(event_matches_turn, (value, thread_id, turn_id), res),
    ensures
        match value@.get("params"@) {
            None => res,
            Some(params) => {
                let thread = if params.get("threadId"@) is Some {
                    params.get("threadId"@)
                } else {
                    params.get("thread_id"@)
                };
                let turn = if params.get("turnId"@) is Some {
                    params.get("turnId"@)
                } else if params.get("turn_id"@) is Some {
                    params.get("turn_id"@)
                } else {
                    json::member(params.get("turn"@), "id"@)
                };
                &&& thread matches Some(JsonView::Str(named)) ==> named != thread_id@ ==> !res
                &&& turn matches Some(JsonView::Str(named)) ==> named != turn_id@ ==> !res
                &&& (thread matches Some(JsonView::Str(named)) ==> named == thread_id@) && (
                turn matches Some(JsonView::Str(named)) ==> named == turn_id@) ==> res
            },
        },
{
}

/// The end of a turn is told with its thread and with the turn, each as what it is, and only where
/// both are named.
pub proof fn law_turn_end_names_the_turn(value: &Json, res: Option<(String, String)>)
    requires
        call_ensures(turn_completed, (value,), res),
    ensures
        res is Some ==> says(value@, "turn/completed"@),
        match value@.get("params"@) {
            None => res is None,
            Some(params) => {
                let thread = if params.get("threadId"@) is Some {
                    params.get("threadId"@)
                } else {
                    params.get("thread_id"@)
                };
                let turn = if params.get("turnId"@) is Some {
                    params.get("turnId"@)
                } else if params.get("turn_id"@) is Some {
                    params.get("turn_id"@)
                } else {
                    json::member(params.get("turn"@), "id"@)
                };
                &&& res matches Some((thread_id, turn_id)) ==> thread == Some(
                    JsonView::Str(thread_id@),
                ) && turn == Some(JsonView::Str(turn_id@))
                &&& says(value@, "turn/completed"@) && (thread matches Some(JsonView::Str(_))) && (
                turn matches Some(JsonView::Str(_))) ==> res is Some
            },
        },
{
}

/// The item of an event is the member `item` of its parameters.
pub proof fn law_item_is_in_the_parameters<'a>(
    value: &'a Json,
    params: &'a Json,
    found: Option<&'a Json>,
    item: Option<&'a Json>,
    res: Option<&'a Json>,
)
    requires
        call_ensures(event_item, (value,), res),
        call_ensures(Json::get, (value, "params"), found),
        found == Some(params),
        call_ensures(Json::get, (params, "item"), item),
    ensures
        json::opt_json(res) == json::opt_json(item),
{
}

/// An event without parameters has no item.
pub proof fn law_no_parameters_no_item<'a>(value: &'a Json, res: Option<&'a Json>)
    requires
        call_ensures(event_item, (value,), res),
        value@.get("params"@) is None,
    ensures
        res is None,
{
}

} // verus!
