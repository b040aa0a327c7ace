//! The words of the bot: labels, notices, commands, and texts cut to size.
use vstd::prelude::*;
use vstd::utf8::*;

use crate::app_server::events;
use crate::app_server::replies;
use crate::app_server::replies::{AppServerThread, ThreadModel};
use crate::app_server::usage::{
    RateLimitModel, RateLimitSummary, ThreadTokenUsageSummary, TokenUsageModel,
};
use crate::json;
use crate::json::{Json, JsonView};
use crate::text;
use crate::telegram::config::as_opt_str;

verus! {

// ---------------------------------------------------------------------------
// Cutting
// ---------------------------------------------------------------------------

/// `s` where it has at most `max` characters, else what fits before three dots.
pub open spec fn cut(s: Seq<char>, max: nat) -> Seq<char> {
    if s.len() <= max {
        s
    } else {
        s.take(if max < 3 { 0 } else { max - 3 }) + "..."@
    }
}

/// `value` where it has at most `max` characters, else what fits before three dots.
pub fn truncate(value: &str, max: usize) -> (res: String)
    ensures
        res@ == cut(value@, max as nat),
{
    let cs = text::chars_of(value);
    if cs.len() <= max {
        return value.to_owned();
    }
    let keep: usize = if max < 3 {
        0
    } else {
        max - 3
    };
    let head = text::text_of(&cs, 0, keep);
    assert(head@ =~= value@.take(keep as int));
    text::cat(head.as_str(), "...")
}

/// How many bytes of text make a message full.
pub const TELEGRAM_TEXT_CHUNK_LIMIT: usize = 3500;

/// How many bytes `s` takes in UTF-8.
pub open spec fn byte_length(s: Seq<char>) -> nat {
    encode_utf8(s).len()
}

/// The full messages that `s` is cut into, and what is left for another.
pub open spec fn chunked(s: Seq<char>) -> (Seq<Seq<char>>, Seq<char>)
    decreases s.len(),
{
    if s.len() == 0 {
        (seq![], seq![])
    } else {
        let (full, left) = chunked(s.drop_last());
        let longer = left.push(s.last());
        if byte_length(longer) >= TELEGRAM_TEXT_CHUNK_LIMIT {
            (full.push(longer), seq![])
        } else {
            (full, longer)
        }
    }
}

/// The messages that `s` is cut into: each is filled until it is full.
pub open spec fn chunks(s: Seq<char>) -> Seq<Seq<char>> {
    let (full, left) = chunked(s);
    if left.len() > 0 {
        full.push(left)
    } else {
        full
    }
}

/// How many bytes a character takes.
fn char_bytes(c: char) -> (res: usize)
    ensures
        res == encode_scalar(c as u32).len(),
        1 <= res <= 4,
{
    let code = c as u32;
    if code < 0x80 {
        1
    } else if code < 0x800 {
        2
    } else if code < 0x10000 {
        3
    } else {
        4
    }
}

/// Cuts a text into messages.
pub fn split_long_text(value: &str) -> (res: Vec<String>)
    ensures
        text::texts(res@) == chunks(value@),
{
    let cs = text::chars_of(value);
    let mut full: Vec<String> = Vec::new();
    let mut left = String::new();
    let mut bytes: usize = 0;
    let mut i: usize = 0;
    assert(value@.take(0) =~= Seq::<char>::empty());
    assert(text::texts(full@) =~= Seq::<Seq<char>>::empty());
    assert(left@ =~= Seq::<char>::empty());
    while i < cs.len()
        invariant
            i <= cs@.len(),
            cs@ == value@,
            (text::texts(full@), left@) == chunked(value@.take(i as int)),
            bytes == byte_length(left@),
            bytes < TELEGRAM_TEXT_CHUNK_LIMIT,
        decreases cs.len() - i,
    {
        let c = cs[i];
        proof {
            assert(value@.take(i + 1).drop_last() =~= value@.take(i as int));
            assert(value@.take(i + 1).last() == c);
            text::lemma_utf8_push(left@, c);
        }
        left.push(c);
        bytes += char_bytes(c);
        if bytes >= TELEGRAM_TEXT_CHUNK_LIMIT {
            let ghost before = full@;
            let ghost longer = left@;
            full.push(left);
            assert(text::texts(full@) =~= text::texts(before).push(longer));
            left = String::new();
            bytes = 0;
            assert(left@ =~= Seq::<char>::empty());
        }
        i += 1;
    }
    assert(value@.take(value@.len() as int) =~= value@);
    if !left.as_str().is_empty() {
        let ghost before = full@;
        let ghost rest = left@;
        full.push(left);
        assert(text::texts(full@) =~= text::texts(before).push(rest));
    }
    full
}

// ---------------------------------------------------------------------------
// Labels
// ---------------------------------------------------------------------------

/// The name of a project: the last name on its path, or the path where it has none.
pub open spec fn project_name(path: Seq<char>) -> Seq<char> {
    let bare = text::trim_end_char(path, '/');
    if bare.len() == 0 {
        path
    } else {
        text::split(bare, '/').last()
    }
}

/// The name of a project.
pub fn project_label(value: &str) -> (res: String)
    ensures
        res@ == project_name(value@),
{
    let bare = text::without_trailing(value, '/');
    if bare.is_empty() {
        return value.to_owned();
    }
    let pieces = text::pieces(bare, '/');
    proof {
        text::lemma_split_nonempty(bare@, '/');
        assert(text::texts(pieces@).last() == pieces@[pieces@.len() - 1]@);
    }
    pieces[pieces.len() - 1].clone()
}

/// What a status is called.
pub open spec fn status_name(status: Seq<char>) -> Seq<char> {
    if status == "running"@ || status == "in_progress"@ || status == "active"@ {
        "运行中"@
    } else if status == "active:waitingOnApproval"@ {
        "等待确认"@
    } else if status == "idle"@ {
        "空闲"@
    } else if status == "queued"@ {
        "排队中"@
    } else if status == "completed"@ {
        "已完成"@
    } else if status == "failed"@ {
        "失败"@
    } else if status == "cancelled"@ {
        "已取消"@
    } else {
        status
    }
}

/// What a status is called.
pub fn status_label(status: &str) -> (res: String)
    ensures
        res@ == status_name(status@),
{
    if text::eq(status, "running") || text::eq(status, "in_progress") || text::eq(
        status,
        "active",
    ) {
        "运行中".to_owned()
    } else if text::eq(status, "active:waitingOnApproval") {
        "等待确认".to_owned()
    } else if text::eq(status, "idle") {
        "空闲".to_owned()
    } else if text::eq(status, "queued") {
        "排队中".to_owned()
    } else if text::eq(status, "completed") {
        "已完成".to_owned()
    } else if text::eq(status, "failed") {
        "失败".to_owned()
    } else if text::eq(status, "cancelled") {
        "已取消".to_owned()
    } else {
        status.to_owned()
    }
}

/// What a thread is called: its title, its preview or its id, with its status before it.
pub open spec fn thread_name(thread: ThreadModel) -> Seq<char> {
    let value = match thread.title {
        Some(title) => title,
        None => events::text_or(thread.preview, thread.id),
    };
    let label = cut(text::trim(value), 56);
    match replies::trimmed_text(thread.status) {
        Some(status) => status_name(status) + " · "@ + label,
        None => label,
    }
}

/// What a thread is called.
pub fn thread_label(thread: &AppServerThread) -> (res: String)
    ensures
        res@ == thread_name(thread@),
{
    let value = match as_opt_str(&thread.title) {
        Some(title) => title,
        None => match as_opt_str(&thread.preview) {
            Some(preview) => preview,
            None => thread.id.as_str(),
        },
    };
    let label = truncate(text::trimmed(value), 56);
    match replies::trimmed_or_none(as_opt_str(&thread.status)) {
        Some(status) => text::cat3(status_label(status).as_str(), " · ", label.as_str()),
        None => label,
    }
}

/// What the bot is working on.
pub open spec fn context_name(thread: Option<Seq<char>>, project: Option<Seq<char>>) -> Seq<char> {
    match (thread, project) {
        (Some(thread), Some(project)) => project_name(project) + " · "@ + thread,
        (Some(thread), None) => thread,
        (None, Some(project)) => project_name(project) + " · 新对话"@,
        (None, None) => "未绑定"@,
    }
}

/// What the bot is working on.
pub fn current_context_label(thread_id: Option<&str>, project_dir: Option<&str>) -> (res: String)
    ensures
        res@ == context_name(text::opt_str(thread_id), text::opt_str(project_dir)),
{
    match (thread_id, project_dir) {
        (Some(thread), Some(project)) => text::cat3(
            project_label(project).as_str(),
            " · ",
            thread,
        ),
        (Some(thread), None) => thread.to_owned(),
        (None, Some(project)) => text::cat(project_label(project).as_str(), " · 新对话"),
        (None, None) => "未绑定".to_owned(),
    }
}

/// What is said before the first message of a standalone chat.
pub fn new_thread_notice(thread_id: Option<&str>, project_dir: Option<&str>) -> (res: Option<
    &'static str,
>)
    ensures
        text::opt_str(res) == if thread_id is None && project_dir is None {
            Some("已切换到独立新对话。直接发送消息即可开始。"@)
        } else {
            None
        },
{
    if thread_id.is_none() && project_dir.is_none() {
        Some("已切换到独立新对话。直接发送消息即可开始。")
    } else {
        None
    }
}

// ---------------------------------------------------------------------------
// The status page
// ---------------------------------------------------------------------------

/// What the status page shows.
#[derive(Debug, Clone, PartialEq, Eq)]
pub struct RuntimeStatusView {
    pub running: bool,
    pub current_context: String,
    pub thread_status: Option<String>,
    pub usage: Option<RateLimitSummary>,
    pub token_usage: Option<ThreadTokenUsageSummary>,
}

/// A percentage, where it is known.
pub open spec fn percent_text(percent: Option<i64>) -> Seq<char> {
    match percent {
        Some(percent) => text::signed_decimal(percent as int) + "%"@,
        None => "未知"@,
    }
}

/// The line on the rate limit.
pub open spec fn limit_line(limit: RateLimitModel) -> Seq<char> {
    "额度："@ + events::text_or(limit.bucket, "额度"@) + " · "@ + events::text_or(
        limit.plan,
        "未知套餐"@,
    ) + " · "@ + percent_text(limit.used_percent)
}

/// The line on the context window.
pub open spec fn context_line(used: TokenUsageModel) -> Seq<char> {
    let tokens = text::signed_decimal(used.used_tokens as int);
    let of_window = match used.context_window {
        Some(window) => if window > 0 {
            tokens + "/"@ + text::signed_decimal(window as int)
        } else {
            tokens
        },
        None => tokens,
    };
    let percent = match used.used_percent {
        Some(percent) => " · "@ + text::signed_decimal(percent as int) + "%"@,
        None => seq![],
    };
    "上下文："@ + of_window + percent
}

/// The text of the status page.
pub open spec fn status_page(
    running: bool,
    context: Seq<char>,
    status: Option<Seq<char>>,
    limit: Option<RateLimitModel>,
    used: Option<TokenUsageModel>,
) -> Seq<char> {
    let state = "状态："@ + if running {
        "运行中"@
    } else {
        "已停止"@
    };
    let thread = "当前线程："@ + match status {
        Some(status) => status_name(status),
        None => "未知"@,
    };
    let first = state + "\n"@ + ("当前对话："@ + context) + "\n"@ + thread;
    let second = match limit {
        Some(limit) => first + "\n"@ + limit_line(limit),
        None => first,
    };
    match used {
        Some(used) => second + "\n"@ + context_line(used),
        None => second,
    }
}

/// A text that may be there, or another.
fn text_or_else(s: &Option<String>, otherwise: &str) -> (res: String)
    ensures
        res@ == events::text_or(text::opt_text(*s), otherwise@),
{
    match s {
        Some(s) => s.clone(),
        None => otherwise.to_owned(),
    }
}

/// A percentage.
fn percent_label(percent: i64) -> (res: String)
    ensures
        res@ == text::signed_decimal(percent as int) + "%"@,
{
    text::cat(text::i64_text(percent).as_str(), "%")
}

/// The line on the rate limit.
fn limit_text(limit: &RateLimitSummary) -> (res: String)
    ensures
        res@ == limit_line(limit@),
{
    let bucket = text_or_else(&limit.bucket, "额度");
    let plan = text_or_else(&limit.plan, "未知套餐");
    let percent = match limit.used_percent {
        Some(percent) => percent_label(percent),
        None => "未知".to_owned(),
    };
    let mut line = text::cat3("额度：", bucket.as_str(), " · ");
    line.append(plan.as_str());
    line.append(" · ");
    line.append(percent.as_str());
    line
}

/// The line on the context window.
fn context_text(used: &ThreadTokenUsageSummary) -> (res: String)
    ensures
        res@ == context_line(used@),
{
    let tokens = text::i64_text(used.used_tokens);
    let of_window = match used.context_window {
        Some(window) => if window > 0 {
            text::cat3(tokens.as_str(), "/", text::i64_text(window).as_str())
        } else {
            tokens
        },
        None => tokens,
    };
    let percent = match used.used_percent {
        Some(percent) => text::cat(" · ", percent_label(percent).as_str()),
        None => String::new(),
    };
    proof {
        if let Some(n) = used.used_percent {
            assert(percent@ =~= " · "@ + text::signed_decimal(n as int) + "%"@);
        } else {
            assert(percent@ =~= seq![]);
        }
    }
    text::cat3("上下文：", of_window.as_str(), percent.as_str())
}

/// The text of the status page.
pub fn format_runtime_status(view: &RuntimeStatusView) -> (res: String)
    ensures
        res@ == status_page(
            view.running,
            view.current_context@,
            text::opt_text(view.thread_status),
            match view.usage {
                Some(limit) => Some(limit@),
                None => None,
            },
            match view.token_usage {
                Some(used) => Some(used@),
                None => None,
            },
        ),
{
    let state = if view.running {
        "运行中"
    } else {
        "已停止"
    };
    let thread = match &view.thread_status {
        Some(status) => status_label(status.as_str()),
        None => "未知".to_owned(),
    };
    let context = text::cat("当前对话：", view.current_context.as_str());
    let thread = text::cat("当前线程：", thread.as_str());
    let mut page = text::cat("状态：", state);
    page.append("\n");
    page.append(context.as_str());
    page.append("\n");
    page.append(thread.as_str());
    if let Some(limit) = &view.usage {
        page.append("\n");
        page.append(limit_text(limit).as_str());
    }
    if let Some(used) = &view.token_usage {
        page.append("\n");
        page.append(context_text(used).as_str());
    }
    page
}

// ---------------------------------------------------------------------------
// Commands
// ---------------------------------------------------------------------------

/// The command that a message begins with: the word after the slash, up to an `@`.
pub open spec fn command_of(value: Seq<char>) -> Option<Seq<char>> {
    if value.len() > 0 && value[0] == '/' {
        let name = text::before_char(text::first_word(value.skip(1)), '@');
        if name.len() > 0 {
            Some(name)
        } else {
            None
        }
    } else {
        None
    }
}

/// The command that a message begins with.
pub fn slash_command(value: &str) -> (res: Option<String>)
    ensures
        text::opt_text(res) == command_of(value@),
{
    let cs = text::chars_of(value);
    if cs.len() == 0 || cs[0] != '/' {
        return None;
    }
    let rest = text::text_of(&cs, 1, cs.len());
    assert(rest@ =~= value@.skip(1));
    let name = text::up_to(text::word_of(rest.as_str()).as_str(), '@');
    if name.as_str().is_empty() {
        None
    } else {
        Some(name)
    }
}

/// What a message asks of the bot itself.
#[derive(Debug, Clone, Copy, PartialEq, Eq)]
pub enum MenuAction {
    Menu,
    NewThread,
    Projects,
    Sessions,
    Status,
    Stop,
    UnsupportedCommand,
}

/// What a message asks of the bot itself; nothing where it is a prompt.
pub open spec fn action_for(value: Seq<char>) -> Option<MenuAction> {
    match command_of(value) {
        Some(command) => Some(
            if command == "start"@ {
                MenuAction::Menu
            } else if command == "new"@ {
                MenuAction::NewThread
            } else if command == "projects"@ {
                MenuAction::Projects
            } else if command == "sessions"@ {
                MenuAction::Sessions
            } else if command == "status"@ {
                MenuAction::Status
            } else {
                MenuAction::UnsupportedCommand
            },
        ),
        None => if value == "菜单"@ {
            Some(MenuAction::Menu)
        } else if value == "新对话"@ {
            Some(MenuAction::NewThread)
        } else if value == "项目"@ {
            Some(MenuAction::Projects)
        } else if value == "对话"@ {
            Some(MenuAction::Sessions)
        } else if value == "状态"@ {
            Some(MenuAction::Status)
        } else if value == "停止"@ {
            Some(MenuAction::Stop)
        } else {
            None
        },
    }
}

/// What a message asks of the bot itself.
pub fn menu_action(value: &str) -> (res: Option<MenuAction>)
    ensures
        res == action_for(value@),
{
    if let Some(command) = slash_command(value) {
        let command = command.as_str();
        return Some(
            if text::eq(command, "start") {
                MenuAction::Menu
            } else if text::eq(command, "new") {
                MenuAction::NewThread
            } else if text::eq(command, "projects") {
                MenuAction::Projects
            } else if text::eq(command, "sessions") {
                MenuAction::Sessions
            } else if text::eq(command, "status") {
                MenuAction::Status
            } else {
                MenuAction::UnsupportedCommand
            },
        );
    }
    if text::eq(value, "菜单") {
        Some(MenuAction::Menu)
    } else if text::eq(value, "新对话") {
        Some(MenuAction::NewThread)
    } else if text::eq(value, "项目") {
        Some(MenuAction::Projects)
    } else if text::eq(value, "对话") {
        Some(MenuAction::Sessions)
    } else if text::eq(value, "状态") {
        Some(MenuAction::Status)
    } else if text::eq(value, "停止") {
        Some(MenuAction::Stop)
    } else {
        None
    }
}

/// A command as it is announced.
pub open spec fn announced(command: Seq<char>, description: Seq<char>) -> JsonView {
    JsonView::Object(
        map![
            "command"@ => JsonView::Str(command),
            "description"@ => JsonView::Str(description),
        ],
    )
}

/// A command as it is announced.
fn announce(command: &str, description: &str) -> (res: Json)
    ensures
        res@ == announced(command@, description@),
{
    Json::empty_object().with("command", Json::text(command)).with(
        "description",
        Json::text(description),
    )
}

/// The commands that are announced to Telegram.
pub open spec fn announced_commands() -> JsonView {
    JsonView::Object(
        map![
            "commands"@ => JsonView::Array(seq![
                announced("start"@, "打开菜单"@),
                announced("new"@, "开启独立新对话"@),
                announced("projects"@, "列出项目"@),
                announced("sessions"@, "列出独立对话"@),
                announced("status"@, "查看状态"@),
            ]),
        ],
    )
}

/// The commands that are announced to Telegram.
pub fn bot_commands() -> (res: Json)
    ensures
        res@ == announced_commands(),
{
    let mut commands: Vec<Json> = Vec::new();
    commands.push(announce("start", "打开菜单"));
    commands.push(announce("new", "开启独立新对话"));
    commands.push(announce("projects", "列出项目"));
    commands.push(announce("sessions", "列出独立对话"));
    commands.push(announce("status", "查看状态"));
    assert(json::array_view(commands@) =~= seq![
        announced("start"@, "打开菜单"@),
        announced("new"@, "开启独立新对话"@),
        announced("projects"@, "列出项目"@),
        announced("sessions"@, "列出独立对话"@),
        announced("status"@, "查看状态"@),
    ]);
    Json::empty_object().with("commands", Json::Array(commands))
}

// ---------------------------------------------------------------------------
// Laws
// ---------------------------------------------------------------------------

/// A text that is cut is no longer than asked for, three dots aside, and begins as the text
/// does; a text that fits is left alone.
pub proof fn law_cut_fits(s: Seq<char>, max: nat)
    ensures
        cut(s, max).len() <= if max < 3 { 3 } else { max },
        s.len() <= max ==> cut(s, max) == s,
        max >= 3 && s.len() > max ==> cut(s, max).take(max - 3) == s.take(max - 3),
{
    reveal_strlit("...");
    if max >= 3 && s.len() > max {
        assert(cut(s, max).take(max - 3) =~= s.take(max - 3));
    }
}

/// All of the parts, one after another.
pub open spec fn joined_parts(parts: Seq<Seq<char>>) -> Seq<char>
    decreases parts.len(),
{
    if parts.len() == 0 {
        seq![]
    } else {
        joined_parts(parts.drop_last()) + parts.last()
    }
}

/// What `chunked` keeps.
proof fn lemma_chunked(s: Seq<char>)
    ensures
        joined_parts(chunked(s).0) + chunked(s).1 == s,
        byte_length(chunked(s).1) < TELEGRAM_TEXT_CHUNK_LIMIT,
        forall|i: int|
            0 <= i < chunked(s).0.len() ==> TELEGRAM_TEXT_CHUNK_LIMIT <= byte_length(
                #[trigger] chunked(s).0[i],
            ) < TELEGRAM_TEXT_CHUNK_LIMIT + 4,
    decreases s.len(),
{
    if s.len() == 0 {
        assert(joined_parts(chunked(s).0) + chunked(s).1 =~= s);
    } else {
        let front = s.drop_last();
        let c = s.last();
        lemma_chunked(front);
        let (full, left) = chunked(front);
        let longer = left.push(c);
        text::lemma_utf8_push(left, c);
        assert(encode_scalar(c as u32).len() <= 4);
        let (full2, left2) = chunked(s);
        if byte_length(longer) >= TELEGRAM_TEXT_CHUNK_LIMIT {
            assert(full2.drop_last() =~= full);
            assert(joined_parts(full2) + left2 =~= joined_parts(full) + longer);
            assert(joined_parts(full) + longer =~= (joined_parts(full) + left).push(c));
            assert((joined_parts(full) + left).push(c) =~= s);
        } else {
            assert(joined_parts(full2) + left2 =~= (joined_parts(full) + left).push(c));
            assert((joined_parts(full) + left).push(c) =~= s);
        }
    }
}

/// The messages that a text is cut into make up the text, none is empty, none is longer than
/// the limit by more than the bytes of one character, and all but the last are full.
pub proof fn law_messages_make_up_the_text(s: Seq<char>)
    ensures
        joined_parts(chunks(s)) == s,
        forall|i: int|
            0 <= i < chunks(s).len() ==> 0 < byte_length(#[trigger] chunks(s)[i])
                < TELEGRAM_TEXT_CHUNK_LIMIT + 4,
        forall|i: int|
            0 <= i < chunks(s).len() - 1 ==> byte_length(#[trigger] chunks(s)[i])
                >= TELEGRAM_TEXT_CHUNK_LIMIT,
        s.len() > 0 ==> chunks(s).len() > 0,
{
    lemma_chunked(s);
    let (full, left) = chunked(s);
    if left.len() > 0 {
        assert(chunks(s).drop_last() =~= full);
        let front = left.drop_last();
        assert(front.push(left.last()) =~= left);
        text::lemma_utf8_push(front, left.last());
        assert(encode_scalar(left.last() as u32).len() >= 1);
    } else {
        assert(joined_parts(full) + left =~= joined_parts(full));
    }
}

/// A text is left alone where it fits, and else is cut to the length asked for: what fits before
/// three dots, and the dots.
pub proof fn law_truncated_text_fits(value: &str, max: usize, res: String)
    requires
        call_ensures(truncate, (value, max), res),
    ensures
        value@.len() <= max ==> res@ == value@,
        value@.len() > max && max >= 3 ==> {
            &&& res@.len() == max
            &&& res@.take(max - 3) == value@.take(max - 3)
            &&& res@.skip(max - 3) == "..."@
        },
        value@.len() > max && max < 3 ==> res@ == "..."@,
{
    reveal_strlit("...");
    if value@.len() > max {
        if max >= 3 {
            assert(res@.take(max - 3) =~= value@.take(max - 3));
            assert(res@.skip(max - 3) =~= "..."@);
        } else {
            assert(res@ =~= "..."@);
        }
    }
}

/// The messages that a text is cut into are the text, one after another; none is empty, each but
/// the last is full, and none is over the limit by more than the bytes of one character.
pub proof fn law_split_text_is_the_text(value: &str, res: Vec<String>)
    requires
        call_ensures(split_long_text, (value,), res),
    ensures
        joined_parts(text::texts(res@)) == value@,
        forall|i: int|
            0 <= i < res@.len() ==> 0 < byte_length((#[trigger] res@[i])@) < 3504,
        forall|i: int| 0 <= i < res@.len() - 1 ==> byte_length((#[trigger] res@[i])@) >= 3500,
        value@.len() == 0 ==> res@.len() == 0,
{
    law_messages_make_up_the_text(value@);
    assert forall|i: int| 0 <= i < res@.len() implies 0 < byte_length((#[trigger] res@[i])@)
        < 3504 by {
        assert(text::texts(res@)[i] == res@[i]@);
        assert(0 < byte_length(chunks(value@)[i]) < TELEGRAM_TEXT_CHUNK_LIMIT + 4);
    }
    assert forall|i: int| 0 <= i < res@.len() - 1 implies byte_length((#[trigger] res@[i])@)
        >= 3500 by {
        assert(text::texts(res@)[i] == res@[i]@);
        assert(byte_length(chunks(value@)[i]) >= TELEGRAM_TEXT_CHUNK_LIMIT);
    }
    assert(text::texts(res@).len() == res@.len());
}

/// What follows the last of some characters stays where a run of another is taken off the end.
proof fn lemma_run_taken_off(s: Seq<char>, run: Seq<char>, c: char)
    requires
        s.len() > 0,
        s.last() != c,
        forall|i: int| 0 <= i < run.len() ==> #[trigger] run[i] == c,
    ensures
        text::trim_end_char(s + run, c) == s,
    decreases run.len(),
{
    if run.len() == 0 {
        assert(s + run =~= s);
    } else {
        let shorter = run.drop_last();
        assert forall|i: int| 0 <= i < shorter.len() implies #[trigger] shorter[i] == c by {
            assert(shorter[i] == run[i]);
        }
        lemma_run_taken_off(s, shorter, c);
        assert((s + run).drop_last() =~= s + shorter);
        assert((s + run).last() == run[run.len() - 1]);
    }
}

/// A run of one character is taken off whole.
proof fn lemma_only_run(run: Seq<char>, c: char)
    requires
        forall|i: int| 0 <= i < run.len() ==> #[trigger] run[i] == c,
    ensures
        text::trim_end_char(run, c).len() == 0,
    decreases run.len(),
{
    if run.len() > 0 {
        let shorter = run.drop_last();
        assert forall|i: int| 0 <= i < shorter.len() implies #[trigger] shorter[i] == c by {
            assert(shorter[i] == run[i]);
        }
        lemma_only_run(shorter, c);
        assert(run.last() == run[run.len() - 1]);
    }
}

/// A project is called by the last name on its path, whatever slashes follow it.
pub proof fn law_project_is_called_by_its_last_name(
    value: &str,
    dir: Seq<char>,
    name: Seq<char>,
    slashes: Seq<char>,
    res: String,
)
    requires
        call_ensures(project_label, (value,), res),
        name.len() > 0,
        !name.contains('/'),
        forall|i: int| 0 <= i < slashes.len() ==> #[trigger] slashes[i] == '/',
        value@ == dir.push('/') + name + slashes || value@ == name + slashes,
    ensures
        res@ == name,
{
    assert(name.contains(name.last()));
    let none = Seq::<char>::empty();
    if value@ == name + slashes {
        lemma_run_taken_off(name, slashes, '/');
        text::lemma_split_append(none, name, '/');
        assert(none + name =~= name);
        assert(text::split(none, '/') =~= seq![none]);
        assert(text::split(name, '/').last() =~= name);
    } else {
        let path = dir.push('/') + name;
        lemma_run_taken_off(path, slashes, '/');
        text::lemma_split_nonempty(dir, '/');
        assert(dir.push('/').drop_last() =~= dir);
        text::lemma_split_append(dir.push('/'), name, '/');
        assert(text::split(dir.push('/'), '/').last() == none);
        assert(none + name =~= name);
        assert(text::split(path, '/').last() =~= name);
    }
}

/// A path without names is called as it is.
pub proof fn law_path_without_names_is_its_label(value: &str, res: String)
    requires
        call_ensures(project_label, (value,), res),
        forall|i: int| 0 <= i < value@.len() ==> #[trigger] value@[i] == '/',
    ensures
        res@ == value@,
{
    lemma_only_run(value@, '/');
}

/// Each status that is known has its name, and any other is its own.
pub proof fn law_status_has_its_name(status: &str, res: String)
    requires
        call_ensures(status_label, (status,), res),
    ensures
        status@ == "running"@ || status@ == "in_progress"@ || status@ == "active"@ ==> res@
            == "运行中"@,
        status@ == "active:waitingOnApproval"@ ==> res@ == "等待确认"@,
        status@ == "idle"@ ==> res@ == "空闲"@,
        status@ == "queued"@ ==> res@ == "排队中"@,
        status@ == "completed"@ ==> res@ == "已完成"@,
        status@ == "failed"@ ==> res@ == "失败"@,
        status@ == "cancelled"@ ==> res@ == "已取消"@,
        res@ != status@ ==> {
            ||| status@ == "running"@
            ||| status@ == "in_progress"@
            ||| status@ == "active"@
            ||| status@ == "active:waitingOnApproval"@
            ||| status@ == "idle"@
            ||| status@ == "queued"@
            ||| status@ == "completed"@
            ||| status@ == "failed"@
            ||| status@ == "cancelled"@
        },
{
    reveal_strlit("running");
    reveal_strlit("in_progress");
    reveal_strlit("active");
    reveal_strlit("active:waitingOnApproval");
    reveal_strlit("idle");
    reveal_strlit("queued");
    reveal_strlit("completed");
    reveal_strlit("failed");
    reveal_strlit("cancelled");
    assert("running"@.len() == 7);
    assert("in_progress"@.len() == 11);
    assert("active"@.len() == 6);
    assert("active:waitingOnApproval"@.len() == 24);
    assert("idle"@.len() == 4);
    assert("queued"@.len() == 6);
    assert("completed"@.len() == 9);
    assert("failed"@.len() == 6);
    assert("cancelled"@.len() == 9);
    assert("active"@[0] == 'a');
    assert("queued"@[0] == 'q');
    assert("completed"@[1] == 'o');
    assert("failed"@[0] == 'f');
    assert("cancelled"@[1] == 'a');
}

/// A thread is called by its title, else by its preview, else by its id, trimmed and cut to size;
/// its status stands before that by its name, where it has one.
pub proof fn law_thread_is_called_by_its_title(
    thread: &AppServerThread,
    called: &str,
    status: &str,
    short: String,
    state: String,
    res: String,
)
    requires
        call_ensures(thread_label, (thread,), res),
        called@ == text::trim(
            match (thread@.title, thread@.preview) {
                (Some(title), _) => title,
                (None, Some(preview)) => preview,
                (None, None) => thread@.id,
            },
        ),
        call_ensures(truncate, (called, 56), short),
        thread@.status matches Some(said) ==> status@ == text::trim(said),
        call_ensures(status_label, (status,), state),
    ensures
        res@ == match thread@.status {
            Some(said) => if text::is_blank(said) {
                short@
            } else {
                state@ + " · "@ + short@
            },
            None => short@,
        },
{
    if let Some(said) = thread@.status {
        text::lemma_trim_blank(said);
    }
}

/// What the bot works on is told by the name of its project and by its thread.
pub proof fn law_context_names_project_and_thread(
    thread_id: Option<&str>,
    project_dir: Option<&str>,
    name: String,
    res: String,
)
    requires
        call_ensures(current_context_label, (thread_id, project_dir), res),
        project_dir matches Some(dir) ==> call_ensures(project_label, (dir,), name),
    ensures
        res@ == match (thread_id, project_dir) {
            (Some(thread), Some(_)) => name@ + " · "@ + thread@,
            (Some(thread), None) => thread@,
            (None, Some(_)) => name@ + " · 新对话"@,
            (None, None) => "未绑定"@,
        },
{
}

/// A new standalone chat is announced exactly where there is neither a thread nor a project.
pub proof fn law_notice_for_a_chat_without_home(
    thread_id: Option<&str>,
    project_dir: Option<&str>,
    res: Option<&'static str>,
)
    requires
        call_ensures(new_thread_notice, (thread_id, project_dir), res),
    ensures
        res is Some <==> thread_id is None && project_dir is None,
        res matches Some(said) ==> said@ == "已切换到独立新对话。直接发送消息即可开始。"@,
{
}

/// What is said of a rate limit.
pub open spec fn limit_words(limit: RateLimitSummary) -> Seq<char> {
    "额度："@ + (match limit.bucket {
        Some(bucket) => bucket@,
        None => "额度"@,
    }) + " · "@ + (match limit.plan {
        Some(plan) => plan@,
        None => "未知套餐"@,
    }) + " · "@ + (match limit.used_percent {
        Some(percent) => text::signed_decimal(percent as int) + "%"@,
        None => "未知"@,
    })
}

/// What is said of the context window.
pub open spec fn usage_words(used: ThreadTokenUsageSummary) -> Seq<char> {
    "上下文："@ + text::signed_decimal(used.used_tokens as int) + (match used.context_window {
        Some(window) => if window > 0 {
            "/"@ + text::signed_decimal(window as int)
        } else {
            seq![]
        },
        None => seq![],
    }) + (match used.used_percent {
        Some(percent) => " · "@ + text::signed_decimal(percent as int) + "%"@,
        None => seq![],
    })
}

/// The line on the context window is what is said of it.
proof fn lemma_usage_words(used: ThreadTokenUsageSummary)
    ensures
        context_line(used@) == usage_words(used),
{
    assert(context_line(used@) =~= usage_words(used));
}

/// The status page tells whether the bot runs, what it works on and the status of its thread, each
/// on its line, then the rate limit and the context window, where they are known.
pub proof fn law_status_page_line_by_line(
    view: &RuntimeStatusView,
    status: &str,
    state: String,
    res: String,
)
    requires
        call_ensures(format_runtime_status, (view,), res),
        view.thread_status matches Some(said) ==> status@ == said@,
        call_ensures(status_label, (status,), state),
    ensures
        ({
            let running = if view.running {
                "运行中"@
            } else {
                "已停止"@
            };
            let thread = if view.thread_status is Some {
                state@
            } else {
                "未知"@
            };
            let first = "状态："@ + running + "\n"@ + ("当前对话："@ + view.current_context@)
                + "\n"@ + ("当前线程："@ + thread);
            res@ == match (view.usage, view.token_usage) {
                (None, None) => first,
                (Some(limit), None) => first + "\n"@ + limit_words(limit),
                (None, Some(used)) => first + "\n"@ + usage_words(used),
                (Some(limit), Some(used)) => first + "\n"@ + limit_words(limit) + "\n"@
                    + usage_words(used),
            }
        }),
{
    if let Some(used) = view.token_usage {
        lemma_usage_words(used);
    }
}

/// Whether a message is a command: a slash and its name, alone, before white space, or before the
/// name of a bot.
pub open spec fn is_command(value: Seq<char>, name: Seq<char>) -> bool {
    let n = name.len() as int;
    &&& value.len() > n
    &&& value[0] == '/'
    &&& value.subrange(1, n + 1) == name
    &&& value.len() == n + 1 || text::is_space(value[n + 1]) || value[n + 1] == '@'
}

/// The name of a command ends where white space or the name of a bot begins.
proof fn lemma_name_ends(name: Seq<char>, rest: Seq<char>)
    requires
        forall|i: int| 0 <= i < name.len() ==> !text::is_space(#[trigger] name[i]) && name[i] != '@',
        rest.len() == 0 || text::is_space(rest[0]) || rest[0] == '@',
    ensures
        text::before_char(text::leading_word(name + rest), '@') == name,
    decreases name.len(),
{
    let whole = name + rest;
    if name.len() == 0 {
        assert(whole =~= rest);
        assert(text::before_char(text::leading_word(rest), '@') =~= name);
    } else {
        let left = name.skip(1);
        assert forall|i: int| 0 <= i < left.len() implies !text::is_space(#[trigger] left[i])
            && left[i] != '@' by {
            assert(left[i] == name[i + 1]);
        }
        lemma_name_ends(left, rest);
        assert(whole.skip(1) =~= left + rest);
        let word = text::leading_word(whole);
        assert(word == seq![whole[0]] + text::leading_word(left + rest));
        assert(word.skip(1) =~= text::leading_word(left + rest));
        assert(text::before_char(word, '@') =~= name);
    }
}

/// A message that is a command begins with that command.
pub proof fn lemma_command(value: Seq<char>, name: Seq<char>)
    requires
        is_command(value, name),
        name.len() > 0,
        forall|i: int| 0 <= i < name.len() ==> !text::is_space(#[trigger] name[i]) && name[i] != '@',
    ensures
        command_of(value) == Some(name),
{
    let n = name.len() as int;
    let rest = value.skip(n + 1);
    lemma_name_ends(name, rest);
    assert(value.skip(1) =~= name + rest);
    assert((name + rest)[0] == name[0]);
}

/// The command of a message is its name, up to white space or the name of a bot; what begins with
/// no slash is no command.
pub proof fn law_command_is_its_name(value: &str, name: Seq<char>, res: Option<String>)
    requires
        call_ensures(slash_command, (value,), res),
        name.len() > 0,
        forall|i: int| 0 <= i < name.len() ==> !text::is_space(#[trigger] name[i]) && name[i] != '@',
    ensures
        is_command(value@, name) ==> text::opt_text(res) == Some(name),
        value@.len() == 0 || value@[0] != '/' ==> res is None,
{
    if is_command(value@, name) {
        lemma_command(value@, name);
    }
}

/// The names of the commands that are known.
proof fn lemma_command_names(value: Seq<char>)
    ensures
        is_command(value, "start"@) ==> command_of(value) == Some("start"@),
        is_command(value, "new"@) ==> command_of(value) == Some("new"@),
        is_command(value, "projects"@) ==> command_of(value) == Some("projects"@),
        is_command(value, "sessions"@) ==> command_of(value) == Some("sessions"@),
        is_command(value, "status"@) ==> command_of(value) == Some("status"@),
{
    reveal_strlit("start");
    reveal_strlit("new");
    reveal_strlit("projects");
    reveal_strlit("sessions");
    reveal_strlit("status");
    assert("start"@.len() == 5);
    assert("new"@.len() == 3);
    assert("projects"@.len() == 8);
    assert("sessions"@.len() == 8);
    assert("status"@.len() == 6);
    assert("projects"@[0] == 'p');
    assert("sessions"@[0] == 's');
    if is_command(value, "start"@) {
        lemma_command(value, "start"@);
    }
    if is_command(value, "new"@) {
        lemma_command(value, "new"@);
    }
    if is_command(value, "projects"@) {
        lemma_command(value, "projects"@);
    }
    if is_command(value, "sessions"@) {
        lemma_command(value, "sessions"@);
    }
    if is_command(value, "status"@) {
        lemma_command(value, "status"@);
    }
}

/// What a message asks of the bot.
pub proof fn lemma_asked(value: Seq<char>)
    ensures
        is_command(value, "start"@) || value == "菜单"@ ==> action_for(value) == Some(MenuAction::Menu),
        is_command(value, "new"@) || value == "新对话"@ ==> action_for(value) == Some(MenuAction::NewThread),
        is_command(value, "projects"@) || value == "项目"@ ==> action_for(value) == Some(MenuAction::Projects),
        is_command(value, "sessions"@) || value == "对话"@ ==> action_for(value) == Some(MenuAction::Sessions),
        is_command(value, "status"@) || value == "状态"@ ==> action_for(value) == Some(MenuAction::Status),
        value == "停止"@ ==> action_for(value) == Some(MenuAction::Stop),
        value.len() > 1 && value[0] == '/' && !text::is_space(value[1]) && value[1] != '@'
            ==> action_for(value) is Some,
        value.len() == 0 || value[0] != '/' ==> (action_for(value) is Some <==> {
            ||| value == "菜单"@
            ||| value == "新对话"@
            ||| value == "项目"@
            ||| value == "对话"@
            ||| value == "状态"@
            ||| value == "停止"@
        }),
{
    lemma_command_names(value);
    reveal_strlit("start");
    reveal_strlit("new");
    reveal_strlit("projects");
    reveal_strlit("sessions");
    reveal_strlit("status");
    assert("start"@.len() == 5);
    assert("new"@.len() == 3);
    assert("projects"@.len() == 8);
    assert("sessions"@.len() == 8);
    assert("status"@.len() == 6);
    assert("projects"@[0] == 'p');
    assert("sessions"@[0] == 's');
    reveal_strlit("菜单");
    reveal_strlit("新对话");
    reveal_strlit("项目");
    reveal_strlit("对话");
    reveal_strlit("状态");
    reveal_strlit("停止");
    assert("菜单"@.len() == 2);
    assert("新对话"@.len() == 3);
    assert("项目"@.len() == 2);
    assert("对话"@.len() == 2);
    assert("状态"@.len() == 2);
    assert("停止"@.len() == 2);
    assert("菜单"@[0] == '菜');
    assert("项目"@[0] == '项');
    assert("对话"@[0] == '对');
    assert("状态"@[0] == '状');
    assert("停止"@[0] == '停');
    assert("新对话"@[0] == '新');
    if value.len() > 1 && value[0] == '/' && !text::is_space(value[1]) && value[1] != '@' {
        let said = value.skip(1);
        assert(said[0] == value[1]);
        let word = text::leading_word(said);
        assert(word[0] == said[0]);
        assert(text::before_char(word, '@').len() > 0);
    }
}

/// What a message asks of the bot: each command and each word of the menu asks what it says, any
/// other command is not supported, and any other message asks nothing.
pub proof fn law_message_asks_what_it_says(value: &str, res: Option<MenuAction>)
    requires
        call_ensures(menu_action, (value,), res),
    ensures
        is_command(value@, "start"@) || value@ == "菜单"@ ==> res == Some(MenuAction::Menu),
        is_command(value@, "new"@) || value@ == "新对话"@ ==> res == Some(MenuAction::NewThread),
        is_command(value@, "projects"@) || value@ == "项目"@ ==> res == Some(MenuAction::Projects),
        is_command(value@, "sessions"@) || value@ == "对话"@ ==> res == Some(MenuAction::Sessions),
        is_command(value@, "status"@) || value@ == "状态"@ ==> res == Some(MenuAction::Status),
        value@ == "停止"@ ==> res == Some(MenuAction::Stop),
        value@.len() > 1 && value@[0] == '/' && !text::is_space(value@[1]) && value@[1] != '@'
            ==> res is Some,
        value@.len() == 0 || value@[0] != '/' ==> (res is Some <==> {
            ||| value@ == "菜单"@
            ||| value@ == "新对话"@
            ||| value@ == "项目"@
            ||| value@ == "对话"@
            ||| value@ == "状态"@
            ||| value@ == "停止"@
        }),
{
    lemma_asked(value@);
}

/// A command that is none of those known is not supported.
pub proof fn law_other_commands_are_not_supported(
    value: &str,
    name: Seq<char>,
    res: Option<MenuAction>,
)
    requires
        call_ensures(menu_action, (value,), res),
        name.len() > 0,
        forall|i: int| 0 <= i < name.len() ==> !text::is_space(#[trigger] name[i]) && name[i] != '@',
        is_command(value@, name),
        name != "start"@,
        name != "new"@,
        name != "projects"@,
        name != "sessions"@,
        name != "status"@,
    ensures
        res == Some(MenuAction::UnsupportedCommand),
{
    lemma_command(value@, name);
}

/// Exactly the commands that are known are announced, in order, each with what it is for.
pub proof fn law_known_commands_are_announced(res: Json)
    requires
        call_ensures(bot_commands, (), res),
    ensures
        res@.get("commands"@) matches Some(JsonView::Array(commands)) && {
            &&& commands.len() == 5
            &&& commands[0].get("command"@) == Some(JsonView::Str("start"@))
            &&& commands[0].get("description"@) == Some(JsonView::Str("打开菜单"@))
            &&& commands[1].get("command"@) == Some(JsonView::Str("new"@))
            &&& commands[1].get("description"@) == Some(JsonView::Str("开启独立新对话"@))
            &&& commands[2].get("command"@) == Some(JsonView::Str("projects"@))
            &&& commands[2].get("description"@) == Some(JsonView::Str("列出项目"@))
            &&& commands[3].get("command"@) == Some(JsonView::Str("sessions"@))
            &&& commands[3].get("description"@) == Some(JsonView::Str("列出独立对话"@))
            &&& commands[4].get("command"@) == Some(JsonView::Str("status"@))
            &&& commands[4].get("description"@) == Some(JsonView::Str("查看状态"@))
        },
        json::has_only(res@, set!["commands"@]),
{
    reveal_strlit("command");
    reveal_strlit("description");
    assert("command"@.len() == 7);
    assert("description"@.len() == 11);
}

} // verus!
