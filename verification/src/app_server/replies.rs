//! What the app-server answers: threads, turns and their status.
use vstd::prelude::*;

use crate::app_server::requests;
use crate::app_server::requests::RequestIds;
use crate::json;
use crate::json::{Json, JsonView};
use crate::text;
use crate::wire;
use crate::workdir;

verus! {

/// A thread as it is listed.
#[derive(Debug, Clone, PartialEq, Eq)]
pub struct AppServerThread {
    pub id: String,
    pub title: Option<String>,
    pub cwd: Option<String>,
    pub preview: Option<String>,
    pub rollout_path: Option<String>,
    pub updated_at: Option<i64>,
    pub status: Option<String>,
}

/// What a listed thread says.
#[verifier::ext_equal]
pub struct ThreadModel {
    pub id: Seq<char>,
    pub title: Option<Seq<char>>,
    pub cwd: Option<Seq<char>>,
    pub preview: Option<Seq<char>>,
    pub rollout_path: Option<Seq<char>>,
    pub updated_at: Option<i64>,
    pub status: Option<Seq<char>>,
}

impl View for AppServerThread {
    type V = ThreadModel;

    open spec fn view(&self) -> ThreadModel {
        ThreadModel {
            id: self.id@,
            title: text::opt_text(self.title),
            cwd: text::opt_text(self.cwd),
            preview: text::opt_text(self.preview),
            rollout_path: text::opt_text(self.rollout_path),
            updated_at: self.updated_at,
            status: text::opt_text(self.status),
        }
    }
}

impl AppServerThread {
    /// A copy of the thread.
    pub fn copy(&self) -> (res: Self)
        ensures
            res@ == self@,
    {
        AppServerThread {
            id: self.id.clone(),
            title: text::copy_opt(&self.title),
            cwd: text::copy_opt(&self.cwd),
            preview: text::copy_opt(&self.preview),
            rollout_path: text::copy_opt(&self.rollout_path),
            updated_at: self.updated_at,
            status: text::copy_opt(&self.status),
        }
    }
}

/// The views of a list of threads.
pub open spec fn thread_views(threads: Seq<AppServerThread>) -> Seq<ThreadModel> {
    threads.map_values(|thread: AppServerThread| thread@)
}

/// The view of an outcome that is a list of threads or a message.
pub open spec fn result_threads(res: Result<Vec<AppServerThread>, String>) -> Result<
    Seq<ThreadModel>,
    Seq<char>,
> {
    match res {
        Ok(threads) => Ok(thread_views(threads@)),
        Err(message) => Err(message@),
    }
}

/// A thread that was read.
#[derive(Debug, Clone)]
pub struct AppServerThreadRead {
    pub thread: Json,
}

// ---------------------------------------------------------------------------
// Status
// ---------------------------------------------------------------------------

/// `s` trimmed, where anything is left of it.
pub open spec fn trimmed_text(s: Option<Seq<char>>) -> Option<Seq<char>> {
    match s {
        Some(s) => if text::trim(s).len() > 0 {
            Some(text::trim(s))
        } else {
            None
        },
        None => None,
    }
}

/// `s` trimmed, where anything is left of it.
pub fn trimmed_or_none(s: Option<&str>) -> (res: Option<&str>)
    ensures
        text::opt_str(res) == trimmed_text(text::opt_str(s)),
{
    match s {
        Some(s) => {
            let s = text::trimmed(s);
            if s.is_empty() {
                None
            } else {
                Some(s)
            }
        },
        None => None,
    }
}

/// The flags in a list: its strings, trimmed, without those that are blank.
pub open spec fn flag_texts(items: Seq<JsonView>) -> Seq<Seq<char>>
    decreases items.len(),
{
    if items.len() == 0 {
        seq![]
    } else {
        let before = flag_texts(items.drop_last());
        match trimmed_text(items.last().as_str()) {
            Some(flag) => before.push(flag),
            None => before,
        }
    }
}

/// The status that a value tells: a string, or an object with a type and flags.
pub open spec fn status_text(value: JsonView) -> Option<Seq<char>> {
    match value {
        JsonView::Str(s) => trimmed_text(Some(s)),
        _ => match trimmed_text(json::text_at(value, "type"@)) {
            Some(kind) => {
                let flags = match value.get_either("activeFlags"@, "active_flags"@) {
                    Some(JsonView::Array(items)) => flag_texts(items),
                    _ => seq![],
                };
                if flags.len() == 0 {
                    Some(kind)
                } else {
                    Some(kind + ":"@ + text::join(flags, ","@))
                }
            },
            None => None,
        },
    }
}

/// The flags in a list.
fn flags_in(items: &Vec<Json>) -> (res: Vec<String>)
    ensures
        text::texts(res@) == flag_texts(json::array_view(items@)),
{
    let ghost views = json::array_view(items@);
    let mut res: Vec<String> = Vec::new();
    let mut i: usize = 0;
    assert(views.take(0) =~= Seq::<JsonView>::empty());
    assert(text::texts(res@) =~= Seq::<Seq<char>>::empty());
    while i < items.len()
        invariant
            i <= items@.len(),
            views == json::array_view(items@),
            text::texts(res@) == flag_texts(views.take(i as int)),
        decreases items.len() - i,
    {
        proof {
            assert(views.take(i + 1).drop_last() =~= views.take(i as int));
            assert(views.take(i + 1).last() == items@[i as int]@);
        }
        if let Some(flag) = trimmed_or_none(items[i].as_str()) {
            let ghost before = res@;
            res.push(flag.to_owned());
            assert(text::texts(res@) =~= text::texts(before).push(flag@));
        }
        i += 1;
    }
    assert(views.take(views.len() as int) =~= views);
    res
}

/// The status that a value tells.
pub fn status_value_to_string(value: &Json) -> (res: Option<String>)
    ensures
        text::opt_text(res) == status_text(value@),
{
    if let Some(status) = value.as_str() {
        return match trimmed_or_none(Some(status)) {
            Some(status) => Some(status.to_owned()),
            None => None,
        };
    }
    let kind = match trimmed_or_none(json::str_in(value.get("type"))) {
        Some(kind) => kind,
        None => {
            return None;
        },
    };
    let flags: Vec<String> = match value.get_either("activeFlags", "active_flags") {
        Some(found) => match found.as_array() {
            Some(items) => flags_in(items),
            None => Vec::new(),
        },
        None => Vec::new(),
    };
    assert(text::texts(flags@).len() == flags@.len());
    if flags.len() == 0 {
        Some(kind.to_owned())
    } else {
        Some(text::cat3(kind, ":", text::joined(&flags, ",").as_str()))
    }
}

/// The status of the thread in a reply to `thread/read`; a reply may be the thread itself.
pub open spec fn live_status(result: JsonView) -> Option<Seq<char>> {
    let thread = match result.get("thread"@) {
        Some(thread) => thread,
        None => result,
    };
    match thread.get("status"@) {
        Some(status) => status_text(status),
        None => None,
    }
}

/// The status of the thread in a reply to `thread/read`.
pub fn thread_read_status(result: &Json) -> (res: Option<String>)
    ensures
        text::opt_text(res) == live_status(result@),
{
    let thread = match result.get("thread") {
        Some(thread) => thread,
        None => result,
    };
    match thread.get("status") {
        Some(status) => status_value_to_string(status),
        None => None,
    }
}

/// The status in a reply to `thread/read`, or what is reported where there is none.
pub fn thread_live_status(result: &Json) -> (res: Result<String, String>)
    ensures
        text::result_text(res) == match live_status(result@) {
            Some(status) => Ok(status),
            None => Err("thread/read 响应缺少 status："@ + wire::displayed_json(result@)),
        },
{
    match thread_read_status(result) {
        Some(status) => Ok(status),
        None => Err(text::cat("thread/read 响应缺少 status：", wire::json_text(result).as_str())),
    }
}

/// Whether a thread with this status is at work.
pub open spec fn is_active(status: Option<Seq<char>>) -> bool {
    match status {
        Some(status) => {
            let status = text::trim(status);
            ||| status == "running"@
            ||| status == "in_progress"@
            ||| status == "inProgress"@
            ||| status == "active"@
            ||| text::has_prefix(status, "active:"@)
            ||| status == "queued"@
        },
        None => false,
    }
}

/// Tells whether a thread with this status is at work.
pub fn thread_status_is_active(status: Option<&str>) -> (res: bool)
    ensures
        res == is_active(text::opt_str(status)),
{
    match status {
        Some(status) => {
            let status = text::trimmed(status);
            text::eq(status, "running") || text::eq(status, "in_progress") || text::eq(
                status,
                "inProgress",
            ) || text::eq(status, "active") || text::begins_with(status, "active:") || text::eq(
                status,
                "queued",
            )
        },
        None => false,
    }
}

// ---------------------------------------------------------------------------
// Listed threads
// ---------------------------------------------------------------------------

/// A text field.
pub open spec fn text_field(value: JsonView) -> Result<Seq<char>, Seq<char>> {
    match value {
        JsonView::Str(s) => Ok(s),
        _ => Err(wire::invalid_type_message(value, "a string"@)),
    }
}

/// A text field that may be missing or null.
pub open spec fn optional_text_field(value: Option<JsonView>) -> Result<
    Option<Seq<char>>,
    Seq<char>,
> {
    match value {
        None => Ok(None),
        Some(JsonView::Null) => Ok(None),
        Some(value) => match text_field(value) {
            Ok(s) => Ok(Some(s)),
            Err(message) => Err(message),
        },
    }
}

/// An integer field that may be missing or null.
pub open spec fn optional_i64_field(value: Option<JsonView>) -> Result<Option<i64>, Seq<char>> {
    match value {
        None => Ok(None),
        Some(JsonView::Null) => Ok(None),
        Some(value) => match value.as_i64() {
            Some(n) => Ok(Some(n)),
            None => match value {
                JsonView::Unsigned(n) => Err(
                    "invalid value: integer `"@ + text::decimal(n as nat) + "`, expected i64"@,
                ),
                _ => Err(wire::invalid_type_message(value, "i64"@)),
            },
        },
    }
}

/// A status field that may be missing.
pub open spec fn status_field(value: Option<JsonView>) -> Option<Seq<char>> {
    match value {
        Some(value) => status_text(value),
        None => None,
    }
}

/// Reads a text field.
fn read_text_field(value: &Json) -> (res: Result<String, String>)
    ensures
        text::result_text(res) == text_field(value@),
{
    match value.as_str() {
        Some(s) => Ok(s.to_owned()),
        None => Err(wire::invalid_type_text(value, "a string")),
    }
}

/// Reads a text field that may be missing or null.
fn read_optional_text(value: Option<&Json>) -> (res: Result<Option<String>, String>)
    ensures
        workdir::result_opt_text(res) == optional_text_field(json::opt_json(value)),
{
    match value {
        None => Ok(None),
        Some(Json::Null) => Ok(None),
        Some(value) => match read_text_field(value) {
            Ok(s) => Ok(Some(s)),
            Err(message) => Err(message),
        },
    }
}

/// The view of an outcome that is an optional integer or a message.
pub open spec fn result_opt_i64(res: Result<Option<i64>, String>) -> Result<Option<i64>, Seq<char>> {
    match res {
        Ok(n) => Ok(n),
        Err(message) => Err(message@),
    }
}

/// Reads an integer field that may be missing or null.
fn read_optional_i64(value: Option<&Json>) -> (res: Result<Option<i64>, String>)
    ensures
        result_opt_i64(res) == optional_i64_field(json::opt_json(value)),
{
    match value {
        None => Ok(None),
        Some(Json::Null) => Ok(None),
        Some(value) => match value.as_i64() {
            Some(n) => Ok(Some(n)),
            None => match value.as_u64() {
                Some(n) => Err(
                    text::cat3(
                        "invalid value: integer `",
                        text::u64_text(n).as_str(),
                        "`, expected i64",
                    ),
                ),
                None => Err(wire::invalid_type_text(value, "i64")),
            },
        },
    }
}

/// Reads a status field that may be missing.
fn read_status(value: Option<&Json>) -> (res: Option<String>)
    ensures
        text::opt_text(res) == status_field(json::opt_json(value)),
{
    match value {
        Some(value) => status_value_to_string(value),
        None => None,
    }
}

/// A text field that may be missing, but not null.
pub open spec fn present_text_field(value: Option<JsonView>) -> Result<
    Option<Seq<char>>,
    Seq<char>,
> {
    match value {
        None => Ok(None),
        Some(value) => match text_field(value) {
            Ok(s) => Ok(Some(s)),
            Err(message) => Err(message),
        },
    }
}

/// A listed thread in the form of an object. Fields are read in the order of their names; the
/// first that does not fit is reported, and a missing id after all of them.
pub open spec fn thread_of_object(value: JsonView) -> Result<ThreadModel, Seq<char>> {
    match optional_text_field(value.get("cwd"@)) {
        Err(message) => Err(message),
        Ok(cwd) => match present_text_field(value.get("id"@)) {
            Err(message) => Err(message),
            Ok(id) => match optional_text_field(value.get("path"@)) {
                Err(message) => Err(message),
                Ok(rollout_path) => match optional_text_field(value.get("preview"@)) {
                    Err(message) => Err(message),
                    Ok(preview) => match optional_text_field(value.get("title"@)) {
                        Err(message) => Err(message),
                        Ok(title) => match optional_i64_field(value.get("updatedAt"@)) {
                            Err(message) => Err(message),
                            Ok(updated_at) => match id {
                                Some(id) => Ok(
                                    ThreadModel {
                                        id,
                                        title,
                                        cwd,
                                        preview,
                                        rollout_path,
                                        updated_at,
                                        status: status_field(value.get("status"@)),
                                    },
                                ),
                                None => Err("missing field `id`"@),
                            },
                        },
                    },
                },
            },
        },
    }
}

/// What is reported of a list of `found` items in place of what was expected.
pub open spec fn invalid_length(found: nat, expected: Seq<char>) -> Seq<char> {
    "invalid length "@ + text::decimal(found) + ", expected "@ + expected
}

/// Item `i` of a list, where there is one.
pub open spec fn item_at(items: Seq<JsonView>, i: int) -> Option<JsonView> {
    if 0 <= i < items.len() {
        Some(items[i])
    } else {
        None
    }
}

/// A listed thread in the form of a list of its fields; only the first has to be there.
pub open spec fn thread_of_items(items: Seq<JsonView>) -> Result<ThreadModel, Seq<char>> {
    if items.len() == 0 {
        Err(invalid_length(0, "struct AppServerThread with 7 elements"@))
    } else {
        match text_field(items[0]) {
            Err(message) => Err(message),
            Ok(id) => match optional_text_field(item_at(items, 1)) {
                Err(message) => Err(message),
                Ok(title) => match optional_text_field(item_at(items, 2)) {
                    Err(message) => Err(message),
                    Ok(cwd) => match optional_text_field(item_at(items, 3)) {
                        Err(message) => Err(message),
                        Ok(preview) => match optional_text_field(item_at(items, 4)) {
                            Err(message) => Err(message),
                            Ok(rollout_path) => match optional_i64_field(item_at(items, 5)) {
                                Err(message) => Err(message),
                                Ok(updated_at) => if items.len() > 7 {
                                    Err(invalid_length(items.len(), "fewer elements in array"@))
                                } else {
                                    Ok(
                                        ThreadModel {
                                            id,
                                            title,
                                            cwd,
                                            preview,
                                            rollout_path,
                                            updated_at,
                                            status: status_field(item_at(items, 6)),
                                        },
                                    )
                                },
                            },
                        },
                    },
                },
            },
        }
    }
}

/// A listed thread.
pub open spec fn thread_of(value: JsonView) -> Result<ThreadModel, Seq<char>> {
    match value {
        JsonView::Object(_) => thread_of_object(value),
        JsonView::Array(items) => thread_of_items(items),
        _ => Err(wire::invalid_type_message(value, "struct AppServerThread"@)),
    }
}

/// The listed threads, or what is reported of the first one that does not fit.
pub open spec fn threads_of(items: Seq<JsonView>) -> Result<Seq<ThreadModel>, Seq<char>>
    decreases items.len(),
{
    if items.len() == 0 {
        Ok(seq![])
    } else {
        match threads_of(items.drop_last()) {
            Err(message) => Err(message),
            Ok(threads) => match thread_of(items.last()) {
                Err(message) => Err(message),
                Ok(thread) => Ok(threads.push(thread)),
            },
        }
    }
}

/// The threads in a list.
pub open spec fn thread_list(value: JsonView) -> Result<Seq<ThreadModel>, Seq<char>> {
    let threads = match value {
        JsonView::Array(items) => threads_of(items),
        _ => Err(wire::invalid_type_message(value, "a sequence"@)),
    };
    match threads {
        Ok(threads) => Ok(threads),
        Err(message) => Err("解析 thread/list 结果失败："@ + message),
    }
}

/// The member of a reply that holds its list.
pub open spec fn listed(result: JsonView, name: Seq<char>) -> Option<JsonView> {
    if result.get(name) is Some {
        result.get(name)
    } else {
        result.get_either("items"@, "data"@)
    }
}

/// The threads in a reply to `thread/list`.
pub open spec fn thread_list_reply(result: JsonView) -> Result<Seq<ThreadModel>, Seq<char>> {
    match listed(result, "threads"@) {
        Some(items) => thread_list(items),
        None => if result is Array {
            thread_list(result)
        } else {
            Err("未知 thread/list 响应结构："@ + wire::displayed_json(result))
        },
    }
}

/// The view of an outcome that is a thread or a message.
pub open spec fn result_thread(res: Result<AppServerThread, String>) -> Result<
    ThreadModel,
    Seq<char>,
> {
    match res {
        Ok(thread) => Ok(thread@),
        Err(message) => Err(message@),
    }
}

/// Reads a listed thread in the form of an object.
fn read_thread_object(value: &Json) -> (res: Result<AppServerThread, String>)
    ensures
        result_thread(res) == thread_of_object(value@),
{
    let cwd = match read_optional_text(value.get("cwd")) {
        Ok(cwd) => cwd,
        Err(message) => {
            return Err(message);
        },
    };
    let id = match value.get("id") {
        Some(id) => match read_text_field(id) {
            Ok(id) => Some(id),
            Err(message) => {
                return Err(message);
            },
        },
        None => None,
    };
    let rollout_path = match read_optional_text(value.get("path")) {
        Ok(path) => path,
        Err(message) => {
            return Err(message);
        },
    };
    let preview = match read_optional_text(value.get("preview")) {
        Ok(preview) => preview,
        Err(message) => {
            return Err(message);
        },
    };
    let title = match read_optional_text(value.get("title")) {
        Ok(title) => title,
        Err(message) => {
            return Err(message);
        },
    };
    let updated_at = match read_optional_i64(value.get("updatedAt")) {
        Ok(updated_at) => updated_at,
        Err(message) => {
            return Err(message);
        },
    };
    let status = read_status(value.get("status"));
    match id {
        Some(id) => Ok(
            AppServerThread { id, title, cwd, preview, rollout_path, updated_at, status },
        ),
        None => Err("missing field `id`".to_owned()),
    }
}

/// What is reported of a list of the wrong length.
fn invalid_length_text(found: usize, expected: &str) -> (res: String)
    ensures
        res@ == invalid_length(found as nat, expected@),
{
    let head = text::cat3("invalid length ", text::u64_text(found as u64).as_str(), ", expected ");
    text::cat(head.as_str(), expected)
}

/// Item `i` of a list, where there is one.
fn nth(items: &Vec<Json>, i: usize) -> (res: Option<&Json>)
    ensures
        json::opt_json(res) == item_at(json::array_view(items@), i as int),
{
    if i < items.len() {
        Some(&items[i])
    } else {
        None
    }
}

/// Reads a listed thread in the form of a list of its fields.
fn read_thread_items(items: &Vec<Json>) -> (res: Result<AppServerThread, String>)
    ensures
        result_thread(res) == thread_of_items(json::array_view(items@)),
{
    if items.len() == 0 {
        return Err(invalid_length_text(0, "struct AppServerThread with 7 elements"));
    }
    let id = match read_text_field(&items[0]) {
        Ok(id) => id,
        Err(message) => {
            return Err(message);
        },
    };
    let title = match read_optional_text(nth(items, 1)) {
        Ok(title) => title,
        Err(message) => {
            return Err(message);
        },
    };
    let cwd = match read_optional_text(nth(items, 2)) {
        Ok(cwd) => cwd,
        Err(message) => {
            return Err(message);
        },
    };
    let preview = match read_optional_text(nth(items, 3)) {
        Ok(preview) => preview,
        Err(message) => {
            return Err(message);
        },
    };
    let rollout_path = match read_optional_text(nth(items, 4)) {
        Ok(path) => path,
        Err(message) => {
            return Err(message);
        },
    };
    let updated_at = match read_optional_i64(nth(items, 5)) {
        Ok(updated_at) => updated_at,
        Err(message) => {
            return Err(message);
        },
    };
    let status = read_status(nth(items, 6));
    if items.len() > 7 {
        return Err(invalid_length_text(items.len(), "fewer elements in array"));
    }
    Ok(AppServerThread { id, title, cwd, preview, rollout_path, updated_at, status })
}

/// Reads a listed thread.
fn read_thread(value: &Json) -> (res: Result<AppServerThread, String>)
    ensures
        result_thread(res) == thread_of(value@),
{
    match value {
        Json::Object(_) => read_thread_object(value),
        Json::Array(items) => read_thread_items(items),
        _ => Err(wire::invalid_type_text(value, "struct AppServerThread")),
    }
}

/// The first item that does not fit decides.
proof fn lemma_first_misfit(items: Seq<JsonView>, i: int)
    requires
        0 <= i < items.len(),
        threads_of(items.take(i)) is Ok,
        thread_of(items[i]) is Err,
    ensures
        threads_of(items) == Err::<Seq<ThreadModel>, Seq<char>>(thread_of(items[i])->Err_0),
    decreases items.len() - i,
{
    let upto = items.take(i + 1);
    assert(upto.drop_last() =~= items.take(i));
    assert(threads_of(upto) is Err);
    lemma_misfit_stays(items, i + 1);
}

/// A misfit among the first `n` items is reported for all of them.
proof fn lemma_misfit_stays(items: Seq<JsonView>, n: int)
    requires
        0 <= n <= items.len(),
        threads_of(items.take(n)) is Err,
    ensures
        threads_of(items) == threads_of(items.take(n)),
    decreases items.len() - n,
{
    if n == items.len() {
        assert(items.take(n) =~= items);
    } else {
        assert(items.take(n + 1).drop_last() =~= items.take(n));
        lemma_misfit_stays(items, n + 1);
    }
}

/// Reads the threads in a list.
fn read_thread_list(value: &Json) -> (res: Result<Vec<AppServerThread>, String>)
    ensures
        result_threads(res) == thread_list(value@),
{
    let items = match value.as_array() {
        Some(items) => items,
        None => {
            let message = wire::invalid_type_text(value, "a sequence");
            return Err(text::cat("解析 thread/list 结果失败：", message.as_str()));
        },
    };
    let ghost views = json::array_view(items@);
    let mut threads: Vec<AppServerThread> = Vec::new();
    let mut i: usize = 0;
    assert(views.take(0) =~= Seq::<JsonView>::empty());
    assert(thread_views(threads@) =~= Seq::<ThreadModel>::empty());
    while i < items.len()
        invariant
            i <= items@.len(),
            views == json::array_view(items@),
            value@ == JsonView::Array(views),
            threads_of(views.take(i as int)) == Ok::<Seq<ThreadModel>, Seq<char>>(
                thread_views(threads@),
            ),
        decreases items.len() - i,
    {
        match read_thread(&items[i]) {
            Ok(thread) => {
                let ghost before = threads@;
                threads.push(thread);
                proof {
                    assert(views.take(i + 1).drop_last() =~= views.take(i as int));
                    assert(views.take(i + 1).last() == items@[i as int]@);
                    assert(thread_views(threads@) =~= thread_views(before).push(thread@));
                }
            },
            Err(message) => {
                proof {
                    lemma_first_misfit(views, i as int);
                }
                return Err(text::cat("解析 thread/list 结果失败：", message.as_str()));
            },
        }
        i += 1;
    }
    assert(views.take(views.len() as int) =~= views);
    Ok(threads)
}

/// The member of a reply that holds its list.
fn list_in<'a>(result: &'a Json, name: &str) -> (res: Option<&'a Json>)
    ensures
        json::opt_json(res) == listed(result@, name@),
{
    match result.get(name) {
        Some(found) => Some(found),
        None => result.get_either("items", "data"),
    }
}

/// Reads a reply to `thread/list`.
pub fn parse_thread_list_result(result: Json) -> (res: Result<Vec<AppServerThread>, String>)
    ensures
        result_threads(res) == thread_list_reply(result@),
{
    match list_in(&result, "threads") {
        Some(items) => read_thread_list(items),
        None => if result.is_array() {
            read_thread_list(&result)
        } else {
            Err(text::cat("未知 thread/list 响应结构：", wire::json_text(&result).as_str()))
        },
    }
}

/// Whether `after` is `before` with its working directory replaced by its project directory.
pub open spec fn may_be_normalized(before: ThreadModel, after: ThreadModel, id: u64) -> bool {
    &&& workdir::may_be_project(before.cwd, after.cwd, id)
    &&& after == ThreadModel { cwd: after.cwd, ..before }
}

/// How many ids it takes to tell the project directories of the first `n` threads.
pub open spec fn ids_taken_by(threads: Seq<ThreadModel>, n: nat) -> nat
    decreases n,
{
    if n == 0 {
        0
    } else {
        ids_taken_by(threads, (n - 1) as nat) + workdir::ids_taken(threads[n - 1].cwd)
    }
}

/// The id with which the project directory of thread `i` is told, where ids start at `id`.
pub open spec fn id_at(id: u64, threads: Seq<ThreadModel>, i: int) -> u64 {
    requests::later_id(id, ids_taken_by(threads, i as nat))
}

/// The id for the next thread is the one that telling the project directory of a thread leaves.
pub proof fn lemma_next_id(id: u64, threads: Seq<ThreadModel>, i: int)
    requires
        0 <= i < threads.len(),
    ensures
        id_at(id, threads, 0) == id,
        requests::later_id(id_at(id, threads, i), workdir::ids_taken(threads[i].cwd)) == id_at(
            id,
            threads,
            i + 1,
        ),
{
    requests::law_ids_in_order(id, 0);
    requests::law_ids_in_order(id, ids_taken_by(threads, i as nat));
    requests::law_ids_in_order(id_at(id, threads, i), 0);
}

/// Whether `after` are the threads `before`, one by one and in the same order, each with its
/// working directory replaced by its project directory, where ids start at `id`.
pub open spec fn are_normalized(
    before: Seq<ThreadModel>,
    after: Seq<ThreadModel>,
    id: u64,
) -> bool {
    &&& after.len() == before.len()
    &&& forall|i: int|
        0 <= i < before.len() ==> may_be_normalized(
            #[trigger] before[i],
            after[i],
            id_at(id, before, i),
        )
}

/// Replaces the working directory of each thread by its project directory.
pub fn normalize_thread_list(ids: &mut RequestIds, threads: Vec<AppServerThread>) -> (res: Vec<
    AppServerThread,
>)
    ensures
        are_normalized(thread_views(threads@), thread_views(res@), old(ids)@),
        final(ids)@ == id_at(old(ids)@, thread_views(threads@), threads@.len() as int),
{
    let ghost views = thread_views(threads@);
    let mut res: Vec<AppServerThread> = Vec::new();
    let mut i: usize = 0;
    proof {
        requests::law_ids_in_order(ids@, 0);
    }
    while i < threads.len()
        invariant
            i <= threads@.len(),
            res@.len() == i,
            views == thread_views(threads@),
            ids@ == id_at(old(ids)@, views, i as int),
            forall|k: int|
                0 <= k < i ==> may_be_normalized(
                    (#[trigger] threads@[k])@,
                    res@[k]@,
                    id_at(old(ids)@, views, k),
                ),
        decreases threads.len() - i,
    {
        let ghost step = ids@;
        let thread = &threads[i];
        let cwd = workdir::normalize_thread_cwd(ids, text::copy_opt(&thread.cwd));
        let after = AppServerThread {
            id: thread.id.clone(),
            title: text::copy_opt(&thread.title),
            cwd,
            preview: text::copy_opt(&thread.preview),
            rollout_path: text::copy_opt(&thread.rollout_path),
            updated_at: thread.updated_at,
            status: text::copy_opt(&thread.status),
        };
        assert(may_be_normalized(threads@[i as int]@, after@, step));
        proof {
            assert(views[i as int] == threads@[i as int]@);
            lemma_next_id(old(ids)@, views, i as int);
        }
        res.push(after);
        i += 1;
    }
    assert forall|k: int| 0 <= k < views.len() implies may_be_normalized(
        #[trigger] views[k],
        thread_views(res@)[k],
        id_at(old(ids)@, views, k),
    ) by {
        assert(views[k] == threads@[k]@);
    }
    res
}

// ---------------------------------------------------------------------------
// New threads, read threads and turns
// ---------------------------------------------------------------------------

/// The id of the thread in a reply, where it is a string.
pub open spec fn thread_id_in(result: JsonView) -> Option<Seq<char>> {
    json::text_in(json::member(result.get("thread"@), "id"@))
}

/// The id of a new thread in a reply to `thread/start`.
pub open spec fn thread_start_reply(result: JsonView) -> Result<Seq<char>, Seq<char>> {
    if workdir::given(thread_id_in(result)) {
        Ok(thread_id_in(result)->0)
    } else {
        Err("thread/start 响应缺少 thread.id："@ + wire::displayed_json(result))
    }
}

/// Reads a reply to `thread/start`.
pub fn parse_thread_start_result(result: Json) -> (res: Result<String, String>)
    ensures
        text::result_text(res) == thread_start_reply(result@),
{
    if let Some(id) = json::str_in(json::member_in(result.get("thread"), "id")) {
        if !text::trimmed(id).is_empty() {
            return Ok(id.to_owned());
        }
    }
    Err(text::cat("thread/start 响应缺少 thread.id：", wire::json_text(&result).as_str()))
}

/// The view of an outcome that is a list of values or a message.
pub open spec fn result_values(res: Result<Vec<Json>, String>) -> Result<
    Seq<JsonView>,
    Seq<char>,
> {
    match res {
        Ok(values) => Ok(json::array_view(values@)),
        Err(message) => Err(message@),
    }
}

/// The turns in a reply to `thread/turns/list`.
pub open spec fn turns_reply(result: JsonView) -> Result<Seq<JsonView>, Seq<char>> {
    match listed(result, "turns"@) {
        Some(JsonView::Array(turns)) => Ok(turns),
        Some(_) => Err(
            "thread/turns/list 响应 turns 不是数组："@ + wire::displayed_json(result),
        ),
        None => match result {
            JsonView::Array(turns) => Ok(turns),
            _ => Err("未知 thread/turns/list 响应结构："@ + wire::displayed_json(result)),
        },
    }
}

/// A copy of a list of values.
pub fn copy_values(values: &Vec<Json>) -> (res: Vec<Json>)
    ensures
        json::array_view(res@) == json::array_view(values@),
{
    let mut res: Vec<Json> = Vec::new();
    let mut i: usize = 0;
    while i < values.len()
        invariant
            i <= values@.len(),
            res@.len() == i,
            forall|k: int| 0 <= k < i ==> (#[trigger] res@[k])@ == values@[k]@,
        decreases values.len() - i,
    {
        res.push(json::copy_of(&values[i]));
        i += 1;
    }
    assert(json::array_view(res@) =~= json::array_view(values@));
    res
}

/// Reads a reply to `thread/turns/list`.
pub fn parse_thread_turns_list_result(result: Json) -> (res: Result<Vec<Json>, String>)
    ensures
        result_values(res) == turns_reply(result@),
{
    match list_in(&result, "turns") {
        Some(found) => match found.as_array() {
            Some(turns) => Ok(copy_values(turns)),
            None => Err(
                text::cat(
                    "thread/turns/list 响应 turns 不是数组：",
                    wire::json_text(&result).as_str(),
                ),
            ),
        },
        None => match result.as_array() {
            Some(turns) => Ok(copy_values(turns)),
            None => Err(
                text::cat(
                    "未知 thread/turns/list 响应结构：",
                    wire::json_text(&result).as_str(),
                ),
            ),
        },
    }
}

/// The thread in a reply to `thread/read`.
pub open spec fn thread_read_reply(result: JsonView) -> Result<JsonView, Seq<char>> {
    match result.get("thread"@) {
        Some(thread) => Ok(thread),
        None => Err("thread/read 响应缺少 thread："@ + wire::displayed_json(result)),
    }
}

/// Reads a reply to `thread/read`.
pub fn parse_thread_read_result(result: Json) -> (res: Result<AppServerThreadRead, String>)
    ensures
        match res {
            Ok(read) => thread_read_reply(result@) == Ok::<JsonView, Seq<char>>(read.thread@),
            Err(message) => thread_read_reply(result@) == Err::<JsonView, Seq<char>>(message@),
        },
{
    match result.get("thread") {
        Some(thread) => Ok(AppServerThreadRead { thread: json::copy_of(thread) }),
        None => Err(text::cat("thread/read 响应缺少 thread：", wire::json_text(&result).as_str())),
    }
}

/// Whether `error` says that a thread can no longer be loaded again.
pub open spec fn resume_unsupported(error: Seq<char>) -> bool {
    ||| text::has_part(error, "thread resume path is no longer supported"@)
    ||| text::has_part(error, "thread resume history is no longer supported"@)
}

/// Tells whether `error` says that a thread can no longer be loaded again.
pub fn is_unsupported_thread_resume_error(error: &str) -> (res: bool)
    ensures
        res == resume_unsupported(error@),
{
    text::holds_part(error, "thread resume path is no longer supported") || text::holds_part(
        error,
        "thread resume history is no longer supported",
    )
}

/// Whether `error` says that turns cannot be listed.
pub open spec fn turns_list_unsupported(error: Seq<char>) -> bool {
    text::has_part(error, "unknown variant `thread/turns/list`"@)
}

/// Tells whether `error` says that turns cannot be listed.
pub fn is_unsupported_thread_turns_list_error(error: &str) -> (res: bool)
    ensures
        res == turns_list_unsupported(error@),
{
    text::holds_part(error, "unknown variant `thread/turns/list`")
}

/// The latest turns of a thread that was read, at most `limit`, the newest first.
pub open spec fn newest_turns(thread: JsonView, limit: usize) -> Seq<JsonView> {
    match thread.get("turns"@) {
        Some(JsonView::Array(turns)) => {
            let most = requests::limit_or_default(limit);
            let newest = turns.reverse();
            if newest.len() <= most {
                newest
            } else {
                newest.take(most as int)
            }
        },
        _ => seq![],
    }
}

/// Makes of a thread that was read what `thread/turns/list` would have answered.
pub fn thread_read_to_turns_list_result(thread: Json, limit: usize) -> (res: Json)
    ensures
        res@ == JsonView::Object(
            map!["turns"@ => JsonView::Array(newest_turns(thread@, limit))],
        ),
{
    let most = requests::normalize_limit(limit);
    let mut out: Vec<Json> = Vec::new();
    if let Some(found) = thread.get("turns") {
        if let Some(turns) = found.as_array() {
            let ghost views = json::array_view(turns@);
            let mut i: usize = turns.len();
            while i > 0 && out.len() < most
                invariant
                    i <= turns@.len(),
                    out@.len() == turns@.len() - i,
                    out@.len() <= most,
                    views == json::array_view(turns@),
                    forall|k: int|
                        0 <= k < out@.len() ==> (#[trigger] out@[k])@ == views[views.len() - 1 - k],
                decreases i,
            {
                i -= 1;
                out.push(json::copy_of(&turns[i]));
            }
            assert(json::array_view(out@) =~= newest_turns(thread@, limit));
        }
    }
    assert(json::array_view(out@) =~= newest_turns(thread@, limit));
    Json::empty_object().with("turns", Json::Array(out))
}

/// What to do about the outcome of asking for the turns of a thread.
#[derive(Debug)]
pub enum TurnsListStep {
    /// It is the answer.
    Done(Result<Json, String>),
    /// Turns cannot be listed: the thread has to be read, with its turns.
    ReadThread,
}

/// Decides what the outcome of asking for the turns of a thread means.
pub fn after_turns_list(outcome: Result<Json, String>) -> (res: TurnsListStep)
    ensures
        match res {
            TurnsListStep::Done(done) => done == outcome && (outcome matches Err(error)
                ==> !turns_list_unsupported(error@)),
            TurnsListStep::ReadThread => outcome matches Err(error) && turns_list_unsupported(
                error@,
            ),
        },
{
    let unsupported = match &outcome {
        Ok(_) => false,
        Err(error) => is_unsupported_thread_turns_list_error(error.as_str()),
    };
    if unsupported {
        TurnsListStep::ReadThread
    } else {
        TurnsListStep::Done(outcome)
    }
}

// ---------------------------------------------------------------------------
// Laws
// ---------------------------------------------------------------------------

/// Threads after the first ones take their ids after those of the first ones.
proof fn lemma_ids_taken_joined(a: Seq<ThreadModel>, b: Seq<ThreadModel>, n: nat)
    requires
        n <= a.len() + b.len(),
    ensures
        ids_taken_by(a + b, n) == if n <= a.len() {
            ids_taken_by(a, n)
        } else {
            ids_taken_by(a, a.len()) + ids_taken_by(b, (n - a.len()) as nat)
        },
    decreases n,
{
    if n > 0 {
        lemma_ids_taken_joined(a, b, (n - 1) as nat);
        if n <= a.len() {
            assert((a + b)[n - 1] == a[n - 1]);
        } else {
            assert((a + b)[n - 1] == b[n - 1 - a.len()]);
        }
    }
}

/// The ids of joined lists are those of the lists one after the other.
proof fn lemma_id_joined(a: Seq<ThreadModel>, b: Seq<ThreadModel>, id: u64, i: int)
    requires
        0 <= i <= a.len() + b.len(),
    ensures
        i <= a.len() ==> id_at(id, a + b, i) == id_at(id, a, i),
        i >= a.len() ==> id_at(id, a + b, i) == id_at(
            id_at(id, a, a.len() as int),
            b,
            i - a.len(),
        ),
{
    lemma_ids_taken_joined(a, b, i as nat);
    if i >= a.len() {
        requests::lemma_later_still(
            id,
            ids_taken_by(a, a.len()),
            ids_taken_by(b, (i - a.len()) as nat),
        );
    }
}

/// Two lists of threads that are joined become the two lists that they become one after the
/// other, joined.
pub proof fn law_joined_lists_are_normalized_apart(
    a: Seq<ThreadModel>,
    b: Seq<ThreadModel>,
    a_after: Seq<ThreadModel>,
    b_after: Seq<ThreadModel>,
    id: u64,
)
    requires
        a.len() == a_after.len(),
        b.len() == b_after.len(),
    ensures
        are_normalized(a + b, a_after + b_after, id) <==> are_normalized(a, a_after, id)
            && are_normalized(b, b_after, id_at(id, a, a.len() as int)),
        id_at(id, a + b, (a + b).len() as int) == id_at(
            id_at(id, a, a.len() as int),
            b,
            b.len() as int,
        ),
{
    let n = a.len();
    let joined = a + b;
    let after = a_after + b_after;
    let next = id_at(id, a, n as int);
    lemma_id_joined(a, b, id, joined.len() as int);
    if are_normalized(joined, after, id) {
        assert(are_normalized(a, a_after, id)) by {
            assert forall|i: int| 0 <= i < n implies may_be_normalized(
                #[trigger] a[i],
                a_after[i],
                id_at(id, a, i),
            ) by {
                lemma_id_joined(a, b, id, i);
                assert(may_be_normalized(joined[i], after[i], id_at(id, joined, i)));
            }
        }
        assert(are_normalized(b, b_after, next)) by {
            assert forall|i: int| 0 <= i < b.len() implies may_be_normalized(
                #[trigger] b[i],
                b_after[i],
                id_at(next, b, i),
            ) by {
                lemma_id_joined(a, b, id, n + i);
                assert(may_be_normalized(joined[n + i], after[n + i], id_at(id, joined, n + i)));
            }
        }
    }
    if are_normalized(a, a_after, id) && are_normalized(b, b_after, next) {
        assert(are_normalized(joined, after, id)) by {
            assert forall|i: int| 0 <= i < joined.len() implies may_be_normalized(
                #[trigger] joined[i],
                after[i],
                id_at(id, joined, i),
            ) by {
                lemma_id_joined(a, b, id, i);
                if i < n {
                    assert(may_be_normalized(a[i], a_after[i], id_at(id, a, i)));
                } else {
                    assert(may_be_normalized(b[i - n], b_after[i - n], id_at(next, b, i - n)));
                }
            }
        }
    }
}

/// A thread that was read gives the turn list that is read from a list reply: the newest
/// turns first, no more than asked for.
pub proof fn law_read_thread_lists_newest_turns(thread: JsonView, limit: usize)
    ensures
        turns_reply(
            JsonView::Object(map!["turns"@ => JsonView::Array(newest_turns(thread, limit))]),
        ) == Ok::<Seq<JsonView>, Seq<char>>(newest_turns(thread, limit)),
        newest_turns(thread, limit).len() <= requests::limit_or_default(limit),
        thread.get("turns"@) matches Some(JsonView::Array(turns)) ==> forall|i: int|
            0 <= i < newest_turns(thread, limit).len() ==> #[trigger] newest_turns(thread, limit)[i]
                == turns[turns.len() - 1 - i],
{
}

/// What is left of a text that was trimmed neither begins nor ends with white space.
proof fn lemma_trimmed_ends(s: Seq<char>)
    requires
        text::trim(s).len() > 0,
    ensures
        !text::is_space(text::trim(s)[0]),
        !text::is_space(text::trim(s).last()),
{
    text::lemma_trim_start_shape(s);
    text::lemma_trim_end_shape(text::trim_start(s));
}

/// Flags end with no white space.
proof fn lemma_flag_ends(items: Seq<JsonView>)
    ensures
        flag_texts(items).len() > 0 ==> flag_texts(items).last().len() > 0 && !text::is_space(
            flag_texts(items).last().last(),
        ),
    decreases items.len(),
{
    if items.len() > 0 {
        lemma_flag_ends(items.drop_last());
        if let Some(s) = items.last().as_str() {
            if text::trim(s).len() > 0 {
                lemma_trimmed_ends(s);
            }
        }
    }
}

/// A status text is never blank, and where it is told as a text it is read as the status it is.
pub proof fn law_status_text_is_stable(value: JsonView)
    ensures
        status_text(value) matches Some(status) ==> {
            &&& text::trim(status).len() > 0
            &&& status_text(JsonView::Str(status)) == Some(status)
        },
{
    if let Some(status) = status_text(value) {
        if let JsonView::Str(s) = value {
            lemma_trimmed_ends(s);
        } else {
            lemma_trimmed_ends(json::text_at(value, "type"@)->0);
            if let Some(JsonView::Array(items)) = value.get_either(
                "activeFlags"@,
                "active_flags"@,
            ) {
                lemma_flag_ends(items);
                let flags = flag_texts(items);
                if flags.len() > 0 {
                    let joined = text::join(flags, ","@);
                    assert(joined.len() > 0 && joined.last() == flags.last().last());
                    assert(status.last() == joined.last());
                }
            }
        }
        text::lemma_trim_fixed(status);
    }
}

/// A text is trimmed, and is none where it is blank.
pub proof fn law_blank_text_is_none<'a>(s: Option<&'a str>, res: Option<&'a str>)
    requires
        call_ensures(trimmed_or_none, (s,), res),
    ensures
        match s {
            Some(s) => text::opt_str(res) == if text::is_blank(s@) {
                None
            } else {
                Some(text::trim(s@))
            },
            None => res is None,
        },
{
    if let Some(s) = s {
        text::lemma_trim_blank(s@);
    }
}

/// Flags that are all texts and not blank are all kept, trimmed and in order.
proof fn lemma_all_flags(items: Seq<JsonView>, flags: Seq<Seq<char>>)
    requires
        items.len() == flags.len(),
        forall|i: int|
            0 <= i < items.len() ==> #[trigger] items[i] == JsonView::Str(flags[i])
                && !text::is_blank(flags[i]),
    ensures
        flag_texts(items) == flags.map_values(|flag: Seq<char>| text::trim(flag)),
    decreases items.len(),
{
    let trimmed = flags.map_values(|flag: Seq<char>| text::trim(flag));
    if items.len() == 0 {
        assert(flag_texts(items) =~= trimmed);
    } else {
        let n = items.len() - 1;
        let front = items.drop_last();
        assert forall|i: int| 0 <= i < front.len() implies #[trigger] front[i] == JsonView::Str(
            flags.drop_last()[i],
        ) && !text::is_blank(flags.drop_last()[i]) by {
            assert(front[i] == items[i]);
        }
        lemma_all_flags(front, flags.drop_last());
        assert(items[n] == JsonView::Str(flags[n]));
        text::lemma_trim_blank(flags[n]);
        assert(flag_texts(items) =~= trimmed);
    }
}

/// A status that is a text is told trimmed, one that is an object by its type, and by its flags
/// after that, where it has any.
pub proof fn law_status_is_told_with_its_flags(
    value: &Json,
    kind: Seq<char>,
    items: Seq<JsonView>,
    flags: Seq<Seq<char>>,
    res: Option<String>,
)
    requires
        call_ensures(status_value_to_string, (value,), res),
        items.len() == flags.len(),
        forall|i: int|
            0 <= i < items.len() ==> #[trigger] items[i] == JsonView::Str(flags[i])
                && !text::is_blank(flags[i]),
    ensures
        value@ == JsonView::Str(kind) ==> text::opt_text(res) == if text::is_blank(kind) {
            None
        } else {
            Some(text::trim(kind))
        },
        !(value@ is Str) && value@.get("type"@) == Some(JsonView::Str(kind)) && text::is_blank(kind)
            ==> res is None,
        !(value@ is Str) && !(value@.get("type"@) matches Some(JsonView::Str(_))) ==> res is None,
        value@.get("type"@) == Some(JsonView::Str(kind)) && !text::is_blank(kind) && (value@.get(
            "activeFlags"@,
        ) == Some(JsonView::Array(items)) || value@.get("activeFlags"@) is None && value@.get(
            "active_flags"@,
        ) == Some(JsonView::Array(items))) ==> text::opt_text(res) == if flags.len() == 0 {
            Some(text::trim(kind))
        } else {
            Some(
                text::trim(kind) + ":"@ + text::join(
                    flags.map_values(|flag: Seq<char>| text::trim(flag)),
                    ","@,
                ),
            )
        },
        value@.get("type"@) == Some(JsonView::Str(kind)) && !text::is_blank(kind) && value@.get(
            "activeFlags"@,
        ) is None && value@.get("active_flags"@) is None ==> text::opt_text(res) == Some(
            text::trim(kind),
        ),
{
    text::lemma_trim_blank(kind);
    lemma_all_flags(items, flags);
}

/// An item among the flags that is no text, or a blank one, does not matter.
pub proof fn law_blank_flags_do_not_matter(
    a: &Json,
    b: &Json,
    members: Map<Seq<char>, JsonView>,
    items: Seq<JsonView>,
    extra: JsonView,
    a_status: Option<String>,
    b_status: Option<String>,
)
    requires
        call_ensures(status_value_to_string, (a,), a_status),
        call_ensures(status_value_to_string, (b,), b_status),
        a@ == JsonView::Object(members.insert("activeFlags"@, JsonView::Array(items))),
        b@ == JsonView::Object(members.insert("activeFlags"@, JsonView::Array(items.push(extra)))),
        extra matches JsonView::Str(s) ==> text::is_blank(s),
    ensures
        text::opt_text(a_status) == text::opt_text(b_status),
{
    reveal_strlit("type");
    reveal_strlit("activeFlags");
    assert("type"@.len() == 4);
    assert("activeFlags"@.len() == 11);
    assert(items.push(extra).drop_last() =~= items);
    if let JsonView::Str(s) = extra {
        text::lemma_trim_blank(s);
    }
}

/// The status in a reply is that of the thread in it, or of the reply as the thread itself.
pub proof fn law_live_status_is_that_of_the_thread(
    result: &Json,
    status: &Json,
    read: Option<String>,
    res: Option<String>,
    live: Result<String, String>,
)
    requires
        call_ensures(thread_read_status, (result,), res),
        call_ensures(thread_live_status, (result,), live),
        call_ensures(status_value_to_string, (status,), read),
        json::member(result@.get("thread"@), "status"@) == Some(status@) || result@.get(
            "thread"@,
        ) is None && result@.get("status"@) == Some(status@),
    ensures
        text::opt_text(res) == text::opt_text(read),
        read matches Some(read) ==> live matches Ok(status) && status@ == read@,
        read is None ==> live is Err,
{
}

/// A thread is at work where its status says that it runs, is in progress, is active in any way or
/// waits in a queue, and in no other status.
pub proof fn law_active_status(status: Option<&str>, res: bool)
    requires
        call_ensures(thread_status_is_active, (status,), res),
    ensures
        status is None ==> !res,
        status matches Some(said) ==> ({
            let said = text::trim(said@);
            &&& said == "running"@ || said == "in_progress"@ || said == "inProgress"@ || said
                == "active"@ || said == "queued"@ ==> res
            &&& (exists|flags: Seq<char>| said == #[trigger] ("active:"@ + flags)) ==> res
            &&& res ==> {
                ||| said == "running"@
                ||| said == "in_progress"@
                ||| said == "inProgress"@
                ||| said == "active"@
                ||| said == "queued"@
                ||| said == "active:"@ + said.skip(7)
            }
        }),
{
    reveal_strlit("active:");
    if let Some(said) = status {
        let said = text::trim(said@);
        if exists|flags: Seq<char>| said == #[trigger] ("active:"@ + flags) {
            let flags = choose|flags: Seq<char>| said == #[trigger] ("active:"@ + flags);
            assert(said.take(7) =~= "active:"@);
        }
        if text::has_prefix(said, "active:"@) {
            assert(said =~= said.take(7) + said.skip(7));
        }
    }
}

/// Whether a field of a listed thread is read: a text where it is one, and nothing where it is
/// missing or null.
pub open spec fn is_read_as(field: Option<JsonView>, read: Option<Seq<char>>) -> bool {
    match field {
        Some(JsonView::Str(s)) => read == Some(s),
        Some(JsonView::Null) => read is None,
        None => read is None,
        _ => false,
    }
}

/// Whether a status field is read: what its value tells, and nothing where it is missing.
pub open spec fn is_status(field: Option<JsonView>, read: Option<Seq<char>>) -> bool {
    match field {
        Some(value) => read == status_text(value),
        None => read is None,
    }
}

/// The list holds what is read of each item, in order, and there is one where each can be read.
proof fn lemma_threads_of(items: Seq<JsonView>)
    ensures
        threads_of(items) matches Ok(threads) ==> {
            &&& threads.len() == items.len()
            &&& forall|i: int|
                0 <= i < items.len() ==> thread_of(#[trigger] items[i]) == Ok::<
                    ThreadModel,
                    Seq<char>,
                >(threads[i])
        },
        (forall|i: int| 0 <= i < items.len() ==> thread_of(#[trigger] items[i]) is Ok)
            ==> threads_of(items) is Ok,
        threads_of(items) is Err ==> exists|i: int|
            0 <= i < items.len() && thread_of(#[trigger] items[i]) is Err,
    decreases items.len(),
{
    if items.len() > 0 {
        let front = items.drop_last();
        let n = items.len() - 1;
        lemma_threads_of(front);
        assert(forall|i: int| 0 <= i < front.len() ==> #[trigger] front[i] == items[i]);
        if threads_of(items) is Ok {
            assert forall|i: int| 0 <= i < items.len() implies thread_of(#[trigger] items[i])
                == Ok::<ThreadModel, Seq<char>>(threads_of(items)->Ok_0[i]) by {
                if i < n {
                    assert(thread_of(front[i]) == Ok::<ThreadModel, Seq<char>>(
                        threads_of(front)->Ok_0[i],
                    ));
                }
            }
        } else if threads_of(front) is Err {
            let i = choose|i: int| 0 <= i < front.len() && thread_of(#[trigger] front[i]) is Err;
            assert(thread_of(items[i]) is Err);
        } else {
            assert(thread_of(items[n]) is Err);
        }
    }
}

/// Every thread that is listed is read, in order, each with the id, the title, the directory, the
/// preview, the path, the time and the status that it has in the list; a list with one that has no
/// id cannot be read.
pub proof fn law_listed_threads_are_read(
    result: Json,
    items: Seq<JsonView>,
    res: Result<Vec<AppServerThread>, String>,
)
    requires
        call_ensures(parse_thread_list_result, (result,), res),
        result@.get("threads"@) == Some(JsonView::Array(items)) || result@.get("threads"@) is None
            && result@.get("items"@) == Some(JsonView::Array(items)) || result@.get("threads"@)
            is None && result@.get("items"@) is None && result@.get("data"@) == Some(
            JsonView::Array(items),
        ) || result@ == JsonView::Array(items),
    ensures
        res matches Ok(threads) ==> {
            &&& threads@.len() == items.len()
            &&& forall|i: int|
                0 <= i < items.len() && items[i] is Object ==> {
                    let thread = (#[trigger] threads@[i])@;
                    &&& items[i].get("id"@) == Some(JsonView::Str(thread.id))
                    &&& is_read_as(items[i].get("title"@), thread.title)
                    &&& is_read_as(items[i].get("cwd"@), thread.cwd)
                    &&& is_read_as(items[i].get("preview"@), thread.preview)
                    &&& is_read_as(items[i].get("path"@), thread.rollout_path)
                    &&& thread.updated_at == json::i64_in(items[i].get("updatedAt"@))
                    &&& is_status(items[i].get("status"@), thread.status)
                }
        },
        (forall|i: int|
            0 <= i < items.len() ==> (#[trigger] items[i]) is Object && (items[i].get("id"@)
                matches Some(JsonView::Str(_))) && items[i].get("title"@) is None && items[i].get(
                "cwd"@,
            ) is None && items[i].get("preview"@) is None && items[i].get("path"@) is None
                && items[i].get("updatedAt"@) is None) ==> res is Ok,
        (exists|i: int|
            0 <= i < items.len() && (#[trigger] items[i]) is Object && items[i].get("id"@) is None)
            ==> res is Err,
{
    lemma_threads_of(items);
    if let Ok(threads) = res {
        let views = thread_views(threads@);
        assert(forall|i: int| 0 <= i < threads@.len() ==> views[i] == (#[trigger] threads@[i])@);
        assert forall|i: int| 0 <= i < items.len() && items[i] is Object implies {
            let thread = (#[trigger] threads@[i])@;
            &&& items[i].get("id"@) == Some(JsonView::Str(thread.id))
            &&& is_read_as(items[i].get("title"@), thread.title)
            &&& is_read_as(items[i].get("cwd"@), thread.cwd)
            &&& is_read_as(items[i].get("preview"@), thread.preview)
            &&& is_read_as(items[i].get("path"@), thread.rollout_path)
            &&& thread.updated_at == json::i64_in(items[i].get("updatedAt"@))
            &&& is_status(items[i].get("status"@), thread.status)
        } by {
            assert(thread_of(items[i]) == Ok::<ThreadModel, Seq<char>>(views[i]));
        }
        if exists|i: int|
            0 <= i < items.len() && (#[trigger] items[i]) is Object && items[i].get("id"@) is None {
            let i = choose|i: int|
                0 <= i < items.len() && (#[trigger] items[i]) is Object && items[i].get("id"@)
                    is None;
            assert(thread_of(items[i]) == Ok::<ThreadModel, Seq<char>>(views[i]));
        }
    }
}

/// A thread that is listed as a list of its fields is read field by field, in their order.
pub proof fn law_thread_as_list_is_read_in_order(items: Seq<JsonView>)
    requires
        items.len() == 7,
        thread_of(JsonView::Array(items)) is Ok,
    ensures
        ({
            let thread = thread_of(JsonView::Array(items))->Ok_0;
            &&& items[0] == JsonView::Str(thread.id)
            &&& is_read_as(Some(items[1]), thread.title)
            &&& is_read_as(Some(items[2]), thread.cwd)
            &&& is_read_as(Some(items[3]), thread.preview)
            &&& is_read_as(Some(items[4]), thread.rollout_path)
            &&& thread.updated_at == json::i64_in(Some(items[5]))
            &&& is_status(Some(items[6]), thread.status)
        }),
{
}

/// A reply that holds no list is reported with what it says.
pub proof fn law_reply_without_threads_is_reported(
    result: Json,
    res: Result<Vec<AppServerThread>, String>,
)
    requires
        call_ensures(parse_thread_list_result, (result,), res),
        result@.get("threads"@) is None,
        result@.get("items"@) is None,
        result@.get("data"@) is None,
        !(result@ is Array),
    ensures
        res matches Err(message) && message@ == "未知 thread/list 响应结构："@
            + wire::displayed_json(result@),
{
}

/// Telling the project directories of threads changes nothing else of them, and not their order.
pub proof fn law_normalizing_keeps_all_but_the_directory(
    ids: &mut RequestIds,
    threads: Vec<AppServerThread>,
    res: Vec<AppServerThread>,
)
    requires
        call_ensures(normalize_thread_list, (ids, threads), res),
    ensures
        res@.len() == threads@.len(),
        forall|i: int|
            0 <= i < threads@.len() ==> {
                let before = threads@[i]@;
                let after = (#[trigger] res@[i])@;
                &&& after.id == before.id
                &&& after.title == before.title
                &&& after.preview == before.preview
                &&& after.rollout_path == before.rollout_path
                &&& after.updated_at == before.updated_at
                &&& after.status == before.status
                &&& after.cwd is Some ==> after.cwd == before.cwd || before.cwd is Some
            },
{
    let before = thread_views(threads@);
    let after = thread_views(res@);
    assert forall|i: int| 0 <= i < threads@.len() implies {
        let old_view = threads@[i]@;
        let new_view = (#[trigger] res@[i])@;
        &&& new_view.id == old_view.id
        &&& new_view.title == old_view.title
        &&& new_view.preview == old_view.preview
        &&& new_view.rollout_path == old_view.rollout_path
        &&& new_view.updated_at == old_view.updated_at
        &&& new_view.status == old_view.status
        &&& new_view.cwd is Some ==> new_view.cwd == old_view.cwd || old_view.cwd is Some
    } by {
        assert(before[i] == threads@[i]@);
        assert(after[i] == res@[i]@);
        assert(may_be_normalized(before[i], after[i], id_at(old(ids)@, before, i)));
    }
}

/// A new thread is known by the id in the reply, as it is; a reply without one, or with a blank
/// one, is reported.
pub proof fn law_new_thread_is_known_by_its_id(result: Json, res: Result<String, String>)
    requires
        call_ensures(parse_thread_start_result, (result,), res),
    ensures
        match json::member(result@.get("thread"@), "id"@) {
            Some(JsonView::Str(id)) => if text::is_blank(id) {
                res is Err
            } else {
                res matches Ok(found) && found@ == id
            },
            _ => res is Err,
        },
        res matches Err(message) ==> message@ == "thread/start 响应缺少 thread.id："@
            + wire::displayed_json(result@),
{
    if let Some(id) = thread_id_in(result@) {
        text::lemma_trim_blank(id);
    }
}

/// The turns in a reply are those of its list, all of them and in order.
pub proof fn law_listed_turns_are_taken(
    result: Json,
    turns: Seq<JsonView>,
    res: Result<Vec<Json>, String>,
)
    requires
        call_ensures(parse_thread_turns_list_result, (result,), res),
        result@.get("turns"@) == Some(JsonView::Array(turns)) || result@.get("turns"@) is None
            && result@.get("items"@) == Some(JsonView::Array(turns)) || result@.get("turns"@)
            is None && result@.get("items"@) is None && result@.get("data"@) == Some(
            JsonView::Array(turns),
        ) || result@ == JsonView::Array(turns),
    ensures
        res matches Ok(found) && json::array_view(found@) == turns,
{
}

/// A reply without a list of turns is reported.
pub proof fn law_reply_without_turns_is_reported(result: Json, res: Result<Vec<Json>, String>)
    requires
        call_ensures(parse_thread_turns_list_result, (result,), res),
        !(result@ is Array),
        result@.get("turns"@) is None,
        result@.get("items"@) is None,
        result@.get("data"@) is None,
    ensures
        res is Err,
{
}

/// A thread that was read is the one in the reply.
pub proof fn law_read_thread_is_that_of_the_reply(
    result: Json,
    res: Result<AppServerThreadRead, String>,
)
    requires
        call_ensures(parse_thread_read_result, (result,), res),
    ensures
        match result@.get("thread"@) {
            Some(thread) => res matches Ok(read) && read.thread@ == thread,
            None => res is Err,
        },
{
}

/// A text that stands between others is a part of the whole.
proof fn lemma_part(before: Seq<char>, part: Seq<char>, after: Seq<char>)
    ensures
        text::has_part(before + part + after, part),
{
    let whole = before + part + after;
    let at = before.len() as int;
    assert(whole.subrange(at, at + part.len()) =~= part);
    assert(text::occurs_at(whole, part, at));
}

/// An error says that a thread can no longer be loaded wherever it says so, and nowhere else.
pub proof fn law_resume_errors_are_found(
    error: &str,
    before: Seq<char>,
    after: Seq<char>,
    res: bool,
)
    requires
        call_ensures(is_unsupported_thread_resume_error, (error,), res),
    ensures
        error@ == before + "thread resume path is no longer supported"@ + after ==> res,
        error@ == before + "thread resume history is no longer supported"@ + after ==> res,
        res ==> text::has_part(error@, "thread resume path is no longer supported"@)
            || text::has_part(error@, "thread resume history is no longer supported"@),
{
    lemma_part(before, "thread resume path is no longer supported"@, after);
    lemma_part(before, "thread resume history is no longer supported"@, after);
}

/// An error says that turns cannot be listed wherever it says so, and nowhere else.
pub proof fn law_turns_list_errors_are_found(
    error: &str,
    before: Seq<char>,
    after: Seq<char>,
    res: bool,
)
    requires
        call_ensures(is_unsupported_thread_turns_list_error, (error,), res),
    ensures
        error@ == before + "unknown variant `thread/turns/list`"@ + after ==> res,
        res ==> text::has_part(error@, "unknown variant `thread/turns/list`"@),
{
    lemma_part(before, "unknown variant `thread/turns/list`"@, after);
}

/// What is made of a thread that was read lists its last turns, the newest first, as many as asked
/// for or 25, and no more than there are.
pub proof fn law_read_thread_becomes_its_newest_turns(
    thread: Json,
    limit: usize,
    turns: Seq<JsonView>,
    res: Json,
)
    requires
        call_ensures(thread_read_to_turns_list_result, (thread, limit), res),
        thread@.get("turns"@) == Some(JsonView::Array(turns)) || turns.len() == 0 && !(
        thread@.get("turns"@) matches Some(JsonView::Array(_))),
    ensures
        res@.get("turns"@) matches Some(JsonView::Array(listed)) && {
            let most = if limit == 0 {
                25nat
            } else {
                limit as nat
            };
            &&& listed.len() == if turns.len() < most { turns.len() } else { most }
            &&& forall|i: int|
                0 <= i < listed.len() ==> #[trigger] listed[i] == turns[turns.len() - 1 - i]
        },
        json::has_only(res@, set!["turns"@]),
{
}

/// What comes of asking for turns is the answer, unless it says that turns cannot be listed: then
/// the thread has to be read.
pub proof fn law_turns_are_read_where_they_cannot_be_listed(
    outcome: Result<Json, String>,
    res: TurnsListStep,
)
    requires
        call_ensures(after_turns_list, (outcome,), res),
    ensures
        outcome matches Ok(_) ==> (res matches TurnsListStep::Done(done) && done == outcome),
        outcome matches Err(error) ==> if text::has_part(
            error@,
            "unknown variant `thread/turns/list`"@,
        ) {
            res is ReadThread
        } else {
            res matches TurnsListStep::Done(done) && done == outcome
        },
{
}

/// A copy of a list holds the same values in the same order.
pub proof fn law_copied_list_is_the_same(values: &Vec<Json>, res: Vec<Json>, i: int)
    requires
        call_ensures(copy_values, (values,), res),
        0 <= i < values@.len(),
    ensures
        res@.len() == values@.len(),
        res@[i]@ == values@[i]@,
{
    assert(json::array_view(res@).len() == res@.len());
    assert(json::array_view(res@)[i] == res@[i]@);
    assert(json::array_view(values@)[i] == values@[i]@);
}

/// Whether a field may stand where a text is expected that need not be there.
pub open spec fn may_be_text(field: Option<JsonView>) -> bool {
    field is None || field == Some(JsonView::Null) || (field matches Some(JsonView::Str(_)))
}

/// Whether a field may stand where an integer is expected that need not be there.
pub open spec fn may_be_integer(field: Option<JsonView>) -> bool {
    field is None || field == Some(JsonView::Null) || json::i64_in(field) is Some
}

/// The field at a place, where there are as many.
pub open spec fn field_at(fields: Seq<JsonView>, i: int) -> Option<JsonView> {
    if i < fields.len() {
        Some(fields[i])
    } else {
        None
    }
}

/// Whether an item is a thread: an object with a text as its id, or a list of up to seven fields
/// that begins with one, whose other fields are of their kind where they are there.
pub open spec fn is_thread_item(item: JsonView) -> bool {
    match item {
        JsonView::Object(_) => {
            &&& item.get("id"@) matches Some(JsonView::Str(_))
            &&& may_be_text(item.get("title"@))
            &&& may_be_text(item.get("cwd"@))
            &&& may_be_text(item.get("preview"@))
            &&& may_be_text(item.get("path"@))
            &&& may_be_integer(item.get("updatedAt"@))
        },
        JsonView::Array(fields) => {
            &&& 0 < fields.len() <= 7
            &&& fields[0] matches JsonView::Str(_)
            &&& may_be_text(field_at(fields, 1))
            &&& may_be_text(field_at(fields, 2))
            &&& may_be_text(field_at(fields, 3))
            &&& may_be_text(field_at(fields, 4))
            &&& may_be_integer(field_at(fields, 5))
        },
        _ => false,
    }
}

proof fn lemma_thread_item(item: JsonView)
    ensures
        thread_of(item) is Ok <==> is_thread_item(item),
{
    match item {
        JsonView::Object(_) => {
            assert(optional_text_field(item.get("title"@)) is Ok <==> may_be_text(
                item.get("title"@),
            ));
            assert(optional_i64_field(item.get("updatedAt"@)) is Ok <==> may_be_integer(
                item.get("updatedAt"@),
            ));
        },
        JsonView::Array(fields) => {
            assert(forall|i: int| 0 <= i ==> item_at(fields, i) == #[trigger] field_at(fields, i));
        },
        _ => {},
    }
}

/// A list of threads is read exactly where each of its items is a thread.
pub proof fn law_list_of_threads_is_read(
    result: Json,
    items: Seq<JsonView>,
    res: Result<Vec<AppServerThread>, String>,
)
    requires
        call_ensures(parse_thread_list_result, (result,), res),
        result@.get("threads"@) == Some(JsonView::Array(items)) || result@.get("threads"@) is None
            && result@.get("items"@) == Some(JsonView::Array(items)) || result@.get("threads"@)
            is None && result@.get("items"@) is None && result@.get("data"@) == Some(
            JsonView::Array(items),
        ) || result@ == JsonView::Array(items),
    ensures
        res is Ok <==> forall|i: int| 0 <= i < items.len() ==> is_thread_item(#[trigger] items[i]),
{
    lemma_threads_of(items);
    assert forall|i: int| 0 <= i < items.len() implies is_thread_item(#[trigger] items[i]) == (
    thread_of(items[i]) is Ok) by {
        lemma_thread_item(items[i]);
    }
    if res is Ok {
        assert forall|i: int| 0 <= i < items.len() implies is_thread_item(#[trigger] items[i]) by {
            assert(thread_of(items[i]) is Ok);
        }
    } else {
        let i = choose|i: int| 0 <= i < items.len() && thread_of(#[trigger] items[i]) is Err;
        assert(!is_thread_item(items[i]));
    }
}

/// A thread that is listed as a list of fields is read field by field, in their order, and a field
/// that is not there is missing.
pub proof fn law_fields_of_a_thread_are_read_in_order(
    result: Json,
    items: Seq<JsonView>,
    res: Result<Vec<AppServerThread>, String>,
    i: int,
    fields: Seq<JsonView>,
)
    requires
        call_ensures(parse_thread_list_result, (result,), res),
        result@.get("threads"@) == Some(JsonView::Array(items)),
        0 <= i < items.len(),
        items[i] == JsonView::Array(fields),
    ensures
        res matches Ok(threads) ==> {
            let thread = threads@[i]@;
            &&& threads@.len() == items.len()
            &&& field_at(fields, 0) == Some(JsonView::Str(thread.id))
            &&& is_read_as(field_at(fields, 1), thread.title)
            &&& is_read_as(field_at(fields, 2), thread.cwd)
            &&& is_read_as(field_at(fields, 3), thread.preview)
            &&& is_read_as(field_at(fields, 4), thread.rollout_path)
            &&& thread.updated_at == json::i64_in(field_at(fields, 5))
            &&& is_status(field_at(fields, 6), thread.status)
        },
{
    lemma_threads_of(items);
    if let Ok(threads) = res {
        let views = thread_views(threads@);
        assert(views[i] == threads@[i]@);
        assert(thread_of(items[i]) == Ok::<ThreadModel, Seq<char>>(views[i]));
        assert(forall|k: int| 0 <= k ==> item_at(fields, k) == #[trigger] field_at(fields, k));
    }
}

} // verus!
