//! Turns: from a prompt to the thread and the turn that answer it, and from the events of the
//! turn to its output.
use vstd::prelude::*;

use crate::app_server::events;
use crate::app_server::events::{ProgressModel, TurnProgress};
use crate::app_server::reader::Received;
use crate::app_server::replies;
use crate::app_server::requests;
use crate::app_server::requests::{RequestIds, RpcRequest};
use crate::app_server::usage;
use crate::json;
use crate::json::{Json, JsonView};
use crate::text;
use crate::wire;
use crate::workdir;
use crate::workdir::{HostPath, PathModel, ProcessCwd};

verus! {

/// The outcome of a turn.
#[derive(Debug, Clone, PartialEq, Eq)]
pub struct AppServerTurnResult {
    pub thread_id: String,
    pub turn_id: Option<String>,
    pub output: String,
    pub completed: bool,
}

/// A turn that was started.
#[derive(Debug, Clone, PartialEq, Eq)]
pub struct AppServerTurnHandle {
    pub thread_id: String,
    pub turn_id: String,
}

/// What a turn has put out when it ends.
#[derive(Debug, Clone, PartialEq, Eq)]
pub struct TurnOutput {
    pub output: String,
    pub completed: bool,
}

// ---------------------------------------------------------------------------
// Before the turn
// ---------------------------------------------------------------------------

/// How a turn is going to be run.
#[derive(Debug, Clone, PartialEq, Eq)]
pub struct TurnPlan {
    /// The thread to go on with; a new one where there is none.
    pub thread: Option<String>,
    pub prompt: String,
    /// The directory that a new standalone chat gets of its own.
    pub own_cwd: Option<String>,
    /// Where a process for the turn is started.
    pub process_cwd: ProcessCwd,
    /// The directory that a new thread is told.
    pub effective_cwd: String,
    /// The directory that the turn is told.
    pub turn_cwd: Option<String>,
}

/// What a `TurnPlan` says.
#[verifier::ext_equal]
pub struct PlanModel {
    pub thread: Option<Seq<char>>,
    pub prompt: Seq<char>,
    pub own_cwd: Option<Seq<char>>,
    pub process_path: PathModel,
    pub process_create: bool,
    pub effective_cwd: Seq<char>,
    pub turn_cwd: Option<Seq<char>>,
}

impl View for TurnPlan {
    type V = PlanModel;

    open spec fn view(&self) -> PlanModel {
        PlanModel {
            thread: text::opt_text(self.thread),
            prompt: self.prompt@,
            own_cwd: text::opt_text(self.own_cwd),
            process_path: self.process_cwd.path@,
            process_create: self.process_cwd.create,
            effective_cwd: self.effective_cwd@,
            turn_cwd: text::opt_text(self.turn_cwd),
        }
    }
}

/// Why a turn cannot be run.
#[derive(Debug, Clone, PartialEq, Eq)]
pub struct TurnRefusal {
    pub message: String,
    /// The directory that is made before the message is given; where that fails, the failure is
    /// reported in place of the message.
    pub make_first: Option<HostPath>,
}

/// What a `TurnRefusal` says.
#[verifier::ext_equal]
pub struct RefusalModel {
    pub message: Seq<char>,
    pub make_first: Option<PathModel>,
}

impl View for TurnRefusal {
    type V = RefusalModel;

    open spec fn view(&self) -> RefusalModel {
        RefusalModel { message: self.message@, make_first: workdir::opt_path(self.make_first) }
    }
}

/// A refusal before which nothing is made.
pub open spec fn refused(message: Seq<char>) -> RefusalModel {
    RefusalModel { message, make_first: None }
}

/// The view of an outcome that is a plan or a refusal.
pub open spec fn result_plan(res: Result<TurnPlan, TurnRefusal>) -> Result<
    PlanModel,
    RefusalModel,
> {
    match res {
        Ok(plan) => Ok(plan@),
        Err(refusal) => Err(refusal@),
    }
}

/// The thread that is gone on with, where one is given.
pub open spec fn given_thread(thread_id: Option<Seq<char>>) -> Option<Seq<char>> {
    replies::trimmed_text(thread_id)
}

/// How a turn is going to be run, given what asking for a new chat directory gave. That is
/// looked at only where no directory is given. Where a thread is given, the chat directory is made
/// before it turns out that it is no Unicode text and cannot be told to the app-server.
pub open spec fn turn_plan(
    thread_id: Option<Seq<char>>,
    cwd: Option<Seq<char>>,
    prompt: Seq<char>,
    standalone: Result<PathModel, Seq<char>>,
) -> Result<PlanModel, RefusalModel> {
    let thread = given_thread(thread_id);
    if text::trim(prompt).len() == 0 {
        Err(refused("prompt is required"@))
    } else if workdir::given(cwd) {
        Ok(
            PlanModel {
                thread,
                prompt,
                own_cwd: None,
                process_path: workdir::path_of(cwd->0),
                process_create: false,
                effective_cwd: text::trim(cwd->0),
                turn_cwd: Some(text::trim(cwd->0)),
            },
        )
    } else {
        match standalone {
            Err(message) => Err(refused(message)),
            Ok(path) => if !path.is_text() {
                Err(
                    RefusalModel {
                        message: workdir::not_unicode(path),
                        make_first: if thread is Some {
                            Some(path)
                        } else {
                            None
                        },
                    },
                )
            } else if thread is Some {
                Ok(
                    PlanModel {
                        thread,
                        prompt,
                        own_cwd: None,
                        process_path: path,
                        process_create: true,
                        effective_cwd: path.text,
                        turn_cwd: if cwd is Some {
                            Some(path.text)
                        } else {
                            None
                        },
                    },
                )
            } else {
                Ok(
                    PlanModel {
                        thread,
                        prompt,
                        own_cwd: Some(path.text),
                        process_path: path,
                        process_create: false,
                        effective_cwd: text::trim(path.text),
                        turn_cwd: Some(text::trim(path.text)),
                    },
                )
            },
        }
    }
}

/// Plans a turn in a given directory.
fn plan_in(thread_id: Option<&str>, cwd: &str, prompt: &str, own: bool) -> (res: TurnPlan)
    requires
        text::trim(cwd@).len() > 0,
    ensures
        res@ == (PlanModel {
            thread: given_thread(text::opt_str(thread_id)),
            prompt: prompt@,
            own_cwd: if own {
                Some(cwd@)
            } else {
                None
            },
            process_path: workdir::path_of(cwd@),
            process_create: false,
            effective_cwd: text::trim(cwd@),
            turn_cwd: Some(text::trim(cwd@)),
        }),
{
    let told = text::trimmed(cwd);
    TurnPlan {
        thread: match replies::trimmed_or_none(thread_id) {
            Some(thread) => Some(thread.to_owned()),
            None => None,
        },
        prompt: prompt.to_owned(),
        own_cwd: if own {
            Some(cwd.to_owned())
        } else {
            None
        },
        process_cwd: ProcessCwd {
            path: HostPath { text: cwd.to_owned(), raw: None },
            create: false,
        },
        effective_cwd: told.to_owned(),
        turn_cwd: Some(told.to_owned()),
    }
}

/// Plans a turn, given what asking for a new chat directory gave.
pub fn plan_turn_with(
    thread_id: Option<&str>,
    cwd: Option<&str>,
    prompt: &str,
    standalone: Result<HostPath, String>,
) -> (res: Result<TurnPlan, TurnRefusal>)
    requires
        standalone matches Ok(path) ==> text::trim(path@.text).len() > 0,
    ensures
        result_plan(res) == turn_plan(
            text::opt_str(thread_id),
            text::opt_str(cwd),
            prompt@,
            workdir::result_path(standalone),
        ),
{
    if text::trimmed(prompt).is_empty() {
        return Err(
            TurnRefusal { message: "prompt is required".to_owned(), make_first: None },
        );
    }
    if let Some(given) = cwd {
        if !text::trimmed(given).is_empty() {
            return Ok(plan_in(thread_id, given, prompt, false));
        }
    }
    let path = match standalone {
        Ok(path) => path,
        Err(message) => {
            return Err(TurnRefusal { message, make_first: None });
        },
    };
    let shown = match workdir::effective_cwd(None, &path) {
        Ok(shown) => shown,
        Err(message) => {
            let make_first = if replies::trimmed_or_none(thread_id).is_some() {
                Some(path)
            } else {
                None
            };
            return Err(TurnRefusal { message, make_first });
        },
    };
    match replies::trimmed_or_none(thread_id) {
        Some(thread) => Ok(
            TurnPlan {
                thread: Some(thread.to_owned()),
                prompt: prompt.to_owned(),
                own_cwd: None,
                turn_cwd: match cwd {
                    Some(_) => Some(shown.clone()),
                    None => None,
                },
                process_cwd: ProcessCwd { path, create: true },
                effective_cwd: shown,
            },
        ),
        None => Ok(plan_in(None, shown.as_str(), prompt, true)),
    }
}

/// A chat directory is never blank.
pub proof fn lemma_standalone_not_blank(outcome: Result<PathModel, Seq<char>>, id: u64)
    requires
        workdir::standalone_outcome(outcome, id),
    ensures
        outcome matches Ok(path) ==> text::trim(path.text).len() > 0,
{
    let (documents, date, time) = choose|
        documents: Option<PathModel>,
        date: Seq<char>,
        time: Seq<char>,
    |
        workdir::date_text(date) && workdir::time_text(time) && outcome
            == #[trigger] workdir::standalone_path(documents, date, time, id);
    if let Ok(path) = outcome {
        text::lemma_decimal_digits(id as nat);
        let last = path.text.last();
        assert(workdir::is_digit(last)) by {
            let digits = text::decimal(id as nat);
            assert(workdir::chat_dir_name(time, id).last() == digits.last());
            assert(last == digits.last());
        }
        if text::trim(path.text).len() == 0 {
            text::lemma_trim_blank(path.text);
            assert(text::is_space(path.text[path.text.len() - 1]));
        }
    }
}

/// Plans a turn. A directory is asked for only where none is given.
pub fn plan_turn(
    ids: &mut RequestIds,
    thread_id: Option<&str>,
    cwd: Option<&str>,
    prompt: &str,
) -> (res: Result<TurnPlan, TurnRefusal>)
    ensures
        exists|standalone: Result<PathModel, Seq<char>>| #[trigger]
            workdir::standalone_outcome(standalone, old(ids)@) && result_plan(res) == turn_plan(
                text::opt_str(thread_id),
                text::opt_str(cwd),
                prompt@,
                standalone,
            ),
        final(ids)@ == if text::trim(prompt@).len() == 0 || workdir::given(text::opt_str(cwd)) {
            old(ids)@
        } else {
            requests::later_id(old(ids)@, 1)
        },
{
    if text::trimmed(prompt).is_empty() || workdir::is_given(cwd) {
        proof {
            workdir::lemma_outcome_exists(old(ids)@);
        }
        return plan_turn_with(thread_id, cwd, prompt, Err(String::new()));
    }
    let standalone = workdir::standalone_cwd(ids);
    proof {
        lemma_standalone_not_blank(workdir::result_path(standalone), old(ids)@);
    }
    plan_turn_with(thread_id, cwd, prompt, standalone)
}

/// The thread that a turn belongs to, given the reply to the request for it.
pub open spec fn thread_after(thread: Option<Seq<char>>, reply: Result<JsonView, Seq<char>>) ->
    Result<Seq<char>, Seq<char>> {
    match (thread, reply) {
        (Some(thread), Ok(result)) => Ok(events::text_or(replies::thread_id_in(result), thread)),
        (Some(thread), Err(error)) => if replies::resume_unsupported(error) {
            Ok(thread)
        } else {
            Err(error)
        },
        (None, Ok(result)) => replies::thread_start_reply(result),
        (None, Err(error)) => Err(error),
    }
}

impl TurnPlan {
    /// The request that gets the turn its thread: one to load the given thread again, or one
    /// for a new thread. None is needed for a thread that is loaded already.
    pub fn thread_request(&self, ids: &mut RequestIds, resume: bool) -> (res: Option<RpcRequest>)
        ensures
            match self@.thread {
                Some(thread) => if resume {
                    &&& res is Some
                    &&& res->0@ == requests::rpc(
                        old(ids)@,
                        "thread/resume"@,
                        Some(
                            JsonView::Object(
                                requests::full_access_params().insert(
                                    "threadId"@,
                                    JsonView::Str(thread),
                                ),
                            ),
                        ),
                    )
                    &&& final(ids)@ == requests::later_id(old(ids)@, 1)
                } else {
                    res is None && final(ids)@ == old(ids)@
                },
                None => {
                    &&& res is Some
                    &&& res->0@ == requests::rpc(
                        old(ids)@,
                        "thread/start"@,
                        Some(
                            requests::with_cwd(
                                requests::full_access_params(),
                                Some(self@.effective_cwd),
                            ),
                        ),
                    )
                    &&& final(ids)@ == requests::later_id(old(ids)@, 1)
                },
            },
    {
        match &self.thread {
            Some(thread) => if resume {
                Some(requests::thread_resume_request(ids, thread.as_str()))
            } else {
                None
            },
            None => Some(requests::thread_start_request(ids, Some(self.effective_cwd.as_str()))),
        }
    }

    /// The thread of the turn, given the reply to the request for it.
    pub fn thread_from_reply(&self, reply: Result<Json, String>) -> (res: Result<String, String>)
        ensures
            text::result_text(res) == thread_after(self@.thread, wire::result_json(reply)),
    {
        match &self.thread {
            Some(thread) => match reply {
                Ok(result) => match json::str_in(json::member_in(result.get("thread"), "id")) {
                    Some(id) => Ok(id.to_owned()),
                    None => Ok(thread.clone()),
                },
                Err(error) => if replies::is_unsupported_thread_resume_error(error.as_str()) {
                    Ok(thread.clone())
                } else {
                    Err(error)
                },
            },
            None => match reply {
                Ok(result) => replies::parse_thread_start_result(result),
                Err(error) => Err(error),
            },
        }
    }

    /// The request that starts the turn in its thread.
    pub fn turn_request(&self, ids: &mut RequestIds, thread_id: &str) -> (res: RpcRequest)
        ensures
            res@ == requests::rpc(
                old(ids)@,
                "turn/start"@,
                Some(
                    requests::with_cwd(
                        requests::turn_start_params(thread_id@, self@.prompt),
                        self@.turn_cwd,
                    ),
                ),
            ),
            final(ids)@ == requests::later_id(old(ids)@, 1),
    {
        let cwd = match &self.turn_cwd {
            Some(cwd) => Some(cwd.as_str()),
            None => None,
        };
        requests::turn_start_request(ids, thread_id, self.prompt.as_str(), cwd)
    }
}

/// The id of the turn in a reply, where it is a string.
pub open spec fn turn_id_in(result: JsonView) -> Option<Seq<char>> {
    json::text_in(json::member(result.get("turn"@), "id"@))
}

/// The id of the turn in a reply to `turn/start`.
pub fn started_turn_id(result: &Json) -> (res: Option<String>)
    ensures
        text::opt_text(res) == turn_id_in(result@),
{
    match json::str_in(json::member_in(result.get("turn"), "id")) {
        Some(id) => Some(id.to_owned()),
        None => None,
    }
}

/// The turn that a reply to `turn/start` tells, for a turn that has to be known by its id.
pub fn started_turn(thread_id: &str, result: &Json) -> (res: Result<AppServerTurnHandle, String>)
    ensures
        match res {
            Ok(handle) => handle.thread_id@ == thread_id@ && turn_id_in(result@) == Some(
                handle.turn_id@,
            ),
            Err(message) => turn_id_in(result@) is None && message@
                == "turn/start 响应缺少 turn.id："@ + wire::displayed_json(result@),
        },
{
    match started_turn_id(result) {
        Some(turn_id) => Ok(AppServerTurnHandle { thread_id: thread_id.to_owned(), turn_id }),
        None => Err(text::cat("turn/start 响应缺少 turn.id：", wire::json_text(result).as_str())),
    }
}

// ---------------------------------------------------------------------------
// During the turn
// ---------------------------------------------------------------------------

/// What an event means for a turn.
#[derive(Debug)]
pub enum TurnStep {
    /// The event is none of this turn.
    Ignored,
    /// The turn goes on; this is its progress.
    Running(Vec<TurnProgress>),
    /// The turn is completed, after this progress.
    Completed(Vec<TurnProgress>),
    /// The turn cannot be followed any longer.
    Failed(String),
}

/// What a `TurnStep` says.
pub enum StepModel {
    Ignored,
    Running(Seq<ProgressModel>),
    Completed(Seq<ProgressModel>),
    Failed(Seq<char>),
}

impl View for TurnStep {
    type V = StepModel;

    open spec fn view(&self) -> StepModel {
        match *self {
            TurnStep::Ignored => StepModel::Ignored,
            TurnStep::Running(progress) => StepModel::Running(events::progress_views(progress@)),
            TurnStep::Completed(progress) => StepModel::Completed(
                events::progress_views(progress@),
            ),
            TurnStep::Failed(message) => StepModel::Failed(message@),
        }
    }
}

/// What an event of the turn means.
pub open spec fn step_of(value: JsonView) -> StepModel {
    if usage::is_method(value, "turn/completed"@) {
        StepModel::Completed(events::progress_of(value))
    } else {
        StepModel::Running(events::progress_of(value))
    }
}

/// Takes in an event of the turn.
pub fn on_turn_value(output: &mut String, value: &Json) -> (res: TurnStep)
    ensures
        final(output)@ == events::output_after(old(output)@, value@),
        res@ == step_of(value@),
{
    let progress = events::apply_agent_event_to_output(value, output);
    if json::member_is(value, "method", "turn/completed") {
        TurnStep::Completed(progress)
    } else {
        TurnStep::Running(progress)
    }
}

/// What is reported of a line that is no JSON, while a turn runs.
pub open spec fn bad_event_line(error: Seq<char>, line: Seq<char>) -> Seq<char> {
    "解析 app-server 通知失败："@ + error + "; line="@ + line
}

/// Takes in what came from a connection of the turn's own: every line belongs to the turn.
pub fn on_turn_received(output: &mut String, received: &Received) -> (res: TurnStep)
    ensures
        match *received {
            Received::Line(line) => match wire::parsed_json(line@) {
                Ok(value) => {
                    &&& final(output)@ == events::output_after(old(output)@, value)
                    &&& res@ == step_of(value)
                },
                Err(error) => final(output)@ == old(output)@ && res@ == StepModel::Failed(
                    bad_event_line(error, line@),
                ),
            },
            Received::End => final(output)@ == old(output)@ && res@ == StepModel::Failed(
                "app-server 提前退出"@,
            ),
            Received::Failed(error) => final(output)@ == old(output)@ && res@ == StepModel::Failed(
                "读取 app-server 通知失败："@ + error@,
            ),
            Received::Timeout => final(output)@ == old(output)@ && res@ == StepModel::Failed(
                "等待 Codex turn 通知空闲超时"@,
            ),
        },
{
    match received {
        Received::Line(line) => match wire::parse_json(line.as_str()) {
            Ok(value) => on_turn_value(output, &value),
            Err(error) => {
                let head = text::cat3("解析 app-server 通知失败：", error.as_str(), "; line=");
                TurnStep::Failed(text::cat(head.as_str(), line.as_str()))
            },
        },
        Received::End => TurnStep::Failed("app-server 提前退出".to_owned()),
        Received::Failed(error) => TurnStep::Failed(
            text::cat("读取 app-server 通知失败：", error.as_str()),
        ),
        Received::Timeout => TurnStep::Failed("等待 Codex turn 通知空闲超时".to_owned()),
    }
}

/// What comes from a connection that several turns share.
#[derive(Debug)]
pub enum SharedEvent {
    /// An event, of this turn or another.
    Event(Json),
    /// Events were missed.
    Lagged,
    /// No more events will come.
    Closed,
}

/// Takes in what came from a connection that several turns share.
pub fn on_shared_event(
    output: &mut String,
    event: &SharedEvent,
    thread_id: &str,
    turn_id: &str,
) -> (res: TurnStep)
    ensures
        match *event {
            SharedEvent::Event(value) => if events::belongs_to_turn(
                value@,
                thread_id@,
                turn_id@,
            ) {
                &&& final(output)@ == events::output_after(old(output)@, value@)
                &&& res@ == step_of(value@)
            } else {
                final(output)@ == old(output)@ && res@ == StepModel::Ignored
            },
            SharedEvent::Lagged => final(output)@ == old(output)@ && res@ == StepModel::Ignored,
            SharedEvent::Closed => final(output)@ == old(output)@ && res@ == StepModel::Failed(
                "app-server 事件通道已关闭"@,
            ),
        },
{
    match event {
        SharedEvent::Event(value) => if events::event_matches_turn(value, thread_id, turn_id) {
            on_turn_value(output, value)
        } else {
            TurnStep::Ignored
        },
        SharedEvent::Lagged => TurnStep::Ignored,
        SharedEvent::Closed => TurnStep::Failed("app-server 事件通道已关闭".to_owned()),
    }
}

/// What to make of a turn after a long time without events.
#[derive(Debug)]
pub enum IdleStep {
    /// The turn is still at work; this is its progress.
    StillRunning(TurnProgress),
    /// The turn has ended.
    Ended(TurnOutput),
    /// The turn has failed.
    Failed(String),
}

/// Takes in the status of the thread that was asked for after a long time without events.
pub fn on_idle_status(output: &str, turn_id: &str, status: Result<String, String>) -> (res:
    IdleStep)
    ensures
        match status {
            Ok(status) => if replies::is_active(Some(status@)) {
                res matches IdleStep::StillRunning(progress) && progress@
                    == (ProgressModel::ToolStarted {
                    item_id: turn_id@ + ":status"@,
                    label: "当前会话仍在运行（"@ + status@ + "）"@,
                })
            } else if status@ == "systemError"@ {
                res matches IdleStep::Failed(message) && message@
                    == "当前会话进入 systemError 状态"@
            } else {
                res matches IdleStep::Ended(ended) && ended.output@ == output@ && ended.completed
            },
            Err(error) => res matches IdleStep::Failed(message) && message@
                == "当前会话长时间无事件，且状态查询失败："@ + error@,
        },
{
    match status {
        Ok(status) => if replies::thread_status_is_active(Some(status.as_str())) {
            IdleStep::StillRunning(
                TurnProgress::ToolStarted {
                    item_id: text::cat(turn_id, ":status"),
                    label: text::cat3("当前会话仍在运行（", status.as_str(), "）"),
                },
            )
        } else if text::eq(status.as_str(), "systemError") {
            IdleStep::Failed("当前会话进入 systemError 状态".to_owned())
        } else {
            IdleStep::Ended(TurnOutput { output: output.to_owned(), completed: true })
        },
        Err(error) => IdleStep::Failed(
            text::cat("当前会话长时间无事件，且状态查询失败：", error.as_str()),
        ),
    }
}

/// The end of a turn that was to be interrupted, given the reply to that request: the output
/// so far, not completed, unless the request failed.
pub fn on_interrupted(output: String, reply: Result<Json, String>) -> (res: Result<
    TurnOutput,
    String,
>)
    ensures
        match reply {
            Ok(_) => res matches Ok(ended) && ended.output@ == output@ && !ended.completed,
            Err(error) => res matches Err(message) && message@ == error@,
        },
{
    match reply {
        Ok(_) => Ok(TurnOutput { output, completed: false }),
        Err(error) => Err(error),
    }
}

/// The outcome of a turn.
pub fn turn_result(thread_id: String, turn_id: Option<String>, ended: TurnOutput) -> (res:
    AppServerTurnResult)
    ensures
        res == (AppServerTurnResult {
            thread_id,
            turn_id,
            output: ended.output,
            completed: ended.completed,
        }),
{
    AppServerTurnResult { thread_id, turn_id, output: ended.output, completed: ended.completed }
}

// ---------------------------------------------------------------------------
// Laws
// ---------------------------------------------------------------------------

/// A new standalone chat is told its own directory, both for its thread and for its turn, and
/// that directory is nowhere a project.
pub proof fn law_new_chat_works_in_its_own_directory(
    prompt: Seq<char>,
    documents: PathModel,
    date: Seq<char>,
    time: Seq<char>,
    id: u64,
    later: Result<PathModel, Seq<char>>,
)
    requires
        text::trim(prompt).len() > 0,
        documents.is_text(),
        workdir::is_rooted(documents.text),
        workdir::path_names(documents.text).len() > 0,
        workdir::path_names(documents.text).last() == "Documents"@,
        forall|i: int|
            0 <= i < workdir::path_names(documents.text).len() - 1
                ==> #[trigger] workdir::path_names(documents.text)[i] != "Documents"@,
        workdir::iso_date(date),
        workdir::time_text(time),
    ensures
        ({
            let standalone = workdir::standalone_path(Some(documents), date, time, id);
            let plan = turn_plan(None, None, prompt, standalone);
            &&& plan is Ok
            &&& plan->Ok_0.thread is None
            &&& plan->Ok_0.turn_cwd == Some(plan->Ok_0.effective_cwd)
            &&& workdir::project_cwd(plan->Ok_0.turn_cwd, later) is None
        }),
{
    workdir::law_standalone_is_no_project(documents, date, time, id, later);
    let path = workdir::standalone_path(Some(documents), date, time, id)->Ok_0;
    text::lemma_trim_idempotent(path.text);
}

/// A turn in a project is told the directory of the project, and so is a new thread for it,
/// whatever directory a new chat would get.
pub proof fn law_project_turn_works_in_the_project(
    thread_id: Option<Seq<char>>,
    project: Seq<char>,
    prompt: Seq<char>,
    standalone: Result<PathModel, Seq<char>>,
)
    requires
        text::trim(prompt).len() > 0,
        text::trim(project).len() > 0,
    ensures
        ({
            let plan = turn_plan(thread_id, Some(project), prompt, standalone);
            &&& plan is Ok
            &&& plan->Ok_0.own_cwd is None
            &&& plan->Ok_0.process_path == workdir::path_of(project)
            &&& plan->Ok_0.effective_cwd == text::trim(project)
            &&& plan->Ok_0.turn_cwd == Some(text::trim(project))
        }),
{
}

/// A thread that is given is the thread of the turn whatever the app-server says of loading it
/// again, as long as it names no other and does not refuse.
pub proof fn law_given_thread_is_kept(thread: Seq<char>, reply: Result<JsonView, Seq<char>>)
    requires
        match reply {
            Ok(result) => replies::thread_id_in(result) is None,
            Err(error) => replies::resume_unsupported(error),
        },
    ensures
        thread_after(Some(thread), reply) == Ok::<Seq<char>, Seq<char>>(thread),
{
}

/// A turn without a prompt is refused, and nothing is made for it.
pub proof fn law_blank_prompt_is_refused(
    thread_id: Option<&str>,
    cwd: Option<&str>,
    prompt: &str,
    standalone: Result<HostPath, String>,
    res: Result<TurnPlan, TurnRefusal>,
)
    requires
        call_ensures(plan_turn_with, (thread_id, cwd, prompt, standalone), res),
        text::is_blank(prompt@),
    ensures
        res matches Err(refusal) && refusal@.message == "prompt is required"@
            && refusal@.make_first is None,
{
    text::lemma_trim_blank(prompt@);
}

/// Whether a thread is the one that is given: trimmed, and none where it is blank.
pub open spec fn is_thread_given(thread_id: Option<&str>, thread: Option<Seq<char>>) -> bool {
    match thread_id {
        Some(given) => thread == if text::is_blank(given@) {
            None
        } else {
            Some(text::trim(given@))
        },
        None => thread is None,
    }
}

/// The thread of a plan is the one that is given.
proof fn lemma_thread_given(thread_id: Option<&str>)
    ensures
        is_thread_given(thread_id, given_thread(text::opt_str(thread_id))),
{
    if let Some(given) = thread_id {
        text::lemma_trim_blank(given@);
    }
}

/// A turn in a directory that is given keeps the prompt as it is, goes on with the thread that is
/// given, and runs in that directory, which is not made.
pub proof fn law_turn_runs_where_it_is_told(
    thread_id: Option<&str>,
    cwd: &str,
    prompt: &str,
    standalone: Result<HostPath, String>,
    res: Result<TurnPlan, TurnRefusal>,
)
    requires
        call_ensures(plan_turn_with, (thread_id, Some(cwd), prompt, standalone), res),
        !text::is_blank(prompt@),
        !text::is_blank(cwd@),
    ensures
        res matches Ok(plan) && {
            &&& plan@.prompt == prompt@
            &&& is_thread_given(thread_id, plan@.thread)
            &&& plan@.own_cwd is None
            &&& plan@.process_path.text == cwd@
            &&& plan@.process_path.is_text()
            &&& !plan@.process_create
            &&& plan@.effective_cwd == text::trim(cwd@)
            &&& plan@.turn_cwd == Some(text::trim(cwd@))
        },
{
    text::lemma_trim_blank(prompt@);
    text::lemma_trim_blank(cwd@);
    lemma_thread_given(thread_id);
}

/// A turn without a directory runs in the chat directory that was asked for. In a thread that is
/// given that directory is made, and the turn is told of it only where a blank one was given; a
/// new chat gets it as its own, and is told of it.
pub proof fn law_turn_without_directory_gets_one(
    thread_id: Option<&str>,
    cwd: Option<&str>,
    prompt: &str,
    path: HostPath,
    res: Result<TurnPlan, TurnRefusal>,
)
    requires
        call_ensures(
            plan_turn_with,
            (thread_id, cwd, prompt, Ok::<HostPath, String>(path)),
            res,
        ),
        !text::is_blank(prompt@),
        cwd matches Some(cwd) ==> text::is_blank(cwd@),
        path@.is_text(),
    ensures
        res matches Ok(plan) && {
            &&& plan@.prompt == prompt@
            &&& is_thread_given(thread_id, plan@.thread)
            &&& plan@.process_path == path@
            &&& plan@.thread is Some ==> {
                &&& plan@.own_cwd is None
                &&& plan@.process_create
                &&& plan@.effective_cwd == path@.text
                &&& plan@.turn_cwd == if cwd is Some {
                    Some(path@.text)
                } else {
                    None
                }
            }
            &&& plan@.thread is None ==> {
                &&& plan@.own_cwd == Some(path@.text)
                &&& !plan@.process_create
                &&& plan@.effective_cwd == text::trim(path@.text)
                &&& plan@.turn_cwd == Some(text::trim(path@.text))
            }
        },
{
    text::lemma_trim_blank(prompt@);
    if let Some(cwd) = cwd {
        text::lemma_trim_blank(cwd@);
    }
    lemma_thread_given(thread_id);
}

/// A turn without a directory is refused where no chat directory can be had, and where that is no
/// Unicode text; then it is made before, in a thread that is given.
pub proof fn law_turn_without_any_directory_is_refused(
    thread_id: Option<&str>,
    cwd: Option<&str>,
    prompt: &str,
    standalone: Result<HostPath, String>,
    res: Result<TurnPlan, TurnRefusal>,
)
    requires
        call_ensures(plan_turn_with, (thread_id, cwd, prompt, standalone), res),
        !text::is_blank(prompt@),
        cwd matches Some(cwd) ==> text::is_blank(cwd@),
    ensures
        standalone matches Err(message) ==> (res matches Err(refusal) && refusal@.message
            == message@ && refusal@.make_first is None),
        standalone matches Ok(path) ==> !path@.is_text() ==> (res matches Err(refusal)
            && refusal@.message == "cwd 不是有效 UTF-8："@ + path@.text && refusal@.make_first
            == if thread_id matches Some(given) && !text::is_blank(given@) {
            Some(path@)
        } else {
            None
        }),
{
    text::lemma_trim_blank(prompt@);
    if let Some(cwd) = cwd {
        text::lemma_trim_blank(cwd@);
    }
    lemma_thread_given(thread_id);
}

/// Every plan keeps the prompt as it is, and the thread that is given; a directory that is given
/// needs no other, and takes no id.
pub proof fn law_plan_keeps_prompt_and_thread(
    ids: &mut RequestIds,
    thread_id: Option<&str>,
    cwd: Option<&str>,
    prompt: &str,
    res: Result<TurnPlan, TurnRefusal>,
)
    requires
        call_ensures(plan_turn, (ids, thread_id, cwd, prompt), res),
    ensures
        res matches Ok(plan) ==> {
            &&& plan@.prompt == prompt@
            &&& is_thread_given(thread_id, plan@.thread)
            &&& !text::is_blank(prompt@)
        },
        text::is_blank(prompt@) ==> res is Err && final(ids)@ == old(ids)@,
        cwd matches Some(cwd) ==> !text::is_blank(cwd@) && !text::is_blank(prompt@) ==> (
        res matches Ok(plan) && plan@.effective_cwd == text::trim(cwd@) && plan@.turn_cwd == Some(
            text::trim(cwd@),
        ) && final(ids)@ == old(ids)@),
{
    text::lemma_trim_blank(prompt@);
    if let Some(cwd) = cwd {
        text::lemma_trim_blank(cwd@);
    }
    lemma_thread_given(thread_id);
}

/// A thread that is given is loaded again where that is wanted, and a new one is asked for in the
/// directory of the turn where none is given.
pub proof fn law_thread_is_resumed_or_started(
    plan: &TurnPlan,
    ids: &mut RequestIds,
    resume: bool,
    res: Option<RpcRequest>,
)
    requires
        call_ensures(TurnPlan::thread_request, (plan, ids, resume), res),
    ensures
        plan@.thread matches Some(thread) ==> {
            &&& !resume ==> res is None && final(ids)@ == old(ids)@
            &&& resume ==> (res matches Some(request) && request@.method == "thread/resume"@
                && request@.id == old(ids)@ && json::member(request@.params, "threadId"@) == Some(
                JsonView::Str(thread),
            ))
        },
        plan@.thread is None ==> (res matches Some(request) && request@.method == "thread/start"@
            && request@.id == old(ids)@ && json::member(request@.params, "threadId"@) is None
            && json::member(request@.params, "cwd"@) == if text::is_blank(plan@.effective_cwd) {
            None
        } else {
            Some(JsonView::Str(plan@.effective_cwd))
        }),
{
    text::lemma_trim_blank(plan@.effective_cwd);
    reveal_strlit("threadId");
    reveal_strlit("approvalPolicy");
    reveal_strlit("sandbox");
    reveal_strlit("cwd");
    assert("threadId"@.len() == 8);
    assert("approvalPolicy"@.len() == 14);
    assert("sandbox"@.len() == 7);
    assert("cwd"@.len() == 3);
}

/// The thread of a turn is the one that the reply names; where it names none, or says that threads
/// can no longer be loaded again, it is the one that is given; any other error is an error.
pub proof fn law_thread_is_the_one_replied(
    plan: &TurnPlan,
    reply: Result<Json, String>,
    unsupported: bool,
    error: &str,
    res: Result<String, String>,
)
    requires
        call_ensures(TurnPlan::thread_from_reply, (plan, reply), res),
        reply matches Err(said) ==> error@ == said@,
        call_ensures(replies::is_unsupported_thread_resume_error, (error,), unsupported),
    ensures
        match (plan@.thread, reply) {
            (Some(thread), Ok(result)) => match json::member(result@.get("thread"@), "id"@) {
                Some(JsonView::Str(id)) => res matches Ok(found) && found@ == id,
                _ => res matches Ok(found) && found@ == thread,
            },
            (Some(thread), Err(said)) => if unsupported {
                res matches Ok(found) && found@ == thread
            } else {
                res matches Err(message) && message@ == said@
            },
            (None, Ok(result)) => match json::member(result@.get("thread"@), "id"@) {
                Some(JsonView::Str(id)) => if text::is_blank(id) {
                    res is Err
                } else {
                    res matches Ok(found) && found@ == id
                },
                _ => res is Err,
            },
            (None, Err(said)) => res matches Err(message) && message@ == said@,
        },
{
    if let Ok(result) = reply {
        if let Some(id) = replies::thread_id_in(result@) {
            text::lemma_trim_blank(id);
        }
    }
}

/// The turn is asked for in its thread, with the prompt of the plan and in the directory that the
/// plan tells the turn.
pub proof fn law_turn_is_asked_for_as_planned(
    plan: &TurnPlan,
    ids: &mut RequestIds,
    thread_id: &str,
    res: RpcRequest,
)
    requires
        call_ensures(TurnPlan::turn_request, (plan, ids, thread_id), res),
    ensures
        res@.method == "turn/start"@,
        res@.id == old(ids)@,
        json::member(res@.params, "threadId"@) == Some(JsonView::Str(thread_id@)),
        json::member(res@.params, "input"@) matches Some(JsonView::Array(items)) && items.len() == 1
            && items[0].get("text"@) == Some(JsonView::Str(plan@.prompt)),
        json::member(res@.params, "cwd"@) == match plan@.turn_cwd {
            Some(cwd) => if text::is_blank(cwd) {
                None
            } else {
                Some(JsonView::Str(cwd))
            },
            None => None,
        },
{
    if let Some(cwd) = plan@.turn_cwd {
        text::lemma_trim_blank(cwd);
    }
    reveal_strlit("threadId");
    reveal_strlit("input");
    reveal_strlit("approvalPolicy");
    reveal_strlit("sandboxPolicy");
    reveal_strlit("cwd");
    reveal_strlit("type");
    reveal_strlit("text");
    assert("threadId"@.len() == 8);
    assert("input"@.len() == 5);
    assert("approvalPolicy"@.len() == 14);
    assert("sandboxPolicy"@.len() == 13);
    assert("cwd"@.len() == 3);
    assert("type"@.len() == 4);
    assert("text"@.len() == 4);
    assert("type"@[1] == 'y');
    assert("text"@[1] == 'e');
}

/// The turn that was started is the one that the reply names, in the thread it was started in; a
/// reply that names none is reported.
pub proof fn law_started_turn_is_the_one_replied(
    thread_id: &str,
    result: &Json,
    id: Option<String>,
    res: Result<AppServerTurnHandle, String>,
)
    requires
        call_ensures(started_turn_id, (result,), id),
        call_ensures(started_turn, (thread_id, result), res),
    ensures
        match json::member(result@.get("turn"@), "id"@) {
            Some(JsonView::Str(turn)) => {
                &&& text::opt_text(id) == Some(turn)
                &&& res matches Ok(handle)
                &&& handle.thread_id@ == thread_id@
                &&& handle.turn_id@ == turn
            },
            _ => id is None && (res matches Err(message) && message@
                == "turn/start 响应缺少 turn.id："@ + wire::displayed_json(result@)),
        },
{
}

/// An event of a turn ends the turn exactly where it says that the turn is completed; either way
/// its text is added and its progress is told.
pub proof fn law_turn_ends_where_it_is_completed(
    output: &mut String,
    again: &mut String,
    value: &Json,
    progress: Vec<TurnProgress>,
    res: TurnStep,
)
    requires
        call_ensures(on_turn_value, (output, value), res),
        call_ensures(events::apply_agent_event_to_output, (value, again), progress),
        old(output)@ == old(again)@,
    ensures
        final(output)@ == final(again)@,
        value@.get("method"@) == Some(JsonView::Str("turn/completed"@)) ==> res@
            == StepModel::Completed(events::progress_views(progress@)),
        value@.get("method"@) != Some(JsonView::Str("turn/completed"@)) ==> res@
            == StepModel::Running(events::progress_views(progress@)),
{
}

/// A line of the turn's own connection is taken in as the event in it; a line that holds none, the
/// end, a failure and a long silence end the turn with an error, and leave the output alone.
pub proof fn law_received_line_is_an_event_of_the_turn(
    output: &mut String,
    again: &mut String,
    received: &Received,
    value: &Json,
    by_value: TurnStep,
    res: TurnStep,
)
    requires
        call_ensures(on_turn_received, (output, received), res),
        call_ensures(on_turn_value, (again, value), by_value),
        old(output)@ == old(again)@,
    ensures
        match *received {
            Received::Line(line) => {
                &&& wire::parsed_json(line@) == Ok::<JsonView, Seq<char>>(value@) ==> res@
                    == by_value@ && final(output)@ == final(again)@
                &&& wire::parsed_json(line@) matches Err(error) ==> res@ == StepModel::Failed(
                    "解析 app-server 通知失败："@ + error + "; line="@ + line@,
                ) && final(output)@ == old(output)@
            },
            Received::End => res@ == StepModel::Failed("app-server 提前退出"@) && final(output)@
                == old(output)@,
            Received::Failed(error) => res@ == StepModel::Failed(
                "读取 app-server 通知失败："@ + error@,
            ) && final(output)@ == old(output)@,
            Received::Timeout => res@ == StepModel::Failed("等待 Codex turn 通知空闲超时"@)
                && final(output)@ == old(output)@,
        },
{
}

/// An event of a connection that is shared is taken in exactly where it is of the turn; others,
/// and events that were missed, are passed over, and the end of the connection is an error.
pub proof fn law_shared_events_of_others_are_passed_over(
    output: &mut String,
    again: &mut String,
    event: &SharedEvent,
    value: &Json,
    thread_id: &str,
    turn_id: &str,
    mine: bool,
    by_value: TurnStep,
    res: TurnStep,
)
    requires
        call_ensures(on_shared_event, (output, event, thread_id, turn_id), res),
        call_ensures(on_turn_value, (again, value), by_value),
        call_ensures(events::event_matches_turn, (value, thread_id, turn_id), mine),
        event matches SharedEvent::Event(told) ==> told@ == value@,
        old(output)@ == old(again)@,
    ensures
        match *event {
            SharedEvent::Event(_) => if mine {
                res@ == by_value@ && final(output)@ == final(again)@
            } else {
                res@ == StepModel::Ignored && final(output)@ == old(output)@
            },
            SharedEvent::Lagged => res@ == StepModel::Ignored && final(output)@ == old(output)@,
            SharedEvent::Closed => res@ == StepModel::Failed("app-server 事件通道已关闭"@)
                && final(output)@ == old(output)@,
        },
{
}

/// A silent turn goes on while its thread is at work, fails where the thread has failed or its
/// status cannot be had, and else has ended with the output so far.
pub proof fn law_silent_turn_goes_by_its_status(
    output: &str,
    turn_id: &str,
    status: Result<String, String>,
    said: &str,
    active: bool,
    res: IdleStep,
)
    requires
        call_ensures(on_idle_status, (output, turn_id, status), res),
        status matches Ok(status) ==> said@ == status@,
        call_ensures(replies::thread_status_is_active, (Some(said),), active),
    ensures
        match status {
            Ok(status) => {
                &&& active ==> (res matches IdleStep::StillRunning(progress) && progress@
                    == (ProgressModel::ToolStarted {
                    item_id: turn_id@ + ":status"@,
                    label: "当前会话仍在运行（"@ + status@ + "）"@,
                }))
                &&& !active && status@ == "systemError"@ ==> res is Failed
                &&& !active && status@ != "systemError"@ ==> (res matches IdleStep::Ended(ended)
                    && ended.output@ == output@ && ended.completed)
            },
            Err(error) => res matches IdleStep::Failed(message) && message@
                == "当前会话长时间无事件，且状态查询失败："@ + error@,
        },
{
}

/// A turn that was interrupted ends with the output so far and is not completed; where it could
/// not be interrupted there is the error.
pub proof fn law_interrupted_turn_is_not_completed(
    output: String,
    reply: Result<Json, String>,
    res: Result<TurnOutput, String>,
)
    requires
        call_ensures(on_interrupted, (output, reply), res),
    ensures
        reply is Ok ==> (res matches Ok(ended) && ended.output@ == output@ && !ended.completed),
        reply matches Err(error) ==> (res matches Err(message) && message@ == error@),
{
}

/// The outcome of a turn is what it put out, in its thread and under its id.
pub proof fn law_outcome_is_what_was_put_out(
    thread_id: String,
    turn_id: Option<String>,
    ended: TurnOutput,
    res: AppServerTurnResult,
)
    requires
        call_ensures(turn_result, (thread_id, turn_id, ended), res),
    ensures
        res.thread_id@ == thread_id@,
        text::opt_text(res.turn_id) == text::opt_text(turn_id),
        res.output@ == ended.output@,
        res.completed == ended.completed,
{
}

} // verus!
