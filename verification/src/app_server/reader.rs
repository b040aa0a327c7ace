//! Reading what an app-server sends: replies to requests, requests of its own, and events.
use std::collections::{HashMap, HashSet};
use vstd::prelude::*;

use crate::app_server::approvals;
use crate::app_server::approvals::{ApprovalModel, PendingApprovalRequest};
use crate::app_server::events;
use crate::json;
use crate::json::{Json, JsonView};
use crate::text;
use crate::wire;

verus! {

/// What is to be done about a line from the app-server, in order.
#[derive(Debug)]
pub enum ReaderAction {
    /// Send this message to the app-server. Where that fails, `write_error_event` is to be
    /// broadcast.
    Write(Json),
    /// Hand this event to everyone who listens.
    Broadcast(Json),
    /// Hand this outcome to whoever waits for the reply to request `id`.
    Complete { id: u64, result: Result<Json, String> },
}

/// What a `ReaderAction` says.
pub enum ActionModel {
    Write(JsonView),
    Broadcast(JsonView),
    Complete { id: u64, result: Result<JsonView, Seq<char>> },
}

impl View for ReaderAction {
    type V = ActionModel;

    open spec fn view(&self) -> ActionModel {
        match *self {
            ReaderAction::Write(message) => ActionModel::Write(message@),
            ReaderAction::Broadcast(event) => ActionModel::Broadcast(event@),
            ReaderAction::Complete { id, result } => ActionModel::Complete {
                id,
                result: wire::result_json(result),
            },
        }
    }
}

/// The views of a list of actions.
pub open spec fn action_views(actions: Seq<ReaderAction>) -> Seq<ActionModel> {
    actions.map_values(|action: ReaderAction| action@)
}

/// The requests of an app-server that are not resolved yet.
#[derive(Debug)]
pub struct ServerRequests {
    approvals: HashMap<u64, PendingApprovalRequest>,
    automatic: HashSet<u64>,
}

/// What is known of the requests of an app-server: those that wait for a person, and those
/// that were answered automatically.
#[verifier::ext_equal]
pub struct ServerRequestsModel {
    pub approvals: Map<u64, ApprovalModel>,
    pub automatic: Set<u64>,
}

impl View for ServerRequests {
    type V = ServerRequestsModel;

    closed spec fn view(&self) -> ServerRequestsModel {
        ServerRequestsModel {
            approvals: self.approvals@.map_values(|approval: PendingApprovalRequest| approval@),
            automatic: self.automatic@,
        }
    }
}

/// What a reply says: its result, or what is reported of its error.
pub open spec fn reply_outcome(value: JsonView) -> Result<JsonView, Seq<char>> {
    match value.get("error"@) {
        Some(error) => Err("app-server 返回错误："@ + wire::displayed_json(error)),
        None => match value.get("result"@) {
            Some(result) => Ok(result),
            None => Err("app-server 响应缺少 result"@),
        },
    }
}

/// What a reply says.
pub fn reply_result(value: &Json) -> (res: Result<Json, String>)
    ensures
        wire::result_json(res) == reply_outcome(value@),
{
    if let Some(error) = value.get("error") {
        return Err(text::cat("app-server 返回错误：", wire::json_text(error).as_str()));
    }
    match value.get("result") {
        Some(result) => Ok(json::copy_of(result)),
        None => Err("app-server 响应缺少 result".to_owned()),
    }
}

/// The event that tells of a line that is no JSON.
pub open spec fn parse_error(error: Seq<char>, line: Seq<char>) -> JsonView {
    JsonView::Object(
        map![
            "method"@ => JsonView::Str("app-server/parse-error"@),
            "params"@ => JsonView::Object(map![
                "error"@ => JsonView::Str(error),
                "line"@ => JsonView::Str(line),
            ]),
        ],
    )
}

/// The event that tells of a line that is no JSON.
fn parse_error_event(error: &str, line: &str) -> (res: Json)
    ensures
        res@ == parse_error(error@, line@),
{
    let params = Json::empty_object().with("error", Json::text(error)).with(
        "line",
        Json::text(line),
    );
    Json::empty_object().with("method", Json::text("app-server/parse-error")).with(
        "params",
        params,
    )
}

/// The event that tells of a message that could not be sent.
pub fn write_error_event(error: &str) -> (res: Json)
    ensures
        res@ == JsonView::Object(
            map![
                "method"@ => JsonView::Str("app-server/write-error"@),
                "params"@ => JsonView::Object(map!["error"@ => JsonView::Str(error@)]),
            ],
        ),
{
    let params = Json::empty_object().with("error", Json::text(error));
    Json::empty_object().with("method", Json::text("app-server/write-error")).with(
        "params",
        params,
    )
}

/// Whether a message is a request of the app-server: it has an id and a method.
pub open spec fn is_request(value: JsonView) -> bool {
    json::u64_in(value.get("id"@)) is Some && json::text_at(value, "method"@) is Some
}

/// The requests after a message.
pub open spec fn requests_after(state: ServerRequestsModel, value: JsonView) ->
    ServerRequestsModel {
    if is_request(value) {
        let id = json::u64_in(value.get("id"@))->0;
        let method = json::text_at(value, "method"@)->0;
        ServerRequestsModel {
            approvals: if approvals::needs_approval(method) {
                state.approvals.insert(
                    id,
                    ApprovalModel {
                        method,
                        permissions: json::member(value.get("params"@), "permissions"@),
                    },
                )
            } else {
                state.approvals
            },
            automatic: if approvals::automatic_response(id, method) is Some {
                state.automatic.insert(id)
            } else {
                state.automatic
            },
        }
    } else {
        match approvals::resolved_id(value) {
            Some(id) => ServerRequestsModel {
                approvals: state.approvals.remove(id),
                automatic: state.automatic.remove(id),
            },
            None => state,
        }
    }
}

/// What is to be done about a message.
pub open spec fn actions_for(state: ServerRequestsModel, value: JsonView) -> Seq<ActionModel> {
    if is_request(value) {
        let id = json::u64_in(value.get("id"@))->0;
        let method = json::text_at(value, "method"@)->0;
        match approvals::automatic_response(id, method) {
            Some(response) => seq![ActionModel::Write(response), ActionModel::Broadcast(value)],
            None => seq![ActionModel::Broadcast(value)],
        }
    } else {
        let told = match approvals::resolved_id(value) {
            Some(id) => if state.automatic.contains(id) {
                approvals::auto_handled(value)
            } else {
                value
            },
            None => value,
        };
        match json::u64_in(told.get("id"@)) {
            Some(id) => seq![ActionModel::Complete { id, result: reply_outcome(told) }],
            None => seq![ActionModel::Broadcast(told)],
        }
    }
}

impl ServerRequests {
    /// No requests.
    pub fn new() -> (res: Self)
        ensures
            res@ == (ServerRequestsModel { approvals: Map::empty(), automatic: Set::empty() }),
    {
        let res = ServerRequests { approvals: HashMap::new(), automatic: HashSet::new() };
        assert(res@.approvals =~= Map::empty());
        assert(res@.automatic =~= Set::empty());
        res
    }

    /// Remembers a request that waits for a person.
    fn note_approval_request(&mut self, id: u64, method: &str, value: &Json)
        ensures
            final(self)@.automatic == old(self)@.automatic,
            final(self)@.approvals == if approvals::needs_approval(method@) {
                old(self)@.approvals.insert(
                    id,
                    ApprovalModel {
                        method: method@,
                        permissions: json::member(value@.get("params"@), "permissions"@),
                    },
                )
            } else {
                old(self)@.approvals
            },
    {
        if !approvals::is_approval_request_method(method) {
            return ;
        }
        let permissions = match json::member_in(value.get("params"), "permissions") {
            Some(permissions) => Some(json::copy_of(permissions)),
            None => None,
        };
        let approval = PendingApprovalRequest { method: method.to_owned(), permissions };
        let ghost view = approval@;
        self.approvals.insert(id, approval);
        assert(self@.approvals =~= old(self)@.approvals.insert(id, view));
    }

    /// Takes in a message of the app-server, and tells what is to be done about it.
    pub fn on_value(&mut self, value: Json) -> (res: Vec<ReaderAction>)
        ensures
            final(self)@ == requests_after(old(self)@, value@),
            action_views(res@) == actions_for(old(self)@, value@),
    {
        let mut value = value;
        let ghost message = value@;
        let mut actions: Vec<ReaderAction> = Vec::new();
        let id = json::unsigned_in(value.get("id"));
        let method = match json::str_in(value.get("method")) {
            Some(method) => Some(method.to_owned()),
            None => None,
        };
        if let (Some(id), Some(method)) = (id, method) {
            self.note_approval_request(id, method.as_str(), &value);
            if let Some(response) = approvals::automatic_server_request_response(
                id,
                method.as_str(),
            ) {
                self.automatic.insert(id);
                actions.push(ReaderAction::Write(response));
            }
            actions.push(ReaderAction::Broadcast(value));
            assert(action_views(actions@) =~= actions_for(old(self)@, message));
            assert(self@ =~= requests_after(old(self)@, message));
            return actions;
        }
        if let Some(request_id) = approvals::resolved_request_id(&value) {
            if self.automatic.remove(&request_id) {
                approvals::mark_auto_server_request_resolved(&mut value);
            }
            self.approvals.remove(&request_id);
            assert(self@.approvals =~= old(self)@.approvals.remove(request_id));
            assert(self@.automatic =~= old(self)@.automatic.remove(request_id));
        }
        assert(self@ =~= requests_after(old(self)@, message));
        if let Some(id) = json::unsigned_in(value.get("id")) {
            actions.push(ReaderAction::Complete { id, result: reply_result(&value) });
        } else {
            actions.push(ReaderAction::Broadcast(value));
        }
        assert(action_views(actions@) =~= actions_for(old(self)@, message));
        actions
    }

    /// Takes in a line of the app-server, and tells what is to be done about it.
    pub fn on_line(&mut self, line: &str) -> (res: Vec<ReaderAction>)
        ensures
            match wire::parsed_json(line@) {
                Ok(value) => {
                    &&& final(self)@ == requests_after(old(self)@, value)
                    &&& action_views(res@) == actions_for(old(self)@, value)
                },
                Err(error) => {
                    &&& final(self)@ == old(self)@
                    &&& action_views(res@) == seq![
                        ActionModel::Broadcast(parse_error(error, line@)),
                    ]
                },
            },
    {
        match wire::parse_json(line) {
            Ok(value) => self.on_value(value),
            Err(error) => {
                let mut actions: Vec<ReaderAction> = Vec::new();
                actions.push(ReaderAction::Broadcast(parse_error_event(error.as_str(), line)));
                assert(action_views(actions@) =~= seq![
                    ActionModel::Broadcast(parse_error(error@, line@)),
                ]);
                actions
            },
        }
    }

    /// The reply to a request for approval, or why it cannot be answered.
    pub fn respond_approval(&self, request_id: u64, decision: &str) -> (res: Result<Json, String>)
        ensures
            wire::result_json(res) == approvals::approval_reply(
                request_id,
                if self@.approvals.contains_key(request_id) {
                    Some(self@.approvals[request_id])
                } else {
                    None
                },
                decision@,
            ),
    {
        match self.approvals.get(&request_id) {
            Some(approval) => Ok(
                approvals::server_request_response(
                    request_id,
                    approvals::approval_response_result(approval, decision),
                ),
            ),
            None => Err("审批请求已结束或未找到，请重新查看当前状态。".to_owned()),
        }
    }
}

impl Default for ServerRequests {
    fn default() -> (res: Self)
        ensures
            res@ == (ServerRequestsModel { approvals: Map::empty(), automatic: Set::empty() }),
    {
        ServerRequests::new()
    }
}

/// How reading from an app-server can go.
#[derive(Debug)]
pub enum Received {
    /// A line.
    Line(String),
    /// The app-server has closed its output.
    End,
    /// Reading failed.
    Failed(String),
    /// Nothing came in time.
    Timeout,
}

/// What is reported to everyone who waits for a reply when no more can be read; there is
/// nothing to report after a line or in time.
pub open spec fn end_message(received: Received) -> Option<Seq<char>> {
    match received {
        Received::Line(_) => None,
        Received::End => Some("app-server 提前退出"@),
        Received::Failed(error) => Some("读取 app-server 响应失败："@ + error@),
        Received::Timeout => Some("等待 app-server 响应超时"@),
    }
}

/// What is reported to everyone who waits for a reply when no more can be read.
pub fn reading_ended(received: &Received) -> (res: Option<String>)
    ensures
        text::opt_text(res) == end_message(*received),
{
    match received {
        Received::Line(_) => None,
        Received::End => Some("app-server 提前退出".to_owned()),
        Received::Failed(error) => Some(text::cat("读取 app-server 响应失败：", error.as_str())),
        Received::Timeout => Some("等待 app-server 响应超时".to_owned()),
    }
}

/// How waiting for the reply to a request can end, where another task reads the connection.
#[derive(Debug)]
pub enum Awaited {
    /// The reply has come, or reading has ended.
    Reply(Result<Json, String>),
    /// Whoever reads the connection is gone.
    Closed,
    /// Nothing came in time.
    TimedOut,
}

/// The outcome of waiting for the reply to a request.
pub open spec fn awaited_outcome(awaited: Awaited) -> Result<JsonView, Seq<char>> {
    match awaited {
        Awaited::Reply(reply) => wire::result_json(reply),
        Awaited::Closed => Err("app-server 响应通道已关闭"@),
        Awaited::TimedOut => Err("等待 app-server 响应超时"@),
    }
}

/// The outcome of waiting for the reply to a request.
pub fn awaited_reply(awaited: Awaited) -> (res: Result<Json, String>)
    ensures
        wire::result_json(res) == awaited_outcome(awaited),
{
    match awaited {
        Awaited::Reply(reply) => reply,
        Awaited::Closed => Err("app-server 响应通道已关闭".to_owned()),
        Awaited::TimedOut => Err("等待 app-server 响应超时".to_owned()),
    }
}

/// The outcome of waiting for the reply to request `wanted_id`, where a message settles it.
pub open spec fn settles(value: JsonView, wanted_id: u64) -> Option<Result<JsonView, Seq<char>>> {
    if json::u64_in(value.get("id"@)) == Some(wanted_id) {
        Some(reply_outcome(value))
    } else {
        None
    }
}

/// The view of an outcome that may still be open.
pub open spec fn opt_result_json(res: Option<Result<Json, String>>) -> Option<
    Result<JsonView, Seq<char>>,
> {
    match res {
        Some(res) => Some(wire::result_json(res)),
        None => None,
    }
}

/// Decides whether a message settles the wait for the reply to request `wanted_id`.
pub fn response_in(value: &Json, wanted_id: u64) -> (res: Option<Result<Json, String>>)
    ensures
        opt_result_json(res) == settles(value@, wanted_id),
{
    match json::unsigned_in(value.get("id")) {
        Some(id) => if id == wanted_id {
            Some(reply_result(value))
        } else {
            None
        },
        None => None,
    }
}

/// What is reported of a line that is no JSON, while a reply is awaited.
pub open spec fn bad_reply_line(error: Seq<char>, line: Seq<char>) -> Seq<char> {
    "解析 app-server JSON 失败："@ + error + "; line="@ + line
}

/// Decides whether what was received settles the wait for the reply to request `wanted_id`.
pub fn read_response(received: &Received, wanted_id: u64) -> (res: Option<Result<Json, String>>)
    ensures
        opt_result_json(res) == match *received {
            Received::Line(line) => match wire::parsed_json(line@) {
                Ok(value) => settles(value, wanted_id),
                Err(error) => Some(Err(bad_reply_line(error, line@))),
            },
            _ => Some(Err(end_message(*received)->0)),
        },
{
    if let Received::Line(line) = received {
        return match wire::parse_json(line.as_str()) {
            Ok(value) => response_in(&value, wanted_id),
            Err(error) => {
                let head = text::cat3("解析 app-server JSON 失败：", error.as_str(), "; line=");
                Some(Err(text::cat(head.as_str(), line.as_str())))
            },
        };
    }
    match reading_ended(received) {
        Some(message) => Some(Err(message)),
        None => None,
    }
}

// ---------------------------------------------------------------------------
// Laws
// ---------------------------------------------------------------------------

/// A request that was answered automatically is written exactly one reply, is remembered, and
/// its resolution is told to no one as progress and forgotten.
pub proof fn law_automatic_request_runs_silently(
    state: ServerRequestsModel,
    request: JsonView,
    resolution: JsonView,
)
    requires
        is_request(request),
        approvals::automatic_response(
            json::u64_in(request.get("id"@))->0,
            json::text_at(request, "method"@)->0,
        ) is Some,
        !is_request(resolution),
        json::u64_in(resolution.get("id"@)) is None,
        approvals::resolved_id(resolution) == json::u64_in(request.get("id"@)),
    ensures
        ({
            let id = json::u64_in(request.get("id"@))->0;
            let method = json::text_at(request, "method"@)->0;
            let between = requests_after(state, request);
            let told = actions_for(between, resolution);
            &&& actions_for(state, request)[0] == ActionModel::Write(
                approvals::automatic_response(id, method)->0,
            )
            &&& actions_for(state, request).len() == 2
            &&& between.automatic.contains(id)
            &&& between.approvals == state.approvals
            &&& told.len() == 1 && told[0] is Broadcast
            &&& events::resolved_progress(told[0]->Broadcast_0) is None
            &&& !requests_after(between, resolution).automatic.contains(id)
        }),
{
    let id = json::u64_in(request.get("id"@))->0;
    let method = json::text_at(request, "method"@)->0;
    if approvals::needs_approval(method) {
        approvals::law_approvals_wait_for_a_person(id, method);
    }
    events::law_automatic_resolution_is_silent(resolution);
    reveal_strlit("id");
    reveal_strlit("params");
    assert("id"@.len() == 2);
    assert("params"@.len() == 6);
}

/// A request for approval is handed on and not answered; from then on it can be answered,
/// until its resolution is told, and not after.
pub proof fn law_approval_lives_until_resolved(
    state: ServerRequestsModel,
    request: JsonView,
    resolution: JsonView,
    decision: Seq<char>,
)
    requires
        is_request(request),
        approvals::needs_approval(json::text_at(request, "method"@)->0),
        !is_request(resolution),
        approvals::resolved_id(resolution) == json::u64_in(request.get("id"@)),
    ensures
        ({
            let id = json::u64_in(request.get("id"@))->0;
            let waiting = requests_after(state, request).approvals;
            let after = requests_after(requests_after(state, request), resolution).approvals;
            &&& actions_for(state, request) == seq![ActionModel::Broadcast(request)]
            &&& waiting.contains_key(id)
            &&& approvals::approval_reply(id, Some(waiting[id]), decision) is Ok
            &&& !after.contains_key(id)
            &&& approvals::approval_reply(id, None, decision) is Err
        }),
{
    approvals::law_approvals_wait_for_a_person(
        json::u64_in(request.get("id"@))->0,
        json::text_at(request, "method"@)->0,
    );
}

/// A message that says which request it replies to goes to whoever waits for that reply and to
/// no one else.
pub proof fn law_reply_goes_to_its_request(state: ServerRequestsModel, value: JsonView, id: u64)
    requires
        json::u64_in(value.get("id"@)) == Some(id),
        json::text_at(value, "method"@) is None,
    ensures
        actions_for(state, value) == seq![
            ActionModel::Complete { id, result: reply_outcome(value) },
        ],
        requests_after(state, value) == state,
        settles(value, id) == Some(reply_outcome(value)),
{
}

/// What a reply says is its error, where it has one, and else its result as it is.
pub proof fn law_reply_says_its_result(value: &Json, res: Result<Json, String>)
    requires
        call_ensures(reply_result, (value,), res),
    ensures
        value@.get("error"@) matches Some(error) ==> (res matches Err(message) && message@
            == "app-server 返回错误："@ + wire::displayed_json(error)),
        value@.get("error"@) is None ==> match value@.get("result"@) {
            Some(result) => res matches Ok(found) && found@ == result,
            None => res matches Err(message) && message@ == "app-server 响应缺少 result"@,
        },
{
}

/// A message that could not be sent is told with the error.
pub proof fn law_write_error_is_told(error: &str, res: Json)
    requires
        call_ensures(write_error_event, (error,), res),
    ensures
        res@.get("method"@) == Some(JsonView::Str("app-server/write-error"@)),
        json::member(res@.get("params"@), "error"@) == Some(JsonView::Str(error@)),
        res@.get("id"@) is None,
{
    reveal_strlit("method");
    reveal_strlit("params");
    reveal_strlit("id");
    assert("method"@.len() == 6);
    assert("params"@.len() == 6);
    assert("id"@.len() == 2);
    assert("method"@[0] == 'm');
    assert("params"@[0] == 'p');
}

/// A line that is no JSON is handed to everyone who listens, with the error and the line as it is;
/// it is no reply to anyone and changes nothing.
pub proof fn law_bad_line_is_handed_on(
    state: &mut ServerRequests,
    line: &str,
    error: Seq<char>,
    res: Vec<ReaderAction>,
)
    requires
        call_ensures(ServerRequests::on_line, (state, line), res),
        wire::parsed_json(line@) == Err::<JsonView, Seq<char>>(error),
    ensures
        final(state)@ == old(state)@,
        res@.len() == 1,
        res@[0]@ matches ActionModel::Broadcast(event) && {
            &&& event.get("method"@) == Some(JsonView::Str("app-server/parse-error"@))
            &&& json::member(event.get("params"@), "error"@) == Some(JsonView::Str(error))
            &&& json::member(event.get("params"@), "line"@) == Some(JsonView::Str(line@))
            &&& event.get("id"@) is None
        },
{
    reveal_strlit("method");
    reveal_strlit("params");
    reveal_strlit("id");
    reveal_strlit("error");
    reveal_strlit("line");
    assert("method"@.len() == 6);
    assert("params"@.len() == 6);
    assert("id"@.len() == 2);
    assert("error"@.len() == 5);
    assert("line"@.len() == 4);
    assert("method"@[0] == 'm');
    assert("params"@[0] == 'p');
    assert(action_views(res@).len() == res@.len());
    assert(action_views(res@)[0] == res@[0]@);
}

/// A line is taken in as the message that it holds.
pub proof fn law_line_is_its_message(
    state: &mut ServerRequests,
    again: &mut ServerRequests,
    line: &str,
    value: Json,
    by_line: Vec<ReaderAction>,
    by_value: Vec<ReaderAction>,
)
    requires
        call_ensures(ServerRequests::on_line, (state, line), by_line),
        call_ensures(ServerRequests::on_value, (again, value), by_value),
        old(state)@ == old(again)@,
        wire::parsed_json(line@) == Ok::<JsonView, Seq<char>>(value@),
    ensures
        final(state)@ == final(again)@,
        action_views(by_line@) == action_views(by_value@),
{
}

/// A request of the app-server is handed to everyone who listens, as it is, and is answered at
/// once exactly where it is one that no person is asked about; it completes nothing.
pub proof fn law_request_is_handed_on(
    state: &mut ServerRequests,
    value: Json,
    id: u64,
    method: &str,
    automatic: Option<Json>,
    res: Vec<ReaderAction>,
)
    requires
        call_ensures(ServerRequests::on_value, (state, value), res),
        value@.get("id"@) == Some(JsonView::Unsigned(id)),
        value@.get("method"@) == Some(JsonView::Str(method@)),
        call_ensures(approvals::automatic_server_request_response, (id, method), automatic),
    ensures
        match automatic {
            Some(reply) => {
                &&& res@.len() == 2
                &&& res@[0]@ == ActionModel::Write(reply@)
                &&& res@[1]@ == ActionModel::Broadcast(value@)
                &&& final(state)@.automatic == old(state)@.automatic.insert(id)
            },
            None => {
                &&& res@.len() == 1
                &&& res@[0]@ == ActionModel::Broadcast(value@)
                &&& final(state)@.automatic == old(state)@.automatic
            },
        },
{
    let views = action_views(res@);
    assert(forall|i: int| 0 <= i < res@.len() ==> views[i] == (#[trigger] res@[i])@);
    assert(views.len() == res@.len());
}

/// A request for approval is remembered under its id, with its method and with the permissions it
/// asks for, as they are; no other request is, and those that wait already stay.
pub proof fn law_request_for_approval_is_remembered(
    state: &mut ServerRequests,
    value: Json,
    id: u64,
    method: &str,
    asks: bool,
    res: Vec<ReaderAction>,
)
    requires
        call_ensures(ServerRequests::on_value, (state, value), res),
        value@.get("id"@) == Some(JsonView::Unsigned(id)),
        value@.get("method"@) == Some(JsonView::Str(method@)),
        call_ensures(approvals::is_approval_request_method, (method,), asks),
    ensures
        asks ==> {
            &&& final(state)@.approvals.contains_key(id)
            &&& final(state)@.approvals[id].method == method@
            &&& final(state)@.approvals[id].permissions == json::member(
                value@.get("params"@),
                "permissions"@,
            )
        },
        forall|other: u64|
            other != id || !asks ==> final(state)@.approvals.contains_key(other) == #[trigger] old(
                state,
            )@.approvals.contains_key(other) && (old(state)@.approvals.contains_key(other)
                ==> final(state)@.approvals[other] == old(state)@.approvals[other]),
{
}

/// Once the resolution of a request is told the request is forgotten, and no other is; the
/// resolution is handed on, marked exactly where the request was answered automatically.
pub proof fn law_resolved_request_is_forgotten(
    state: &mut ServerRequests,
    value: Json,
    id: u64,
    marked: &mut Json,
    res: Vec<ReaderAction>,
)
    requires
        call_ensures(ServerRequests::on_value, (state, value), res),
        call_ensures(approvals::resolved_request_id, (&value,), Some(id)),
        value@.get("id"@) is None,
        old(marked)@ == value@,
        call_ensures(approvals::mark_auto_server_request_resolved, (marked,), ()),
    ensures
        final(state)@.approvals == old(state)@.approvals.remove(id),
        final(state)@.automatic == old(state)@.automatic.remove(id),
        res@.len() == 1,
        res@[0]@ == ActionModel::Broadcast(
            if old(state)@.automatic.contains(id) {
                final(marked)@
            } else {
                value@
            },
        ),
{
    let views = action_views(res@);
    assert(forall|i: int| 0 <= i < res@.len() ==> views[i] == (#[trigger] res@[i])@);
    assert(views.len() == res@.len());
    reveal_strlit("id");
    reveal_strlit("params");
    assert("id"@.len() == 2);
    assert("params"@.len() == 6);
}

/// A reply goes to whoever waits for it, with what it says, and to no one else; it changes nothing.
pub proof fn law_reply_completes_its_request(
    state: &mut ServerRequests,
    value: Json,
    id: u64,
    said: Result<Json, String>,
    res: Vec<ReaderAction>,
)
    requires
        call_ensures(ServerRequests::on_value, (state, value), res),
        call_ensures(reply_result, (&value,), said),
        value@.get("id"@) == Some(JsonView::Unsigned(id)),
        value@.get("method"@) is None,
    ensures
        final(state)@ == old(state)@,
        res@.len() == 1,
        res@[0]@ == (ActionModel::Complete { id, result: wire::result_json(said) }),
{
    let views = action_views(res@);
    assert(forall|i: int| 0 <= i < res@.len() ==> views[i] == (#[trigger] res@[i])@);
    assert(views.len() == res@.len());
}

/// An event that is neither a request, nor a reply, nor a resolution is handed on as it is, and
/// changes nothing.
pub proof fn law_event_is_handed_on(
    state: &mut ServerRequests,
    value: Json,
    res: Vec<ReaderAction>,
)
    requires
        call_ensures(ServerRequests::on_value, (state, value), res),
        value@.get("id"@) is None,
        value@.get("method"@) != Some(JsonView::Str("serverRequest/resolved"@)),
    ensures
        final(state)@ == old(state)@,
        res@.len() == 1,
        res@[0]@ == ActionModel::Broadcast(value@),
{
    let views = action_views(res@);
    assert(forall|i: int| 0 <= i < res@.len() ==> views[i] == (#[trigger] res@[i])@);
    assert(views.len() == res@.len());
}

/// An approval is answered under the id of its request with what the decision gives, as long as it
/// waits; one that does not wait cannot be answered.
pub proof fn law_waiting_approval_is_answered(
    state: &ServerRequests,
    request_id: u64,
    decision: &str,
    approval: &PendingApprovalRequest,
    result: Json,
    res: Result<Json, String>,
)
    requires
        call_ensures(ServerRequests::respond_approval, (state, request_id, decision), res),
        state@.approvals.contains_key(request_id) ==> approval@ == state@.approvals[request_id],
        call_ensures(approvals::approval_response_result, (approval, decision), result),
    ensures
        state@.approvals.contains_key(request_id) ==> (res matches Ok(reply) && reply@.get("id"@)
            == Some(JsonView::Unsigned(request_id)) && reply@.get("result"@) == Some(result@)),
        !state@.approvals.contains_key(request_id) ==> (res matches Err(message) && message@
            == "审批请求已结束或未找到，请重新查看当前状态。"@),
{
    reveal_strlit("jsonrpc");
    reveal_strlit("id");
    reveal_strlit("result");
    assert("jsonrpc"@.len() == 7);
    assert("id"@.len() == 2);
    assert("result"@.len() == 6);
}

/// No more can be read after the end, a failure or a long silence, each told as such; a line tells
/// nothing of that kind.
pub proof fn law_end_of_reading_is_told(received: &Received, res: Option<String>)
    requires
        call_ensures(reading_ended, (received,), res),
    ensures
        match *received {
            Received::Line(_) => res is None,
            Received::End => res matches Some(said) && said@ == "app-server 提前退出"@,
            Received::Failed(error) => res matches Some(said) && said@
                == "读取 app-server 响应失败："@ + error@,
            Received::Timeout => res matches Some(said) && said@ == "等待 app-server 响应超时"@,
        },
{
}

/// A reply that was awaited is what came, and where none came there is an error.
pub proof fn law_awaited_reply_is_what_came(awaited: Awaited, res: Result<Json, String>)
    requires
        call_ensures(awaited_reply, (awaited,), res),
    ensures
        match awaited {
            Awaited::Reply(reply) => wire::result_json(res) == wire::result_json(reply),
            Awaited::Closed => res matches Err(said) && said@ == "app-server 响应通道已关闭"@,
            Awaited::TimedOut => res matches Err(said) && said@ == "等待 app-server 响应超时"@,
        },
{
}

/// A wait is settled by the message with the id that is waited for, with what that says, and by no
/// other message.
pub proof fn law_only_its_reply_settles_a_wait(
    value: &Json,
    wanted_id: u64,
    said: Result<Json, String>,
    res: Option<Result<Json, String>>,
)
    requires
        call_ensures(response_in, (value, wanted_id), res),
        call_ensures(reply_result, (value,), said),
    ensures
        value@.get("id"@) == Some(JsonView::Unsigned(wanted_id)) ==> opt_result_json(res) == Some(
            wire::result_json(said),
        ),
        value@.get("id"@) != Some(JsonView::Unsigned(wanted_id)) ==> res is None,
{
}

/// A line settles a wait as the message in it does, and as an error where it holds none; the end
/// of reading settles every wait with an error.
pub proof fn law_what_is_received_settles_a_wait(
    received: &Received,
    wanted_id: u64,
    value: &Json,
    by_value: Option<Result<Json, String>>,
    ended: Option<String>,
    res: Option<Result<Json, String>>,
)
    requires
        call_ensures(read_response, (received, wanted_id), res),
        call_ensures(response_in, (value, wanted_id), by_value),
        call_ensures(reading_ended, (received,), ended),
    ensures
        match *received {
            Received::Line(line) => {
                &&& wire::parsed_json(line@) == Ok::<JsonView, Seq<char>>(value@)
                    ==> opt_result_json(res) == opt_result_json(by_value)
                &&& wire::parsed_json(line@) matches Err(error) ==> opt_result_json(res) == Some(
                    Err::<JsonView, Seq<char>>(
                        "解析 app-server JSON 失败："@ + error + "; line="@ + line@,
                    ),
                )
            },
            _ => ended matches Some(said) && opt_result_json(res) == Some(
                Err::<JsonView, Seq<char>>(said@),
            ),
        },
{
}

} // verus!
