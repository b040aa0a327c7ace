//! The JSON-RPC requests and notifications that are sent to the app-server.
use vstd::prelude::*;

use crate::json;
use crate::json::{Json, JsonView};
use crate::text;
use crate::wire;

verus! {

/// How many different ids there are.
pub const ID_COUNT: u128 = 0x1_0000_0000_0000_0000;

/// The source of ids for requests and for directories of new chats.
#[derive(Debug, Clone, PartialEq, Eq)]
pub struct RequestIds {
    next: u64,
}

impl View for RequestIds {
    type V = u64;

    closed spec fn view(&self) -> u64 {
        self.next
    }
}

/// The id `steps` ids after `id`; after the largest id the count starts again at 0.
pub open spec fn later_id(id: u64, steps: nat) -> u64 {
    ((id + steps) % (ID_COUNT as int)) as u64
}

/// Among as many ids in a row as there are, no two are the same.
pub proof fn law_ids_differ(id: u64, i: nat, j: nat)
    requires
        i < j,
        j - i < ID_COUNT,
    ensures
        later_id(id, i) != later_id(id, j),
{
    let n = ID_COUNT as int;
    let a = id + i;
    let b = id + j;
    assert(a % n != b % n) by (nonlinear_arith)
        requires
            a < b,
            b - a < n,
            n > 0,
    {
        if a % n == b % n {
            assert(a == n * (a / n) + a % n);
            assert(b == n * (b / n) + b % n);
            assert(b - a == n * (b / n - a / n));
            if b / n - a / n >= 1 {
                assert(n * (b / n - a / n) >= n);
            } else {
                assert(n * (b / n - a / n) <= 0);
            }
        }
    }
    assert(0 <= a % n < n);
    assert(0 <= b % n < n);
}

/// Taking ids one at a time runs through `later_id`.
pub proof fn law_ids_in_order(id: u64, steps: nat)
    ensures
        later_id(id, 0) == id,
        later_id(later_id(id, steps), 1) == later_id(id, steps + 1),
{
    let n = ID_COUNT as int;
    assert((id + 0) % n == id) by (nonlinear_arith)
        requires
            0 <= id < n,
    ;
    let a = id + steps;
    assert((a % n + 1) % n == (a + 1) % n) by (nonlinear_arith)
        requires
            n > 1,
            a >= 0,
    {
        assert(a == n * (a / n) + a % n);
        vstd::arithmetic::div_mod::lemma_mod_multiples_vanish(a / n, a % n + 1, n);
    }
    assert(0 <= a % n < n);
}

/// Going on from a later id is going on from the first one by as much more.
pub proof fn lemma_later_still(id: u64, steps: nat, more: nat)
    ensures
        later_id(later_id(id, steps), more) == later_id(id, steps + more),
    decreases more,
{
    if more == 0 {
        law_ids_in_order(later_id(id, steps), 0);
    } else {
        let fewer = (more - 1) as nat;
        lemma_later_still(id, steps, fewer);
        law_ids_in_order(later_id(id, steps), fewer);
        law_ids_in_order(id, steps + fewer);
    }
}

impl RequestIds {
    /// Ids from 1 on.
    pub fn new() -> (res: Self)
        ensures
            res@ == 1,
    {
        RequestIds { next: 1 }
    }

    /// Takes the next id.
    pub fn take_id(&mut self) -> (id: u64)
        ensures
            id == old(self)@,
            final(self)@ == later_id(old(self)@, 1),
    {
        let id = self.next;
        if id == u64::MAX {
            self.next = 0;
        } else {
            self.next = id + 1;
        }
        id
    }
}

impl Default for RequestIds {
    fn default() -> (res: Self)
        ensures
            res@ == 1,
    {
        RequestIds::new()
    }
}

/// A JSON-RPC request.
#[derive(Debug, Clone)]
pub struct RpcRequest {
    pub jsonrpc: &'static str,
    pub id: u64,
    pub method: String,
    pub params: Option<Json>,
}

/// What a JSON-RPC request says.
pub struct RpcModel {
    pub jsonrpc: Seq<char>,
    pub id: u64,
    pub method: Seq<char>,
    pub params: Option<JsonView>,
}

impl View for RpcRequest {
    type V = RpcModel;

    open spec fn view(&self) -> RpcModel {
        RpcModel {
            jsonrpc: self.jsonrpc@,
            id: self.id,
            method: self.method@,
            params: match self.params {
                Some(params) => Some(params@),
                None => None,
            },
        }
    }
}

impl RpcModel {
    /// The message that stands for the request: `params` is left out where there are none.
    pub open spec fn message(self) -> JsonView {
        let bare = map![
            "jsonrpc"@ => JsonView::Str(self.jsonrpc),
            "id"@ => JsonView::Unsigned(self.id),
            "method"@ => JsonView::Str(self.method),
        ];
        JsonView::Object(
            match self.params {
                Some(params) => bare.insert("params"@, params),
                None => bare,
            },
        )
    }
}

/// The request `id` for `method`.
pub open spec fn rpc(id: u64, method: Seq<char>, params: Option<JsonView>) -> RpcModel {
    RpcModel { jsonrpc: "2.0"@, id, method, params }
}

/// A request with the next id.
pub fn request(ids: &mut RequestIds, method: &str, params: Option<Json>) -> (res: RpcRequest)
    ensures
        res@ == rpc(
            old(ids)@,
            method@,
            match params {
                Some(params) => Some(params@),
                None => None,
            },
        ),
        final(ids)@ == later_id(old(ids)@, 1),
{
    RpcRequest { jsonrpc: "2.0", id: ids.take_id(), method: method.to_owned(), params }
}

/// A notification: a message without an id.
pub open spec fn notice(method: Seq<char>, params: Option<JsonView>) -> JsonView {
    let bare = map!["method"@ => JsonView::Str(method)];
    JsonView::Object(
        match params {
            Some(params) => bare.insert("params"@, params),
            None => bare,
        },
    )
}

/// A notification.
pub fn notification(method: &str, params: Option<Json>) -> (res: Json)
    ensures
        res@ == notice(
            method@,
            match params {
                Some(params) => Some(params@),
                None => None,
            },
        ),
{
    let value = Json::empty_object().with("method", Json::text(method));
    match params {
        Some(params) => value.with("params", params),
        None => value,
    }
}

/// The parameters of `initialize`.
pub open spec fn initialize_params(version: Seq<char>) -> JsonView {
    JsonView::Object(
        map![
            "clientInfo"@ => JsonView::Object(map![
                "name"@ => JsonView::Str("codex-manager"@),
                "title"@ => JsonView::Str("CodexManager"@),
                "version"@ => JsonView::Str(version),
            ]),
            "capabilities"@ => JsonView::Object(map!["experimentalApi"@ => JsonView::Bool(true)]),
        ],
    )
}

/// The request that opens a connection, for the given version of this program.
pub fn initialize_request(ids: &mut RequestIds, version: &str) -> (res: RpcRequest)
    ensures
        res@ == rpc(old(ids)@, "initialize"@, Some(initialize_params(version@))),
        final(ids)@ == later_id(old(ids)@, 1),
{
    let info = Json::empty_object().with("name", Json::text("codex-manager")).with(
        "title",
        Json::text("CodexManager"),
    ).with("version", Json::text(version));
    let capabilities = Json::empty_object().with("experimentalApi", Json::Bool(true));
    let params = Json::empty_object().with("clientInfo", info).with("capabilities", capabilities);
    request(ids, "initialize", Some(params))
}

/// The notification that follows a successful `initialize`.
pub fn initialized_notification() -> (res: Json)
    ensures
        res@ == notice("initialized"@, Some(JsonView::Object(Map::empty()))),
{
    notification("initialized", Some(Json::empty_object()))
}

/// The limit that is asked for: 25 in place of 0.
pub open spec fn limit_or_default(limit: usize) -> usize {
    if limit == 0 {
        25
    } else {
        limit
    }
}

/// The limit that is asked for.
pub fn normalize_limit(limit: usize) -> (res: usize)
    ensures
        res == limit_or_default(limit),
{
    if limit == 0 {
        25
    } else {
        limit
    }
}

/// The parameters of `thread/list`.
pub open spec fn thread_list_params(limit: usize) -> JsonView {
    JsonView::Object(
        map![
            "limit"@ => JsonView::Unsigned(limit_or_default(limit) as u64),
            "sortKey"@ => JsonView::Str("updated_at"@),
            "sortDirection"@ => JsonView::Str("desc"@),
        ],
    )
}

/// Asks for the threads, the most recently updated first.
pub fn thread_list_request(ids: &mut RequestIds, limit: usize) -> (res: RpcRequest)
    ensures
        res@ == rpc(old(ids)@, "thread/list"@, Some(thread_list_params(limit))),
        final(ids)@ == later_id(old(ids)@, 1),
{
    let params = Json::empty_object().with(
        "limit",
        Json::Unsigned(normalize_limit(limit) as u64),
    ).with("sortKey", Json::text("updated_at")).with("sortDirection", Json::text("desc"));
    request(ids, "thread/list", Some(params))
}

/// The parameters of `thread/read`.
pub open spec fn thread_read_params(thread_id: Seq<char>, include_turns: bool) -> JsonView {
    JsonView::Object(
        map![
            "threadId"@ => JsonView::Str(thread_id),
            "includeTurns"@ => JsonView::Bool(include_turns),
        ],
    )
}

/// Asks for one thread.
pub fn thread_read_request(ids: &mut RequestIds, thread_id: &str, include_turns: bool) -> (res:
    RpcRequest)
    ensures
        res@ == rpc(
            old(ids)@,
            "thread/read"@,
            Some(thread_read_params(thread_id@, include_turns)),
        ),
        final(ids)@ == later_id(old(ids)@, 1),
{
    let params = Json::empty_object().with("threadId", Json::text(thread_id)).with(
        "includeTurns",
        Json::Bool(include_turns),
    );
    request(ids, "thread/read", Some(params))
}

/// The parameters that give a thread full access.
pub open spec fn full_access_params() -> Map<Seq<char>, JsonView> {
    map![
        "approvalPolicy"@ => JsonView::Str("never"@),
        "sandbox"@ => JsonView::Str("danger-full-access"@),
    ]
}

/// The parameters that give a thread full access.
pub fn full_access_thread_params() -> (res: Json)
    ensures
        res@ == JsonView::Object(full_access_params()),
{
    Json::empty_object().with("approvalPolicy", Json::text("never")).with(
        "sandbox",
        Json::text("danger-full-access"),
    )
}

/// `params` with a working directory, where one is given that is not blank.
pub open spec fn with_cwd(params: Map<Seq<char>, JsonView>, cwd: Option<Seq<char>>) -> JsonView {
    JsonView::Object(
        match cwd {
            Some(cwd) => if text::trim(cwd).len() > 0 {
                params.insert("cwd"@, JsonView::Str(cwd))
            } else {
                params
            },
            None => params,
        },
    )
}

/// Adds a working directory to the parameters of a request.
fn add_cwd(params: Json, cwd: Option<&str>) -> (res: Json)
    requires
        params@ is Object,
    ensures
        res@ == with_cwd(params@->Object_0, text::opt_str(cwd)),
{
    match cwd {
        Some(cwd) => {
            if text::trimmed(cwd).is_empty() {
                params
            } else {
                params.with("cwd", Json::text(cwd))
            }
        },
        None => params,
    }
}

/// Asks for a new thread.
pub fn thread_start_request(ids: &mut RequestIds, cwd: Option<&str>) -> (res: RpcRequest)
    ensures
        res@ == rpc(
            old(ids)@,
            "thread/start"@,
            Some(with_cwd(full_access_params(), text::opt_str(cwd))),
        ),
        final(ids)@ == later_id(old(ids)@, 1),
{
    request(ids, "thread/start", Some(add_cwd(full_access_thread_params(), cwd)))
}

/// The input of a turn: one piece of text.
pub open spec fn text_input(prompt: Seq<char>) -> JsonView {
    JsonView::Array(
        seq![
            JsonView::Object(map![
                "type"@ => JsonView::Str("text"@),
                "text"@ => JsonView::Str(prompt),
            ]),
        ],
    )
}

/// The input of a turn.
fn text_input_json(prompt: &str) -> (res: Json)
    ensures
        res@ == text_input(prompt@),
{
    let piece = Json::empty_object().with("type", Json::text("text")).with(
        "text",
        Json::text(prompt),
    );
    let ghost view = piece@;
    let mut items: Vec<Json> = Vec::new();
    items.push(piece);
    assert(crate::json::array_view(items@) =~= seq![view]);
    Json::Array(items)
}

/// The parameters of `turn/start`, without a working directory.
pub open spec fn turn_start_params(thread_id: Seq<char>, prompt: Seq<char>) -> Map<
    Seq<char>,
    JsonView,
> {
    map![
        "threadId"@ => JsonView::Str(thread_id),
        "input"@ => text_input(prompt),
        "approvalPolicy"@ => JsonView::Str("never"@),
        "sandboxPolicy"@ => JsonView::Object(map!["type"@ => JsonView::Str("dangerFullAccess"@)]),
    ]
}

/// Asks for a turn with the given prompt.
pub fn turn_start_request(
    ids: &mut RequestIds,
    thread_id: &str,
    prompt: &str,
    cwd: Option<&str>,
) -> (res: RpcRequest)
    ensures
        res@ == rpc(
            old(ids)@,
            "turn/start"@,
            Some(with_cwd(turn_start_params(thread_id@, prompt@), text::opt_str(cwd))),
        ),
        final(ids)@ == later_id(old(ids)@, 1),
{
    let policy = Json::empty_object().with("type", Json::text("dangerFullAccess"));
    let params = Json::empty_object().with("threadId", Json::text(thread_id)).with(
        "input",
        text_input_json(prompt),
    ).with("approvalPolicy", Json::text("never")).with("sandboxPolicy", policy);
    request(ids, "turn/start", Some(add_cwd(params, cwd)))
}

/// The parameters of `turn/interrupt`.
pub open spec fn turn_interrupt_params(thread_id: Seq<char>, turn_id: Seq<char>) -> JsonView {
    JsonView::Object(
        map!["threadId"@ => JsonView::Str(thread_id), "turnId"@ => JsonView::Str(turn_id)],
    )
}

/// Asks for a turn to be interrupted.
pub fn turn_interrupt_request(ids: &mut RequestIds, thread_id: &str, turn_id: &str) -> (res:
    RpcRequest)
    ensures
        res@ == rpc(
            old(ids)@,
            "turn/interrupt"@,
            Some(turn_interrupt_params(thread_id@, turn_id@)),
        ),
        final(ids)@ == later_id(old(ids)@, 1),
{
    let params = Json::empty_object().with("threadId", Json::text(thread_id)).with(
        "turnId",
        Json::text(turn_id),
    );
    request(ids, "turn/interrupt", Some(params))
}

/// The parameters of `turn/steer`.
pub open spec fn turn_steer_params(
    thread_id: Seq<char>,
    turn_id: Seq<char>,
    prompt: Seq<char>,
) -> JsonView {
    JsonView::Object(
        map![
            "threadId"@ => JsonView::Str(thread_id),
            "expectedTurnId"@ => JsonView::Str(turn_id),
            "input"@ => text_input(prompt),
        ],
    )
}

/// Sends more input to a running turn.
pub fn turn_steer_request(
    ids: &mut RequestIds,
    thread_id: &str,
    turn_id: &str,
    prompt: &str,
) -> (res: RpcRequest)
    ensures
        res@ == rpc(
            old(ids)@,
            "turn/steer"@,
            Some(turn_steer_params(thread_id@, turn_id@, prompt@)),
        ),
        final(ids)@ == later_id(old(ids)@, 1),
{
    let params = Json::empty_object().with("threadId", Json::text(thread_id)).with(
        "expectedTurnId",
        Json::text(turn_id),
    ).with("input", text_input_json(prompt));
    request(ids, "turn/steer", Some(params))
}

/// The parameters of `thread/rollback`: at least one turn is dropped.
pub open spec fn thread_rollback_params(thread_id: Seq<char>, num_turns: usize) -> JsonView {
    JsonView::Object(
        map![
            "threadId"@ => JsonView::Str(thread_id),
            "numTurns"@ => JsonView::Unsigned(if num_turns == 0 { 1 } else { num_turns as u64 }),
        ],
    )
}

/// Asks for the last turns of a thread to be dropped.
pub fn thread_rollback_request(ids: &mut RequestIds, thread_id: &str, num_turns: usize) -> (res:
    RpcRequest)
    ensures
        res@ == rpc(
            old(ids)@,
            "thread/rollback"@,
            Some(thread_rollback_params(thread_id@, num_turns)),
        ),
        final(ids)@ == later_id(old(ids)@, 1),
{
    let turns: u64 = if num_turns == 0 {
        1
    } else {
        num_turns as u64
    };
    let params = Json::empty_object().with("threadId", Json::text(thread_id)).with(
        "numTurns",
        Json::Unsigned(turns),
    );
    request(ids, "thread/rollback", Some(params))
}

/// The parameters of `thread/turns/list`: a cursor is sent trimmed, and only if it is not blank.
pub open spec fn thread_turns_list_params(
    thread_id: Seq<char>,
    cursor: Option<Seq<char>>,
    limit: usize,
    sort_direction: Seq<char>,
) -> JsonView {
    let bare = map![
        "threadId"@ => JsonView::Str(thread_id),
        "limit"@ => JsonView::Unsigned(limit_or_default(limit) as u64),
        "sortDirection"@ => JsonView::Str(sort_direction),
    ];
    JsonView::Object(
        match cursor {
            Some(cursor) => if text::trim(cursor).len() > 0 {
                bare.insert("cursor"@, JsonView::Str(text::trim(cursor)))
            } else {
                bare
            },
            None => bare,
        },
    )
}

/// Asks for the turns of a thread.
pub fn thread_turns_list_request(
    ids: &mut RequestIds,
    thread_id: &str,
    cursor: Option<&str>,
    limit: usize,
    sort_direction: &str,
) -> (res: RpcRequest)
    ensures
        res@ == rpc(
            old(ids)@,
            "thread/turns/list"@,
            Some(
                thread_turns_list_params(
                    thread_id@,
                    text::opt_str(cursor),
                    limit,
                    sort_direction@,
                ),
            ),
        ),
        final(ids)@ == later_id(old(ids)@, 1),
{
    let params = Json::empty_object().with("threadId", Json::text(thread_id)).with(
        "limit",
        Json::Unsigned(normalize_limit(limit) as u64),
    ).with("sortDirection", Json::text(sort_direction));
    let params = match cursor {
        Some(cursor) => {
            let cursor = text::trimmed(cursor);
            if cursor.is_empty() {
                params
            } else {
                params.with("cursor", Json::text(cursor))
            }
        },
        None => params,
    };
    request(ids, "thread/turns/list", Some(params))
}

/// Asks for a thread to be loaded again.
pub fn thread_resume_request(ids: &mut RequestIds, thread_id: &str) -> (res: RpcRequest)
    ensures
        res@ == rpc(
            old(ids)@,
            "thread/resume"@,
            Some(
                JsonView::Object(
                    full_access_params().insert("threadId"@, JsonView::Str(thread_id@)),
                ),
            ),
        ),
        final(ids)@ == later_id(old(ids)@, 1),
{
    let params = full_access_thread_params().with("threadId", Json::text(thread_id));
    request(ids, "thread/resume", Some(params))
}

/// Asks for a thread to be archived.
pub fn thread_archive_request(ids: &mut RequestIds, thread_id: &str) -> (res: RpcRequest)
    ensures
        res@ == rpc(
            old(ids)@,
            "thread/archive"@,
            Some(JsonView::Object(map!["threadId"@ => JsonView::Str(thread_id@)])),
        ),
        final(ids)@ == later_id(old(ids)@, 1),
{
    request(
        ids,
        "thread/archive",
        Some(Json::empty_object().with("threadId", Json::text(thread_id))),
    )
}

/// Asks for the rate limits of the account.
pub fn account_rate_limits_request(ids: &mut RequestIds) -> (res: RpcRequest)
    ensures
        res@ == rpc(
            old(ids)@,
            "account/rateLimits/read"@,
            Some(JsonView::Object(Map::empty())),
        ),
        final(ids)@ == later_id(old(ids)@, 1),
{
    request(ids, "account/rateLimits/read", Some(Json::empty_object()))
}

impl RpcRequest {
    /// The message that stands for the request.
    pub fn to_json(self) -> (res: Json)
        ensures
            res@ == self@.message(),
    {
        let value = Json::empty_object().with("jsonrpc", Json::text(self.jsonrpc)).with(
            "id",
            Json::Unsigned(self.id),
        ).with("method", Json::text(self.method.as_str()));
        match self.params {
            Some(params) => value.with("params", params),
            None => value,
        }
    }
}

/// The line that carries a message; the line break after it is not part of it. Every message
/// has one.
pub fn message_line(message: &Json) -> (res: Result<String, String>)
    ensures
        res matches Ok(line) && line@ == wire::encoded_json(message@),
        res matches Ok(line) ==> !line@.contains('\n'),
        res matches Ok(line) ==> wire::is_plain(message@, wire::READABLE_DEPTH as nat)
            ==> wire::reads_as(line@, message@),
{
    match wire::encode_json(message) {
        Ok(line) => Ok(line),
        Err(error) => Err(text::cat("编码 JSON-RPC 失败：", error.as_str())),
    }
}

// ---------------------------------------------------------------------------
// Laws
// ---------------------------------------------------------------------------

/// Ids count up by one, and start again at 0 after the largest.
pub proof fn law_ids_count_up(ids: &mut RequestIds, id: u64)
    requires
        call_ensures(RequestIds::take_id, (ids,), id),
    ensures
        id == old(ids)@,
        id < u64::MAX ==> final(ids)@ == id + 1,
        id == u64::MAX ==> final(ids)@ == 0,
{
    let n = ID_COUNT as int;
    if id < u64::MAX {
        assert((id + 1) % n == id + 1) by (nonlinear_arith)
            requires
                0 <= id + 1 < n,
        ;
    } else {
        assert(n % n == 0) by (nonlinear_arith)
            requires
                n > 0,
        ;
        assert(id + 1 == n);
    }
}

/// A request is a message with the version of the protocol, its id and its method, and with its
/// parameters where it has any; nothing else is in it.
pub proof fn law_request_becomes_its_message(request: RpcRequest, res: Json)
    requires
        call_ensures(RpcRequest::to_json, (request,), res),
    ensures
        res@.get("jsonrpc"@) == Some(JsonView::Str(request@.jsonrpc)),
        res@.get("id"@) == Some(JsonView::Unsigned(request@.id)),
        res@.get("method"@) == Some(JsonView::Str(request@.method)),
        res@.get("params"@) == request@.params,
        json::has_only(res@, set!["jsonrpc"@, "id"@, "method"@, "params"@]),
{
    reveal_strlit("jsonrpc");
    reveal_strlit("id");
    reveal_strlit("method");
    reveal_strlit("params");
    assert("jsonrpc"@.len() == 7);
    assert("id"@.len() == 2);
    assert("method"@.len() == 6);
    assert("params"@.len() == 6);
    assert("method"@[0] == 'm');
    assert("params"@[0] == 'p');
}

/// A request has the next id, its method and its parameters as they are given.
pub proof fn law_request_is_made_of_what_is_given(
    ids: &mut RequestIds,
    method: &str,
    params: Option<Json>,
    res: RpcRequest,
)
    requires
        call_ensures(request, (ids, method, params), res),
    ensures
        res@.jsonrpc == "2.0"@,
        res@.id == old(ids)@,
        res@.method == method@,
        params matches Some(given) ==> res@.params == Some(given@),
        params is None ==> res@.params is None,
        final(ids)@ == later_id(old(ids)@, 1),
{
}

/// A notification has a method, its parameters where there are any, and no id.
pub proof fn law_notification_has_no_id(method: &str, params: Option<Json>, res: Json)
    requires
        call_ensures(notification, (method, params), res),
    ensures
        res@.get("method"@) == Some(JsonView::Str(method@)),
        params matches Some(given) ==> res@.get("params"@) == Some(given@),
        params is None ==> res@.get("params"@) is None,
        json::has_only(res@, set!["method"@, "params"@]),
        res@.get("id"@) is None,
{
    reveal_strlit("method");
    reveal_strlit("params");
    reveal_strlit("id");
    assert("method"@.len() == 6);
    assert("params"@.len() == 6);
    assert("id"@.len() == 2);
    assert("method"@[0] == 'm');
    assert("params"@[0] == 'p');
}

/// A connection is opened in the name of this program and of its version.
pub proof fn law_initialize_names_the_client(ids: &mut RequestIds, version: &str, res: RpcRequest)
    requires
        call_ensures(initialize_request, (ids, version), res),
    ensures
        res@.method == "initialize"@,
        res@.id == old(ids)@,
        res@.params is Some,
        ({
            let info = json::member(res@.params, "clientInfo"@);
            let capabilities = json::member(res@.params, "capabilities"@);
            &&& json::member(info, "name"@) == Some(JsonView::Str("codex-manager"@))
            &&& json::member(info, "title"@) == Some(JsonView::Str("CodexManager"@))
            &&& json::member(info, "version"@) == Some(JsonView::Str(version@))
            &&& json::member(capabilities, "experimentalApi"@) == Some(JsonView::Bool(true))
        }),
        json::has_only(res@.params->0, set!["clientInfo"@, "capabilities"@]),
{
    reveal_strlit("clientInfo");
    reveal_strlit("capabilities");
    reveal_strlit("name");
    reveal_strlit("title");
    reveal_strlit("version");
    reveal_strlit("experimentalApi");
    assert("clientInfo"@.len() == 10);
    assert("capabilities"@.len() == 12);
    assert("name"@.len() == 4);
    assert("title"@.len() == 5);
    assert("version"@.len() == 7);
    assert("experimentalApi"@.len() == 15);
}

/// A successful `initialize` is confirmed by a notification without content.
pub proof fn law_initialize_is_confirmed(res: Json)
    requires
        call_ensures(initialized_notification, (), res),
    ensures
        res@.get("method"@) == Some(JsonView::Str("initialized"@)),
        res@.get("params"@) == Some(JsonView::Object(Map::empty())),
        res@.get("id"@) is None,
{
    reveal_strlit("method");
    reveal_strlit("params");
    reveal_strlit("id");
    assert("method"@.len() == 6);
    assert("params"@.len() == 6);
    assert("id"@.len() == 2);
    assert("method"@[0] == 'm');
    assert("params"@[0] == 'p');
}

/// A limit that is asked for is kept, and is never none.
pub proof fn law_limit_is_kept(limit: usize, res: usize)
    requires
        call_ensures(normalize_limit, (limit,), res),
    ensures
        limit > 0 ==> res == limit,
        limit == 0 ==> res == 25,
{
}

/// Threads are listed as many as asked for, the most recently updated first.
pub proof fn law_threads_are_listed_newest_first(ids: &mut RequestIds, limit: usize, res: RpcRequest)
    requires
        call_ensures(thread_list_request, (ids, limit), res),
    ensures
        res@.method == "thread/list"@,
        res@.id == old(ids)@,
        res@.params is Some,
        json::member(res@.params, "limit"@) == Some(
            JsonView::Unsigned(if limit == 0 { 25 } else { limit as u64 }),
        ),
        json::member(res@.params, "sortKey"@) == Some(JsonView::Str("updated_at"@)),
        json::member(res@.params, "sortDirection"@) == Some(JsonView::Str("desc"@)),
        json::has_only(res@.params->0, set!["limit"@, "sortKey"@, "sortDirection"@]),
{
    reveal_strlit("limit");
    reveal_strlit("sortKey");
    reveal_strlit("sortDirection");
    assert("limit"@.len() == 5);
    assert("sortKey"@.len() == 7);
    assert("sortDirection"@.len() == 13);
}

/// Reading a thread names the thread, and says whether its turns are wanted.
pub proof fn law_read_names_the_thread(
    ids: &mut RequestIds,
    thread_id: &str,
    include_turns: bool,
    res: RpcRequest,
)
    requires
        call_ensures(thread_read_request, (ids, thread_id, include_turns), res),
    ensures
        res@.method == "thread/read"@,
        res@.id == old(ids)@,
        res@.params is Some,
        json::member(res@.params, "threadId"@) == Some(JsonView::Str(thread_id@)),
        json::member(res@.params, "includeTurns"@) == Some(JsonView::Bool(include_turns)),
        json::has_only(res@.params->0, set!["threadId"@, "includeTurns"@]),
{
    reveal_strlit("threadId");
    reveal_strlit("includeTurns");
    assert("threadId"@.len() == 8);
    assert("includeTurns"@.len() == 12);
}

/// A new thread gets full access, and the working directory as it is given, where that is not
/// blank; it has no id yet.
pub proof fn law_new_thread_gets_its_directory(
    ids: &mut RequestIds,
    cwd: Option<&str>,
    res: RpcRequest,
)
    requires
        call_ensures(thread_start_request, (ids, cwd), res),
    ensures
        res@.method == "thread/start"@,
        res@.id == old(ids)@,
        res@.params is Some,
        json::member(res@.params, "approvalPolicy"@) == Some(JsonView::Str("never"@)),
        json::member(res@.params, "sandbox"@) == Some(JsonView::Str("danger-full-access"@)),
        match cwd {
            Some(cwd) => if text::is_blank(cwd@) {
                json::member(res@.params, "cwd"@) is None
            } else {
                json::member(res@.params, "cwd"@) == Some(JsonView::Str(cwd@))
            },
            None => json::member(res@.params, "cwd"@) is None,
        },
        json::has_only(res@.params->0, set!["approvalPolicy"@, "sandbox"@, "cwd"@]),
{
    reveal_strlit("approvalPolicy");
    reveal_strlit("sandbox");
    reveal_strlit("cwd");
    assert("approvalPolicy"@.len() == 14);
    assert("sandbox"@.len() == 7);
    assert("cwd"@.len() == 3);
    if let Some(cwd) = cwd {
        text::lemma_trim_blank(cwd@);
    }
}

/// A turn is asked for in the given thread, with the prompt as it is given as its one piece of
/// input, with full access, and in the working directory as it is given, where that is not blank.
pub proof fn law_turn_start_carries_the_prompt(
    ids: &mut RequestIds,
    thread_id: &str,
    prompt: &str,
    cwd: Option<&str>,
    res: RpcRequest,
)
    requires
        call_ensures(turn_start_request, (ids, thread_id, prompt, cwd), res),
    ensures
        res@.method == "turn/start"@,
        res@.id == old(ids)@,
        res@.params is Some,
        json::member(res@.params, "threadId"@) == Some(JsonView::Str(thread_id@)),
        json::member(res@.params, "input"@) matches Some(JsonView::Array(items)) && {
            &&& items.len() == 1
            &&& items[0] is Object
            &&& items[0].get("type"@) == Some(JsonView::Str("text"@))
            &&& items[0].get("text"@) == Some(JsonView::Str(prompt@))
            &&& json::has_only(items[0], set!["type"@, "text"@])
        },
        json::member(res@.params, "approvalPolicy"@) == Some(JsonView::Str("never"@)),
        json::member(json::member(res@.params, "sandboxPolicy"@), "type"@) == Some(
            JsonView::Str("dangerFullAccess"@),
        ),
        match cwd {
            Some(cwd) => if text::is_blank(cwd@) {
                json::member(res@.params, "cwd"@) is None
            } else {
                json::member(res@.params, "cwd"@) == Some(JsonView::Str(cwd@))
            },
            None => json::member(res@.params, "cwd"@) is None,
        },
        json::has_only(
            res@.params->0,
            set!["threadId"@, "input"@, "approvalPolicy"@, "sandboxPolicy"@, "cwd"@],
        ),
{
    reveal_strlit("threadId");
    reveal_strlit("input");
    reveal_strlit("approvalPolicy");
    reveal_strlit("sandboxPolicy");
    reveal_strlit("cwd");
    reveal_strlit("type");
    reveal_strlit("text");
    assert("threadId"@.len() == 8);
    assert("input"@.len() == 5);
    assert("approvalPolicy"@.len() == 14);
    assert("sandboxPolicy"@.len() == 13);
    assert("cwd"@.len() == 3);
    assert("type"@.len() == 4);
    assert("text"@.len() == 4);
    assert("type"@[1] == 'y');
    assert("text"@[1] == 'e');
    if let Some(cwd) = cwd {
        text::lemma_trim_blank(cwd@);
    }
}

/// Requests for turns with different prompts differ, and so do those for different threads,
/// whatever else is the same.
pub proof fn law_turn_starts_keep_apart(
    a_ids: &mut RequestIds,
    a_thread: &str,
    a_prompt: &str,
    a_cwd: Option<&str>,
    a: RpcRequest,
    b_ids: &mut RequestIds,
    b_thread: &str,
    b_prompt: &str,
    b_cwd: Option<&str>,
    b: RpcRequest,
)
    requires
        call_ensures(turn_start_request, (a_ids, a_thread, a_prompt, a_cwd), a),
        call_ensures(turn_start_request, (b_ids, b_thread, b_prompt, b_cwd), b),
        a_prompt@ != b_prompt@ || a_thread@ != b_thread@,
    ensures
        a@.params != b@.params,
{
    law_turn_start_carries_the_prompt(a_ids, a_thread, a_prompt, a_cwd, a);
    law_turn_start_carries_the_prompt(b_ids, b_thread, b_prompt, b_cwd, b);
}

/// Interrupting names the thread and the turn, each as what it is.
pub proof fn law_interrupt_names_the_turn(
    ids: &mut RequestIds,
    thread_id: &str,
    turn_id: &str,
    res: RpcRequest,
)
    requires
        call_ensures(turn_interrupt_request, (ids, thread_id, turn_id), res),
    ensures
        res@.method == "turn/interrupt"@,
        res@.id == old(ids)@,
        res@.params is Some,
        json::member(res@.params, "threadId"@) == Some(JsonView::Str(thread_id@)),
        json::member(res@.params, "turnId"@) == Some(JsonView::Str(turn_id@)),
        json::has_only(res@.params->0, set!["threadId"@, "turnId"@]),
{
    reveal_strlit("threadId");
    reveal_strlit("turnId");
    assert("threadId"@.len() == 8);
    assert("turnId"@.len() == 6);
}

/// More input for a turn goes to that turn of that thread, and is the prompt as it is given.
pub proof fn law_steering_carries_the_prompt(
    ids: &mut RequestIds,
    thread_id: &str,
    turn_id: &str,
    prompt: &str,
    res: RpcRequest,
)
    requires
        call_ensures(turn_steer_request, (ids, thread_id, turn_id, prompt), res),
    ensures
        res@.method == "turn/steer"@,
        res@.id == old(ids)@,
        res@.params is Some,
        json::member(res@.params, "threadId"@) == Some(JsonView::Str(thread_id@)),
        json::member(res@.params, "expectedTurnId"@) == Some(JsonView::Str(turn_id@)),
        json::member(res@.params, "input"@) matches Some(JsonView::Array(items)) && {
            &&& items.len() == 1
            &&& items[0] is Object
            &&& items[0].get("type"@) == Some(JsonView::Str("text"@))
            &&& items[0].get("text"@) == Some(JsonView::Str(prompt@))
            &&& json::has_only(items[0], set!["type"@, "text"@])
        },
        json::has_only(res@.params->0, set!["threadId"@, "expectedTurnId"@, "input"@]),
{
    reveal_strlit("threadId");
    reveal_strlit("expectedTurnId");
    reveal_strlit("input");
    reveal_strlit("type");
    reveal_strlit("text");
    assert("threadId"@.len() == 8);
    assert("expectedTurnId"@.len() == 14);
    assert("input"@.len() == 5);
    assert("type"@.len() == 4);
    assert("text"@.len() == 4);
    assert("type"@[1] == 'y');
    assert("text"@[1] == 'e');
}

/// As many turns as asked for are dropped from the thread, and never none.
pub proof fn law_rollback_drops_as_many_as_asked(
    ids: &mut RequestIds,
    thread_id: &str,
    num_turns: usize,
    res: RpcRequest,
)
    requires
        call_ensures(thread_rollback_request, (ids, thread_id, num_turns), res),
    ensures
        res@.method == "thread/rollback"@,
        res@.id == old(ids)@,
        res@.params is Some,
        json::member(res@.params, "threadId"@) == Some(JsonView::Str(thread_id@)),
        json::member(res@.params, "numTurns"@) matches Some(JsonView::Unsigned(n)) && n >= 1 && (
        num_turns >= 1 ==> n == num_turns) && n <= num_turns + 1,
        json::has_only(res@.params->0, set!["threadId"@, "numTurns"@]),
{
    reveal_strlit("threadId");
    reveal_strlit("numTurns");
    assert("threadId"@.len() == 8);
    assert("numTurns"@.len() == 8);
    assert("threadId"@[0] == 't');
    assert("numTurns"@[0] == 'n');
}

/// The turns of the given thread are asked for, as many and in the order asked for, from the
/// cursor on, where that is not blank.
pub proof fn law_turns_are_listed_from_the_cursor(
    ids: &mut RequestIds,
    thread_id: &str,
    cursor: Option<&str>,
    limit: usize,
    sort_direction: &str,
    res: RpcRequest,
)
    requires
        call_ensures(
            thread_turns_list_request,
            (ids, thread_id, cursor, limit, sort_direction),
            res,
        ),
    ensures
        res@.method == "thread/turns/list"@,
        res@.id == old(ids)@,
        res@.params is Some,
        json::member(res@.params, "threadId"@) == Some(JsonView::Str(thread_id@)),
        json::member(res@.params, "limit"@) == Some(
            JsonView::Unsigned(if limit == 0 { 25 } else { limit as u64 }),
        ),
        json::member(res@.params, "sortDirection"@) == Some(JsonView::Str(sort_direction@)),
        match cursor {
            Some(cursor) => if text::is_blank(cursor@) {
                json::member(res@.params, "cursor"@) is None
            } else {
                json::member(res@.params, "cursor"@) == Some(JsonView::Str(text::trim(cursor@)))
            },
            None => json::member(res@.params, "cursor"@) is None,
        },
        json::has_only(res@.params->0, set!["threadId"@, "limit"@, "sortDirection"@, "cursor"@]),
{
    reveal_strlit("threadId");
    reveal_strlit("limit");
    reveal_strlit("sortDirection");
    reveal_strlit("cursor");
    assert("threadId"@.len() == 8);
    assert("limit"@.len() == 5);
    assert("sortDirection"@.len() == 13);
    assert("cursor"@.len() == 6);
    if let Some(cursor) = cursor {
        text::lemma_trim_blank(cursor@);
    }
}

/// Loading a thread again names it, and gives it full access again.
pub proof fn law_resuming_names_the_thread(ids: &mut RequestIds, thread_id: &str, res: RpcRequest)
    requires
        call_ensures(thread_resume_request, (ids, thread_id), res),
    ensures
        res@.method == "thread/resume"@,
        res@.id == old(ids)@,
        res@.params is Some,
        json::member(res@.params, "threadId"@) == Some(JsonView::Str(thread_id@)),
        json::member(res@.params, "approvalPolicy"@) == Some(JsonView::Str("never"@)),
        json::member(res@.params, "sandbox"@) == Some(JsonView::Str("danger-full-access"@)),
        json::has_only(res@.params->0, set!["threadId"@, "approvalPolicy"@, "sandbox"@]),
{
    reveal_strlit("threadId");
    reveal_strlit("approvalPolicy");
    reveal_strlit("sandbox");
    assert("threadId"@.len() == 8);
    assert("approvalPolicy"@.len() == 14);
    assert("sandbox"@.len() == 7);
}

/// Archiving names the thread.
pub proof fn law_archiving_names_the_thread(ids: &mut RequestIds, thread_id: &str, res: RpcRequest)
    requires
        call_ensures(thread_archive_request, (ids, thread_id), res),
    ensures
        res@.method == "thread/archive"@,
        res@.id == old(ids)@,
        res@.params is Some,
        json::member(res@.params, "threadId"@) == Some(JsonView::Str(thread_id@)),
        json::has_only(res@.params->0, set!["threadId"@]),
{
}

/// The rate limits are asked for without parameters of any kind.
pub proof fn law_rate_limits_are_asked_for(ids: &mut RequestIds, res: RpcRequest)
    requires
        call_ensures(account_rate_limits_request, (ids,), res),
    ensures
        res@.method == "account/rateLimits/read"@,
        res@.id == old(ids)@,
        res@.params == Some(JsonView::Object(Map::empty())),
{
}

/// A message goes out on one line, and a plain message is read from that line as it is.
pub proof fn law_line_carries_the_message(
    message: &Json,
    res: Result<String, String>,
    line: &str,
    back: Result<Json, String>,
)
    requires
        call_ensures(message_line, (message,), res),
        res matches Ok(text) ==> line@ == text@,
        call_ensures(wire::parse_json, (line,), back),
        wire::is_plain(message@, 127),
    ensures
        res matches Ok(text) && !text@.contains('\n'),
        back matches Ok(value) && value@ == message@,
{
}

/// Full access is asked for with no approval and no sandbox, and with nothing else.
pub proof fn law_full_access_is_asked_for(res: Json)
    requires
        call_ensures(full_access_thread_params, (), res),
    ensures
        res@.get("approvalPolicy"@) == Some(JsonView::Str("never"@)),
        res@.get("sandbox"@) == Some(JsonView::Str("danger-full-access"@)),
        json::has_only(res@, set!["approvalPolicy"@, "sandbox"@]),
{
    reveal_strlit("approvalPolicy");
    reveal_strlit("sandbox");
    assert("approvalPolicy"@.len() == 14);
    assert("sandbox"@.len() == 7);
}

} // verus!
