//! Requests that the app-server makes of its client: which are put to a person, which are
//! answered at once, and what the answers say.
use vstd::prelude::*;

use crate::app_server::usage;
use crate::json;
use crate::json::{Json, JsonView};
use crate::text;

verus! {

/// A request for approval that has not been resolved yet.
#[derive(Debug, Clone)]
pub struct PendingApprovalRequest {
    pub method: String,
    pub permissions: Option<Json>,
}

/// What a `PendingApprovalRequest` says.
pub struct ApprovalModel {
    pub method: Seq<char>,
    pub permissions: Option<JsonView>,
}

impl View for PendingApprovalRequest {
    type V = ApprovalModel;

    open spec fn view(&self) -> ApprovalModel {
        ApprovalModel {
            method: self.method@,
            permissions: match self.permissions {
                Some(permissions) => Some(permissions@),
                None => None,
            },
        }
    }
}

/// Whether requests of this method are put to a person.
pub open spec fn needs_approval(method: Seq<char>) -> bool {
    ||| method == "item/commandExecution/requestApproval"@
    ||| method == "item/fileChange/requestApproval"@
    ||| method == "item/permissions/requestApproval"@
}

/// Tells whether requests of this method are put to a person.
pub fn is_approval_request_method(method: &str) -> (res: bool)
    ensures
        res == needs_approval(method@),
{
    text::eq(method, "item/commandExecution/requestApproval") || text::eq(
        method,
        "item/fileChange/requestApproval",
    ) || text::eq(method, "item/permissions/requestApproval")
}

/// A reply with a result.
pub open spec fn response(id: u64, result: JsonView) -> JsonView {
    JsonView::Object(
        map![
            "jsonrpc"@ => JsonView::Str("2.0"@),
            "id"@ => JsonView::Unsigned(id),
            "result"@ => result,
        ],
    )
}

/// A reply with a result.
pub fn server_request_response(id: u64, result: Json) -> (res: Json)
    ensures
        res@ == response(id, result@),
{
    Json::empty_object().with("jsonrpc", Json::text("2.0")).with("id", Json::Unsigned(id)).with(
        "result",
        result,
    )
}

/// A reply with an error.
pub open spec fn error_response(id: u64, code: int, message: Seq<char>) -> JsonView {
    JsonView::Object(
        map![
            "jsonrpc"@ => JsonView::Str("2.0"@),
            "id"@ => JsonView::Unsigned(id),
            "error"@ => JsonView::Object(map![
                "code"@ => json::integer_view(code),
                "message"@ => JsonView::Str(message),
            ]),
        ],
    )
}

/// A reply with an error.
pub fn server_request_error_response(id: u64, code: i64, message: &str) -> (res: Json)
    ensures
        res@ == error_response(id, code as int, message@),
{
    let error = Json::empty_object().with("code", Json::integer(code)).with(
        "message",
        Json::text(message),
    );
    Json::empty_object().with("jsonrpc", Json::text("2.0")).with("id", Json::Unsigned(id)).with(
        "error",
        error,
    )
}

/// The reply to a request that is answered without asking anyone.
pub open spec fn automatic_response(id: u64, method: Seq<char>) -> Option<JsonView> {
    if method == "item/tool/requestUserInput"@ {
        Some(
            response(id, JsonView::Object(map!["answers"@ => JsonView::Object(Map::empty())])),
        )
    } else if method == "mcpServer/elicitation/request"@ {
        Some(
            response(
                id,
                JsonView::Object(
                    map![
                        "action"@ => JsonView::Str("cancel"@),
                        "content"@ => JsonView::Null,
                        "_meta"@ => JsonView::Null,
                    ],
                ),
            ),
        )
    } else if method == "item/tool/call"@ {
        Some(
            response(
                id,
                JsonView::Object(
                    map![
                        "contentItems"@ => JsonView::Array(seq![
                            JsonView::Object(map![
                                "type"@ => JsonView::Str("inputText"@),
                                "text"@ => JsonView::Str("当前 Telegram 客户端不支持该动态工具。"@),
                            ]),
                        ]),
                        "success"@ => JsonView::Bool(false),
                    ],
                ),
            ),
        )
    } else if method == "applyPatchApproval"@ || method == "execCommandApproval"@ {
        Some(response(id, JsonView::Object(map!["decision"@ => JsonView::Str("denied"@)])))
    } else if method == "account/chatgptAuthTokens/refresh"@ {
        Some(
            error_response(
                id,
                -32001,
                "当前 Telegram 客户端无法刷新 ChatGPT 登录，请在本机重新登录 Codex。"@,
            ),
        )
    } else {
        None
    }
}

/// The view of an optional value.
pub open spec fn opt_owned(value: Option<Json>) -> Option<JsonView> {
    match value {
        Some(value) => Some(value@),
        None => None,
    }
}

/// The reply to a request that is answered without asking anyone.
pub fn automatic_server_request_response(id: u64, method: &str) -> (res: Option<Json>)
    ensures
        opt_owned(res) == automatic_response(id, method@),
{
    let result = if text::eq(method, "item/tool/requestUserInput") {
        Json::empty_object().with("answers", Json::empty_object())
    } else if text::eq(method, "mcpServer/elicitation/request") {
        Json::empty_object().with("action", Json::text("cancel")).with("content", Json::Null).with(
            "_meta",
            Json::Null,
        )
    } else if text::eq(method, "item/tool/call") {
        let item = Json::empty_object().with("type", Json::text("inputText")).with(
            "text",
            Json::text("当前 Telegram 客户端不支持该动态工具。"),
        );
        let ghost view = item@;
        let mut items: Vec<Json> = Vec::new();
        items.push(item);
        assert(json::array_view(items@) =~= seq![view]);
        Json::empty_object().with("contentItems", Json::Array(items)).with(
            "success",
            Json::Bool(false),
        )
    } else if text::eq(method, "applyPatchApproval") || text::eq(method, "execCommandApproval") {
        Json::empty_object().with("decision", Json::text("denied"))
    } else if text::eq(method, "account/chatgptAuthTokens/refresh") {
        return Some(
            server_request_error_response(
                id,
                -32001,
                "当前 Telegram 客户端无法刷新 ChatGPT 登录，请在本机重新登录 Codex。",
            ),
        );
    } else {
        return None;
    };
    Some(server_request_response(id, result))
}

/// The word of the app-server for a decision.
pub open spec fn decision_word(decision: Seq<char>) -> Seq<char> {
    if decision == "session"@ {
        "acceptForSession"@
    } else if decision == "decline"@ {
        "decline"@
    } else if decision == "cancel"@ {
        "cancel"@
    } else {
        "accept"@
    }
}

/// The word of the app-server for a decision.
pub fn approval_decision_value(decision: &str) -> (res: Json)
    ensures
        res@ == JsonView::Str(decision_word(decision@)),
{
    if text::eq(decision, "session") {
        Json::text("acceptForSession")
    } else if text::eq(decision, "decline") {
        Json::text("decline")
    } else if text::eq(decision, "cancel") {
        Json::text("cancel")
    } else {
        Json::text("accept")
    }
}

/// The permissions that are granted: none where the decision is against it.
pub open spec fn granted_permissions(approval: ApprovalModel, decision: Seq<char>) -> JsonView {
    if decision == "decline"@ || decision == "cancel"@ || approval.permissions is None {
        JsonView::Object(Map::empty())
    } else {
        approval.permissions->0
    }
}

/// The result that answers a request for approval.
pub open spec fn approval_result(approval: ApprovalModel, decision: Seq<char>) -> JsonView {
    if approval.method == "item/permissions/requestApproval"@ {
        JsonView::Object(
            map![
                "permissions"@ => granted_permissions(approval, decision),
                "scope"@ => JsonView::Str(
                    if decision == "session"@ { "session"@ } else { "turn"@ }),
            ],
        )
    } else {
        JsonView::Object(map!["decision"@ => JsonView::Str(decision_word(decision))])
    }
}

/// The result that answers a request for approval.
pub fn approval_response_result(approval: &PendingApprovalRequest, decision: &str) -> (res: Json)
    ensures
        res@ == approval_result(approval@, decision@),
{
    if text::eq(approval.method.as_str(), "item/permissions/requestApproval") {
        let permissions = if text::eq(decision, "decline") || text::eq(decision, "cancel") {
            Json::empty_object()
        } else {
            match &approval.permissions {
                Some(permissions) => json::copy_of(permissions),
                None => Json::empty_object(),
            }
        };
        let scope = if text::eq(decision, "session") {
            "session"
        } else {
            "turn"
        };
        return Json::empty_object().with("permissions", permissions).with(
            "scope",
            Json::text(scope),
        );
    }
    Json::empty_object().with("decision", approval_decision_value(decision))
}

/// The reply to a request for approval, or why it cannot be answered.
pub open spec fn approval_reply(
    id: u64,
    approval: Option<ApprovalModel>,
    decision: Seq<char>,
) -> Result<JsonView, Seq<char>> {
    match approval {
        Some(approval) => Ok(response(id, approval_result(approval, decision))),
        None => Err("审批请求已结束或未找到，请重新查看当前状态。"@),
    }
}

/// The request that a notification says is resolved.
pub open spec fn resolved_id(value: JsonView) -> Option<u64> {
    if usage::is_method(value, "serverRequest/resolved"@) {
        match value.get("params"@) {
            Some(params) => json::u64_in(params.get_either("requestId"@, "request_id"@)),
            None => None,
        }
    } else {
        None
    }
}

/// The request that a notification says is resolved.
pub fn resolved_request_id(value: &Json) -> (res: Option<u64>)
    ensures
        res == resolved_id(value@),
{
    if !json::member_is(value, "method", "serverRequest/resolved") {
        return None;
    }
    match value.get("params") {
        Some(params) => json::unsigned_in(params.get_either("requestId", "request_id")),
        None => None,
    }
}

/// Whether a notification carries the mark of a request that was answered automatically.
pub open spec fn is_auto_handled(value: JsonView) -> bool {
    match json::member(value.get("params"@), "_codexManagerAutoHandled"@) {
        Some(JsonView::Bool(handled)) => handled,
        _ => false,
    }
}

/// Tells whether a notification carries the mark of a request that was answered automatically.
pub fn auto_server_request_resolved(value: &Json) -> (res: bool)
    ensures
        res == is_auto_handled(value@),
{
    match json::member_in(value.get("params"), "_codexManagerAutoHandled") {
        Some(found) => match found.as_bool() {
            Some(handled) => handled,
            None => false,
        },
        None => false,
    }
}

/// A notification with the mark of a request that was answered automatically.
pub open spec fn auto_handled(value: JsonView) -> JsonView {
    match value.get("params"@) {
        Some(JsonView::Object(params)) => json::with_member(
            value,
            "params"@,
            JsonView::Object(params.insert("_codexManagerAutoHandled"@, JsonView::Bool(true))),
        ),
        _ => value,
    }
}

/// Marks a notification about a request that was answered automatically.
pub fn mark_auto_server_request_resolved(value: &mut Json)
    ensures
        final(value)@ == auto_handled(old(value)@),
{
    let marked = match value.get("params") {
        Some(params) => if params.is_object() {
            Some(json::copy_of(params).with("_codexManagerAutoHandled", Json::Bool(true)))
        } else {
            None
        },
        None => None,
    };
    if let Some(params) = marked {
        let whole = json::copy_of(value).with("params", params);
        *value = whole;
    }
}

// ---------------------------------------------------------------------------
// Laws
// ---------------------------------------------------------------------------

/// A request that is put to a person is never answered automatically.
pub proof fn law_approvals_wait_for_a_person(id: u64, method: Seq<char>)
    requires
        needs_approval(method),
    ensures
        automatic_response(id, method) is None,
{
    reveal_strlit("item/commandExecution/requestApproval");
    reveal_strlit("item/fileChange/requestApproval");
    reveal_strlit("item/permissions/requestApproval");
    reveal_strlit("item/tool/requestUserInput");
    reveal_strlit("mcpServer/elicitation/request");
    reveal_strlit("item/tool/call");
    reveal_strlit("applyPatchApproval");
    reveal_strlit("execCommandApproval");
    reveal_strlit("account/chatgptAuthTokens/refresh");
    assert("item/commandExecution/requestApproval"@.len() == 37);
    assert("item/fileChange/requestApproval"@.len() == 31);
    assert("item/permissions/requestApproval"@.len() == 32);
    assert("item/tool/requestUserInput"@.len() == 26);
    assert("mcpServer/elicitation/request"@.len() == 29);
    assert("item/tool/call"@.len() == 14);
    assert("applyPatchApproval"@.len() == 18);
    assert("execCommandApproval"@.len() == 19);
    assert("account/chatgptAuthTokens/refresh"@.len() == 33);
}

/// Declining or cancelling a request for permissions grants none, and for the turn only.
pub proof fn law_refusal_grants_nothing(permissions: Option<JsonView>, decision: Seq<char>)
    requires
        decision == "decline"@ || decision == "cancel"@,
    ensures
        approval_result(
            ApprovalModel { method: "item/permissions/requestApproval"@, permissions },
            decision,
        ).get("permissions"@) == Some(JsonView::Object(Map::empty())),
        approval_result(
            ApprovalModel { method: "item/permissions/requestApproval"@, permissions },
            decision,
        ).get("scope"@) == Some(JsonView::Str("turn"@)),
{
    reveal_strlit("decline");
    reveal_strlit("cancel");
    reveal_strlit("session");
    reveal_strlit("permissions");
    reveal_strlit("scope");
    assert("decline"@[0] == 'd');
    assert("cancel"@[0] == 'c');
    assert("session"@[0] == 's');
    assert("permissions"@[0] == 'p');
    assert("scope"@[0] == 's');
}

/// Whether `decision` is one that a person can take.
pub open spec fn is_decision(decision: Seq<char>) -> bool {
    ||| decision == "accept"@
    ||| decision == "session"@
    ||| decision == "decline"@
    ||| decision == "cancel"@
}

/// Different decisions on a command or a file change are told by different words.
pub proof fn law_decisions_keep_apart(a: Seq<char>, b: Seq<char>)
    requires
        is_decision(a),
        is_decision(b),
        a != b,
    ensures
        decision_word(a) != decision_word(b),
{
    reveal_strlit("decline");
    reveal_strlit("cancel");
    reveal_strlit("session");
    reveal_strlit("accept");
    reveal_strlit("acceptForSession");
    assert("decline"@[0] == 'd');
    assert("cancel"@[0] == 'c');
    assert("session"@[0] == 's');
    assert("accept"@[0] == 'a');
    assert("acceptForSession"@.len() == 16);
    assert("accept"@.len() == 6);
}

/// Marking a notification keeps which request it resolves, and the mark is found again.
pub proof fn law_mark_is_found(value: JsonView)
    requires
        resolved_id(value) is Some,
    ensures
        is_auto_handled(auto_handled(value)),
        resolved_id(auto_handled(value)) == resolved_id(value),
{
    reveal_strlit("method");
    reveal_strlit("params");
    reveal_strlit("requestId");
    reveal_strlit("request_id");
    reveal_strlit("_codexManagerAutoHandled");
    assert("method"@[0] == 'm');
    assert("params"@[0] == 'p');
    assert("requestId"@[0] == 'r');
    assert("request_id"@[0] == 'r');
    assert("_codexManagerAutoHandled"@[0] == '_');
}

/// Requests to run a command, to change files and for permissions are put to a person, and no
/// others.
pub proof fn law_who_asks_a_person(method: &str, res: bool)
    requires
        call_ensures(is_approval_request_method, (method,), res),
    ensures
        res <==> {
            ||| method@ == "item/commandExecution/requestApproval"@
            ||| method@ == "item/fileChange/requestApproval"@
            ||| method@ == "item/permissions/requestApproval"@
        },
{
}

/// A reply names the request that it answers, and holds its result.
pub proof fn law_reply_names_its_request(id: u64, result: Json, res: Json)
    requires
        call_ensures(server_request_response, (id, result), res),
    ensures
        res@.get("jsonrpc"@) == Some(JsonView::Str("2.0"@)),
        res@.get("id"@) == Some(JsonView::Unsigned(id)),
        res@.get("result"@) == Some(result@),
        json::has_only(res@, set!["jsonrpc"@, "id"@, "result"@]),
{
    reveal_strlit("jsonrpc");
    reveal_strlit("id");
    reveal_strlit("result");
    assert("jsonrpc"@.len() == 7);
    assert("id"@.len() == 2);
    assert("result"@.len() == 6);
}

/// A reply with an error names the request that it answers, and holds the code and the message.
pub proof fn law_error_names_its_request(id: u64, code: i64, message: &str, res: Json)
    requires
        call_ensures(server_request_error_response, (id, code, message), res),
    ensures
        res@.get("jsonrpc"@) == Some(JsonView::Str("2.0"@)),
        res@.get("id"@) == Some(JsonView::Unsigned(id)),
        json::i64_in(json::member(res@.get("error"@), "code"@)) == Some(code),
        json::member(res@.get("error"@), "message"@) == Some(JsonView::Str(message@)),
        json::has_only(res@, set!["jsonrpc"@, "id"@, "error"@]),
{
    reveal_strlit("jsonrpc");
    reveal_strlit("id");
    reveal_strlit("error");
    reveal_strlit("code");
    reveal_strlit("message");
    assert("jsonrpc"@.len() == 7);
    assert("id"@.len() == 2);
    assert("error"@.len() == 5);
    assert("code"@.len() == 4);
    assert("message"@.len() == 7);
    assert("jsonrpc"@[0] == 'j');
    assert("message"@[0] == 'm');
}

/// What is answered without asking anyone grants nothing: no answers are given, the elicitation is
/// cancelled, the tool has not succeeded, what is to be approved is denied, and the sign-in is not
/// refreshed. The answer names the request.
pub proof fn law_automatic_answers_grant_nothing(id: u64, method: &str, res: Option<Json>)
    requires
        call_ensures(automatic_server_request_response, (id, method), res),
    ensures
        ({
            let result = match res {
                Some(reply) => reply@.get("result"@),
                None => None,
            };
            &&& res matches Some(reply) ==> reply@.get("id"@) == Some(JsonView::Unsigned(id))
            &&& method@ == "item/tool/requestUserInput"@ ==> json::member(result, "answers"@)
                == Some(JsonView::Object(Map::empty()))
            &&& method@ == "mcpServer/elicitation/request"@ ==> json::member(result, "action"@)
                == Some(JsonView::Str("cancel"@)) && json::member(result, "content"@) == Some(
                JsonView::Null,
            ) && json::member(result, "_meta"@) == Some(JsonView::Null)
            &&& method@ == "item/tool/call"@ ==> json::member(result, "success"@) == Some(
                JsonView::Bool(false),
            ) && (json::member(result, "contentItems"@) matches Some(JsonView::Array(items))
                && items.len() == 1 && items[0].get("type"@) == Some(JsonView::Str("inputText"@))
                && items[0].get("text"@) == Some(
                JsonView::Str("当前 Telegram 客户端不支持该动态工具。"@),
            ))
            &&& method@ == "applyPatchApproval"@ || method@ == "execCommandApproval"@
                ==> json::member(result, "decision"@) == Some(JsonView::Str("denied"@))
            &&& method@ == "account/chatgptAuthTokens/refresh"@ ==> result is None && (
            res matches Some(reply) && json::i64_in(json::member(reply@.get("error"@), "code"@))
                == Some(-32001i64) && json::member(reply@.get("error"@), "message"@) == Some(
                JsonView::Str(
                    "当前 Telegram 客户端无法刷新 ChatGPT 登录，请在本机重新登录 Codex。"@,
                ),
            ))
            &&& res is Some ==> {
                ||| method@ == "item/tool/requestUserInput"@
                ||| method@ == "mcpServer/elicitation/request"@
                ||| method@ == "item/tool/call"@
                ||| method@ == "applyPatchApproval"@
                ||| method@ == "execCommandApproval"@
                ||| method@ == "account/chatgptAuthTokens/refresh"@
            }
        }),
{
    reveal_strlit("item/commandExecution/requestApproval");
    reveal_strlit("item/fileChange/requestApproval");
    reveal_strlit("item/permissions/requestApproval");
    reveal_strlit("item/tool/requestUserInput");
    reveal_strlit("mcpServer/elicitation/request");
    reveal_strlit("item/tool/call");
    reveal_strlit("account/chatgptAuthTokens/refresh");
    reveal_strlit("applyPatchApproval");
    reveal_strlit("execCommandApproval");
    assert("item/commandExecution/requestApproval"@.len() == 37);
    assert("item/fileChange/requestApproval"@.len() == 31);
    assert("item/permissions/requestApproval"@.len() == 32);
    assert("item/tool/requestUserInput"@.len() == 26);
    assert("mcpServer/elicitation/request"@.len() == 29);
    assert("item/tool/call"@.len() == 14);
    assert("account/chatgptAuthTokens/refresh"@.len() == 33);
    assert("applyPatchApproval"@.len() == 18);
    assert("execCommandApproval"@.len() == 19);
    reveal_strlit("jsonrpc");
    reveal_strlit("id");
    reveal_strlit("result");
    reveal_strlit("error");
    reveal_strlit("code");
    reveal_strlit("message");
    reveal_strlit("answers");
    reveal_strlit("action");
    reveal_strlit("content");
    reveal_strlit("_meta");
    reveal_strlit("contentItems");
    reveal_strlit("success");
    reveal_strlit("type");
    reveal_strlit("text");
    reveal_strlit("decision");
    assert("jsonrpc"@.len() == 7);
    assert("id"@.len() == 2);
    assert("result"@.len() == 6);
    assert("error"@.len() == 5);
    assert("code"@.len() == 4);
    assert("message"@.len() == 7);
    assert("answers"@.len() == 7);
    assert("action"@.len() == 6);
    assert("content"@.len() == 7);
    assert("_meta"@.len() == 5);
    assert("contentItems"@.len() == 12);
    assert("success"@.len() == 7);
    assert("type"@.len() == 4);
    assert("text"@.len() == 4);
    assert("decision"@.len() == 8);
    assert("jsonrpc"@[0] == 'j');
    assert("result"@[0] == 'r');
    assert("error"@[0] == 'e');
    assert("code"@[0] == 'c');
    assert("message"@[0] == 'm');
    assert("answers"@[0] == 'a');
    assert("action"@[0] == 'a');
    assert("content"@[0] == 'c');
    assert("_meta"@[0] == '_');
    assert("success"@[0] == 's');
    assert("type"@[0] == 't');
    assert("type"@[1] == 'y');
    assert("text"@[0] == 't');
    assert("text"@[1] == 'e');
}

/// Each decision is told by its own word: accepting for the session, declining and cancelling as
/// such, and any other as accepting once.
pub proof fn law_decision_is_told_by_its_word(decision: &str, res: Json)
    requires
        call_ensures(approval_decision_value, (decision,), res),
    ensures
        decision@ == "session"@ ==> res@ == JsonView::Str("acceptForSession"@),
        decision@ == "decline"@ ==> res@ == JsonView::Str("decline"@),
        decision@ == "cancel"@ ==> res@ == JsonView::Str("cancel"@),
        decision@ == "accept"@ ==> res@ == JsonView::Str("accept"@),
        decision@ != "session"@ && decision@ != "decline"@ && decision@ != "cancel"@ ==> res@
            == JsonView::Str("accept"@),
{
    reveal_strlit("session");
    reveal_strlit("decline");
    reveal_strlit("cancel");
    reveal_strlit("accept");
    assert("session"@.len() == 7);
    assert("decline"@.len() == 7);
    assert("cancel"@.len() == 6);
    assert("accept"@.len() == 6);
    assert("session"@[0] == 's');
    assert("decline"@[0] == 'd');
    assert("cancel"@[0] == 'c');
    assert("accept"@[0] == 'a');
}

/// A request for permissions that is approved gets what it asked for, for the session or for the
/// turn; one that is refused gets none, and for the turn.
pub proof fn law_permissions_are_granted_as_asked(
    approval: &PendingApprovalRequest,
    decision: &str,
    res: Json,
)
    requires
        call_ensures(approval_response_result, (approval, decision), res),
        approval@.method == "item/permissions/requestApproval"@,
    ensures
        decision@ == "decline"@ || decision@ == "cancel"@ ==> res@.get("permissions"@) == Some(
            JsonView::Object(Map::empty()),
        ) && res@.get("scope"@) == Some(JsonView::Str("turn"@)),
        decision@ != "decline"@ && decision@ != "cancel"@ ==> res@.get("permissions"@) == Some(
            match approval@.permissions {
                Some(permissions) => permissions,
                None => JsonView::Object(Map::empty()),
            },
        ),
        decision@ == "session"@ ==> res@.get("scope"@) == Some(JsonView::Str("session"@)),
        decision@ != "session"@ ==> res@.get("scope"@) == Some(JsonView::Str("turn"@)),
        json::has_only(res@, set!["permissions"@, "scope"@]),
{
    reveal_strlit("decline");
    reveal_strlit("cancel");
    reveal_strlit("session");
    reveal_strlit("permissions");
    reveal_strlit("scope");
    assert("decline"@.len() == 7);
    assert("cancel"@.len() == 6);
    assert("session"@.len() == 7);
    assert("permissions"@.len() == 11);
    assert("scope"@.len() == 5);
    assert("decline"@[0] == 'd');
    assert("session"@[0] == 's');
}

/// A request for anything else is answered with the decision alone.
pub proof fn law_other_approvals_get_the_decision(
    approval: &PendingApprovalRequest,
    decision: &str,
    word: Json,
    res: Json,
)
    requires
        call_ensures(approval_response_result, (approval, decision), res),
        call_ensures(approval_decision_value, (decision,), word),
        approval@.method != "item/permissions/requestApproval"@,
    ensures
        res@.get("decision"@) == Some(word@),
        json::has_only(res@, set!["decision"@]),
{
}

/// A notification of a resolution names the request by its id, and no other notification does.
pub proof fn law_resolution_names_its_request(value: &Json, params: JsonView, res: Option<u64>)
    requires
        call_ensures(resolved_request_id, (value,), res),
        value@.get("params"@) == Some(params),
    ensures
        value@.get("method"@) != Some(JsonView::Str("serverRequest/resolved"@)) ==> res is None,
        value@.get("method"@) == Some(JsonView::Str("serverRequest/resolved"@)) ==> {
            let named = if params.get("requestId"@) is Some {
                params.get("requestId"@)
            } else {
                params.get("request_id"@)
            };
            match named {
                Some(JsonView::Unsigned(id)) => res == Some(id),
                _ => res is None,
            }
        },
{
}

/// The mark of a request that was answered automatically is a member of the parameters that is
/// true.
pub proof fn law_mark_is_a_true_member(value: &Json, res: bool)
    requires
        call_ensures(auto_server_request_resolved, (value,), res),
    ensures
        res <==> json::member(value@.get("params"@), "_codexManagerAutoHandled"@) == Some(
            JsonView::Bool(true),
        ),
{
}

/// Marking adds the mark to the parameters, and changes nothing else.
pub proof fn law_marking_adds_the_mark(
    value: &mut Json,
    members: Map<Seq<char>, JsonView>,
    params: Map<Seq<char>, JsonView>,
)
    requires
        call_ensures(mark_auto_server_request_resolved, (value,), ()),
        old(value)@ == JsonView::Object(members),
        members.contains_key("params"@),
        members["params"@] == JsonView::Object(params),
    ensures
        json::member(final(value)@.get("params"@), "_codexManagerAutoHandled"@) == Some(
            JsonView::Bool(true),
        ),
        forall|key: Seq<char>|
            key != "_codexManagerAutoHandled"@ ==> json::member(
                final(value)@.get("params"@),
                key,
            ) == #[trigger] json::member(old(value)@.get("params"@), key),
        forall|key: Seq<char>|
            key != "params"@ ==> #[trigger] final(value)@.get(key) == old(value)@.get(key),
{
}

} // verus!
