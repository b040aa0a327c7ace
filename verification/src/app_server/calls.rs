//! A connection that is opened for a few calls: the requests are made one after another, and
//! the last reply is the outcome.
use vstd::prelude::*;

use crate::app_server::requests;
use crate::app_server::requests::{RpcModel, RpcRequest};
use crate::json::{Json, JsonView};
use crate::text;
use crate::wire;

verus! {

/// The calls of a connection.
#[derive(Debug)]
pub struct CallOnce {
    left: Vec<RpcRequest>,
    last: Option<Json>,
}

/// What is left to call, and the last reply.
pub struct CallOnceModel {
    pub left: Seq<RpcModel>,
    pub last: Option<JsonView>,
}

impl View for CallOnce {
    type V = CallOnceModel;

    closed spec fn view(&self) -> CallOnceModel {
        CallOnceModel {
            left: rpc_views(self.left@),
            last: match self.last {
                Some(reply) => Some(reply@),
                None => None,
            },
        }
    }
}

/// The views of a list of requests.
pub open spec fn rpc_views(list: Seq<RpcRequest>) -> Seq<RpcModel> {
    list.map_values(|request: RpcRequest| request@)
}

/// The notification that has to follow the reply to a request.
pub open spec fn follow_up(method: Seq<char>) -> Option<JsonView> {
    if method == "initialize"@ {
        Some(requests::notice("initialized"@, Some(JsonView::Object(Map::empty()))))
    } else {
        None
    }
}

impl CallOnce {
    /// The given calls, in order.
    pub fn new(left: Vec<RpcRequest>) -> (res: Self)
        ensures
            res@ == (CallOnceModel { left: rpc_views(left@), last: None }),
    {
        CallOnce { left, last: None }
    }

    /// The next request to make, where one is left.
    pub fn next_request(&mut self) -> (res: Option<RpcRequest>)
        ensures
            final(self)@.last == old(self)@.last,
            match res {
                Some(request) => old(self)@.left.len() > 0 && request@ == old(self)@.left[0]
                    && final(self)@.left == old(self)@.left.skip(1),
                None => old(self)@.left.len() == 0 && final(self)@ == old(self)@,
            },
    {
        if self.left.len() == 0 {
            return None;
        }
        let request = self.left.remove(0);
        assert(self@.left =~= old(self)@.left.skip(1));
        Some(request)
    }

    /// Takes in the reply to a request, and tells the notification that has to follow.
    pub fn on_reply(&mut self, method: &str, reply: Json) -> (res: Option<Json>)
        ensures
            final(self)@ == (CallOnceModel { left: old(self)@.left, last: Some(reply@) }),
            match res {
                Some(message) => follow_up(method@) == Some(message@),
                None => follow_up(method@) is None,
            },
    {
        self.last = Some(reply);
        if text::eq(method, "initialize") {
            Some(requests::initialized_notification())
        } else {
            None
        }
    }

    /// The outcome of the calls: the last reply.
    pub fn outcome(self) -> (res: Result<Json, String>)
        ensures
            wire::result_json(res) == match self@.last {
                Some(reply) => Ok(reply),
                None => Err("缺少 app-server 响应"@),
            },
    {
        match self.last {
            Some(reply) => Ok(reply),
            None => Err("缺少 app-server 响应".to_owned()),
        }
    }
}

// ---------------------------------------------------------------------------
// Laws
// ---------------------------------------------------------------------------

/// Calls are made one after another in the order that they are given, each once.
pub proof fn law_calls_are_made_in_order(
    calls: &mut CallOnce,
    given: Vec<RpcRequest>,
    made: CallOnce,
    res: Option<RpcRequest>,
)
    requires
        call_ensures(CallOnce::new, (given,), made),
        call_ensures(CallOnce::next_request, (calls,), res),
    ensures
        made@.left == rpc_views(given@),
        made@.last is None,
        match res {
            Some(request) => old(calls)@.left == seq![request@] + final(calls)@.left,
            None => old(calls)@.left.len() == 0 && final(calls)@.left.len() == 0,
        },
        final(calls)@.last == old(calls)@.last,
{
    if let Some(request) = res {
        assert(old(calls)@.left =~= seq![request@] + final(calls)@.left);
    }
}

/// The last reply is the outcome, and there is none without a reply; a reply to `initialize`, and
/// to nothing else, is followed by the notification that it was successful.
pub proof fn law_last_reply_is_the_outcome(
    calls: &mut CallOnce,
    method: &str,
    reply: Json,
    after: CallOnce,
    res: Option<Json>,
    outcome: Result<Json, String>,
)
    requires
        call_ensures(CallOnce::on_reply, (calls, method, reply), res),
        after@ == final(calls)@,
        call_ensures(CallOnce::outcome, (after,), outcome),
    ensures
        outcome matches Ok(last) && last@ == reply@,
        final(calls)@.left == old(calls)@.left,
        res is Some <==> method@ == "initialize"@,
        res matches Some(notice) ==> notice@.get("method"@) == Some(
            JsonView::Str("initialized"@),
        ) && notice@.get("id"@) is None,
{
    reveal_strlit("method");
    reveal_strlit("params");
    reveal_strlit("id");
    assert("method"@.len() == 6);
    assert("params"@.len() == 6);
    assert("id"@.len() == 2);
    assert("method"@[0] == 'm');
    assert("params"@[0] == 'p');
}

/// Calls without a reply have no outcome.
pub proof fn law_no_reply_no_outcome(calls: CallOnce, outcome: Result<Json, String>)
    requires
        call_ensures(CallOnce::outcome, (calls,), outcome),
    ensures
        outcome is Ok <==> calls@.last is Some,
        outcome matches Err(message) ==> message@ == "缺少 app-server 响应"@,
{
}

} // verus!
