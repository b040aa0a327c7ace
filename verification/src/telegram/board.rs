//! What the bot has heard of threads and of the account.
use vstd::prelude::*;

use crate::app_server::replies::{AppServerThread, ThreadModel};
use crate::app_server::usage;
use crate::app_server::usage::{RateLimitModel, RateLimitSummary, ThreadTokenUsageSummary, TokenUsageModel};
use crate::json::{Json, JsonView};
use crate::text;
use crate::text_map::TextMap;

verus! {

/// What the bot has heard.
#[derive(Debug)]
pub struct EventBoard {
    statuses: TextMap<String>,
    usages: TextMap<ThreadTokenUsageSummary>,
    rate_limit: Option<RateLimitSummary>,
}

/// The latest status and token usage of each thread, and the latest rate limit.
#[verifier::ext_equal]
pub struct BoardModel {
    pub statuses: Map<Seq<char>, Seq<char>>,
    pub usages: Map<Seq<char>, TokenUsageModel>,
    pub rate_limit: Option<RateLimitModel>,
}

impl View for EventBoard {
    type V = BoardModel;

    closed spec fn view(&self) -> BoardModel {
        BoardModel {
            statuses: self.statuses@.map_values(|status: String| status@),
            usages: self.usages@.map_values(|used: ThreadTokenUsageSummary| used@),
            rate_limit: usage::opt_limit(self.rate_limit),
        }
    }
}

/// Whether `limit` is the rate limit after an event: the one that it tells, else the one before.
pub open spec fn limit_after(
    before: Option<RateLimitModel>,
    value: JsonView,
    limit: Option<RateLimitModel>,
) -> bool {
    match value.get("params"@) {
        Some(params) => if usage::is_method(value, "account/rateLimits/updated"@) {
            ||| limit is Some && usage::is_rate_limit_of(limit, params)
            ||| limit == before && usage::is_rate_limit_of(None, params)
        } else {
            limit == before
        },
        None => limit == before,
    }
}

/// Whether `after` is what is known after an event.
pub open spec fn heard(before: BoardModel, value: JsonView, after: BoardModel) -> bool {
    &&& after.statuses == match usage::status_change(value) {
        Some((thread_id, status)) => before.statuses.insert(thread_id, status),
        None => before.statuses,
    }
    &&& after.usages == match usage::token_usage(value) {
        Some(used) => before.usages.insert(used.thread_id, used),
        None => before.usages,
    }
    &&& limit_after(before.rate_limit, value, after.rate_limit)
}

impl EventBoard {
    /// Nothing was heard.
    pub fn new() -> (res: Self)
        ensures
            res@ == (BoardModel {
                statuses: Map::empty(),
                usages: Map::empty(),
                rate_limit: None,
            }),
    {
        let res = EventBoard { statuses: TextMap::new(), usages: TextMap::new(), rate_limit: None };
        assert(res@.statuses =~= Map::empty());
        assert(res@.usages =~= Map::empty());
        res
    }

    /// Takes in an event of the app-server.
    pub fn on_event(&mut self, value: &Json)
        requires
            usage::usage_countable(value@),
        ensures
            heard(old(self)@, value@, final(self)@),
    {
        if let Some(change) = usage::parse_thread_status_change(value) {
            let ghost view = (change.thread_id@, change.status@);
            self.statuses.insert(change.thread_id.as_str(), change.status);
            assert(self@.statuses =~= old(self)@.statuses.insert(view.0, view.1));
        }
        if let Some(used) = usage::parse_thread_token_usage_update(value) {
            let ghost view = used@;
            let thread_id = used.thread_id.clone();
            self.usages.insert(thread_id.as_str(), used);
            assert(self@.usages =~= old(self)@.usages.insert(view.thread_id, view));
        }
        if let Some(limit) = usage::parse_rate_limits_update(value) {
            self.rate_limit = Some(limit);
        }
    }

    /// Takes in the rate limit that was asked for, where one is told.
    pub fn on_rate_limit(&mut self, limit: Option<RateLimitSummary>)
        ensures
            final(self)@ == (BoardModel {
                rate_limit: if limit is Some {
                    usage::opt_limit(limit)
                } else {
                    old(self)@.rate_limit
                },
                ..old(self)@
            }),
    {
        if limit.is_some() {
            self.rate_limit = limit;
        }
    }

    /// The status of a thread.
    pub fn status_of(&self, thread_id: &str) -> (res: Option<String>)
        ensures
            text::opt_text(res) == if self@.statuses.contains_key(thread_id@) {
                Some(self@.statuses[thread_id@])
            } else {
                None
            },
    {
        match self.statuses.get(thread_id) {
            Some(status) => Some(status.clone()),
            None => None,
        }
    }

    /// The token usage of a thread.
    pub fn usage_of(&self, thread_id: &str) -> (res: Option<ThreadTokenUsageSummary>)
        ensures
            match res {
                Some(used) => self@.usages.contains_key(thread_id@) && self@.usages[thread_id@]
                    == used@,
                None => !self@.usages.contains_key(thread_id@),
            },
    {
        match self.usages.get(thread_id) {
            Some(used) => Some(
                ThreadTokenUsageSummary {
                    thread_id: used.thread_id.clone(),
                    turn_id: used.turn_id.clone(),
                    used_tokens: used.used_tokens,
                    context_window: used.context_window,
                    used_percent: used.used_percent,
                },
            ),
            None => None,
        }
    }

    /// The rate limit of the account.
    pub fn limit(&self) -> (res: Option<RateLimitSummary>)
        ensures
            usage::opt_limit(res) == self@.rate_limit,
    {
        match &self.rate_limit {
            Some(limit) => Some(
                RateLimitSummary {
                    plan: text::copy_opt(&limit.plan),
                    bucket: text::copy_opt(&limit.bucket),
                    used_percent: limit.used_percent,
                    resets_at: limit.resets_at,
                },
            ),
            None => None,
        }
    }

    /// Gives threads the status that was heard of them last.
    pub fn with_live_status(&self, threads: Vec<AppServerThread>) -> (res: Vec<AppServerThread>)
        ensures
            res@.len() == threads@.len(),
            forall|i: int|
                0 <= i < threads@.len() ==> (#[trigger] res@[i])@ == live(self@, threads@[i]@),
    {
        let mut res: Vec<AppServerThread> = Vec::new();
        let mut i: usize = 0;
        while i < threads.len()
            invariant
                i <= threads@.len(),
                res@.len() == i,
                forall|k: int| 0 <= k < i ==> (#[trigger] res@[k])@ == live(self@, threads@[k]@),
            decreases threads.len() - i,
        {
            let mut thread = threads[i].copy();
            if let Some(status) = self.status_of(thread.id.as_str()) {
                thread.status = Some(status);
            }
            assert(thread@ =~= live(self@, threads@[i as int]@));
            res.push(thread);
            i += 1;
        }
        res
    }
}

impl Default for EventBoard {
    fn default() -> (res: Self)
        ensures
            res@ == (BoardModel {
                statuses: Map::empty(),
                usages: Map::empty(),
                rate_limit: None,
            }),
    {
        EventBoard::new()
    }
}

/// A thread with the status that was heard of it last.
pub open spec fn live(board: BoardModel, thread: ThreadModel) -> ThreadModel {
    if board.statuses.contains_key(thread.id) {
        ThreadModel { status: Some(board.statuses[thread.id]), ..thread }
    } else {
        thread
    }
}

// ---------------------------------------------------------------------------
// Laws
// ---------------------------------------------------------------------------

/// A board is empty at first.
pub proof fn law_new_board_is_empty(res: EventBoard, thread_id: &str, status: Option<String>)
    requires
        call_ensures(EventBoard::new, (), res),
        call_ensures(EventBoard::status_of, (&res, thread_id), status),
    ensures
        status is None,
        res@.rate_limit is None,
        forall|thread: Seq<char>| !res@.usages.contains_key(thread),
{
}

/// After a change of status the thread has that status, and every other thread the one it had.
pub proof fn law_last_status_is_known(
    board: &mut EventBoard,
    after: &EventBoard,
    value: &Json,
    change: Option<usage::ThreadStatusChange>,
    thread_id: &str,
    status: Option<String>,
)
    requires
        call_ensures(EventBoard::on_event, (board, value), ()),
        call_ensures(usage::parse_thread_status_change, (value,), change),
        after@ == final(board)@,
        call_ensures(EventBoard::status_of, (after, thread_id), status),
    ensures
        change matches Some(change) ==> change.thread_id@ == thread_id@ ==> text::opt_text(status)
            == Some(change.status@),
        (change matches Some(change) ==> change.thread_id@ != thread_id@) ==> text::opt_text(status)
            == if old(board)@.statuses.contains_key(thread_id@) {
            Some(old(board)@.statuses[thread_id@])
        } else {
            None
        },
{
}

/// After a report on token usage the thread has that usage, and every other thread the one it had.
pub proof fn law_last_usage_is_known(
    board: &mut EventBoard,
    after: &EventBoard,
    value: &Json,
    told: Option<ThreadTokenUsageSummary>,
    thread_id: &str,
    used: Option<ThreadTokenUsageSummary>,
)
    requires
        call_ensures(EventBoard::on_event, (board, value), ()),
        call_ensures(usage::parse_thread_token_usage_update, (value,), told),
        after@ == final(board)@,
        call_ensures(EventBoard::usage_of, (after, thread_id), used),
    ensures
        told matches Some(told) ==> told.thread_id@ == thread_id@ ==> (used matches Some(used)
            && used@ == told@),
        (told matches Some(told) ==> told.thread_id@ != thread_id@) ==> match used {
            Some(used) => old(board)@.usages.contains_key(thread_id@) && old(
                board,
            )@.usages[thread_id@] == used@,
            None => !old(board)@.usages.contains_key(thread_id@),
        },
{
}

/// The rate limit is the last one that was told; an event that tells none leaves it.
pub proof fn law_last_limit_is_known(
    board: &mut EventBoard,
    after: &EventBoard,
    value: &Json,
    told: Option<RateLimitSummary>,
    limit: Option<RateLimitSummary>,
)
    requires
        call_ensures(EventBoard::on_event, (board, value), ()),
        call_ensures(usage::parse_rate_limits_update, (value,), told),
        after@ == final(board)@,
        call_ensures(EventBoard::limit, (after,), limit),
    ensures
        told is Some ==> usage::opt_limit(limit) == usage::opt_limit(told),
        told is None ==> usage::opt_limit(limit) == old(board)@.rate_limit,
{
    if let Some(params) = value@.get("params"@) {
        if usage::is_method(value@, "account/rateLimits/updated"@) {
            if final(board)@.rate_limit is Some && usage::is_rate_limit_of(
                final(board)@.rate_limit,
                params,
            ) {
                usage::law_rate_limit_is_determined(
                    params,
                    final(board)@.rate_limit,
                    usage::opt_limit(told),
                );
            } else {
                usage::law_rate_limit_is_determined(params, None, usage::opt_limit(told));
            }
        }
    }
}

/// A rate limit that was asked for takes the place of the last one, where one is told, and nothing
/// else changes.
pub proof fn law_asked_limit_is_known(board: &mut EventBoard, limit: Option<RateLimitSummary>)
    requires
        call_ensures(EventBoard::on_rate_limit, (board, limit), ()),
    ensures
        limit is Some ==> final(board)@.rate_limit == usage::opt_limit(limit),
        limit is None ==> final(board)@.rate_limit == old(board)@.rate_limit,
        final(board)@.statuses == old(board)@.statuses,
        final(board)@.usages == old(board)@.usages,
{
}

/// Threads get the status that was heard of them, and keep the one they have where none was; else
/// nothing of them changes, and not their order.
pub proof fn law_heard_status_is_shown(
    board: &EventBoard,
    threads: Vec<AppServerThread>,
    i: int,
    id: &str,
    status: Option<String>,
    res: Vec<AppServerThread>,
)
    requires
        call_ensures(EventBoard::with_live_status, (board, threads), res),
        0 <= i < threads@.len(),
        id@ == threads@[i]@.id,
        call_ensures(EventBoard::status_of, (board, id), status),
    ensures
        res@.len() == threads@.len(),
        res@[i]@.id == threads@[i]@.id,
        res@[i]@.title == threads@[i]@.title,
        res@[i]@.cwd == threads@[i]@.cwd,
        res@[i]@.preview == threads@[i]@.preview,
        res@[i]@.rollout_path == threads@[i]@.rollout_path,
        res@[i]@.updated_at == threads@[i]@.updated_at,
        status is Some ==> res@[i]@.status == text::opt_text(status),
        status is None ==> res@[i]@.status == threads@[i]@.status,
{
}

} // verus!
