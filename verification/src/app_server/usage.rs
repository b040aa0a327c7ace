//! Notifications about threads and the account: status, token usage and rate limits.
use vstd::prelude::*;

use crate::app_server::replies;
use crate::json;
use crate::json::{Json, JsonView};
use crate::text;

verus! {

/// A thread got another status.
#[derive(Debug, Clone, PartialEq, Eq)]
pub struct ThreadStatusChange {
    pub thread_id: String,
    pub status: String,
}

/// How many tokens a turn has used of the context window.
#[derive(Debug, Clone, PartialEq, Eq)]
pub struct ThreadTokenUsageSummary {
    pub thread_id: String,
    pub turn_id: String,
    pub used_tokens: i64,
    pub context_window: Option<i64>,
    pub used_percent: Option<i64>,
}

/// What `ThreadTokenUsageSummary` says.
pub struct TokenUsageModel {
    pub thread_id: Seq<char>,
    pub turn_id: Seq<char>,
    pub used_tokens: i64,
    pub context_window: Option<i64>,
    pub used_percent: Option<i64>,
}

impl View for ThreadTokenUsageSummary {
    type V = TokenUsageModel;

    open spec fn view(&self) -> TokenUsageModel {
        TokenUsageModel {
            thread_id: self.thread_id@,
            turn_id: self.turn_id@,
            used_tokens: self.used_tokens,
            context_window: self.context_window,
            used_percent: self.used_percent,
        }
    }
}

/// The tightest rate limit of the account.
#[derive(Debug, Clone, PartialEq, Eq)]
pub struct RateLimitSummary {
    pub plan: Option<String>,
    pub bucket: Option<String>,
    pub used_percent: Option<i64>,
    pub resets_at: Option<i64>,
}

/// What `RateLimitSummary` says.
pub struct RateLimitModel {
    pub plan: Option<Seq<char>>,
    pub bucket: Option<Seq<char>>,
    pub used_percent: Option<i64>,
    pub resets_at: Option<i64>,
}

impl View for RateLimitSummary {
    type V = RateLimitModel;

    open spec fn view(&self) -> RateLimitModel {
        RateLimitModel {
            plan: text::opt_text(self.plan),
            bucket: text::opt_text(self.bucket),
            used_percent: self.used_percent,
            resets_at: self.resets_at,
        }
    }
}

/// The view of an optional summary.
pub open spec fn opt_limit(limit: Option<RateLimitSummary>) -> Option<RateLimitModel> {
    match limit {
        Some(limit) => Some(limit@),
        None => None,
    }
}

/// Whether `value` is a notification of the given method.
pub open spec fn is_method(value: JsonView, method: Seq<char>) -> bool {
    json::text_at(value, "method"@) == Some(method)
}

// ---------------------------------------------------------------------------
// Status
// ---------------------------------------------------------------------------

/// The thread and its new status, where `value` tells of one.
pub open spec fn status_change(value: JsonView) -> Option<(Seq<char>, Seq<char>)> {
    if !is_method(value, "thread/status/changed"@) {
        None
    } else {
        match value.get("params"@) {
            Some(params) => {
                let thread_id = if params.get_either("threadId"@, "thread_id"@) is Some {
                    params.get_either("threadId"@, "thread_id"@)
                } else {
                    json::member(params.get("thread"@), "id"@)
                };
                let status = if params.get("status"@) is Some {
                    params.get("status"@)
                } else {
                    json::member(params.get("thread"@), "status"@)
                };
                match (json::text_in(thread_id), replies::status_field(status)) {
                    (Some(thread_id), Some(status)) => Some((thread_id, status)),
                    _ => None,
                }
            },
            None => None,
        }
    }
}

/// Reads a notification that a thread got another status.
pub fn parse_thread_status_change(value: &Json) -> (res: Option<ThreadStatusChange>)
    ensures
        match res {
            Some(change) => status_change(value@) == Some((change.thread_id@, change.status@)),
            None => status_change(value@) is None,
        },
{
    if !json::member_is(value, "method", "thread/status/changed") {
        return None;
    }
    let params = match value.get("params") {
        Some(params) => params,
        None => {
            return None;
        },
    };
    let thread_id = match params.get_either("threadId", "thread_id") {
        Some(found) => Some(found),
        None => json::member_in(params.get("thread"), "id"),
    };
    let status = match params.get("status") {
        Some(found) => Some(found),
        None => json::member_in(params.get("thread"), "status"),
    };
    match (json::str_in(thread_id), status) {
        (Some(thread_id), Some(status)) => match replies::status_value_to_string(status) {
            Some(status) => Some(ThreadStatusChange { thread_id: thread_id.to_owned(), status }),
            None => None,
        },
        _ => None,
    }
}

// ---------------------------------------------------------------------------
// Token usage
// ---------------------------------------------------------------------------

/// `a` divided by `b`, rounded towards zero.
pub open spec fn quotient(a: int, b: int) -> int {
    if a >= 0 {
        a / b
    } else {
        -((-a) / b)
    }
}

/// How many percent of the window are used, rounded to the nearest.
pub open spec fn percent_used(used: i64, window: i64) -> int {
    quotient(used * 100 + window / 2, window as int)
}

/// What a notification says about token usage: the thread, the turn, the tokens used and the
/// size of the context window.
pub open spec fn usage_fields(value: JsonView) -> Option<
    (Seq<char>, Seq<char>, i64, Option<i64>),
> {
    if !is_method(value, "thread/tokenUsage/updated"@) {
        None
    } else {
        match value.get("params"@) {
            Some(params) => {
                let thread_id = json::text_in(params.get_either("threadId"@, "thread_id"@));
                let turn_id = json::text_in(params.get_either("turnId"@, "turn_id"@));
                let usage = params.get_either("tokenUsage"@, "token_usage"@);
                match (thread_id, turn_id, usage) {
                    (Some(thread_id), Some(turn_id), Some(usage)) => {
                        let used = match usage.get("total"@) {
                            Some(total) => json::i64_in(
                                total.get_either("totalTokens"@, "total_tokens"@),
                            ),
                            None => None,
                        };
                        let window = json::i64_in(
                            usage.get_either("modelContextWindow"@, "model_context_window"@),
                        );
                        match used {
                            Some(used) => Some((thread_id, turn_id, used, window)),
                            None => None,
                        }
                    },
                    _ => None,
                }
            },
            None => None,
        }
    }
}

/// Whether the percentage of used tokens can be computed in 64 bits.
pub open spec fn percent_fits(used: i64, window: Option<i64>) -> bool {
    match window {
        Some(window) => window > 0 ==> {
            &&& i64::MIN <= used * 100 <= i64::MAX
            &&& used * 100 + window / 2 <= i64::MAX
        },
        None => true,
    }
}

/// Whether the percentage in a notification about token usage can be computed in 64 bits.
pub open spec fn usage_countable(value: JsonView) -> bool {
    match usage_fields(value) {
        Some((_, _, used, window)) => percent_fits(used, window),
        None => true,
    }
}

/// The token usage that a notification tells.
pub open spec fn token_usage(value: JsonView) -> Option<TokenUsageModel> {
    match usage_fields(value) {
        Some((thread_id, turn_id, used_tokens, context_window)) => Some(
            TokenUsageModel {
                thread_id,
                turn_id,
                used_tokens,
                context_window,
                used_percent: match context_window {
                    Some(window) => if window > 0 {
                        Some(percent_used(used_tokens, window) as i64)
                    } else {
                        None
                    },
                    None => None,
                },
            },
        ),
        None => None,
    }
}

/// Reads what a notification says about token usage.
fn read_usage_fields(value: &Json) -> (res: Option<(String, String, i64, Option<i64>)>)
    ensures
        match res {
            Some((thread_id, turn_id, used, window)) => usage_fields(value@) == Some(
                (thread_id@, turn_id@, used, window),
            ),
            None => usage_fields(value@) is None,
        },
{
    if !json::member_is(value, "method", "thread/tokenUsage/updated") {
        return None;
    }
    let params = match value.get("params") {
        Some(params) => params,
        None => {
            return None;
        },
    };
    let thread_id = json::str_in(params.get_either("threadId", "thread_id"));
    let turn_id = json::str_in(params.get_either("turnId", "turn_id"));
    let usage = params.get_either("tokenUsage", "token_usage");
    match (thread_id, turn_id, usage) {
        (Some(thread_id), Some(turn_id), Some(usage)) => {
            let used = match usage.get("total") {
                Some(total) => json::integer_in(total.get_either("totalTokens", "total_tokens")),
                None => None,
            };
            let window = json::integer_in(
                usage.get_either("modelContextWindow", "model_context_window"),
            );
            match used {
                Some(used) => Some((thread_id.to_owned(), turn_id.to_owned(), used, window)),
                None => None,
            }
        },
        _ => None,
    }
}

/// How many percent of the window are used.
fn percent(used: i64, window: i64) -> (res: i64)
    requires
        window > 0,
        percent_fits(used, Some(window)),
    ensures
        res == percent_used(used, window),
{
    let scaled: i128 = used as i128 * 100 + (window / 2) as i128;
    let wide = window as i128;
    proof {
        let ghost n = if scaled >= 0 {
            scaled as int
        } else {
            -scaled as int
        };
        assert(0 <= n / (window as int) <= n) by (nonlinear_arith)
            requires
                n >= 0,
                window > 0,
        ;
    }
    if scaled >= 0 {
        (scaled / wide) as i64
    } else {
        (-((-scaled) / wide)) as i64
    }
}

/// Tells whether the percentage in a notification about token usage can be computed.
pub fn token_usage_is_countable(value: &Json) -> (res: bool)
    ensures
        res == usage_countable(value@),
{
    match read_usage_fields(value) {
        Some((_, _, used, window)) => match window {
            Some(window) => {
                let scaled: i128 = used as i128 * 100;
                window <= 0 || (i64::MIN as i128 <= scaled && scaled <= i64::MAX as i128 && scaled
                    + (window / 2) as i128 <= i64::MAX as i128)
            },
            None => true,
        },
        None => true,
    }
}

/// Reads a notification about token usage.
pub fn parse_thread_token_usage_update(value: &Json) -> (res: Option<ThreadTokenUsageSummary>)
    requires
        usage_countable(value@),
    ensures
        match res {
            Some(usage) => token_usage(value@) == Some(usage@),
            None => token_usage(value@) is None,
        },
{
    match read_usage_fields(value) {
        Some((thread_id, turn_id, used_tokens, context_window)) => {
            let used_percent = match context_window {
                Some(window) => if window > 0 {
                    Some(percent(used_tokens, window))
                } else {
                    None
                },
                None => None,
            };
            Some(
                ThreadTokenUsageSummary {
                    thread_id,
                    turn_id,
                    used_tokens,
                    context_window,
                    used_percent,
                },
            )
        },
        None => None,
    }
}

// ---------------------------------------------------------------------------
// Rate limits
// ---------------------------------------------------------------------------

/// The first of two members that is a string, trimmed, where anything is left of it.
pub open spec fn text_member(value: JsonView, first: Seq<char>, second: Seq<char>) -> Option<
    Seq<char>,
> {
    replies::trimmed_text(
        if json::text_at(value, first) is Some {
            json::text_at(value, first)
        } else {
            json::text_at(value, second)
        },
    )
}

/// The first of two members that is a string, trimmed, where anything is left of it.
pub fn value_string(value: &Json, first: &str, second: &str) -> (res: Option<String>)
    ensures
        text::opt_text(res) == text_member(value@, first@, second@),
{
    let found = match json::str_in(value.get(first)) {
        Some(found) => Some(found),
        None => json::str_in(value.get(second)),
    };
    match replies::trimmed_or_none(found) {
        Some(s) => Some(s.to_owned()),
        None => None,
    }
}

/// The used percentage and the reset time of one window of a limit.
pub open spec fn limit_window(value: Option<JsonView>) -> Option<(i64, Option<i64>)> {
    match value {
        Some(value) => match json::i64_in(value.get_either("usedPercent"@, "used_percent"@)) {
            Some(percent) => Some(
                (percent, json::i64_in(value.get_either("resetsAt"@, "resets_at"@))),
            ),
            None => None,
        },
        None => None,
    }
}

/// The used percentage and the reset time of one window of a limit.
pub fn rate_limit_window(value: Option<&Json>) -> (res: Option<(i64, Option<i64>)>)
    ensures
        res == limit_window(json::opt_json(value)),
{
    match value {
        Some(value) => match json::integer_in(value.get_either("usedPercent", "used_percent")) {
            Some(percent) => Some(
                (percent, json::integer_in(value.get_either("resetsAt", "resets_at"))),
            ),
            None => None,
        },
        None => None,
    }
}

/// The window that is used more: the secondary one where both are used alike, and an unused
/// one without a reset time where there is none.
pub open spec fn tighter_window(
    primary: Option<(i64, Option<i64>)>,
    secondary: Option<(i64, Option<i64>)>,
) -> (i64, Option<i64>) {
    match (primary, secondary) {
        (Some(primary), Some(secondary)) => if secondary.0 >= primary.0 {
            secondary
        } else {
            primary
        },
        (Some(primary), None) => primary,
        (None, Some(secondary)) => secondary,
        (None, None) => (0, None),
    }
}

/// The rate limit that a snapshot tells: none where nothing is used and nothing is named.
pub open spec fn snapshot_limit(snapshot: JsonView) -> Option<RateLimitModel> {
    let (percent, resets_at) = tighter_window(
        limit_window(snapshot.get("primary"@)),
        limit_window(snapshot.get("secondary"@)),
    );
    if percent == 0 && snapshot.get("limitName"@) is None && snapshot.get("limitId"@) is None
        && snapshot.get("planType"@) is None {
        None
    } else {
        let name = text_member(snapshot, "limitName"@, "limit_name"@);
        Some(
            RateLimitModel {
                plan: text_member(snapshot, "planType"@, "plan_type"@),
                bucket: if name is Some {
                    name
                } else {
                    text_member(snapshot, "limitId"@, "limit_id"@)
                },
                used_percent: Some(percent),
                resets_at,
            },
        )
    }
}

/// The rate limit that a snapshot tells.
pub fn rate_limit_from_snapshot(snapshot: &Json) -> (res: Option<RateLimitSummary>)
    ensures
        opt_limit(res) == snapshot_limit(snapshot@),
{
    let primary = rate_limit_window(snapshot.get("primary"));
    let secondary = rate_limit_window(snapshot.get("secondary"));
    let (percent, resets_at) = match (primary, secondary) {
        (Some(primary), Some(secondary)) => if secondary.0 >= primary.0 {
            secondary
        } else {
            primary
        },
        (Some(primary), None) => primary,
        (None, Some(secondary)) => secondary,
        (None, None) => (0, None),
    };
    if percent == 0 && snapshot.get("limitName").is_none() && snapshot.get("limitId").is_none()
        && snapshot.get("planType").is_none() {
        return None;
    }
    let bucket = match value_string(snapshot, "limitName", "limit_name") {
        Some(name) => Some(name),
        None => value_string(snapshot, "limitId", "limit_id"),
    };
    Some(
        RateLimitSummary {
            plan: value_string(snapshot, "planType", "plan_type"),
            bucket,
            used_percent: Some(percent),
            resets_at,
        },
    )
}

/// Whether the limit with key `a` is no tighter than the limit with key `b`: it is used less,
/// or alike and its key comes first.
pub open spec fn no_tighter(
    a: Seq<char>,
    a_limit: RateLimitModel,
    b: Seq<char>,
    b_limit: RateLimitModel,
) -> bool {
    ||| a_limit.used_percent->0 < b_limit.used_percent->0
    ||| a_limit.used_percent->0 == b_limit.used_percent->0 && (a == b || text::text_before(a, b))
}

/// Whether `limit` is the tightest of the limits that snapshots tell, each under its key.
pub open spec fn is_tightest(
    limit: Option<RateLimitModel>,
    snapshots: Map<Seq<char>, JsonView>,
) -> bool {
    match limit {
        Some(limit) => exists|key: Seq<char>|
            {
                &&& #[trigger] snapshots.contains_key(key)
                &&& snapshot_limit(snapshots[key]) == Some(limit)
                &&& forall|other: Seq<char>|
                    #[trigger]
                    snapshots.contains_key(other) && snapshot_limit(snapshots[other]) is Some
                        ==> no_tighter(other, snapshot_limit(snapshots[other])->0, key, limit)
            },
        None => forall|key: Seq<char>| #[trigger]
            snapshots.contains_key(key) ==> snapshot_limit(snapshots[key]) is None,
    }
}

/// Whether `limit` is the rate limit that is told of `value`: the tightest of a map of
/// snapshots, else that of a single snapshot, else that of `value` itself as a snapshot.
pub open spec fn is_rate_limit_of(limit: Option<RateLimitModel>, value: JsonView) -> bool {
    match value.get_either("rateLimitsByLimitId"@, "rate_limits_by_limit_id"@) {
        Some(JsonView::Object(snapshots)) => is_tightest(limit, snapshots),
        _ => match value.get_either("rateLimits"@, "rate_limits"@) {
            Some(JsonView::Object(snapshot)) => limit == snapshot_limit(
                JsonView::Object(snapshot),
            ),
            _ => if value.get("primary"@) is Some || value.get("secondary"@) is Some {
                limit == snapshot_limit(value)
            } else {
                limit is None
            },
        },
    }
}

/// Tells whether entry `i` is the last one with its key.
fn is_last_entry(entries: &Vec<(String, Json)>, i: usize) -> (res: bool)
    requires
        i < entries@.len(),
    ensures
        res == json::is_last_with_key(entries@, i as int),
{
    let total = entries.len();
    let mut k: usize = i + 1;
    while k < total
        invariant
            i < k <= total,
            total == entries@.len(),
            forall|j: int| i < j < k ==> (#[trigger] entries@[j]).0@ != entries@[i as int].0@,
        decreases total - k,
    {
        if text::eq(entries[k].0.as_str(), entries[i].0.as_str()) {
            assert(entries@[k as int].0@ == entries@[i as int].0@);
            return false;
        }
        k += 1;
    }
    true
}

/// What the entries before `n` leave as the tightest limit, at entry `at`.
pub open spec fn tightest_before(
    entries: Seq<(String, Json)>,
    n: int,
    limit: Option<RateLimitModel>,
    at: int,
) -> bool {
    match limit {
        Some(limit) => {
            &&& 0 <= at < n
            &&& json::is_last_with_key(entries, at)
            &&& snapshot_limit(entries[at].1@) == Some(limit)
            &&& limit.used_percent is Some
            &&& forall|k: int|
                0 <= k < n && json::is_last_with_key(entries, k) && snapshot_limit(
                    (#[trigger] entries[k]).1@,
                ) is Some ==> no_tighter(
                    entries[k].0@,
                    snapshot_limit(entries[k].1@)->0,
                    entries[at].0@,
                    limit,
                )
        },
        None => forall|k: int|
            0 <= k < n && json::is_last_with_key(entries, k) ==> snapshot_limit(
                (#[trigger] entries[k]).1@,
            ) is None,
    }
}

/// One entry more, where it is the tighter one.
proof fn lemma_tighter_entry(
    entries: Seq<(String, Json)>,
    n: int,
    limit: RateLimitModel,
    at: int,
    next: RateLimitModel,
)
    requires
        tightest_before(entries, n, Some(limit), at),
        0 <= n < entries.len(),
        json::is_last_with_key(entries, n),
        snapshot_limit(entries[n].1@) == Some(next),
        next.used_percent is Some,
        no_tighter(entries[at].0@, limit, entries[n].0@, next),
    ensures
        tightest_before(entries, n + 1, Some(next), n),
{
    let a = entries[at].0@;
    let b = entries[n].0@;
    assert(a != b);
    assert forall|k: int|
        0 <= k < n + 1 && json::is_last_with_key(entries, k) && snapshot_limit(
            (#[trigger] entries[k]).1@,
        ) is Some implies no_tighter(
        entries[k].0@,
        snapshot_limit(entries[k].1@)->0,
        b,
        next,
    ) by {
        if k < n && text::text_before(entries[k].0@, a) && text::text_before(a, b) {
            text::lemma_bytes_before_transitive(
                vstd::utf8::encode_utf8(entries[k].0@),
                vstd::utf8::encode_utf8(a),
                vstd::utf8::encode_utf8(b),
            );
        }
    }
}

/// The tightest limit over all entries is that over all members.
proof fn lemma_tightest_of_all(
    entries: Seq<(String, Json)>,
    limit: Option<RateLimitModel>,
    at: int,
)
    requires
        tightest_before(entries, entries.len() as int, limit, at),
    ensures
        is_tightest(limit, json::entries_view(entries)),
{
    let snapshots = json::entries_view(entries);
    if let Some(found) = limit {
        json::lemma_entry_found(entries, at);
        let key = entries[at].0@;
        assert forall|other: Seq<char>|
            #[trigger] snapshots.contains_key(other) && snapshot_limit(
                snapshots[other],
            ) is Some implies no_tighter(
            other,
            snapshot_limit(snapshots[other])->0,
            key,
            found,
        ) by {
            let k = json::lemma_member_has_entry(entries, other);
            json::lemma_entry_found(entries, k);
            assert(entries[k].0@ == other);
        }
        assert(snapshots.contains_key(key));
    } else {
        assert forall|key: Seq<char>| #[trigger] snapshots.contains_key(key) implies snapshot_limit(
            snapshots[key],
        ) is None by {
            let k = json::lemma_member_has_entry(entries, key);
            json::lemma_entry_found(entries, k);
            assert(entries[k].0@ == key);
        }
    }
}

/// The tightest of the limits that snapshots tell.
fn tightest_limit(entries: &Vec<(String, Json)>) -> (res: Option<RateLimitSummary>)
    ensures
        is_tightest(opt_limit(res), json::entries_view(entries@)),
{
    let mut best: Option<RateLimitSummary> = None;
    let mut at: usize = 0;
    let mut i: usize = 0;
    while i < entries.len()
        invariant
            i <= entries@.len(),
            at <= entries@.len(),
            best is Some ==> at < i,
            tightest_before(entries@, i as int, opt_limit(best), at as int),
        decreases entries.len() - i,
    {
        if is_last_entry(entries, i) {
            if let Some(next) = rate_limit_from_snapshot(&entries[i].1) {
                let ghost next_view = next@;
                let ghost old_at = at as int;
                let ghost old_best = opt_limit(best);
                let replace = match (&best, next.used_percent) {
                    (Some(limit), Some(percent)) => match limit.used_percent {
                        Some(most) => {
                            most < percent || (most == percent && text::is_before(
                                entries[at].0.as_str(),
                                entries[i].0.as_str(),
                            ))
                        },
                        None => true,
                    },
                    _ => true,
                };
                proof {
                    if let Some(limit) = old_best {
                        let a = entries@[old_at].0@;
                        let b = entries@[i as int].0@;
                        assert(json::is_last_with_key(entries@, old_at));
                        assert(a != b);
                        if replace {
                            lemma_tighter_entry(entries@, i as int, limit, old_at, next_view);
                        } else {
                            text::lemma_bytes_before_total(
                                vstd::utf8::encode_utf8(a),
                                vstd::utf8::encode_utf8(b),
                            );
                            if vstd::utf8::encode_utf8(a) == vstd::utf8::encode_utf8(b) {
                                text::lemma_utf8_injective(a, b);
                            }
                        }
                    }
                }
                if replace {
                    best = Some(next);
                    at = i;
                }
            }
        }
        i += 1;
    }
    proof {
        lemma_tightest_of_all(entries@, opt_limit(best), at as int);
    }
    best
}

/// The rate limit that is told of `value`.
pub fn summarize_rate_limits(value: &Json) -> (res: Option<RateLimitSummary>)
    ensures
        is_rate_limit_of(opt_limit(res), value@),
{
    if let Some(Json::Object(entries)) = value.get_either(
        "rateLimitsByLimitId",
        "rate_limits_by_limit_id",
    ) {
        return tightest_limit(entries);
    }
    if let Some(snapshot) = value.get_either("rateLimits", "rate_limits") {
        if snapshot.is_object() {
            return rate_limit_from_snapshot(snapshot);
        }
    }
    if value.get("primary").is_some() || value.get("secondary").is_some() {
        rate_limit_from_snapshot(value)
    } else {
        None
    }
}

/// Reads a notification about rate limits.
pub fn parse_rate_limits_update(value: &Json) -> (res: Option<RateLimitSummary>)
    ensures
        match value@.get("params"@) {
            Some(params) => if is_method(value@, "account/rateLimits/updated"@) {
                is_rate_limit_of(opt_limit(res), params)
            } else {
                res is None
            },
            None => res is None,
        },
{
    if !json::member_is(value, "method", "account/rateLimits/updated") {
        return None;
    }
    match value.get("params") {
        Some(params) => summarize_rate_limits(params),
        None => None,
    }
}

// ---------------------------------------------------------------------------
// Laws
// ---------------------------------------------------------------------------

/// One value has one rate limit.
pub proof fn law_rate_limit_is_determined(
    value: JsonView,
    a: Option<RateLimitModel>,
    b: Option<RateLimitModel>,
)
    requires
        is_rate_limit_of(a, value),
        is_rate_limit_of(b, value),
    ensures
        a == b,
{
    if let Some(JsonView::Object(snapshots)) = value.get_either(
        "rateLimitsByLimitId"@,
        "rate_limits_by_limit_id"@,
    ) {
        if let (Some(left), Some(right)) = (a, b) {
            let x = choose|key: Seq<char>|
                {
                    &&& #[trigger] snapshots.contains_key(key)
                    &&& snapshot_limit(snapshots[key]) == Some(left)
                    &&& forall|other: Seq<char>|
                        #[trigger]
                        snapshots.contains_key(other) && snapshot_limit(snapshots[other]) is Some
                            ==> no_tighter(other, snapshot_limit(snapshots[other])->0, key, left)
                };
            let y = choose|key: Seq<char>|
                {
                    &&& #[trigger] snapshots.contains_key(key)
                    &&& snapshot_limit(snapshots[key]) == Some(right)
                    &&& forall|other: Seq<char>|
                        #[trigger]
                        snapshots.contains_key(other) && snapshot_limit(snapshots[other]) is Some
                            ==> no_tighter(other, snapshot_limit(snapshots[other])->0, key, right)
                };
            assert(no_tighter(x, left, y, right));
            assert(no_tighter(y, right, x, left));
            if x != y {
                let p = vstd::utf8::encode_utf8(x);
                let q = vstd::utf8::encode_utf8(y);
                text::lemma_bytes_before_transitive(p, q, p);
                text::lemma_bytes_before_irreflexive(p);
            }
        }
    }
}

/// A window that is used up to its size is used to a hundred percent, an unused one to none.
pub proof fn law_percent_at_the_ends(window: i64)
    requires
        window > 0,
    ensures
        percent_used(window, window) == 100,
        percent_used(0, window) == 0,
{
    let w = window as int;
    assert((w * 100 + w / 2) / w == 100) by (nonlinear_arith)
        requires
            w > 0,
    {
        assert(0 <= w / 2 < w);
    }
    assert((w / 2) / w == 0) by (nonlinear_arith)
        requires
            w > 0,
    {
        assert(0 <= w / 2 < w);
    }
}

/// A change of status is told with the thread and the status that the notification names, each as
/// what it is; what is no such notification, or names no thread or no status, tells none.
pub proof fn law_status_change_names_the_thread(
    value: &Json,
    params: JsonView,
    status: &Json,
    read: Option<String>,
    res: Option<ThreadStatusChange>,
)
    requires
        call_ensures(parse_thread_status_change, (value,), res),
        call_ensures(replies::status_value_to_string, (status,), read),
        value@.get("params"@) == Some(params),
        params.get("status"@) == Some(status@) || params.get("status"@) is None && json::member(
            params.get("thread"@),
            "status"@,
        ) == Some(status@),
    ensures
        ({
            let thread = if params.get("threadId"@) is Some {
                params.get("threadId"@)
            } else if params.get("thread_id"@) is Some {
                params.get("thread_id"@)
            } else {
                json::member(params.get("thread"@), "id"@)
            };
            &&& res is Some <==> value@.get("method"@) == Some(
                JsonView::Str("thread/status/changed"@),
            ) && (thread matches Some(JsonView::Str(_))) && read is Some
            &&& res matches Some(change) ==> thread == Some(JsonView::Str(change.thread_id@))
                && text::opt_text(read) == Some(change.status@)
        }),
{
}

/// A notification without a status tells no change of status.
pub proof fn law_no_status_no_change(
    value: &Json,
    params: JsonView,
    res: Option<ThreadStatusChange>,
)
    requires
        call_ensures(parse_thread_status_change, (value,), res),
        value@.get("params"@) is None || value@.get("params"@) == Some(params) && params.get(
            "status"@,
        ) is None && json::member(params.get("thread"@), "status"@) is None,
    ensures
        res is None,
{
}

/// The percentage that is used is the nearest one: it is off by no more than half a percent of
/// the window, and a half is rounded up.
pub proof fn law_percent_is_the_nearest(used: i64, window: i64)
    requires
        used >= 0,
        window > 0,
    ensures
        ({
            let p = percent_used(used, window);
            &&& p * window <= used * 100 + window / 2
            &&& used * 100 + window / 2 < (p + 1) * window
        }),
{
    let a = used * 100 + window / 2;
    let w = window as int;
    let p = a / w;
    assert(p * w <= a && a < (p + 1) * w) by (nonlinear_arith)
        requires
            w > 0,
            p == a / w,
    ;
}

/// Token usage is told with the thread, the turn, the tokens used in total and the window that the
/// notification names, and with the percentage exactly where there is a window.
pub proof fn law_token_usage_is_as_told(
    value: &Json,
    params: JsonView,
    usage: JsonView,
    res: Option<ThreadTokenUsageSummary>,
)
    requires
        call_ensures(parse_thread_token_usage_update, (value,), res),
        value@.get("params"@) == Some(params),
        params.get_either("tokenUsage"@, "token_usage"@) == Some(usage),
    ensures
        ({
            let thread = params.get_either("threadId"@, "thread_id"@);
            let turn = params.get_either("turnId"@, "turn_id"@);
            let total = match usage.get("total"@) {
                Some(total) => json::i64_in(total.get_either("totalTokens"@, "total_tokens"@)),
                None => None,
            };
            let window = json::i64_in(
                usage.get_either("modelContextWindow"@, "model_context_window"@),
            );
            &&& res is Some <==> value@.get("method"@) == Some(
                JsonView::Str("thread/tokenUsage/updated"@),
            ) && (thread matches Some(JsonView::Str(_))) && (turn matches Some(JsonView::Str(_)))
                && total is Some
            &&& res matches Some(told) ==> {
                &&& thread == Some(JsonView::Str(told.thread_id@))
                &&& turn == Some(JsonView::Str(told.turn_id@))
                &&& total == Some(told.used_tokens)
                &&& told.context_window == window
                &&& told.used_percent is Some <==> (window matches Some(size) && size > 0)
            }
        }),
{
}

/// The percentage that is told of a window is the nearest one.
pub proof fn law_told_percent_is_the_nearest(
    value: &Json,
    res: Option<ThreadTokenUsageSummary>,
    used: i64,
    window: i64,
)
    requires
        call_ensures(parse_thread_token_usage_update, (value,), res),
        usage_countable(value@),
        res matches Some(told) && told.used_tokens == used && told.context_window == Some(window),
        used >= 0,
        window > 0,
    ensures
        res matches Some(told) && told.used_percent matches Some(p) && p * window <= used * 100
            + window / 2 < (p + 1) * window,
{
    law_percent_is_the_nearest(used, window);
    let a = used * 100 + window / 2;
    let w = window as int;
    assert(0 <= a / w <= a) by (nonlinear_arith)
        requires
            w > 0,
            a >= 0,
    ;
}

/// Usage that is counted in fewer than fifty-six bits, with a window that is too, can be told.
pub proof fn law_usual_usage_is_countable(value: &Json, res: bool)
    requires
        call_ensures(token_usage_is_countable, (value,), res),
        usage_fields(value@) matches Some((_, _, used, window)) ==> 0 <= used
            < 0x80_0000_0000_0000 && (window matches Some(size) ==> size < 0x80_0000_0000_0000),
    ensures
        res,
{
}

/// The text of the first of two members that is a string.
pub open spec fn first_text(value: JsonView, first: Seq<char>, second: Seq<char>) -> Option<
    Seq<char>,
> {
    match (value.get(first), value.get(second)) {
        (Some(JsonView::Str(s)), _) => Some(s),
        (_, Some(JsonView::Str(s))) => Some(s),
        _ => None,
    }
}

/// A name is read trimmed, from the first of two members that is a string, and is none where that
/// is blank.
pub proof fn law_name_is_read_trimmed(value: &Json, first: &str, second: &str, res: Option<String>)
    requires
        call_ensures(value_string, (value, first, second), res),
    ensures
        match first_text(value@, first@, second@) {
            Some(s) => text::opt_text(res) == if text::is_blank(s) {
                None
            } else {
                Some(text::trim(s))
            },
            None => res is None,
        },
{
    if let Some(s) = first_text(value@, first@, second@) {
        text::lemma_trim_blank(s);
    }
}

/// A window of a limit tells its percentage and when it starts anew, and is none without a
/// percentage.
pub proof fn law_window_tells_percent_and_reset(
    value: Option<&Json>,
    res: Option<(i64, Option<i64>)>,
)
    requires
        call_ensures(rate_limit_window, (value,), res),
    ensures
        match value {
            Some(value) => {
                let percent = json::i64_in(value@.get_either("usedPercent"@, "used_percent"@));
                let reset = json::i64_in(value@.get_either("resetsAt"@, "resets_at"@));
                &&& percent is None ==> res is None
                &&& percent matches Some(percent) ==> res == Some((percent, reset))
            },
            None => res is None,
        },
{
}

/// Of two windows the one that is used more is told, with its own time of reset: the percentage
/// that is told is no less than that of either, and percentage and reset are of one window.
pub proof fn law_tightest_window_is_told(
    snapshot: &Json,
    primary: Option<&Json>,
    secondary: Option<&Json>,
    a: (i64, Option<i64>),
    b: (i64, Option<i64>),
    res: Option<RateLimitSummary>,
)
    requires
        call_ensures(rate_limit_from_snapshot, (snapshot,), res),
        json::opt_json(primary) == snapshot@.get("primary"@),
        json::opt_json(secondary) == snapshot@.get("secondary"@),
        call_ensures(rate_limit_window, (primary,), Some(a)),
        call_ensures(rate_limit_window, (secondary,), Some(b)),
    ensures
        res is None ==> a.0 <= 0 && b.0 <= 0,
        res matches Some(told) ==> {
            &&& told.used_percent matches Some(percent) && percent >= a.0 && percent >= b.0
            &&& (told.used_percent, told.resets_at) == (Some(a.0), a.1) || (
            told.used_percent,
            told.resets_at,
        ) == (Some(b.0), b.1)
            &&& a.0 == b.0 ==> told.resets_at == b.1
        },
{
}

/// The used percentage of both windows of a snapshot, as its members give it, bounds what is told
/// from below.
pub proof fn law_told_percent_bounds_both_windows(
    snapshot: &Json,
    primary: JsonView,
    secondary: JsonView,
    a: i64,
    b: i64,
    res: Option<RateLimitSummary>,
)
    requires
        call_ensures(rate_limit_from_snapshot, (snapshot,), res),
        snapshot@.get("primary"@) == Some(primary),
        snapshot@.get("secondary"@) == Some(secondary),
        json::i64_in(primary.get_either("usedPercent"@, "used_percent"@)) == Some(a),
        json::i64_in(secondary.get_either("usedPercent"@, "used_percent"@)) == Some(b),
    ensures
        res matches Some(told) ==> {
            let a_reset = json::i64_in(primary.get_either("resetsAt"@, "resets_at"@));
            let b_reset = json::i64_in(secondary.get_either("resetsAt"@, "resets_at"@));
            &&& told.used_percent matches Some(percent) && percent >= a && percent >= b
            &&& told.used_percent == Some(a) && told.resets_at == a_reset || told.used_percent
                == Some(b) && told.resets_at == b_reset
        },
        a > 0 || b > 0 ==> res is Some,
{
}

/// A window that is the only one is told as it is, and where there is none nothing is used and
/// no reset is told.
pub proof fn law_only_window_is_told(
    snapshot: &Json,
    primary: Option<&Json>,
    secondary: Option<&Json>,
    a: Option<(i64, Option<i64>)>,
    b: Option<(i64, Option<i64>)>,
    res: Option<RateLimitSummary>,
)
    requires
        call_ensures(rate_limit_from_snapshot, (snapshot,), res),
        json::opt_json(primary) == snapshot@.get("primary"@),
        json::opt_json(secondary) == snapshot@.get("secondary"@),
        call_ensures(rate_limit_window, (primary,), a),
        call_ensures(rate_limit_window, (secondary,), b),
        a is None || b is None,
    ensures
        res matches Some(told) ==> {
            &&& a matches Some(a) ==> told.used_percent == Some(a.0) && told.resets_at == a.1
            &&& b matches Some(b) ==> told.used_percent == Some(b.0) && told.resets_at == b.1
            &&& a is None && b is None ==> told.used_percent == Some(0i64) && told.resets_at is None
        },
        res is None ==> (a matches Some(a) ==> a.0 == 0) && (b matches Some(b) ==> b.0 == 0),
{
}

/// The plan is told by its type and the bucket by its name, else by its id; a snapshot that names
/// any of them is told of, used or not.
pub proof fn law_limit_is_told_by_name(
    snapshot: &Json,
    plan: Option<String>,
    name: Option<String>,
    id: Option<String>,
    res: Option<RateLimitSummary>,
)
    requires
        call_ensures(rate_limit_from_snapshot, (snapshot,), res),
        call_ensures(value_string, (snapshot, "planType", "plan_type"), plan),
        call_ensures(value_string, (snapshot, "limitName", "limit_name"), name),
        call_ensures(value_string, (snapshot, "limitId", "limit_id"), id),
    ensures
        res matches Some(told) ==> {
            &&& text::opt_text(told.plan) == text::opt_text(plan)
            &&& name is Some ==> text::opt_text(told.bucket) == text::opt_text(name)
            &&& name is None ==> text::opt_text(told.bucket) == text::opt_text(id)
        },
        snapshot@.get("planType"@) is Some || snapshot@.get("limitName"@) is Some || snapshot@.get(
            "limitId"@,
        ) is Some ==> res is Some,
        snapshot@.get("planType"@) is None && snapshot@.get("limitName"@) is None && snapshot@.get(
            "limitId"@,
        ) is None && snapshot@.get("primary"@) is None && snapshot@.get("secondary"@) is None
            ==> res is None,
{
}

/// Of several snapshots the one that is used most is told: none is used more than what is told,
/// what is told is what one of them tells, and nothing is told only where none tells anything.
pub proof fn law_most_used_limit_is_told(
    value: &Json,
    snapshots: Map<Seq<char>, JsonView>,
    key: Seq<char>,
    snapshot: &Json,
    limit: Option<RateLimitSummary>,
    res: Option<RateLimitSummary>,
)
    requires
        call_ensures(summarize_rate_limits, (value,), res),
        call_ensures(rate_limit_from_snapshot, (snapshot,), limit),
        value@.get("rateLimitsByLimitId"@) == Some(JsonView::Object(snapshots)),
        snapshots.contains_key(key),
        snapshots[key] == snapshot@,
    ensures
        limit matches Some(limit) ==> res matches Some(told) && limit.used_percent is Some
            && told.used_percent is Some && told.used_percent->0 >= limit.used_percent->0,
        res matches Some(told) ==> exists|k: Seq<char>| #[trigger]
            snapshots.contains_key(k) && snapshot_limit(snapshots[k]) == Some(told@),
{
    if let Some(limit) = limit {
        assert(snapshot_limit(snapshots[key]) is Some);
    }
}

/// Among snapshots that are used alike the one whose key comes last is told.
pub proof fn law_last_key_wins(
    value: &Json,
    snapshots: Map<Seq<char>, JsonView>,
    a: Seq<char>,
    b: Seq<char>,
    snapshot: &Json,
    limit: RateLimitSummary,
    res: Option<RateLimitSummary>,
)
    requires
        call_ensures(summarize_rate_limits, (value,), res),
        call_ensures(rate_limit_from_snapshot, (snapshot,), Some(limit)),
        value@.get("rateLimitsByLimitId"@) == Some(JsonView::Object(snapshots)),
        snapshots == map![a => snapshots[a], b => snapshots[b]],
        text::text_before(a, b),
        snapshots[b] == snapshot@,
        snapshot_limit(snapshots[a]) matches Some(other) ==> other.used_percent
            == limit.used_percent,
    ensures
        opt_limit(res) == Some(limit@),
{
    let told = opt_limit(res);
    assert(snapshots.contains_key(b));
    assert(snapshots.contains_key(a));
    text::lemma_bytes_before_irreflexive(vstd::utf8::encode_utf8(a));
    let k = choose|key: Seq<char>|
        {
            &&& #[trigger] snapshots.contains_key(key)
            &&& snapshot_limit(snapshots[key]) == Some(told->0)
            &&& forall|other: Seq<char>| #[trigger]
                snapshots.contains_key(other) && snapshot_limit(snapshots[other]) is Some
                    ==> no_tighter(other, snapshot_limit(snapshots[other])->0, key, told->0)
        };
    assert(snapshot_limit(snapshots[b]) is Some);
    assert(k == a || k == b);
    if k == a {
        assert(no_tighter(b, limit@, a, told->0));
        text::lemma_bytes_before_transitive(
            vstd::utf8::encode_utf8(a),
            vstd::utf8::encode_utf8(b),
            vstd::utf8::encode_utf8(a),
        );
    }
}

/// Without several snapshots the single one is told of, and without that the value itself, where
/// it has a window.
pub proof fn law_single_limit_is_told(
    value: &Json,
    snapshot: &Json,
    limit: Option<RateLimitSummary>,
    res: Option<RateLimitSummary>,
)
    requires
        call_ensures(summarize_rate_limits, (value,), res),
        call_ensures(rate_limit_from_snapshot, (snapshot,), limit),
        value@.get("rateLimitsByLimitId"@) is None,
        value@.get("rate_limits_by_limit_id"@) is None,
    ensures
        snapshot@ is Object && value@.get("rateLimits"@) == Some(snapshot@) ==> opt_limit(res)
            == opt_limit(limit),
        value@.get("rateLimits"@) is None && value@.get("rate_limits"@) is None && snapshot@
            == value@ && (value@.get("primary"@) is Some || value@.get("secondary"@) is Some)
            ==> opt_limit(res) == opt_limit(limit),
        value@.get("rateLimits"@) is None && value@.get("rate_limits"@) is None && value@.get(
            "primary"@,
        ) is None && value@.get("secondary"@) is None ==> res is None,
{
}

/// A notification about rate limits tells what its parameters tell, and no other notification
/// tells any.
pub proof fn law_limits_are_those_of_the_parameters(
    value: &Json,
    params: &Json,
    limit: Option<RateLimitSummary>,
    res: Option<RateLimitSummary>,
)
    requires
        call_ensures(parse_rate_limits_update, (value,), res),
        call_ensures(summarize_rate_limits, (params,), limit),
        value@.get("params"@) == Some(params@),
    ensures
        value@.get("method"@) == Some(JsonView::Str("account/rateLimits/updated"@)) ==> opt_limit(
            res,
        ) == opt_limit(limit),
        value@.get("method"@) != Some(JsonView::Str("account/rateLimits/updated"@)) ==> res is None,
{
    if value@.get("method"@) == Some(JsonView::Str("account/rateLimits/updated"@)) {
        law_rate_limit_is_determined(params@, opt_limit(res), opt_limit(limit));
    }
}

/// The percentage that is told of any usage is that of the tokens and half a percent of the window,
/// rounded towards zero.
pub proof fn law_told_percent_is_rounded_towards_zero(
    value: &Json,
    res: Option<ThreadTokenUsageSummary>,
    used: i64,
    window: i64,
)
    requires
        call_ensures(parse_thread_token_usage_update, (value,), res),
        usage_countable(value@),
        res matches Some(told) && told.used_tokens == used && told.context_window == Some(window),
        window > 0,
    ensures
        res matches Some(told) && told.used_percent matches Some(p) && {
            let a = used * 100 + window / 2;
            &&& a >= 0 ==> p * window <= a < (p + 1) * window
            &&& a < 0 ==> (p - 1) * window < a <= p * window
        },
{
    let a = used * 100 + window / 2;
    let w = window as int;
    let p = percent_used(used, window);
    if a >= 0 {
        assert(p * w <= a && a < (p + 1) * w) by (nonlinear_arith)
            requires
                w > 0,
                p == a / w,
        ;
        assert(0 <= a / w <= a) by (nonlinear_arith)
            requires
                w > 0,
                a >= 0,
        ;
    } else {
        let q = (-a) / w;
        assert((-q - 1) * w < a && a <= (-q) * w) by (nonlinear_arith)
            requires
                w > 0,
                q == (-a) / w,
        ;
        assert(0 <= q <= -a) by (nonlinear_arith)
            requires
                w > 0,
                a < 0,
                q == (-a) / w,
        ;
    }
}

} // verus!
