//! The projects that threads belong to.
use vstd::prelude::*;
use vstd::utf8::*;

use crate::app_server::replies;
use crate::app_server::replies::{AppServerThread, ThreadModel};
use crate::app_server::requests;
use crate::app_server::requests::RequestIds;
use crate::telegram::config::as_opt_str;
use crate::telegram::labels;
use crate::text;
use crate::workdir;

verus! {

/// The threads of one project.
#[derive(Debug, Clone, PartialEq, Eq)]
pub struct ProjectGroup {
    pub cwd: String,
    pub thread_count: usize,
    pub latest_updated_at: i64,
}

/// What a `ProjectGroup` says.
pub struct GroupModel {
    pub cwd: Seq<char>,
    pub thread_count: nat,
    pub latest_updated_at: i64,
}

impl View for ProjectGroup {
    type V = GroupModel;

    open spec fn view(&self) -> GroupModel {
        GroupModel {
            cwd: self.cwd@,
            thread_count: self.thread_count as nat,
            latest_updated_at: self.latest_updated_at,
        }
    }
}

/// The views of a list of groups.
pub open spec fn group_views(groups: Seq<ProjectGroup>) -> Seq<GroupModel> {
    groups.map_values(|group: ProjectGroup| group@)
}

/// How many of the first `n` entries name a directory.
pub open spec fn count_of(cwds: Seq<Option<Seq<char>>>, cwd: Seq<char>, n: nat) -> nat
    decreases n,
{
    if n == 0 {
        0
    } else {
        count_of(cwds, cwd, (n - 1) as nat) + if cwds[n - 1] == Some(cwd) {
            1nat
        } else {
            0nat
        }
    }
}

/// When the latest of the first `n` threads of a directory was updated, and 0 at least.
pub open spec fn latest_of(
    threads: Seq<ThreadModel>,
    cwds: Seq<Option<Seq<char>>>,
    cwd: Seq<char>,
    n: nat,
) -> i64
    decreases n,
{
    if n == 0 {
        0
    } else {
        let before = latest_of(threads, cwds, cwd, (n - 1) as nat);
        match threads[n - 1].updated_at {
            Some(updated) => if cwds[n - 1] == Some(cwd) && updated > before {
                updated
            } else {
                before
            },
            None => before,
        }
    }
}

/// The group of a directory, over the first `n` threads.
pub open spec fn group_of(
    threads: Seq<ThreadModel>,
    cwds: Seq<Option<Seq<char>>>,
    cwd: Seq<char>,
    n: nat,
) -> GroupModel {
    GroupModel {
        cwd,
        thread_count: count_of(cwds, cwd, n),
        latest_updated_at: latest_of(threads, cwds, cwd, n),
    }
}

/// Whether `groups` are the groups of the first `n` threads: one for each directory that is
/// named, and no other.
pub open spec fn are_groups(
    groups: Seq<GroupModel>,
    threads: Seq<ThreadModel>,
    cwds: Seq<Option<Seq<char>>>,
    n: nat,
) -> bool {
    &&& forall|k: int|
        0 <= k < groups.len() ==> #[trigger] groups[k] == group_of(
            threads,
            cwds,
            groups[k].cwd,
            n,
        ) && groups[k].thread_count > 0
    &&& forall|j: int, k: int|
        0 <= j < k < groups.len() ==> (#[trigger] groups[j]).cwd != (#[trigger] groups[k]).cwd
    &&& forall|i: int|
        0 <= i < n && (#[trigger] cwds[i]) is Some ==> exists|k: int|
            0 <= k < groups.len() && (#[trigger] groups[k]).cwd == cwds[i]->0
}

/// Whether a group may stand before another: it was updated later, or at the same time and its
/// name does not come after that of the other.
pub open spec fn may_precede(a: GroupModel, b: GroupModel) -> bool {
    ||| a.latest_updated_at > b.latest_updated_at
    ||| a.latest_updated_at == b.latest_updated_at && !text::text_before(
        labels::project_name(b.cwd),
        labels::project_name(a.cwd),
    )
}

/// Whether groups stand in order.
pub open spec fn in_order(groups: Seq<GroupModel>) -> bool {
    forall|j: int, k: int|
        0 <= j < k < groups.len() ==> may_precede(#[trigger] groups[j], #[trigger] groups[k])
}

/// `may_precede` is transitive.
proof fn lemma_precede_transitive(a: GroupModel, b: GroupModel, c: GroupModel)
    requires
        may_precede(a, b),
        may_precede(b, c),
    ensures
        may_precede(a, c),
{
    let x = encode_utf8(labels::project_name(a.cwd));
    let y = encode_utf8(labels::project_name(b.cwd));
    let z = encode_utf8(labels::project_name(c.cwd));
    if a.latest_updated_at == b.latest_updated_at && b.latest_updated_at == c.latest_updated_at {
        if text::bytes_before(z, x) {
            text::lemma_bytes_before_total(x, y);
            text::lemma_bytes_before_total(y, z);
            if x == y {
            } else if text::bytes_before(x, y) {
                text::lemma_bytes_before_transitive(z, x, y);
            }
        }
    }
}

/// Of two groups one may precede the other.
proof fn lemma_precede_total(a: GroupModel, b: GroupModel)
    ensures
        may_precede(a, b) || may_precede(b, a),
{
    let x = encode_utf8(labels::project_name(a.cwd));
    let y = encode_utf8(labels::project_name(b.cwd));
    if text::bytes_before(x, y) && text::bytes_before(y, x) {
        text::lemma_bytes_before_transitive(x, y, x);
        text::lemma_bytes_before_irreflexive(x);
    }
}

/// Tells whether a group may stand before another.
fn precedes(a: &ProjectGroup, b: &ProjectGroup) -> (res: bool)
    ensures
        res == may_precede(a@, b@),
{
    a.latest_updated_at > b.latest_updated_at || (a.latest_updated_at == b.latest_updated_at
        && !text::is_before(
        labels::project_label(b.cwd.as_str()).as_str(),
        labels::project_label(a.cwd.as_str()).as_str(),
    ))
}

/// Puts a group into its place among others that stand in order.
fn insert_group(groups: &mut Vec<ProjectGroup>, group: ProjectGroup)
    requires
        in_order(group_views(old(groups)@)),
    ensures
        in_order(group_views(final(groups)@)),
        exists|at: int|
            0 <= at <= old(groups)@.len() && group_views(final(groups)@) == #[trigger] group_views(
                old(groups)@,
            ).insert(at, group@),
{
    let ghost views = group_views(groups@);
    let ghost new = group@;
    let mut at: usize = 0;
    while at < groups.len() && precedes(&groups[at], &group)
        invariant
            at <= groups@.len(),
            views == group_views(groups@),
            new == group@,
            in_order(views),
            forall|k: int| 0 <= k < at ==> may_precede(#[trigger] views[k], new),
        decreases groups.len() - at,
    {
        at += 1;
    }
    proof {
        if at < groups@.len() {
            lemma_precede_total(views[at as int], new);
            assert(views[at as int] == groups@[at as int]@);
        }
        assert forall|k: int| at <= k < views.len() implies may_precede(
            new,
            #[trigger] views[k],
        ) by {
            if k > at {
                lemma_precede_transitive(new, views[at as int], views[k]);
            }
        }
    }
    groups.insert(at, group);
    proof {
        let after = group_views(groups@);
        assert(after =~= views.insert(at as int, new));
        assert forall|j: int, k: int| 0 <= j < k < after.len() implies may_precede(
            #[trigger] after[j],
            #[trigger] after[k],
        ) by {
            let x = if j < at {
                j
            } else {
                j - 1
            };
            let y = if k < at {
                k
            } else {
                k - 1
            };
            if j != at && k != at {
                assert(after[j] == views[x]);
                assert(after[k] == views[y]);
            } else if j == at {
                assert(after[k] == views[y]);
            } else {
                assert(after[j] == views[x]);
            }
        }
    }
}

/// Putting groups in order keeps which groups there are.
proof fn lemma_inserted(
    sorted: Seq<GroupModel>,
    at: int,
    group: GroupModel,
    groups: Seq<GroupModel>,
    n: int,
)
    requires
        0 <= n < groups.len(),
        group == groups[n],
        0 <= at <= sorted.len(),
        same_groups(sorted, groups, n),
    ensures
        same_groups(sorted.insert(at, group), groups, n + 1),
{
    let after = sorted.insert(at, group);
    assert forall|k: int| 0 <= k < after.len() implies exists|i: int|
        0 <= i < n + 1 && groups[i] == #[trigger] after[k] by {
        if k == at {
            assert(groups[n] == after[k]);
        } else {
            let old_k = if k < at {
                k
            } else {
                k - 1
            };
            assert(after[k] == sorted[old_k]);
            let i = choose|i: int| 0 <= i < n && groups[i] == sorted[old_k];
            assert(groups[i] == after[k]);
        }
    }
    assert forall|i: int| 0 <= i < n + 1 implies exists|k: int|
        0 <= k < after.len() && after[k] == #[trigger] groups[i] by {
        if i == n {
            assert(after[at] == groups[i]);
        } else {
            let k = choose|k: int| 0 <= k < sorted.len() && sorted[k] == groups[i];
            assert(after[if k < at { k } else { k + 1 }] == groups[i]);
        }
    }
}

/// Whether `sorted` holds the first `n` of `groups`, and nothing else.
pub open spec fn same_groups(sorted: Seq<GroupModel>, groups: Seq<GroupModel>, n: int) -> bool {
    &&& sorted.len() == n
    &&& forall|k: int|
        0 <= k < sorted.len() ==> exists|i: int| 0 <= i < n && groups[i] == #[trigger] sorted[k]
    &&& forall|i: int|
        0 <= i < n ==> exists|k: int| 0 <= k < sorted.len() && sorted[k] == #[trigger] groups[i]
}

/// A list of as many groups as there are different ones, which holds them all, holds none twice.
proof fn lemma_still_different(sorted: Seq<GroupModel>, groups: Seq<GroupModel>)
    requires
        same_groups(sorted, groups, groups.len() as int),
        forall|j: int, k: int|
            0 <= j < k < groups.len() ==> (#[trigger] groups[j]).cwd != (#[trigger] groups[k]).cwd,
    ensures
        forall|j: int, k: int|
            0 <= j < k < sorted.len() ==> (#[trigger] sorted[j]).cwd != (#[trigger] sorted[k]).cwd,
{
    assert(groups.no_duplicates()) by {
        assert forall|j: int, k: int|
            0 <= j < groups.len() && 0 <= k < groups.len() && j != k implies groups[j]
            != groups[k] by {
            if j < k {
                assert(groups[j].cwd != groups[k].cwd);
            } else {
                assert(groups[k].cwd != groups[j].cwd);
            }
        }
    }
    let a = sorted.to_set();
    let b = groups.to_set();
    assert(a =~= b) by {
        assert forall|g: GroupModel| a.contains(g) implies b.contains(g) by {
            let k = choose|k: int| 0 <= k < sorted.len() && sorted[k] == g;
            let i = choose|i: int| 0 <= i < groups.len() && groups[i] == sorted[k];
            assert(groups[i] == g);
        }
        assert forall|g: GroupModel| b.contains(g) implies a.contains(g) by {
            let i = choose|i: int| 0 <= i < groups.len() && groups[i] == g;
            let k = choose|k: int| 0 <= k < sorted.len() && sorted[k] == groups[i];
            assert(sorted[k] == g);
        }
    }
    groups.unique_seq_to_set();
    sorted.lemma_no_dup_set_cardinality();
    assert forall|j: int, k: int| 0 <= j < k < sorted.len() implies (#[trigger] sorted[j]).cwd
        != (#[trigger] sorted[k]).cwd by {
        assert(sorted[j] != sorted[k]);
        let x = choose|i: int| 0 <= i < groups.len() && groups[i] == sorted[j];
        let y = choose|i: int| 0 <= i < groups.len() && groups[i] == sorted[k];
        if x < y {
            assert(groups[x].cwd != groups[y].cwd);
        } else {
            assert(groups[y].cwd != groups[x].cwd);
        }
    }
}

/// The views of a list of optional texts.
pub open spec fn opt_views(cwds: Seq<Option<String>>) -> Seq<Option<Seq<char>>> {
    cwds.map_values(|cwd: Option<String>| text::opt_text(cwd))
}

/// There are no more threads of a directory than threads, and none where none names it.
proof fn lemma_count_bound(cwds: Seq<Option<Seq<char>>>, cwd: Seq<char>, n: nat)
    ensures
        count_of(cwds, cwd, n) <= n,
        (forall|i: int| 0 <= i < n ==> #[trigger] cwds[i] != Some(cwd)) ==> count_of(cwds, cwd, n)
            == 0,
    decreases n,
{
    if n > 0 {
        lemma_count_bound(cwds, cwd, (n - 1) as nat);
    }
}

/// Without a thread of a directory its latest update is 0.
proof fn lemma_latest_none(
    threads: Seq<ThreadModel>,
    cwds: Seq<Option<Seq<char>>>,
    cwd: Seq<char>,
    n: nat,
)
    requires
        forall|i: int| 0 <= i < n ==> #[trigger] cwds[i] != Some(cwd),
    ensures
        latest_of(threads, cwds, cwd, n) == 0,
    decreases n,
{
    if n > 0 {
        lemma_latest_none(threads, cwds, cwd, (n - 1) as nat);
    }
}

/// Finds the group of a directory.
fn find_group(groups: &Vec<ProjectGroup>, cwd: &str) -> (res: Option<usize>)
    ensures
        match res {
            Some(at) => at < groups@.len() && groups@[at as int].cwd@ == cwd@,
            None => forall|k: int|
                0 <= k < groups@.len() ==> (#[trigger] groups@[k]).cwd@ != cwd@,
        },
{
    let mut i: usize = 0;
    while i < groups.len()
        invariant
            i <= groups@.len(),
            forall|k: int| 0 <= k < i ==> (#[trigger] groups@[k]).cwd@ != cwd@,
        decreases groups.len() - i,
    {
        if text::eq(groups[i].cwd.as_str(), cwd) {
            return Some(i);
        }
        i += 1;
    }
    None
}

/// One thread more: the groups of the first `n` threads become those of the first `n + 1`.
proof fn lemma_group_step(
    groups: Seq<GroupModel>,
    after: Seq<GroupModel>,
    threads: Seq<ThreadModel>,
    cwds: Seq<Option<Seq<char>>>,
    n: nat,
)
    requires
        n < threads.len(),
        threads.len() == cwds.len(),
        are_groups(groups, threads, cwds, n),
        match cwds[n as int] {
            None => after == groups,
            Some(cwd) => {
                let group = group_of(threads, cwds, cwd, n + 1);
                ||| exists|at: int|
                    0 <= at < groups.len() && (#[trigger] groups[at]).cwd == cwd && after
                        == groups.update(at, group)
                ||| (forall|k: int| 0 <= k < groups.len() ==> (#[trigger] groups[k]).cwd != cwd)
                    && after == groups.push(group)
            },
        },
    ensures
        are_groups(after, threads, cwds, n + 1),
{
    assert forall|k: int| 0 <= k < after.len() implies #[trigger] after[k] == group_of(
        threads,
        cwds,
        after[k].cwd,
        n + 1,
    ) && after[k].thread_count > 0 by {
        if k < groups.len() && cwds[n as int] != Some(groups[k].cwd) {
            assert(after[k] == groups[k]);
            assert(groups[k] == group_of(threads, cwds, groups[k].cwd, n));
        } else if let Some(cwd) = cwds[n as int] {
            assert(count_of(cwds, cwd, n + 1) > 0);
            if k < groups.len() {
                assert(groups[k].cwd == cwd);
            }
        }
    }
    assert forall|i: int| 0 <= i < n + 1 && (#[trigger] cwds[i]) is Some implies exists|k: int|
        0 <= k < after.len() && (#[trigger] after[k]).cwd == cwds[i]->0 by {
        if i < n {
            let k = choose|k: int|
                0 <= k < groups.len() && (#[trigger] groups[k]).cwd == cwds[i]->0;
            assert(after[k].cwd == cwds[i]->0);
        } else {
            let cwd = cwds[i]->0;
            if forall|k: int| 0 <= k < groups.len() ==> (#[trigger] groups[k]).cwd != cwd {
                assert(after[after.len() - 1].cwd == cwd);
            } else {
                let at = choose|at: int|
                    0 <= at < groups.len() && (#[trigger] groups[at]).cwd == cwd && after
                        == groups.update(at, group_of(threads, cwds, cwd, n + 1));
                assert(after[at].cwd == cwd);
            }
        }
    }
    assert forall|j: int, k: int| 0 <= j < k < after.len() implies (#[trigger] after[j]).cwd
        != (#[trigger] after[k]).cwd by {
        if k < groups.len() {
            assert(groups[j].cwd != groups[k].cwd);
            assert(after[j].cwd == groups[j].cwd);
            assert(after[k].cwd == groups[k].cwd);
        } else {
            assert(after[j] == groups[j]);
        }
    }
}

/// Groups threads by the project directories that are named for them, the most recently updated
/// project first.
pub fn group_by_project(threads: &Vec<AppServerThread>, cwds: &Vec<Option<String>>) -> (res: Vec<
    ProjectGroup,
>)
    requires
        threads@.len() == cwds@.len(),
    ensures
        are_groups(
            group_views(res@),
            replies::thread_views(threads@),
            opt_views(cwds@),
            threads@.len(),
        ),
        in_order(group_views(res@)),
{
    let ghost views = replies::thread_views(threads@);
    let ghost dirs = opt_views(cwds@);
    let mut groups: Vec<ProjectGroup> = Vec::new();
    let mut i: usize = 0;
    while i < threads.len()
        invariant
            i <= threads@.len(),
            threads@.len() == cwds@.len(),
            views == replies::thread_views(threads@),
            dirs == opt_views(cwds@),
            are_groups(group_views(groups@), views, dirs, i as nat),
        decreases threads.len() - i,
    {
        let ghost before = group_views(groups@);
        assert(dirs[i as int] == text::opt_text(cwds@[i as int]));
        if let Some(cwd) = &cwds[i] {
            let updated: i64 = match threads[i].updated_at {
                Some(updated) => updated,
                None => 0,
            };
            let ghost group = group_of(views, dirs, cwd@, (i + 1) as nat);
            match find_group(&groups, cwd.as_str()) {
                Some(at) => {
                    proof {
                        assert(before[at as int] == groups@[at as int]@);
                        assert(before[at as int] == group_of(views, dirs, cwd@, i as nat));
                        lemma_count_bound(dirs, cwd@, i as nat);
                    }
                    let latest = groups[at].latest_updated_at;
                    let one_more = ProjectGroup {
                        cwd: cwd.clone(),
                        thread_count: groups[at].thread_count + 1,
                        latest_updated_at: if updated > latest {
                            updated
                        } else {
                            latest
                        },
                    };
                    proof {
                        lemma_latest_floor(views, dirs, cwd@, i as nat);
                        assert(one_more@ == group);
                    }
                    groups.set(at, one_more);
                    assert(group_views(groups@) =~= before.update(at as int, group));
                },
                None => {
                    proof {
                        assert forall|k: int| 0 <= k < before.len() implies (#[trigger]
                        before[k]).cwd != cwd@ by {
                            assert(before[k] == groups@[k]@);
                        }
                        assert forall|j: int| 0 <= j < i implies #[trigger] dirs[j]
                            != Some(cwd@) by {
                            if dirs[j] == Some(cwd@) {
                                let k = choose|k: int|
                                    0 <= k < before.len() && (#[trigger] before[k]).cwd
                                        == dirs[j]->0;
                                assert(false);
                            }
                        }
                        lemma_count_bound(dirs, cwd@, i as nat);
                        lemma_latest_none(views, dirs, cwd@, i as nat);
                    }
                    let first = ProjectGroup {
                        cwd: cwd.clone(),
                        thread_count: 1,
                        latest_updated_at: if updated > 0 {
                            updated
                        } else {
                            0
                        },
                    };
                    assert(first@ == group);
                    groups.push(first);
                    assert(group_views(groups@) =~= before.push(group));
                },
            }
        }
        proof {
            lemma_group_step(before, group_views(groups@), views, dirs, i as nat);
        }
        i += 1;
    }
    sort_groups(groups, Ghost(views), Ghost(dirs))
}

/// The latest update of a directory is 0 at least.
proof fn lemma_latest_floor(
    threads: Seq<ThreadModel>,
    cwds: Seq<Option<Seq<char>>>,
    cwd: Seq<char>,
    n: nat,
)
    ensures
        latest_of(threads, cwds, cwd, n) >= 0,
    decreases n,
{
    if n > 0 {
        lemma_latest_floor(threads, cwds, cwd, (n - 1) as nat);
    }
}

/// Puts groups in order.
fn sort_groups(
    groups: Vec<ProjectGroup>,
    Ghost(threads): Ghost<Seq<ThreadModel>>,
    Ghost(cwds): Ghost<Seq<Option<Seq<char>>>>,
) -> (res: Vec<ProjectGroup>)
    requires
        are_groups(group_views(groups@), threads, cwds, threads.len()),
    ensures
        are_groups(group_views(res@), threads, cwds, threads.len()),
        in_order(group_views(res@)),
{
    let ghost views = group_views(groups@);
    let mut sorted: Vec<ProjectGroup> = Vec::new();
    let mut i: usize = 0;
    while i < groups.len()
        invariant
            i <= groups@.len(),
            views == group_views(groups@),
            in_order(group_views(sorted@)),
            same_groups(group_views(sorted@), views, i as int),
        decreases groups.len() - i,
    {
        let group = ProjectGroup {
            cwd: groups[i].cwd.clone(),
            thread_count: groups[i].thread_count,
            latest_updated_at: groups[i].latest_updated_at,
        };
        let ghost before = group_views(sorted@);
        let ghost view = group@;
        assert(view == views[i as int]);
        insert_group(&mut sorted, group);
        proof {
            let at = choose|at: int|
                0 <= at <= before.len() && group_views(sorted@) == #[trigger] before.insert(
                    at,
                    view,
                );
            lemma_inserted(before, at, view, views, i as int);
        }
        i += 1;
    }
    proof {
        let after = group_views(sorted@);
        lemma_still_different(after, views);
        assert forall|k: int| 0 <= k < after.len() implies #[trigger] after[k] == group_of(
            threads,
            cwds,
            after[k].cwd,
            threads.len(),
        ) && after[k].thread_count > 0 by {
            let j = choose|j: int| 0 <= j < views.len() && views[j] == after[k];
            assert(views[j] == group_of(threads, cwds, views[j].cwd, threads.len()));
        }
        assert forall|j: int| 0 <= j < threads.len() && (#[trigger] cwds[j]) is Some implies exists|
            k: int,
        |
            0 <= k < after.len() && (#[trigger] after[k]).cwd == cwds[j]->0 by {
            let m = choose|m: int| 0 <= m < views.len() && (#[trigger] views[m]).cwd == cwds[j]->0;
            let k = choose|k: int| 0 <= k < after.len() && after[k] == views[m];
            assert(after[k].cwd == cwds[j]->0);
        }
    }
    sorted
}

/// Whether `cwd` may be the directory under which a thread is grouped: its own, trimmed, where
/// that is a project for some outcome of asking for a new chat directory with the given id.
pub open spec fn may_group(thread: ThreadModel, cwd: Option<Seq<char>>, id: u64) -> bool {
    match replies::trimmed_text(thread.cwd) {
        None => cwd is None,
        Some(own) => exists|standalone: Result<workdir::PathModel, Seq<char>>|
            #[trigger] workdir::standalone_outcome(standalone, id) && cwd
                == if workdir::project_cwd(Some(own), standalone) is Some {
                Some(own)
            } else {
                None
            },
    }
}

/// Whether `cwds` may be the directories under which threads are grouped, where ids start at
/// `id`.
pub open spec fn may_group_all(
    threads: Seq<ThreadModel>,
    cwds: Seq<Option<Seq<char>>>,
    id: u64,
) -> bool {
    &&& cwds.len() == threads.len()
    &&& forall|i: int|
        0 <= i < threads.len() ==> may_group(
            #[trigger] threads[i],
            cwds[i],
            replies::id_at(id, threads, i),
        )
}

/// The directories under which threads are grouped.
fn grouping_cwds(ids: &mut RequestIds, threads: &Vec<AppServerThread>) -> (res: Vec<
    Option<String>,
>)
    ensures
        may_group_all(replies::thread_views(threads@), opt_views(res@), old(ids)@),
        final(ids)@ == replies::id_at(
            old(ids)@,
            replies::thread_views(threads@),
            threads@.len() as int,
        ),
{
    let ghost views = replies::thread_views(threads@);
    let mut res: Vec<Option<String>> = Vec::new();
    let mut i: usize = 0;
    proof {
        requests::law_ids_in_order(old(ids)@, 0);
    }
    while i < threads.len()
        invariant
            i <= threads@.len(),
            views == replies::thread_views(threads@),
            res@.len() == i,
            ids@ == replies::id_at(old(ids)@, views, i as int),
            forall|k: int|
                0 <= k < i ==> may_group(
                    #[trigger] views[k],
                    text::opt_text(res@[k]),
                    replies::id_at(old(ids)@, views, k),
                ),
        decreases threads.len() - i,
    {
        let ghost id = ids@;
        proof {
            assert(views[i as int] == threads@[i as int]@);
            replies::lemma_next_id(old(ids)@, views, i as int);
            requests::law_ids_in_order(id, 0);
            if let Some(own) = views[i as int].cwd {
                text::lemma_trim_idempotent(own);
            }
        }
        let cwd = match replies::trimmed_or_none(as_opt_str(&threads[i].cwd)) {
            Some(own) => {
                let project = workdir::normalize_thread_cwd(ids, Some(own.to_owned()));
                if project.is_some() {
                    Some(own.to_owned())
                } else {
                    None
                }
            },
            None => None,
        };
        assert(may_group(views[i as int], text::opt_text(cwd), id));
        res.push(cwd);
        i += 1;
    }
    assert(opt_views(res@).len() == views.len());
    res
}

/// The projects of some threads, the most recently updated first. Threads in directories of
/// standalone chats belong to none.
pub fn group_projects(ids: &mut RequestIds, threads: &Vec<AppServerThread>) -> (res: Vec<
    ProjectGroup,
>)
    ensures
        in_order(group_views(res@)),
        exists|cwds: Seq<Option<Seq<char>>>|
            {
                &&& may_group_all(replies::thread_views(threads@), cwds, old(ids)@)
                &&& #[trigger] are_groups(
                    group_views(res@),
                    replies::thread_views(threads@),
                    cwds,
                    threads@.len(),
                )
            },
        final(ids)@ == replies::id_at(
            old(ids)@,
            replies::thread_views(threads@),
            threads@.len() as int,
        ),
{
    let cwds = grouping_cwds(ids, threads);
    assert(opt_views(cwds@).len() == threads@.len());
    group_by_project(threads, &cwds)
}

// ---------------------------------------------------------------------------
// Laws
// ---------------------------------------------------------------------------

/// Threads, each with the directory under which it is grouped.
pub open spec fn placed(threads: Seq<ThreadModel>, cwds: Seq<Option<Seq<char>>>) -> Seq<
    (ThreadModel, Option<Seq<char>>),
> {
    Seq::new(threads.len(), |i: int| (threads[i], cwds[i]))
}

/// Whether two groups are ordered alike: they were updated at the same time and have the same
/// name.
pub open spec fn tie(a: GroupModel, b: GroupModel) -> bool {
    &&& a.latest_updated_at == b.latest_updated_at
    &&& labels::project_name(a.cwd) == labels::project_name(b.cwd)
}

/// The later of two times.
spec fn later(a: i64, b: i64) -> i64 {
    if b > a {
        b
    } else {
        a
    }
}

/// When a thread was updated, where it is grouped under a directory, and 0 at least.
spec fn update_in(thread: ThreadModel, own: Option<Seq<char>>, cwd: Seq<char>) -> i64 {
    match thread.updated_at {
        Some(updated) => if own == Some(cwd) && updated > 0 {
            updated
        } else {
            0
        },
        None => 0,
    }
}

/// Only the first `n` threads matter for a group of the first `n` threads.
proof fn lemma_group_prefix(
    threads: Seq<ThreadModel>,
    cwds: Seq<Option<Seq<char>>>,
    others: Seq<ThreadModel>,
    other_cwds: Seq<Option<Seq<char>>>,
    cwd: Seq<char>,
    n: nat,
)
    requires
        forall|i: int| 0 <= i < n ==> #[trigger] threads[i] == others[i],
        forall|i: int| 0 <= i < n ==> #[trigger] cwds[i] == other_cwds[i],
    ensures
        count_of(cwds, cwd, n) == count_of(other_cwds, cwd, n),
        latest_of(threads, cwds, cwd, n) == latest_of(others, other_cwds, cwd, n),
    decreases n,
{
    if n > 0 {
        lemma_group_prefix(threads, cwds, others, other_cwds, cwd, (n - 1) as nat);
        assert(threads[n - 1] == others[n - 1]);
        assert(cwds[n - 1] == other_cwds[n - 1]);
    }
}

/// What one thread, wherever it stands, adds to a group.
proof fn lemma_group_without(
    threads: Seq<ThreadModel>,
    cwds: Seq<Option<Seq<char>>>,
    cwd: Seq<char>,
    at: int,
)
    requires
        threads.len() == cwds.len(),
        0 <= at < threads.len(),
    ensures
        ({
            let n = (threads.len() - 1) as nat;
            &&& count_of(cwds, cwd, threads.len()) == count_of(cwds.remove(at), cwd, n) + (
            if cwds[at] == Some(cwd) {
                1nat
            } else {
                0nat
            })
            &&& latest_of(threads, cwds, cwd, threads.len()) == later(
                latest_of(threads.remove(at), cwds.remove(at), cwd, n),
                update_in(threads[at], cwds[at], cwd),
            )
        }),
    decreases threads.len(),
{
    let n = (threads.len() - 1) as nat;
    let last = threads.len() - 1;
    if at == last {
        lemma_group_prefix(threads, cwds, threads.remove(at), cwds.remove(at), cwd, n);
        lemma_latest_floor(threads, cwds, cwd, n);
    } else {
        let front = threads.drop_last();
        let front_cwds = cwds.drop_last();
        lemma_group_without(front, front_cwds, cwd, at);
        lemma_group_prefix(threads, cwds, front, front_cwds, cwd, n);
        let m = (n - 1) as nat;
        lemma_group_prefix(
            threads.remove(at),
            cwds.remove(at),
            front.remove(at),
            front_cwds.remove(at),
            cwd,
            m,
        );
        assert(threads.remove(at)[n - 1] == threads[last]);
        assert(cwds.remove(at)[n - 1] == cwds[last]);
        lemma_latest_floor(threads.remove(at), cwds.remove(at), cwd, m);
    }
}

/// The group of a directory does not depend on the order of the threads.
proof fn lemma_group_reordered(
    threads: Seq<ThreadModel>,
    cwds: Seq<Option<Seq<char>>>,
    others: Seq<ThreadModel>,
    other_cwds: Seq<Option<Seq<char>>>,
    cwd: Seq<char>,
)
    requires
        threads.len() == cwds.len(),
        others.len() == other_cwds.len(),
        placed(threads, cwds).to_multiset() == placed(others, other_cwds).to_multiset(),
    ensures
        threads.len() == others.len(),
        group_of(threads, cwds, cwd, threads.len()) == group_of(
            others,
            other_cwds,
            cwd,
            others.len(),
        ),
    decreases threads.len(),
{
    let p = placed(threads, cwds);
    let q = placed(others, other_cwds);
    p.to_multiset_ensures();
    q.to_multiset_ensures();
    if threads.len() > 0 {
        let last = threads.len() - 1;
        let pair = p[last];
        assert(p.contains(pair));
        assert(p.to_multiset().count(pair) > 0);
        assert(q.contains(pair));
        let at = choose|at: int| 0 <= at < q.len() && q[at] == pair;
        assert(placed(threads.remove(last), cwds.remove(last)) =~= p.remove(last));
        assert(placed(others.remove(at), other_cwds.remove(at)) =~= q.remove(at));
        lemma_group_reordered(
            threads.remove(last),
            cwds.remove(last),
            others.remove(at),
            other_cwds.remove(at),
            cwd,
        );
        lemma_group_without(threads, cwds, cwd, last);
        lemma_group_without(others, other_cwds, cwd, at);
    }
}

/// A directory that threads name has a group, and only such a directory has one.
proof fn lemma_group_is_there(
    groups: Seq<GroupModel>,
    threads: Seq<ThreadModel>,
    cwds: Seq<Option<Seq<char>>>,
    group: GroupModel,
)
    requires
        threads.len() == cwds.len(),
        are_groups(groups, threads, cwds, threads.len()),
    ensures
        groups.contains(group) <==> group == group_of(threads, cwds, group.cwd, threads.len())
            && group.thread_count > 0,
{
    let n = threads.len();
    if group == group_of(threads, cwds, group.cwd, n) && group.thread_count > 0 {
        assert(exists|i: int| 0 <= i < n && #[trigger] cwds[i] == Some(group.cwd)) by {
            lemma_count_bound(cwds, group.cwd, n);
        }
        let i = choose|i: int| 0 <= i < n && #[trigger] cwds[i] == Some(group.cwd);
        assert(cwds[i] is Some);
        let k = choose|k: int| 0 <= k < groups.len() && (#[trigger] groups[k]).cwd == cwds[i]->0;
        assert(groups[k] == group);
    }
}

/// Groups of different directories differ.
proof fn lemma_groups_differ(groups: Seq<GroupModel>)
    requires
        forall|j: int, k: int|
            0 <= j < k < groups.len() ==> (#[trigger] groups[j]).cwd != (#[trigger] groups[k]).cwd,
    ensures
        groups.no_duplicates(),
{
    assert forall|j: int, k: int|
        0 <= j < groups.len() && 0 <= k < groups.len() && j != k implies groups[j]
        != groups[k] by {
        if j < k {
            assert(groups[j].cwd != groups[k].cwd);
        } else {
            assert(groups[k].cwd != groups[j].cwd);
        }
    }
}

/// In two orders of the same groups, none stands where one stands that it has to come after.
proof fn lemma_same_place(a: Seq<GroupModel>, b: Seq<GroupModel>, at: int)
    requires
        a.no_duplicates(),
        in_order(a),
        in_order(b),
        forall|group: GroupModel| a.contains(group) ==> #[trigger] b.contains(group),
        0 <= at < a.len(),
        at < b.len(),
    ensures
        may_precede(b[at], a[at]),
{
    if !may_precede(b[at], a[at]) {
        let early = a.take(at + 1);
        let before = b.take(at);
        assert forall|group: GroupModel| early.to_set().contains(group) implies before.to_set().contains(
            group,
        ) by {
            let j = choose|j: int| 0 <= j < early.len() && early[j] == group;
            assert(a[j] == group);
            assert(a.contains(group));
            assert(b.contains(group));
            let k = choose|k: int| 0 <= k < b.len() && b[k] == group;
            lemma_precede_total(a[at], a[at]);
            assert(may_precede(group, a[at]));
            if k >= at {
                lemma_precede_total(b[at], b[at]);
                assert(may_precede(b[at], group));
                lemma_precede_transitive(b[at], group, a[at]);
            }
            assert(before[k] == group);
        }
        assert(early.no_duplicates());
        early.unique_seq_to_set();
        before.lemma_cardinality_of_set();
        vstd::seq_lib::seq_to_set_is_finite(before);
        vstd::set_lib::lemma_len_subset(early.to_set(), before.to_set());
    }
}

/// Groups that may precede each other tie.
proof fn lemma_precede_both_ways(a: GroupModel, b: GroupModel)
    requires
        may_precede(a, b),
        may_precede(b, a),
    ensures
        tie(a, b),
{
    let x = labels::project_name(a.cwd);
    let y = labels::project_name(b.cwd);
    text::lemma_bytes_before_total(encode_utf8(x), encode_utf8(y));
    text::lemma_utf8_injective(x, y);
}

/// In whatever order the threads come, their projects are the same, and where two orders put
/// different projects in the same place, these tie.
pub proof fn law_order_of_threads_matters_for_ties_only(
    threads: Seq<ThreadModel>,
    cwds: Seq<Option<Seq<char>>>,
    groups: Seq<GroupModel>,
    others: Seq<ThreadModel>,
    other_cwds: Seq<Option<Seq<char>>>,
    other_groups: Seq<GroupModel>,
)
    requires
        threads.len() == cwds.len(),
        others.len() == other_cwds.len(),
        placed(threads, cwds).to_multiset() == placed(others, other_cwds).to_multiset(),
        are_groups(groups, threads, cwds, threads.len()),
        in_order(groups),
        are_groups(other_groups, others, other_cwds, others.len()),
        in_order(other_groups),
    ensures
        groups.to_multiset() == other_groups.to_multiset(),
        groups.len() == other_groups.len(),
        forall|i: int| 0 <= i < groups.len() ==> tie(#[trigger] groups[i], other_groups[i]),
{
    assert forall|group: GroupModel| groups.contains(group) == #[trigger] other_groups.contains(
        group,
    ) by {
        lemma_group_is_there(groups, threads, cwds, group);
        lemma_group_is_there(other_groups, others, other_cwds, group);
        lemma_group_reordered(threads, cwds, others, other_cwds, group.cwd);
    }
    lemma_groups_differ(groups);
    lemma_groups_differ(other_groups);
    groups.unique_seq_to_set();
    other_groups.unique_seq_to_set();
    assert(groups.to_set() =~= other_groups.to_set());
    groups.to_multiset_ensures();
    other_groups.to_multiset_ensures();
    groups.lemma_multiset_has_no_duplicates();
    other_groups.lemma_multiset_has_no_duplicates();
    assert(groups.to_multiset() =~= other_groups.to_multiset()) by {
        assert forall|group: GroupModel| #[trigger]
            groups.to_multiset().count(group) == other_groups.to_multiset().count(group) by {
            assert(groups.contains(group) == other_groups.contains(group));
            if groups.contains(group) {
                assert(groups.to_multiset().contains(group));
                assert(other_groups.to_multiset().contains(group));
            }
        }
    }
    assert forall|i: int| 0 <= i < groups.len() implies tie(
        #[trigger] groups[i],
        other_groups[i],
    ) by {
        lemma_same_place(groups, other_groups, i);
        assert forall|group: GroupModel| other_groups.contains(group) implies #[trigger]
            groups.contains(group) by {
            assert(groups.contains(group) == other_groups.contains(group));
        }
        lemma_same_place(other_groups, groups, i);
        lemma_precede_both_ways(groups[i], other_groups[i]);
    }
}

/// A thread in a chat directory belongs to no project, whatever directory would be new.
pub proof fn law_chats_are_no_projects(thread: ThreadModel, cwd: Option<Seq<char>>, id: u64)
    requires
        thread.cwd is Some,
        workdir::chat_cwd(workdir::bare_cwd(thread.cwd->0)),
        may_group(thread, cwd, id),
    ensures
        cwd is None,
{
    let own = text::trim(thread.cwd->0);
    if own.len() > 0 {
        text::lemma_trim_idempotent(thread.cwd->0);
        assert(workdir::bare_cwd(own) == workdir::bare_cwd(thread.cwd->0));
    }
}

/// How many entries name a directory is how many are left of them without the others.
proof fn lemma_count(cwds: Seq<Option<Seq<char>>>, cwd: Seq<char>, n: nat)
    requires
        n <= cwds.len(),
    ensures
        count_of(cwds, cwd, n) == cwds.take(n as int).filter(
            |own: Option<Seq<char>>| own == Some(cwd),
        ).len(),
    decreases n,
{
    reveal(Seq::filter);
    if n > 0 {
        lemma_count(cwds, cwd, (n - 1) as nat);
        assert(cwds.take(n as int).drop_last() =~= cwds.take(n - 1));
        assert(cwds.take(n as int).last() == cwds[n - 1]);
    }
}

/// The latest update is no earlier than that of any thread of the directory, and is that of one of
/// them, unless none was updated after 0.
proof fn lemma_latest(
    threads: Seq<ThreadModel>,
    cwds: Seq<Option<Seq<char>>>,
    cwd: Seq<char>,
    n: nat,
)
    requires
        n <= threads.len(),
        n <= cwds.len(),
    ensures
        forall|i: int|
            0 <= i < n && cwds[i] == Some(cwd) ==> ((#[trigger] threads[i]).updated_at matches Some(
                updated,
            ) ==> updated <= latest_of(threads, cwds, cwd, n)),
        latest_of(threads, cwds, cwd, n) > 0 ==> exists|i: int|
            0 <= i < n && cwds[i] == Some(cwd) && (#[trigger] threads[i]).updated_at == Some(
                latest_of(threads, cwds, cwd, n),
            ),
        latest_of(threads, cwds, cwd, n) >= 0,
    decreases n,
{
    if n > 0 {
        let m = (n - 1) as nat;
        lemma_latest(threads, cwds, cwd, m);
        let before = latest_of(threads, cwds, cwd, m);
        let after = latest_of(threads, cwds, cwd, n);
        assert forall|i: int| 0 <= i < n && cwds[i] == Some(cwd) implies ((
        #[trigger] threads[i]).updated_at matches Some(updated) ==> updated <= after) by {}
        if after > 0 {
            if after == before {
                let i = choose|i: int|
                    0 <= i < m && cwds[i] == Some(cwd) && (#[trigger] threads[i]).updated_at
                        == Some(before);
                assert(threads[i].updated_at == Some(after));
            } else {
                assert(threads[n - 1].updated_at == Some(after));
            }
        }
    }
}

/// Every project counts the threads that are grouped under its directory, and was updated when the
/// latest of them was; every directory under which a thread is grouped is a project, and none is
/// one twice.
pub proof fn law_project_counts_its_threads(
    threads: &Vec<AppServerThread>,
    cwds: &Vec<Option<String>>,
    res: Vec<ProjectGroup>,
    k: int,
)
    requires
        call_ensures(group_by_project, (threads, cwds), res),
        threads@.len() == cwds@.len(),
        0 <= k < res@.len(),
    ensures
        ({
            let dir = res@[k].cwd@;
            let latest = res@[k].latest_updated_at;
            &&& res@[k].thread_count == opt_views(cwds@).filter(
                |own: Option<Seq<char>>| own == Some(dir),
            ).len()
            &&& res@[k].thread_count > 0
            &&& forall|i: int|
                0 <= i < threads@.len() && text::opt_text(cwds@[i]) == Some(dir) ==> ((
                #[trigger] threads@[i]).updated_at matches Some(updated) ==> updated <= latest)
            &&& latest > 0 ==> exists|i: int|
                0 <= i < threads@.len() && text::opt_text(cwds@[i]) == Some(dir) && (
                #[trigger] threads@[i]).updated_at == Some(latest)
            &&& latest >= 0
            &&& forall|j: int|
                0 <= j < res@.len() && j != k ==> (#[trigger] res@[j]).cwd@ != dir
        }),
{
    let views = replies::thread_views(threads@);
    let dirs = opt_views(cwds@);
    let groups = group_views(res@);
    let n = threads@.len();
    let dir = res@[k].cwd@;
    assert(groups[k] == res@[k]@);
    assert(groups[k] == group_of(views, dirs, dir, n));
    lemma_count(dirs, dir, n);
    assert(dirs.take(n as int) =~= dirs);
    lemma_latest(views, dirs, dir, n);
    assert(forall|i: int| 0 <= i < n ==> #[trigger] views[i] == threads@[i]@);
    assert(forall|i: int| 0 <= i < n ==> #[trigger] dirs[i] == text::opt_text(cwds@[i]));
    assert forall|i: int|
        0 <= i < threads@.len() && text::opt_text(cwds@[i]) == Some(dir) implies ((
    #[trigger] threads@[i]).updated_at matches Some(updated) ==> updated
        <= res@[k].latest_updated_at) by {
        assert(views[i] == threads@[i]@);
        assert(dirs[i] == text::opt_text(cwds@[i]));
    }
    if res@[k].latest_updated_at > 0 {
        let i = choose|i: int|
            0 <= i < n && dirs[i] == Some(dir) && (#[trigger] views[i]).updated_at == Some(
                latest_of(views, dirs, dir, n),
            );
        assert(dirs[i] == text::opt_text(cwds@[i]));
        assert(threads@[i].updated_at == Some(res@[k].latest_updated_at));
    }
    assert forall|j: int| 0 <= j < res@.len() && j != k implies (#[trigger] res@[j]).cwd@
        != dir by {
        assert(groups[j] == res@[j]@);
        if j < k {
            assert(groups[j].cwd != groups[k].cwd);
        } else {
            assert(groups[k].cwd != groups[j].cwd);
        }
    }
}

/// Every directory under which a thread is grouped is a project.
pub proof fn law_every_directory_is_a_project(
    threads: &Vec<AppServerThread>,
    cwds: &Vec<Option<String>>,
    res: Vec<ProjectGroup>,
    i: int,
    dir: String,
)
    requires
        call_ensures(group_by_project, (threads, cwds), res),
        threads@.len() == cwds@.len(),
        0 <= i < cwds@.len(),
        cwds@[i] == Some(dir),
    ensures
        exists|k: int| 0 <= k < res@.len() && (#[trigger] res@[k]).cwd@ == dir@,
{
    let dirs = opt_views(cwds@);
    let groups = group_views(res@);
    assert(dirs[i] == Some(dir@));
    let k = choose|k: int| 0 <= k < groups.len() && (#[trigger] groups[k]).cwd == dirs[i]->0;
    assert(groups[k] == res@[k]@);
    assert(res@[k].cwd@ == dir@);
}

/// Projects stand by the time of their latest update, the latest first, and by name where that is
/// the same.
pub proof fn law_latest_project_comes_first(
    ids: &mut RequestIds,
    threads: &Vec<AppServerThread>,
    res: Vec<ProjectGroup>,
    j: int,
    k: int,
    first_dir: &str,
    second_dir: &str,
    first: String,
    second: String,
)
    requires
        call_ensures(group_projects, (ids, threads), res),
        0 <= j < k < res@.len(),
        first_dir@ == res@[j].cwd@,
        second_dir@ == res@[k].cwd@,
        call_ensures(labels::project_label, (first_dir,), first),
        call_ensures(labels::project_label, (second_dir,), second),
    ensures
        res@[j].latest_updated_at >= res@[k].latest_updated_at,
        res@[j].latest_updated_at == res@[k].latest_updated_at ==> !text::text_before(
            second@,
            first@,
        ),
        res@[j].cwd@ != res@[k].cwd@,
{
    let groups = group_views(res@);
    assert(groups[j] == res@[j]@);
    assert(groups[k] == res@[k]@);
    assert(may_precede(groups[j], groups[k]));
    assert(groups[j].cwd != groups[k].cwd);
}

/// The directory of a project is that of one of the threads, trimmed, and is no chat directory.
pub proof fn law_project_is_a_directory_of_threads(
    ids: &mut RequestIds,
    threads: &Vec<AppServerThread>,
    res: Vec<ProjectGroup>,
    k: int,
)
    requires
        call_ensures(group_projects, (ids, threads), res),
        0 <= k < res@.len(),
    ensures
        exists|i: int|
            0 <= i < threads@.len() && ((#[trigger] threads@[i])@.cwd matches Some(cwd)
                && text::trim(cwd) == res@[k].cwd@ && !text::is_blank(cwd)
                && !workdir::chat_cwd(workdir::bare_cwd(cwd))),
        res@[k].thread_count > 0,
{
    let views = replies::thread_views(threads@);
    let groups = group_views(res@);
    let n = threads@.len();
    let cwds = choose|cwds: Seq<Option<Seq<char>>>|
        {
            &&& may_group_all(views, cwds, old(ids)@)
            &&& #[trigger] are_groups(groups, views, cwds, n)
        };
    let dir = res@[k].cwd@;
    assert(groups[k] == res@[k]@);
    lemma_count_bound(cwds, dir, n);
    let i = choose|i: int| 0 <= i < n && #[trigger] cwds[i] == Some(dir);
    assert(views[i] == threads@[i]@);
    let id = replies::id_at(old(ids)@, views, i);
    assert(may_group(views[i], cwds[i], id));
    let cwd = threads@[i]@.cwd->0;
    text::lemma_trim_blank(cwd);
    if workdir::chat_cwd(workdir::bare_cwd(cwd)) {
        law_chats_are_no_projects(views[i], cwds[i], id);
    }
    assert(threads@[i]@.cwd == Some(cwd));
}

} // verus!
