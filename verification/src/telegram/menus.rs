//! The menus of the bot: a text with buttons under it.
use vstd::prelude::*;

use crate::app_server::replies;
use crate::app_server::replies::{AppServerThread, ThreadModel};
use crate::app_server::requests;
use crate::app_server::requests::RequestIds;
use crate::json;
use crate::json::{Json, JsonView};
use crate::telegram::board::{BoardModel, EventBoard};
use crate::telegram::labels;
use crate::telegram::labels::RuntimeStatusView;
use crate::telegram::projects;
use crate::telegram::projects::{GroupModel, ProjectGroup};
use crate::text;
use crate::workdir;

verus! {

/// A text with buttons.
#[derive(Debug)]
pub struct MenuView {
    pub text: String,
    pub reply_markup: Json,
}

/// What a `MenuView` shows.
pub struct MenuModel {
    pub text: Seq<char>,
    pub reply_markup: JsonView,
}

impl View for MenuView {
    type V = MenuModel;

    open spec fn view(&self) -> MenuModel {
        MenuModel { text: self.text@, reply_markup: self.reply_markup@ }
    }
}

/// A button, and the data that it sends.
pub open spec fn button(label: Seq<char>, data: Seq<char>) -> JsonView {
    JsonView::Object(
        map!["text"@ => JsonView::Str(label), "callback_data"@ => JsonView::Str(data)],
    )
}

/// A button.
fn button_json(label: &str, data: &str) -> (res: Json)
    ensures
        res@ == button(label@, data@),
{
    Json::empty_object().with("text", Json::text(label)).with("callback_data", Json::text(data))
}

/// A row of one button.
pub open spec fn row(label: Seq<char>, data: Seq<char>) -> JsonView {
    JsonView::Array(seq![button(label, data)])
}

/// A row of one button.
fn row_json(label: &str, data: &str) -> (res: Json)
    ensures
        res@ == row(label@, data@),
{
    let mut buttons: Vec<Json> = Vec::new();
    buttons.push(button_json(label, data));
    assert(json::array_view(buttons@) =~= seq![button(label@, data@)]);
    Json::Array(buttons)
}

/// Rows of buttons.
pub open spec fn keyboard(rows: Seq<JsonView>) -> JsonView {
    JsonView::Object(map!["inline_keyboard"@ => JsonView::Array(rows)])
}

/// Rows of buttons.
fn keyboard_json(rows: Vec<Json>) -> (res: Json)
    ensures
        res@ == keyboard(json::array_view(rows@)),
{
    Json::empty_object().with("inline_keyboard", Json::Array(rows))
}

/// Adds a row of one button.
fn add_row(rows: &mut Vec<Json>, label: &str, data: &str)
    ensures
        json::array_view(final(rows)@) == json::array_view(old(rows)@).push(row(label@, data@)),
        final(rows)@.len() == old(rows)@.len() + 1,
{
    rows.push(row_json(label, data));
    assert(json::array_view(rows@) =~= json::array_view(old(rows)@).push(row(label@, data@)));
}

// ---------------------------------------------------------------------------
// The main menu
// ---------------------------------------------------------------------------

/// The buttons of the main menu.
pub open spec fn main_keyboard() -> JsonView {
    keyboard(
        seq![
            JsonView::Array(seq![button("项目"@, "projects"@), button("对话"@, "sessions"@)]),
            JsonView::Array(seq![
                button("新对话"@, "new"@),
                button("状态"@, "status"@),
                button("停止"@, "stop"@),
            ]),
        ],
    )
}

/// The buttons of the main menu.
pub fn main_inline_keyboard() -> (res: Json)
    ensures
        res@ == main_keyboard(),
{
    let mut first: Vec<Json> = Vec::new();
    first.push(button_json("项目", "projects"));
    first.push(button_json("对话", "sessions"));
    assert(json::array_view(first@) =~= seq![
        button("项目"@, "projects"@),
        button("对话"@, "sessions"@),
    ]);
    let mut second: Vec<Json> = Vec::new();
    second.push(button_json("新对话", "new"));
    second.push(button_json("状态", "status"));
    second.push(button_json("停止", "stop"));
    assert(json::array_view(second@) =~= seq![
        button("新对话"@, "new"@),
        button("状态"@, "status"@),
        button("停止"@, "stop"@),
    ]);
    let mut rows: Vec<Json> = Vec::new();
    rows.push(Json::Array(first));
    rows.push(Json::Array(second));
    assert(json::array_view(rows@) =~= seq![
        JsonView::Array(seq![button("项目"@, "projects"@), button("对话"@, "sessions"@)]),
        JsonView::Array(seq![
            button("新对话"@, "new"@),
            button("状态"@, "status"@),
            button("停止"@, "stop"@),
        ]),
    ]);
    keyboard_json(rows)
}

/// The button that leads back to the main menu.
pub open spec fn back_keyboard() -> JsonView {
    keyboard(seq![row("返回菜单"@, "menu"@)])
}

/// The button that leads back to the main menu.
pub fn current_thread_keyboard() -> (res: Json)
    ensures
        res@ == back_keyboard(),
{
    let mut rows: Vec<Json> = Vec::new();
    assert(json::array_view(rows@) =~= Seq::<JsonView>::empty());
    add_row(&mut rows, "返回菜单", "menu");
    assert(json::array_view(rows@) =~= seq![row("返回菜单"@, "menu"@)]);
    keyboard_json(rows)
}

/// The main menu.
pub open spec fn main_menu(thread: Option<Seq<char>>, project: Option<Seq<char>>) -> MenuModel {
    MenuModel {
        text: "CodexManager\n\n当前对话："@ + labels::context_name(thread, project)
            + "\n\n直接发送文本即可继续当前对话。"@,
        reply_markup: main_keyboard(),
    }
}

/// The main menu.
pub fn menu_view(thread_id: Option<&str>, project_dir: Option<&str>) -> (res: MenuView)
    ensures
        res@ == main_menu(text::opt_str(thread_id), text::opt_str(project_dir)),
{
    MenuView {
        text: text::cat3(
            "CodexManager\n\n当前对话：",
            labels::current_context_label(thread_id, project_dir).as_str(),
            "\n\n直接发送文本即可继续当前对话。",
        ),
        reply_markup: main_inline_keyboard(),
    }
}

// ---------------------------------------------------------------------------
// Lists
// ---------------------------------------------------------------------------

/// The token of the entry at a place: places are counted from 1.
pub open spec fn token(place: int) -> Seq<char> {
    text::decimal((place + 1) as nat)
}

/// The token of the entry at a place.
fn token_text(place: usize) -> (res: String)
    requires
        place < usize::MAX,
    ensures
        res@ == token(place as int),
{
    text::u64_text(place as u64 + 1)
}

/// The place that a token stands for, among the first `n`.
pub open spec fn place_for(wanted: Seq<char>, n: nat) -> Option<int>
    decreases n,
{
    if n == 0 {
        None
    } else if token(n - 1) == wanted {
        Some(n - 1)
    } else {
        place_for(wanted, (n - 1) as nat)
    }
}

/// Finds the place that a token stands for, among the first `n`.
pub fn find_token(wanted: &str, n: usize) -> (res: Option<usize>)
    ensures
        match res {
            Some(place) => place < n && place_for(wanted@, n as nat) == Some(place as int),
            None => place_for(wanted@, n as nat) is None,
        },
{
    let mut i: usize = n;
    while i > 0
        invariant
            i <= n,
            place_for(wanted@, n as nat) == place_for(wanted@, i as nat),
        decreases i,
    {
        if text::eq(token_text(i - 1).as_str(), wanted) {
            return Some(i - 1);
        }
        i -= 1;
    }
    None
}

/// The row of a project.
pub open spec fn project_row(group: GroupModel, place: int) -> JsonView {
    row(
        labels::project_name(group.cwd) + " ("@ + text::decimal(group.thread_count) + ")"@,
        "project:"@ + token(place),
    )
}

/// The rows of projects.
pub open spec fn project_rows(groups: Seq<GroupModel>) -> Seq<JsonView> {
    Seq::new(groups.len(), |i: int| project_row(groups[i], i))
}

/// The list of projects.
pub open spec fn projects_menu(groups: Seq<GroupModel>) -> MenuModel {
    MenuModel {
        text: if groups.len() == 0 {
            "暂无项目会话。"@
        } else {
            "项目："@
        },
        reply_markup: keyboard(project_rows(groups).push(row("返回"@, "menu"@))),
    }
}

/// The list of projects.
pub fn projects_view(groups: &Vec<ProjectGroup>) -> (res: MenuView)
    ensures
        res@ == projects_menu(projects::group_views(groups@)),
{
    let ghost views = projects::group_views(groups@);
    let mut rows: Vec<Json> = Vec::new();
    let mut i: usize = 0;
    assert(json::array_view(rows@) =~= Seq::<JsonView>::empty());
    while i < groups.len()
        invariant
            i <= groups@.len(),
            views == projects::group_views(groups@),
            rows@.len() == i,
            json::array_view(rows@) =~= project_rows(views).take(i as int),
        decreases groups.len() - i,
    {
        let mut label = labels::project_label(groups[i].cwd.as_str());
        label.append(" (");
        label.append(text::u64_text(groups[i].thread_count as u64).as_str());
        label.append(")");
        let data = text::cat("project:", token_text(i).as_str());
        assert(views[i as int] == groups@[i as int]@);
        add_row(&mut rows, label.as_str(), data.as_str());
        assert(json::array_view(rows@) =~= project_rows(views).take(i + 1));
        i += 1;
    }
    assert(project_rows(views).take(views.len() as int) =~= project_rows(views));
    add_row(&mut rows, "返回", "menu");
    let shown = if groups.len() == 0 {
        "暂无项目会话。"
    } else {
        "项目："
    };
    MenuView { text: shown.to_owned(), reply_markup: keyboard_json(rows) }
}

/// The rows of threads.
pub open spec fn thread_rows(threads: Seq<ThreadModel>) -> Seq<JsonView> {
    Seq::new(
        threads.len(),
        |i: int| row(labels::thread_name(threads[i]), "thread:"@ + token(i)),
    )
}

/// Adds the rows of threads.
fn add_thread_rows(rows: &mut Vec<Json>, threads: &Vec<AppServerThread>)
    requires
        old(rows)@.len() == 0,
    ensures
        json::array_view(final(rows)@) == thread_rows(replies::thread_views(threads@)),
        final(rows)@.len() == threads@.len(),
{
    let ghost views = replies::thread_views(threads@);
    let mut i: usize = 0;
    assert(json::array_view(rows@) =~= Seq::<JsonView>::empty());
    while i < threads.len()
        invariant
            i <= threads@.len(),
            views == replies::thread_views(threads@),
            rows@.len() == i,
            json::array_view(rows@) =~= thread_rows(views).take(i as int),
        decreases threads.len() - i,
    {
        let label = labels::thread_label(&threads[i]);
        let data = text::cat("thread:", token_text(i).as_str());
        assert(views[i as int] == threads@[i as int]@);
        add_row(rows, label.as_str(), data.as_str());
        assert(json::array_view(rows@) =~= thread_rows(views).take(i + 1));
        i += 1;
    }
    assert(thread_rows(views).take(views.len() as int) =~= thread_rows(views));
}

/// The list of standalone chats.
pub open spec fn sessions_menu(threads: Seq<ThreadModel>) -> MenuModel {
    MenuModel {
        text: if threads.len() == 0 {
            "暂无独立对话。"@
        } else {
            "独立对话："@
        },
        reply_markup: keyboard(thread_rows(threads).push(row("返回"@, "menu"@))),
    }
}

/// The list of standalone chats.
pub fn sessions_view(threads: &Vec<AppServerThread>) -> (res: MenuView)
    ensures
        res@ == sessions_menu(replies::thread_views(threads@)),
{
    let mut rows: Vec<Json> = Vec::new();
    add_thread_rows(&mut rows, threads);
    add_row(&mut rows, "返回", "menu");
    let shown = if threads.len() == 0 {
        "暂无独立对话。"
    } else {
        "独立对话："
    };
    MenuView { text: shown.to_owned(), reply_markup: keyboard_json(rows) }
}

/// The rows of a project: its threads, a new thread where the project has a token, and the ways
/// back.
pub open spec fn project_session_rows(
    threads: Seq<ThreadModel>,
    project_token: Option<Seq<char>>,
) -> Seq<JsonView> {
    let listed = thread_rows(threads);
    let with_new = match project_token {
        Some(token) => listed.push(row("开启项目新会话"@, "project_new:"@ + token)),
        None => listed,
    };
    with_new.push(row("返回项目"@, "projects"@)).push(row("返回菜单"@, "menu"@))
}

/// The list of threads of a project.
pub open spec fn project_sessions_menu(
    threads: Seq<ThreadModel>,
    project_dir: Seq<char>,
    project_token: Option<Seq<char>>,
) -> MenuModel {
    let rows = project_session_rows(threads, project_token);
    let title = "项目："@ + labels::project_name(project_dir);
    MenuModel {
        text: if rows.len() == 3 {
            title + "\n暂无会话。"@
        } else {
            title
        },
        reply_markup: keyboard(rows),
    }
}

/// The list of threads of a project.
pub fn project_sessions_view(
    threads: &Vec<AppServerThread>,
    project_dir: &str,
    project_token: Option<&str>,
) -> (res: MenuView)
    ensures
        res@ == project_sessions_menu(
            replies::thread_views(threads@),
            project_dir@,
            text::opt_str(project_token),
        ),
{
    let mut rows: Vec<Json> = Vec::new();
    add_thread_rows(&mut rows, threads);
    if let Some(token) = project_token {
        add_row(&mut rows, "开启项目新会话", text::cat("project_new:", token).as_str());
    }
    add_row(&mut rows, "返回项目", "projects");
    add_row(&mut rows, "返回菜单", "menu");
    assert(json::array_view(rows@).len() == rows@.len());
    let title = text::cat("项目：", labels::project_label(project_dir).as_str());
    let shown = if rows.len() == 3 {
        text::cat(title.as_str(), "\n暂无会话。")
    } else {
        title
    };
    MenuView { text: shown, reply_markup: keyboard_json(rows) }
}

/// The token of a project: the place of its directory among those that were listed.
pub open spec fn is_project_token(
    found: Option<Seq<char>>,
    dirs: Seq<Seq<char>>,
    project_dir: Seq<char>,
) -> bool {
    match found {
        Some(found) => exists|i: int|
            0 <= i < dirs.len() && #[trigger] dirs[i] == project_dir && found == token(i),
        None => forall|i: int| 0 <= i < dirs.len() ==> #[trigger] dirs[i] != project_dir,
    }
}

/// The token of a project.
pub fn token_for_project(dirs: &Vec<String>, project_dir: &str) -> (res: Option<String>)
    ensures
        is_project_token(text::opt_text(res), text::texts(dirs@), project_dir@),
{
    let ghost views = text::texts(dirs@);
    let mut i: usize = 0;
    while i < dirs.len()
        invariant
            i <= dirs@.len(),
            views == text::texts(dirs@),
            forall|k: int| 0 <= k < i ==> #[trigger] views[k] != project_dir@,
        decreases dirs.len() - i,
    {
        assert(views[i as int] == dirs@[i as int]@);
        if text::eq(dirs[i].as_str(), project_dir) {
            return Some(token_text(i));
        }
        i += 1;
    }
    None
}

/// The threads that work in a directory.
pub open spec fn threads_in(threads: Seq<ThreadModel>, project_dir: Seq<char>) -> Seq<ThreadModel> {
    threads.filter(|thread: ThreadModel| thread.cwd == Some(project_dir))
}

/// The threads that work in a directory.
pub fn project_threads(threads: &Vec<AppServerThread>, project_dir: &str) -> (res: Vec<
    AppServerThread,
>)
    ensures
        replies::thread_views(res@) == threads_in(
            replies::thread_views(threads@),
            project_dir@,
        ),
{
    let ghost views = replies::thread_views(threads@);
    let ghost keep = |thread: ThreadModel| thread.cwd == Some(project_dir@);
    let mut res: Vec<AppServerThread> = Vec::new();
    let mut i: usize = 0;
    assert(views.take(0).filter(keep) =~= Seq::<ThreadModel>::empty()) by {
        reveal(Seq::filter);
    }
    assert(replies::thread_views(res@) =~= Seq::<ThreadModel>::empty());
    while i < threads.len()
        invariant
            i <= threads@.len(),
            views == replies::thread_views(threads@),
            keep == (|thread: ThreadModel| thread.cwd == Some(project_dir@)),
            replies::thread_views(res@) == views.take(i as int).filter(keep),
        decreases threads.len() - i,
    {
        proof {
            assert(views.take(i + 1).drop_last() =~= views.take(i as int));
            assert(views.take(i + 1).last() == threads@[i as int]@);
            reveal(Seq::filter);
        }
        let kept = match &threads[i].cwd {
            Some(cwd) => text::eq(cwd.as_str(), project_dir),
            None => false,
        };
        if kept {
            let ghost before = res@;
            let thread = threads[i].copy();
            let ghost view = thread@;
            res.push(thread);
            assert(replies::thread_views(res@) =~= replies::thread_views(before).push(view));
        }
        i += 1;
    }
    assert(views.take(views.len() as int) =~= views);
    res
}

/// The threads that are marked.
pub open spec fn marked(threads: Seq<ThreadModel>, marks: Seq<bool>) -> Seq<ThreadModel>
    decreases threads.len(),
{
    if threads.len() == 0 {
        seq![]
    } else {
        let front = marked(threads.drop_last(), marks);
        if marks[threads.len() - 1] {
            front.push(threads.last())
        } else {
            front
        }
    }
}

/// Whether a thread may be taken for a standalone chat: it belongs to no project, for some
/// outcome of asking for a new chat directory with the given id.
pub open spec fn may_be_standalone(thread: ThreadModel, standalone: bool, id: u64) -> bool {
    exists|outcome: Result<workdir::PathModel, Seq<char>>|
        #[trigger] workdir::standalone_outcome(outcome, id) && standalone == (workdir::project_cwd(
            thread.cwd,
            outcome,
        ) is None)
}

/// Whether `kept` may be the standalone chats among some threads, where ids start at `id`.
pub open spec fn may_be_standalone_threads(
    threads: Seq<ThreadModel>,
    kept: Seq<ThreadModel>,
    id: u64,
) -> bool {
    exists|marks: Seq<bool>|
        {
            &&& marks.len() == threads.len()
            &&& forall|i: int|
                0 <= i < threads.len() ==> may_be_standalone(
                    #[trigger] threads[i],
                    marks[i],
                    replies::id_at(id, threads, i),
                )
            &&& kept == #[trigger] marked(threads, marks)
        }
}

/// Marks beyond the threads do not matter.
proof fn lemma_marked_prefix(threads: Seq<ThreadModel>, a: Seq<bool>, b: Seq<bool>)
    requires
        a.len() >= threads.len(),
        b.len() >= threads.len(),
        forall|i: int| 0 <= i < threads.len() ==> a[i] == b[i],
    ensures
        marked(threads, a) == marked(threads, b),
    decreases threads.len(),
{
    if threads.len() > 0 {
        lemma_marked_prefix(threads.drop_last(), a, b);
    }
}

/// The standalone chats among some threads.
pub fn standalone_threads(ids: &mut RequestIds, threads: &Vec<AppServerThread>) -> (res: Vec<
    AppServerThread,
>)
    ensures
        may_be_standalone_threads(
            replies::thread_views(threads@),
            replies::thread_views(res@),
            old(ids)@,
        ),
        final(ids)@ == replies::id_at(
            old(ids)@,
            replies::thread_views(threads@),
            threads@.len() as int,
        ),
{
    let ghost views = replies::thread_views(threads@);
    let ghost mut marks: Seq<bool> = Seq::empty();
    let mut res: Vec<AppServerThread> = Vec::new();
    let mut i: usize = 0;
    assert(views.take(0) =~= Seq::<ThreadModel>::empty());
    assert(replies::thread_views(res@) =~= Seq::<ThreadModel>::empty());
    proof {
        requests::law_ids_in_order(old(ids)@, 0);
    }
    while i < threads.len()
        invariant
            i <= threads@.len(),
            views == replies::thread_views(threads@),
            marks.len() == i,
            ids@ == replies::id_at(old(ids)@, views, i as int),
            forall|k: int|
                0 <= k < i ==> may_be_standalone(
                    #[trigger] views[k],
                    marks[k],
                    replies::id_at(old(ids)@, views, k),
                ),
            replies::thread_views(res@) == marked(views.take(i as int), marks),
        decreases threads.len() - i,
    {
        let ghost id = ids@;
        let cwd = workdir::normalize_thread_cwd(ids, text::copy_opt(&threads[i].cwd));
        let standalone = cwd.is_none();
        proof {
            assert(views[i as int] == threads@[i as int]@);
            replies::lemma_next_id(old(ids)@, views, i as int);
            assert(may_be_standalone(views[i as int], standalone, id));
            let longer = marks.push(standalone);
            assert(views.take(i + 1).drop_last() =~= views.take(i as int));
            assert(views.take(i + 1).last() == views[i as int]);
            lemma_marked_prefix(views.take(i as int), marks, longer);
            marks = longer;
        }
        if standalone {
            let ghost before = res@;
            let thread = threads[i].copy();
            let ghost view = thread@;
            res.push(thread);
            assert(replies::thread_views(res@) =~= replies::thread_views(before).push(view));
        }
        i += 1;
    }
    assert(views.take(views.len() as int) =~= views);
    assert(replies::thread_views(res@) == marked(views, marks));
    res
}

// ---------------------------------------------------------------------------
// The status page
// ---------------------------------------------------------------------------

/// The status page.
pub open spec fn status_menu(
    board: BoardModel,
    thread: Option<Seq<char>>,
    project: Option<Seq<char>>,
) -> MenuModel {
    let known = |map: Map<Seq<char>, Seq<char>>|
        match thread {
            Some(thread) => if map.contains_key(thread) {
                Some(map[thread])
            } else {
                None
            },
            None => None,
        };
    MenuModel {
        text: labels::status_page(
            true,
            labels::context_name(thread, project),
            known(board.statuses),
            board.rate_limit,
            match thread {
                Some(thread) => if board.usages.contains_key(thread) {
                    Some(board.usages[thread])
                } else {
                    None
                },
                None => None,
            },
        ),
        reply_markup: back_keyboard(),
    }
}

/// The status page.
pub fn status_view(board: &EventBoard, thread_id: Option<&str>, project_dir: Option<&str>) -> (res:
    MenuView)
    ensures
        res@ == status_menu(board@, text::opt_str(thread_id), text::opt_str(project_dir)),
{
    let thread_status = match thread_id {
        Some(thread) => board.status_of(thread),
        None => None,
    };
    let token_usage = match thread_id {
        Some(thread) => board.usage_of(thread),
        None => None,
    };
    let view = RuntimeStatusView {
        running: true,
        current_context: labels::current_context_label(thread_id, project_dir),
        thread_status,
        usage: board.limit(),
        token_usage,
    };
    MenuView {
        text: labels::format_runtime_status(&view),
        reply_markup: current_thread_keyboard(),
    }
}

// ---------------------------------------------------------------------------
// Laws
// ---------------------------------------------------------------------------

/// A token leads back to its place, and to no other.
pub proof fn law_token_finds_its_place(place: int, n: nat)
    requires
        0 <= place < n,
    ensures
        place_for(token(place), n) == Some(place),
    decreases n,
{
    if place < n - 1 {
        if token(n - 1) == token(place) {
            text::lemma_decimal_injective(n, (place + 1) as nat);
        }
        law_token_finds_its_place(place, (n - 1) as nat);
    }
}

/// Whether a button is the one with this label and this data.
pub open spec fn is_button(value: JsonView, label: Seq<char>, data: Seq<char>) -> bool {
    &&& value.get("text"@) == Some(JsonView::Str(label))
    &&& value.get("callback_data"@) == Some(JsonView::Str(data))
}

/// Whether a row is the one button with this label and this data.
pub open spec fn is_row(value: JsonView, label: Seq<char>, data: Seq<char>) -> bool {
    value matches JsonView::Array(buttons) && buttons.len() == 1 && is_button(
        buttons[0],
        label,
        data,
    )
}

/// The rows of buttons in a markup.
pub open spec fn rows_in(markup: JsonView) -> Seq<JsonView> {
    match markup.get("inline_keyboard"@) {
        Some(JsonView::Array(rows)) => rows,
        _ => seq![],
    }
}

/// A button has its label and its data.
proof fn lemma_button(label: Seq<char>, data: Seq<char>)
    ensures
        is_button(button(label, data), label, data),
        is_row(row(label, data), label, data),
{
    reveal_strlit("text");
    reveal_strlit("callback_data");
    assert("text"@.len() == 4);
    assert("callback_data"@.len() == 13);
}

/// The main menu has a button for the projects, for the chats, for a new chat, for the status and
/// for stopping, each with the data that asks for it.
pub proof fn law_main_menu_has_its_buttons(res: Json)
    requires
        call_ensures(main_inline_keyboard, (), res),
    ensures
        rows_in(res@).len() == 2,
        rows_in(res@)[0] matches JsonView::Array(first) && first.len() == 2 && is_button(
            first[0],
            "项目"@,
            "projects"@,
        ) && is_button(first[1], "对话"@, "sessions"@),
        rows_in(res@)[1] matches JsonView::Array(second) && second.len() == 3 && is_button(
            second[0],
            "新对话"@,
            "new"@,
        ) && is_button(second[1], "状态"@, "status"@) && is_button(second[2], "停止"@, "stop"@),
{
    lemma_button("项目"@, "projects"@);
    lemma_button("对话"@, "sessions"@);
    lemma_button("新对话"@, "new"@);
    lemma_button("状态"@, "status"@);
    lemma_button("停止"@, "stop"@);
}

/// The status page leads back to the menu.
pub proof fn law_status_page_leads_back(res: Json)
    requires
        call_ensures(current_thread_keyboard, (), res),
    ensures
        rows_in(res@).len() == 1,
        is_row(rows_in(res@)[0], "返回菜单"@, "menu"@),
{
    lemma_button("返回菜单"@, "menu"@);
}

/// The main menu tells what the bot works on, above its buttons.
pub proof fn law_main_menu_tells_the_context(
    thread_id: Option<&str>,
    project_dir: Option<&str>,
    context: String,
    buttons: Json,
    res: MenuView,
)
    requires
        call_ensures(menu_view, (thread_id, project_dir), res),
        call_ensures(labels::current_context_label, (thread_id, project_dir), context),
        call_ensures(main_inline_keyboard, (), buttons),
    ensures
        res@.text == "CodexManager\n\n当前对话："@ + context@ + "\n\n直接发送文本即可继续当前对话。"@,
        res@.reply_markup == buttons@,
{
}

/// A token stands for the place that it counts from 1 on, and for nothing where it counts beyond
/// the list or does not count.
pub proof fn law_token_stands_for_its_place(wanted: &str, n: usize, res: Option<usize>)
    requires
        call_ensures(find_token, (wanted, n), res),
    ensures
        res matches Some(place) ==> place < n && wanted@ == text::decimal((place + 1) as nat),
        res is None ==> forall|place: nat|
            place < n ==> wanted@ != #[trigger] text::decimal((place + 1) as nat),
{
    lemma_place_for(wanted@, n as nat);
    assert forall|place: nat| res is None && place < n implies wanted@ != #[trigger] text::decimal(
        (place + 1) as nat,
    ) by {
        assert(token(place as int) == text::decimal((place + 1) as nat));
        if wanted@ == token(place as int) {
            law_token_finds_its_place(place as int, n as nat);
        }
    }
}

/// A place that is found is that of the token.
proof fn lemma_place_for(wanted: Seq<char>, n: nat)
    ensures
        place_for(wanted, n) matches Some(place) ==> 0 <= place < n && token(place) == wanted,
    decreases n,
{
    if n > 0 && token(n - 1) != wanted {
        lemma_place_for(wanted, (n - 1) as nat);
    }
}

/// Every project is listed in its place, by its name and the number of its threads, with the data
/// that opens it; the way back comes last.
pub proof fn law_projects_are_listed_in_place(
    groups: &Vec<ProjectGroup>,
    i: int,
    dir: &str,
    name: String,
    res: MenuView,
)
    requires
        call_ensures(projects_view, (groups,), res),
        0 <= i < groups@.len() ==> dir@ == groups@[i].cwd@,
        call_ensures(labels::project_label, (dir,), name),
    ensures
        ({
            let rows = rows_in(res@.reply_markup);
            &&& rows.len() == groups@.len() + 1
            &&& 0 <= i < groups@.len() ==> is_row(
                rows[i],
                name@ + " ("@ + text::decimal(groups@[i].thread_count as nat) + ")"@,
                "project:"@ + text::decimal((i + 1) as nat),
            )
            &&& is_row(rows.last(), "返回"@, "menu"@)
            &&& groups@.len() == 0 ==> res@.text == "暂无项目会话。"@
            &&& groups@.len() > 0 ==> res@.text == "项目："@
        }),
{
    let views = projects::group_views(groups@);
    lemma_button("返回"@, "menu"@);
    if 0 <= i < groups@.len() {
        assert(views[i] == groups@[i]@);
        lemma_button(
            name@ + " ("@ + text::decimal(groups@[i].thread_count as nat) + ")"@,
            "project:"@ + text::decimal((i + 1) as nat),
        );
    }
}

/// Every standalone chat is listed in its place, by what it is called, with the data that chooses
/// it; the way back comes last.
pub proof fn law_chats_are_listed_in_place(
    threads: &Vec<AppServerThread>,
    i: int,
    label: String,
    res: MenuView,
)
    requires
        call_ensures(sessions_view, (threads,), res),
        0 <= i < threads@.len() ==> call_ensures(labels::thread_label, (&threads@[i],), label),
    ensures
        ({
            let rows = rows_in(res@.reply_markup);
            &&& rows.len() == threads@.len() + 1
            &&& 0 <= i < threads@.len() ==> is_row(
                rows[i],
                label@,
                "thread:"@ + text::decimal((i + 1) as nat),
            )
            &&& is_row(rows.last(), "返回"@, "menu"@)
            &&& threads@.len() == 0 ==> res@.text == "暂无独立对话。"@
            &&& threads@.len() > 0 ==> res@.text == "独立对话："@
        }),
{
    let views = replies::thread_views(threads@);
    lemma_button("返回"@, "menu"@);
    if 0 <= i < threads@.len() {
        assert(views[i] == threads@[i]@);
        lemma_button(label@, "thread:"@ + text::decimal((i + 1) as nat));
    }
}

/// Every thread of a project is listed in its place, with the data that chooses it; where the
/// project has a token a new thread in it can be started, and the ways back come last.
pub proof fn law_threads_of_a_project_are_listed_in_place(
    threads: &Vec<AppServerThread>,
    project_dir: &str,
    project_token: Option<&str>,
    i: int,
    label: String,
    name: String,
    res: MenuView,
)
    requires
        call_ensures(project_sessions_view, (threads, project_dir, project_token), res),
        call_ensures(labels::project_label, (project_dir,), name),
        0 <= i < threads@.len() ==> call_ensures(labels::thread_label, (&threads@[i],), label),
    ensures
        ({
            let rows = rows_in(res@.reply_markup);
            let n = threads@.len() as int;
            &&& 0 <= i < n ==> is_row(rows[i], label@, "thread:"@ + text::decimal((i + 1) as nat))
            &&& project_token matches Some(token) ==> rows.len() == n + 3 && is_row(
                rows[n],
                "开启项目新会话"@,
                "project_new:"@ + token@,
            )
            &&& project_token is None ==> rows.len() == n + 2
            &&& is_row(rows[rows.len() - 2], "返回项目"@, "projects"@)
            &&& is_row(rows[rows.len() - 1], "返回菜单"@, "menu"@)
            &&& rows.len() != 3 ==> res@.text == "项目："@ + name@
            &&& rows.len() == 3 ==> res@.text == "项目："@ + name@ + "\n暂无会话。"@
        }),
{
    let views = replies::thread_views(threads@);
    lemma_button("返回项目"@, "projects"@);
    lemma_button("返回菜单"@, "menu"@);
    if let Some(token) = project_token {
        lemma_button("开启项目新会话"@, "project_new:"@ + token@);
    }
    if 0 <= i < threads@.len() {
        assert(views[i] == threads@[i]@);
        lemma_button(label@, "thread:"@ + text::decimal((i + 1) as nat));
    }
}

/// The token of a project leads to its directory, and a directory that was not listed has none.
pub proof fn law_token_of_a_project_leads_to_it(
    dirs: &Vec<String>,
    project_dir: &str,
    wanted: &str,
    found: Option<usize>,
    n: usize,
    res: Option<String>,
)
    requires
        call_ensures(token_for_project, (dirs, project_dir), res),
        n == dirs@.len(),
        res matches Some(token) ==> wanted@ == token@,
        call_ensures(find_token, (wanted, n), found),
    ensures
        res is Some ==> (found matches Some(place) && dirs@[place as int]@ == project_dir@),
        res is None ==> forall|i: int|
            0 <= i < dirs@.len() ==> (#[trigger] dirs@[i])@ != project_dir@,
{
    let views = text::texts(dirs@);
    assert(forall|i: int| 0 <= i < dirs@.len() ==> views[i] == (#[trigger] dirs@[i])@);
    if res is Some {
        let i = choose|i: int|
            0 <= i < views.len() && #[trigger] views[i] == project_dir@ && wanted@ == token(i);
        law_token_finds_its_place(i, n as nat);
    } else {
        assert forall|i: int| 0 <= i < dirs@.len() implies (#[trigger] dirs@[i])@
            != project_dir@ by {
            assert(views[i] != project_dir@);
        }
    }
}

/// The threads of a project are those that work in its directory, all of them and in order, and no
/// others.
pub proof fn law_project_has_its_threads(
    threads: &Vec<AppServerThread>,
    project_dir: &str,
    res: Vec<AppServerThread>,
)
    requires
        call_ensures(project_threads, (threads, project_dir), res),
    ensures
        replies::thread_views(res@) == replies::thread_views(threads@).filter(
            |thread: ThreadModel| thread.cwd == Some(project_dir@),
        ),
        forall|i: int| 0 <= i < res@.len() ==> (#[trigger] res@[i])@.cwd == Some(project_dir@),
{
    let keep = |thread: ThreadModel| thread.cwd == Some(project_dir@);
    let all = replies::thread_views(threads@);
    let kept = replies::thread_views(res@);
    assert(kept =~= all.filter(keep));
    assert forall|i: int| 0 <= i < res@.len() implies (#[trigger] res@[i])@.cwd == Some(
        project_dir@,
    ) by {
        assert(kept[i] == res@[i]@);
        all.lemma_filter_pred(keep, i);
    }
}

/// What is marked was there, and stays in order.
proof fn lemma_marked(threads: Seq<ThreadModel>, marks: Seq<bool>)
    requires
        marks.len() >= threads.len(),
    ensures
        forall|k: int|
            0 <= k < marked(threads, marks).len() ==> exists|i: int|
                0 <= i < threads.len() && marks[i] && threads[i] == #[trigger] marked(
                    threads,
                    marks,
                )[k],
        forall|i: int|
            0 <= i < threads.len() && #[trigger] marks[i] ==> marked(threads, marks).contains(
                threads[i],
            ),
    decreases threads.len(),
{
    if threads.len() > 0 {
        let front = threads.drop_last();
        let n = threads.len() - 1;
        lemma_marked(front, marks);
        let before = marked(front, marks);
        let after = marked(threads, marks);
        assert forall|k: int| 0 <= k < after.len() implies exists|i: int|
            0 <= i < threads.len() && marks[i] && threads[i] == #[trigger] after[k] by {
            if k < before.len() {
                let i = choose|i: int| 0 <= i < front.len() && marks[i] && front[i] == before[k];
                assert(marks[i] && threads[i] == after[k]);
            } else {
                assert(marks[n] && threads[n] == after[k]);
            }
        }
        assert forall|i: int| 0 <= i < threads.len() && #[trigger] marks[i] implies after.contains(
            threads[i],
        ) by {
            if i < n {
                assert(before.contains(front[i]));
                let k = choose|k: int| 0 <= k < before.len() && before[k] == front[i];
                assert(after[k] == threads[i]);
            } else {
                assert(after[after.len() - 1] == threads[n]);
            }
        }
    }
}

/// Every thread without a directory is a standalone chat, and so is every one in a chat directory;
/// what is listed as a chat is one of the threads.
pub proof fn law_threads_without_project_are_chats(
    ids: &mut RequestIds,
    threads: &Vec<AppServerThread>,
    res: Vec<AppServerThread>,
    i: int,
)
    requires
        call_ensures(standalone_threads, (ids, threads), res),
        0 <= i < threads@.len(),
    ensures
        threads@[i]@.cwd is None ==> replies::thread_views(res@).contains(threads@[i]@),
        threads@[i]@.cwd matches Some(cwd) ==> workdir::chat_cwd(workdir::bare_cwd(cwd))
            ==> replies::thread_views(res@).contains(threads@[i]@),
        forall|k: int|
            0 <= k < res@.len() ==> replies::thread_views(threads@).contains(
                (#[trigger] res@[k])@,
            ),
{
    let all = replies::thread_views(threads@);
    let kept = replies::thread_views(res@);
    let marks = choose|marks: Seq<bool>|
        {
            &&& marks.len() == all.len()
            &&& forall|j: int|
                0 <= j < all.len() ==> may_be_standalone(
                    #[trigger] all[j],
                    marks[j],
                    replies::id_at(old(ids)@, all, j),
                )
            &&& kept == #[trigger] marked(all, marks)
        };
    lemma_marked(all, marks);
    assert(all[i] == threads@[i]@);
    assert(may_be_standalone(all[i], marks[i], replies::id_at(old(ids)@, all, i)));
    assert forall|k: int| 0 <= k < res@.len() implies all.contains((#[trigger] res@[k])@) by {
        assert(kept[k] == res@[k]@);
        let j = choose|j: int| 0 <= j < all.len() && marks[j] && all[j] == kept[k];
        assert(all[j] == res@[k]@);
    }
}

/// The status page is that of the thread that the bot is in: its status and its usage, as they
/// were heard, and the rate limit.
pub proof fn law_status_is_that_of_the_thread(
    board: &EventBoard,
    thread_id: Option<&str>,
    project_dir: Option<&str>,
    page: RuntimeStatusView,
    shown: String,
    context: String,
    back: Json,
    status: Option<String>,
    used: Option<crate::app_server::usage::ThreadTokenUsageSummary>,
    limit: Option<crate::app_server::usage::RateLimitSummary>,
    res: MenuView,
)
    requires
        call_ensures(status_view, (board, thread_id, project_dir), res),
        call_ensures(labels::current_context_label, (thread_id, project_dir), context),
        call_ensures(current_thread_keyboard, (), back),
        thread_id matches Some(thread) ==> call_ensures(
            EventBoard::status_of,
            (board, thread),
            status,
        ) && call_ensures(EventBoard::usage_of, (board, thread), used),
        thread_id is None ==> status is None && used is None,
        call_ensures(EventBoard::limit, (board,), limit),
        page == (RuntimeStatusView {
            running: true,
            current_context: context,
            thread_status: status,
            usage: limit,
            token_usage: used,
        }),
        call_ensures(labels::format_runtime_status, (&page,), shown),
    ensures
        res@.text == shown@,
        res@.reply_markup == back@,
{
}

} // verus!
