//! The bot itself: what it remembers, and what it does about messages, buttons and turns.
use std::collections::HashMap;
use vstd::prelude::*;

use crate::app_server::replies;
use crate::app_server::replies::AppServerThread;
use crate::app_server::requests::RequestIds;
use crate::app_server::turns::{AppServerTurnHandle, AppServerTurnResult};
use crate::telegram::config::as_opt_str;
use crate::telegram::labels;
use crate::telegram::labels::MenuAction;
use crate::telegram::menus;
use crate::telegram::menus::{MenuModel, MenuView};
use crate::telegram::projects;
use crate::text;

verus! {

// ---------------------------------------------------------------------------
// What the bot remembers
// ---------------------------------------------------------------------------

/// A turn that runs for a chat.
#[derive(Debug, Clone, PartialEq, Eq)]
pub struct ActiveTurn {
    pub chat_id: i64,
    pub thread_id: String,
    pub turn_id: String,
}

/// A thread, and the project it works in.
#[derive(Debug, Clone, PartialEq, Eq)]
pub struct ThreadTarget {
    pub thread_id: String,
    pub project_dir: Option<String>,
}

/// What an `ActiveTurn` says.
pub struct ActiveModel {
    pub chat_id: i64,
    pub thread_id: Seq<char>,
    pub turn_id: Seq<char>,
}

/// What a `ThreadTarget` says.
pub struct TargetModel {
    pub thread_id: Seq<char>,
    pub project_dir: Option<Seq<char>>,
}

impl View for ActiveTurn {
    type V = ActiveModel;

    open spec fn view(&self) -> ActiveModel {
        ActiveModel {
            chat_id: self.chat_id,
            thread_id: self.thread_id@,
            turn_id: self.turn_id@,
        }
    }
}

impl View for ThreadTarget {
    type V = TargetModel;

    open spec fn view(&self) -> TargetModel {
        TargetModel {
            thread_id: self.thread_id@,
            project_dir: text::opt_text(self.project_dir),
        }
    }
}

impl ThreadTarget {
    /// A copy of the target.
    fn copy(&self) -> (res: Self)
        ensures
            res@ == self@,
    {
        ThreadTarget {
            thread_id: self.thread_id.clone(),
            project_dir: text::copy_opt(&self.project_dir),
        }
    }
}

/// The views of a list of targets.
pub open spec fn target_views(targets: Seq<ThreadTarget>) -> Seq<TargetModel> {
    targets.map_values(|target: ThreadTarget| target@)
}

/// What the bot remembers.
#[derive(Debug)]
pub struct BotState {
    allowed_user_id: i64,
    current_thread_id: Option<String>,
    current_project_dir: Option<String>,
    loaded_thread_ids: Vec<String>,
    active_turn: Option<ActiveTurn>,
    interrupt_ready: bool,
    task_started: bool,
    tracked_prompts: HashMap<i64, HashMap<i64, ThreadTarget>>,
    thread_targets: Vec<ThreadTarget>,
    project_dirs: Vec<String>,
}

/// What the bot remembers: who may use it, the thread and the project it is in, the threads
/// that are loaded, the turn that runs, whether that turn can be interrupted, whether a task was
/// started for it, where each prompt went, and what the tokens of the last lists stand for.
#[verifier::ext_equal]
pub struct BotModel {
    pub allowed_user_id: i64,
    pub thread: Option<Seq<char>>,
    pub project: Option<Seq<char>>,
    pub loaded: Set<Seq<char>>,
    pub active: Option<ActiveModel>,
    pub interrupt_ready: bool,
    pub task_started: bool,
    pub prompts: Map<(i64, i64), TargetModel>,
    pub targets: Seq<TargetModel>,
    pub project_dirs: Seq<Seq<char>>,
}

/// Where prompts went, by chat and message.
pub open spec fn prompts_map(chats: Map<i64, HashMap<i64, ThreadTarget>>) -> Map<
    (i64, i64),
    TargetModel,
> {
    Map::new(
        |key: (i64, i64)| chats.contains_key(key.0) && chats[key.0]@.contains_key(key.1),
        |key: (i64, i64)| chats[key.0]@[key.1]@,
    )
}

impl View for BotState {
    type V = BotModel;

    closed spec fn view(&self) -> BotModel {
        BotModel {
            allowed_user_id: self.allowed_user_id,
            thread: text::opt_text(self.current_thread_id),
            project: text::opt_text(self.current_project_dir),
            loaded: text::texts(self.loaded_thread_ids@).to_set(),
            active: match self.active_turn {
                Some(turn) => Some(turn@),
                None => None,
            },
            interrupt_ready: self.interrupt_ready,
            task_started: self.task_started,
            prompts: prompts_map(self.tracked_prompts@),
            targets: target_views(self.thread_targets@),
            project_dirs: text::texts(self.project_dirs@),
        }
    }
}

// ---------------------------------------------------------------------------
// What the bot does
// ---------------------------------------------------------------------------

/// How many threads are looked at for the list of projects, and for that of one project.
pub const PROJECT_LIST_LIMIT: usize = 100;

/// How many threads are looked at for the list of standalone chats.
pub const SESSION_LIST_LIMIT: usize = 20;

/// How many turns of a thread are shown.
pub const HISTORY_TURN_LIMIT: usize = 6;

/// What is to be done about an update.
#[derive(Debug)]
pub enum BotStep {
    /// Nothing.
    Nothing,
    /// Send this text.
    Say { chat_id: i64, text: String },
    /// Take away an old keyboard, and send this menu.
    OpenMenu { chat_id: i64, view: MenuView },
    /// Show this menu in a message.
    EditMenu { chat_id: i64, message_id: i64, view: MenuView },
    /// Start a thread, in a project or standalone; then `thread_started` says what to send.
    StartThread { chat_id: i64, project_dir: Option<String> },
    /// List threads, and show `projects_listed`, in a message or anew.
    ListProjects { chat_id: i64, message_id: Option<i64> },
    /// List threads, and show `sessions_listed`, in a message or anew.
    ListSessions { chat_id: i64, message_id: Option<i64> },
    /// List threads, and show `project_listed` in a message.
    ListProject { chat_id: i64, message_id: i64, project_dir: String },
    /// Show the status page, in a message or anew.
    ShowStatus { chat_id: i64, message_id: Option<i64> },
    /// Show the history of a thread.
    ShowHistory { chat_id: i64, thread_id: String },
    /// Show that a thread was chosen, with its history.
    ShowSelected { chat_id: i64, target: ThreadTarget },
    /// Interrupt the turn that runs; then `finish_stop` says what to send.
    Interrupt { chat_id: i64 },
    /// Send more input to the turn that runs; then send this text.
    Steer { chat_id: i64, thread_id: String, turn_id: String, prompt: String, said: String },
    /// Send a notice, if any, and the text that stands for the answer; then run a turn.
    Ask {
        chat_id: i64,
        message_id: i64,
        prompt: String,
        notice: Option<String>,
        said: String,
        thread_id: Option<String>,
        project_dir: Option<String>,
        resume: bool,
    },
}

/// What a `BotStep` says.
pub enum StepModel {
    Nothing,
    Say { chat_id: i64, text: Seq<char> },
    OpenMenu { chat_id: i64, view: MenuModel },
    EditMenu { chat_id: i64, message_id: i64, view: MenuModel },
    StartThread { chat_id: i64, project_dir: Option<Seq<char>> },
    ListProjects { chat_id: i64, message_id: Option<i64> },
    ListSessions { chat_id: i64, message_id: Option<i64> },
    ListProject { chat_id: i64, message_id: i64, project_dir: Seq<char> },
    ShowStatus { chat_id: i64, message_id: Option<i64> },
    ShowHistory { chat_id: i64, thread_id: Seq<char> },
    ShowSelected { chat_id: i64, target: TargetModel },
    Interrupt { chat_id: i64 },
    Steer {
        chat_id: i64,
        thread_id: Seq<char>,
        turn_id: Seq<char>,
        prompt: Seq<char>,
        said: Seq<char>,
    },
    Ask {
        chat_id: i64,
        message_id: i64,
        prompt: Seq<char>,
        notice: Option<Seq<char>>,
        said: Seq<char>,
        thread_id: Option<Seq<char>>,
        project_dir: Option<Seq<char>>,
        resume: bool,
    },
}

impl View for BotStep {
    type V = StepModel;

    open spec fn view(&self) -> StepModel {
        match *self {
            BotStep::Nothing => StepModel::Nothing,
            BotStep::Say { chat_id, text } => StepModel::Say { chat_id, text: text@ },
            BotStep::OpenMenu { chat_id, view } => StepModel::OpenMenu { chat_id, view: view@ },
            BotStep::EditMenu { chat_id, message_id, view } => StepModel::EditMenu {
                chat_id,
                message_id,
                view: view@,
            },
            BotStep::StartThread { chat_id, project_dir } => StepModel::StartThread {
                chat_id,
                project_dir: text::opt_text(project_dir),
            },
            BotStep::ListProjects { chat_id, message_id } => StepModel::ListProjects {
                chat_id,
                message_id,
            },
            BotStep::ListSessions { chat_id, message_id } => StepModel::ListSessions {
                chat_id,
                message_id,
            },
            BotStep::ListProject { chat_id, message_id, project_dir } => StepModel::ListProject {
                chat_id,
                message_id,
                project_dir: project_dir@,
            },
            BotStep::ShowStatus { chat_id, message_id } => StepModel::ShowStatus {
                chat_id,
                message_id,
            },
            BotStep::ShowHistory { chat_id, thread_id } => StepModel::ShowHistory {
                chat_id,
                thread_id: thread_id@,
            },
            BotStep::ShowSelected { chat_id, target } => StepModel::ShowSelected {
                chat_id,
                target: target@,
            },
            BotStep::Interrupt { chat_id } => StepModel::Interrupt { chat_id },
            BotStep::Steer { chat_id, thread_id, turn_id, prompt, said } => StepModel::Steer {
                chat_id,
                thread_id: thread_id@,
                turn_id: turn_id@,
                prompt: prompt@,
                said: said@,
            },
            BotStep::Ask {
                chat_id,
                message_id,
                prompt,
                notice,
                said,
                thread_id,
                project_dir,
                resume,
            } => StepModel::Ask {
                chat_id,
                message_id,
                prompt: prompt@,
                notice: text::opt_text(notice),
                said: said@,
                thread_id: text::opt_text(thread_id),
                project_dir: text::opt_text(project_dir),
                resume,
            },
        }
    }
}

/// Whether a thread has to be loaded again before a turn: it is given, and not loaded yet.
pub open spec fn needs_resume(thread: Option<Seq<char>>, loaded: Set<Seq<char>>) -> bool {
    match replies::trimmed_text(thread) {
        Some(thread) => !loaded.contains(thread),
        None => false,
    }
}

/// Tells whether a text is in a list.
fn is_listed(list: &Vec<String>, wanted: &str) -> (res: bool)
    ensures
        res == text::texts(list@).to_set().contains(wanted@),
{
    let mut i: usize = 0;
    while i < list.len()
        invariant
            i <= list@.len(),
            forall|k: int| 0 <= k < i ==> (#[trigger] list@[k])@ != wanted@,
        decreases list.len() - i,
    {
        if text::eq(list[i].as_str(), wanted) {
            assert(text::texts(list@)[i as int] == wanted@);
            return true;
        }
        i += 1;
    }
    proof {
        if text::texts(list@).to_set().contains(wanted@) {
            let k = choose|k: int|
                0 <= k < text::texts(list@).len() && text::texts(list@)[k] == wanted@;
            assert(list@[k]@ == wanted@);
        }
    }
    false
}

/// Tells whether a thread has to be loaded again before a turn.
pub fn should_resume_thread(thread_id: Option<&str>, loaded_thread_ids: &Vec<String>) -> (res: bool)
    ensures
        res == needs_resume(
            text::opt_str(thread_id),
            text::texts(loaded_thread_ids@).to_set(),
        ),
{
    match replies::trimmed_or_none(thread_id) {
        Some(thread) => !is_listed(loaded_thread_ids, thread),
        None => false,
    }
}

impl BotModel {
    /// The bot after a look at the task of the turn: one that has finished is forgotten.
    pub open spec fn cleared(self, task_finished: bool) -> BotModel {
        if self.task_started && task_finished {
            BotModel { active: None, interrupt_ready: false, task_started: false, ..self }
        } else {
            self
        }
    }

    /// What is done about a prompt: it goes to the turn that runs, or it starts one.
    pub open spec fn ask_step(self, chat_id: i64, message_id: i64, prompt: Seq<char>) -> StepModel {
        match self.active {
            Some(active) => StepModel::Steer {
                chat_id,
                thread_id: active.thread_id,
                turn_id: active.turn_id,
                prompt,
                said: "已追加到当前运行。"@,
            },
            None => StepModel::Ask {
                chat_id,
                message_id,
                prompt,
                notice: if self.thread is None && self.project is None {
                    Some("已切换到独立新对话。直接发送消息即可开始。"@)
                } else {
                    None
                },
                said: "正在处理..."@,
                thread_id: self.thread,
                project_dir: self.project,
                resume: needs_resume(self.thread, self.loaded),
            },
        }
    }

    /// Whether a turn of this chat runs.
    pub open spec fn runs_for(self, chat_id: i64) -> bool {
        self.active matches Some(active) && active.chat_id == chat_id
    }

    /// What is done about a wish to stop.
    pub open spec fn stop_step(self, chat_id: i64) -> StepModel {
        if self.runs_for(chat_id) && self.interrupt_ready {
            StepModel::Interrupt { chat_id }
        } else {
            StepModel::Say { chat_id, text: "当前没有可停止的任务。"@ }
        }
    }

    /// The bot after a wish to stop.
    pub open spec fn stopping(self, chat_id: i64) -> BotModel {
        if !self.runs_for(chat_id) {
            self
        } else if self.interrupt_ready {
            BotModel { interrupt_ready: false, ..self }
        } else {
            BotModel { active: None, ..self }
        }
    }

    /// What is done about a message of the allowed user.
    pub open spec fn message_step(self, chat_id: i64, message_id: i64, trimmed: Seq<char>) ->
        StepModel {
        match labels::action_for(trimmed) {
            Some(MenuAction::Menu) => StepModel::OpenMenu {
                chat_id,
                view: menus::main_menu(self.thread, self.project),
            },
            Some(MenuAction::NewThread) => StepModel::StartThread { chat_id, project_dir: None },
            Some(MenuAction::Projects) => StepModel::ListProjects { chat_id, message_id: None },
            Some(MenuAction::Sessions) => StepModel::ListSessions { chat_id, message_id: None },
            Some(MenuAction::Status) => StepModel::ShowStatus { chat_id, message_id: None },
            Some(MenuAction::Stop) => self.stop_step(chat_id),
            Some(MenuAction::UnsupportedCommand) => StepModel::Say {
                chat_id,
                text: "暂不支持这个命令。可用 /start 打开菜单。"@,
            },
            None => if trimmed.len() == 0 {
                StepModel::Nothing
            } else {
                self.ask_step(chat_id, message_id, trimmed)
            },
        }
    }

    /// Whether a message looks at the task of the turn: a prompt and a wish to stop do.
    pub open spec fn looks_at_task(trimmed: Seq<char>) -> bool {
        match labels::action_for(trimmed) {
            Some(MenuAction::Stop) => true,
            Some(_) => false,
            None => trimmed.len() > 0,
        }
    }

    /// What is done about a message.
    pub open spec fn on_message(
        self,
        from: Option<i64>,
        chat_id: i64,
        message_id: i64,
        sent: Option<Seq<char>>,
        task_finished: bool,
    ) -> (BotModel, StepModel) {
        if from != Some(self.allowed_user_id) {
            (self, StepModel::Say { chat_id, text: "没有权限使用这个 bot。"@ })
        } else {
            let trimmed = match sent {
                Some(sent) => text::trim(sent),
                None => seq![],
            };
            let now = if BotModel::looks_at_task(trimmed) {
                self.cleared(task_finished)
            } else {
                self
            };
            let after = if labels::action_for(trimmed) == Some(MenuAction::Stop) {
                now.stopping(chat_id)
            } else {
                now
            };
            (after, now.message_step(chat_id, message_id, trimmed))
        }
    }

    /// What is done about a message that was edited: its prompt is asked again in the thread
    /// that it went to.
    pub open spec fn on_edited_message(
        self,
        from: Option<i64>,
        chat_id: i64,
        message_id: i64,
        sent: Option<Seq<char>>,
        task_finished: bool,
    ) -> (BotModel, StepModel) {
        let prompt = match sent {
            Some(sent) => text::trim(sent),
            None => seq![],
        };
        if from != Some(self.allowed_user_id) || prompt.len() == 0 || labels::action_for(
            prompt,
        ) is Some {
            (self, StepModel::Nothing)
        } else if !self.prompts.contains_key((chat_id, message_id)) {
            (
                self,
                StepModel::Say {
                    chat_id,
                    text: "这条消息没有可回退的 Codex 记录，请直接发送新消息继续。"@,
                },
            )
        } else if self.active is Some {
            (
                self,
                StepModel::Say {
                    chat_id,
                    text: "Codex 正在处理当前任务，请等待完成或点击停止。"@,
                },
            )
        } else {
            let target = self.prompts[(chat_id, message_id)];
            let now = BotModel {
                thread: Some(target.thread_id),
                project: target.project_dir,
                ..self
            }.cleared(task_finished);
            (now, now.ask_step(chat_id, message_id, prompt))
        }
    }

    /// What is done about the data of a button.
    pub open spec fn button_step(self, chat_id: i64, message_id: i64, data: Seq<char>) -> StepModel {
        let n = self.targets.len();
        let m = self.project_dirs.len();
        let no_project = StepModel::Say {
            chat_id,
            text: "这个项目入口已过期，请重新打开项目列表。"@,
        };
        if data == "new"@ {
            StepModel::StartThread { chat_id, project_dir: None }
        } else if data == "projects"@ {
            StepModel::ListProjects { chat_id, message_id: Some(message_id) }
        } else if data == "sessions"@ {
            StepModel::ListSessions { chat_id, message_id: Some(message_id) }
        } else if data == "status"@ {
            StepModel::ShowStatus { chat_id, message_id: Some(message_id) }
        } else if data == "menu"@ {
            StepModel::EditMenu {
                chat_id,
                message_id,
                view: menus::main_menu(self.thread, self.project),
            }
        } else if data == "stop"@ {
            self.stop_step(chat_id)
        } else if text::has_prefix(data, "history:"@) {
            match menus::place_for(text::strip_prefixes(data, "history:"@), n) {
                Some(place) => StepModel::ShowHistory {
                    chat_id,
                    thread_id: self.targets[place].thread_id,
                },
                None => StepModel::Say {
                    chat_id,
                    text: "这个历史入口已过期，请重新打开对话列表。"@,
                },
            }
        } else if text::has_prefix(data, "thread:"@) {
            match menus::place_for(text::strip_prefixes(data, "thread:"@), n) {
                Some(place) => StepModel::ShowSelected { chat_id, target: self.targets[place] },
                None => StepModel::Say {
                    chat_id,
                    text: "这个对话入口已过期，请重新打开对话列表。"@,
                },
            }
        } else if text::has_prefix(data, "project:"@) {
            match menus::place_for(text::strip_prefixes(data, "project:"@), m) {
                Some(place) => StepModel::ListProject {
                    chat_id,
                    message_id,
                    project_dir: self.project_dirs[place],
                },
                None => no_project,
            }
        } else if text::has_prefix(data, "project_new:"@) {
            match menus::place_for(text::strip_prefixes(data, "project_new:"@), m) {
                Some(place) => StepModel::StartThread {
                    chat_id,
                    project_dir: Some(self.project_dirs[place]),
                },
                None => no_project,
            }
        } else {
            StepModel::Nothing
        }
    }

    /// The bot after a button: a thread that was chosen is the one to go on with, and a wish to
    /// stop is noted.
    pub open spec fn after_button(self, chat_id: i64, data: Seq<char>) -> BotModel {
        if data == "stop"@ {
            self.stopping(chat_id)
        } else {
            match self.button_step(chat_id, 0, data) {
                StepModel::ShowSelected { target, .. } => BotModel {
                    thread: Some(target.thread_id),
                    project: target.project_dir,
                    ..self
                },
                _ => self,
            }
        }
    }

    /// What is done about a button: who pressed it, in which message, and its data.
    pub open spec fn on_callback(
        self,
        from: i64,
        message: Option<(i64, i64)>,
        data: Option<Seq<char>>,
        task_finished: bool,
    ) -> (BotModel, StepModel) {
        match message {
            Some((chat_id, message_id)) => if from != self.allowed_user_id {
                (self, StepModel::Nothing)
            } else {
                let data = match data {
                    Some(data) => data,
                    None => seq![],
                };
                let now = if data == "stop"@ {
                    self.cleared(task_finished)
                } else {
                    self
                };
                (now.after_button(chat_id, data), now.button_step(chat_id, message_id, data))
            },
            None => (self, StepModel::Nothing),
        }
    }

    /// The bot in a new thread.
    pub open spec fn in_new_thread(self, thread_id: Seq<char>, project: Option<Seq<char>>) ->
        BotModel {
        BotModel {
            thread: Some(thread_id),
            project,
            loaded: self.loaded.insert(thread_id),
            ..self
        }
    }

    /// The bot once a turn has started for a prompt.
    pub open spec fn in_turn(
        self,
        chat_id: i64,
        message_id: i64,
        project: Option<Seq<char>>,
        thread_id: Seq<char>,
        turn_id: Seq<char>,
    ) -> BotModel {
        BotModel {
            thread: Some(thread_id),
            loaded: self.loaded.insert(thread_id),
            prompts: self.prompts.insert(
                (chat_id, message_id),
                TargetModel { thread_id, project_dir: project },
            ),
            active: Some(ActiveModel { chat_id, thread_id, turn_id }),
            ..self
        }
    }
}

/// What is said in a new thread.
pub open spec fn new_thread_text(project: Option<Seq<char>>) -> Seq<char> {
    match project {
        Some(project) => "已切换到项目新对话："@ + labels::project_name(project)
            + "。直接发送消息即可开始。"@,
        None => "已切换到独立新对话。直接发送消息即可开始。"@,
    }
}

/// How a wish to stop turned out.
#[derive(Debug, Clone, PartialEq, Eq)]
pub enum StopOutcome {
    /// The task was gone before it could be told.
    NotDelivered,
    /// The turn was interrupted.
    Stopped,
    /// The turn could not be interrupted.
    Failed(String),
    /// The task ended without an answer.
    TaskGone,
    /// There was no answer in time.
    TimedOut,
}

/// What is said about how a wish to stop turned out.
pub open spec fn stop_text(outcome: StopOutcome) -> Seq<char> {
    match outcome {
        StopOutcome::NotDelivered => "当前没有可停止的任务。"@,
        StopOutcome::Stopped => "已停止当前生成。"@,
        StopOutcome::Failed(error) => "停止失败："@ + error@,
        StopOutcome::TaskGone => "停止失败：生成任务已结束。"@,
        StopOutcome::TimedOut => "停止失败：等待 app-server 确认超时。"@,
    }
}

impl BotState {
    /// A bot that one user may use, and that has done nothing yet.
    pub fn new(allowed_user_id: i64) -> (res: Self)
        ensures
            res@ == (BotModel {
                allowed_user_id,
                thread: None,
                project: None,
                loaded: Set::empty(),
                active: None,
                interrupt_ready: false,
                task_started: false,
                prompts: Map::empty(),
                targets: seq![],
                project_dirs: seq![],
            }),
    {
        let res = BotState {
            allowed_user_id,
            current_thread_id: None,
            current_project_dir: None,
            loaded_thread_ids: Vec::new(),
            active_turn: None,
            interrupt_ready: false,
            task_started: false,
            tracked_prompts: HashMap::new(),
            thread_targets: Vec::new(),
            project_dirs: Vec::new(),
        };
        assert(res@.loaded =~= Set::empty());
        assert(res@.prompts =~= Map::empty());
        assert(res@.targets =~= seq![]);
        assert(res@.project_dirs =~= seq![]);
        res
    }

    /// The thread that the bot is in.
    pub fn current_thread(&self) -> (res: Option<&str>)
        ensures
            text::opt_str(res) == self@.thread,
    {
        as_opt_str(&self.current_thread_id)
    }

    /// The project that the bot is in.
    pub fn current_project(&self) -> (res: Option<&str>)
        ensures
            text::opt_str(res) == self@.project,
    {
        as_opt_str(&self.current_project_dir)
    }

    /// Tells whether a user may use the bot.
    fn is_allowed(&self, user_id: Option<i64>) -> (res: bool)
        ensures
            res == (user_id == Some(self@.allowed_user_id)),
    {
        match user_id {
            Some(id) => id == self.allowed_user_id,
            None => false,
        }
    }

    /// Forgets a turn whose task has finished.
    pub fn clear_finished_task(&mut self, task_finished: bool)
        ensures
            final(self)@ == old(self)@.cleared(task_finished),
    {
        if self.task_started && task_finished {
            self.task_started = false;
            self.active_turn = None;
            self.interrupt_ready = false;
        }
    }

    /// The main menu.
    fn menu(&self) -> (res: MenuView)
        ensures
            res@ == menus::main_menu(self@.thread, self@.project),
    {
        menus::menu_view(self.current_thread(), self.current_project())
    }

    /// Decides about a prompt.
    fn ask(&mut self, chat_id: i64, message_id: i64, prompt: &str, task_finished: bool) -> (res:
        BotStep)
        ensures
            final(self)@ == old(self)@.cleared(task_finished),
            res@ == old(self)@.cleared(task_finished).ask_step(chat_id, message_id, prompt@),
    {
        self.clear_finished_task(task_finished);
        if let Some(active) = &self.active_turn {
            return BotStep::Steer {
                chat_id,
                thread_id: active.thread_id.clone(),
                turn_id: active.turn_id.clone(),
                prompt: prompt.to_owned(),
                said: "已追加到当前运行。".to_owned(),
            };
        }
        let notice = match labels::new_thread_notice(
            self.current_thread(),
            self.current_project(),
        ) {
            Some(notice) => Some(notice.to_owned()),
            None => None,
        };
        BotStep::Ask {
            chat_id,
            message_id,
            prompt: prompt.to_owned(),
            notice,
            said: "正在处理...".to_owned(),
            thread_id: text::copy_opt(&self.current_thread_id),
            project_dir: text::copy_opt(&self.current_project_dir),
            resume: should_resume_thread(self.current_thread(), &self.loaded_thread_ids),
        }
    }

    /// Decides about a wish to stop.
    fn stop_active_turn(&mut self, chat_id: i64, task_finished: bool) -> (res: BotStep)
        ensures
            final(self)@ == old(self)@.cleared(task_finished).stopping(chat_id),
            res@ == old(self)@.cleared(task_finished).stop_step(chat_id),
    {
        self.clear_finished_task(task_finished);
        let runs = match &self.active_turn {
            Some(active) => active.chat_id == chat_id,
            None => false,
        };
        if runs && self.interrupt_ready {
            self.interrupt_ready = false;
            return BotStep::Interrupt { chat_id };
        }
        if runs {
            self.active_turn = None;
        }
        BotStep::Say { chat_id, text: "当前没有可停止的任务。".to_owned() }
    }

    /// Decides about a message.
    pub fn on_message(
        &mut self,
        from: Option<i64>,
        chat_id: i64,
        message_id: i64,
        sent: Option<&str>,
        task_finished: bool,
    ) -> (res: BotStep)
        ensures
            (final(self)@, res@) == old(self)@.on_message(
                from,
                chat_id,
                message_id,
                text::opt_str(sent),
                task_finished,
            ),
    {
        if !self.is_allowed(from) {
            return BotStep::Say { chat_id, text: "没有权限使用这个 bot。".to_owned() };
        }
        let trimmed = trimmed_or_empty(sent);
        match labels::menu_action(trimmed) {
            Some(MenuAction::Menu) => BotStep::OpenMenu { chat_id, view: self.menu() },
            Some(MenuAction::NewThread) => BotStep::StartThread { chat_id, project_dir: None },
            Some(MenuAction::Projects) => BotStep::ListProjects { chat_id, message_id: None },
            Some(MenuAction::Sessions) => BotStep::ListSessions { chat_id, message_id: None },
            Some(MenuAction::Status) => BotStep::ShowStatus { chat_id, message_id: None },
            Some(MenuAction::Stop) => self.stop_active_turn(chat_id, task_finished),
            Some(MenuAction::UnsupportedCommand) => BotStep::Say {
                chat_id,
                text: "暂不支持这个命令。可用 /start 打开菜单。".to_owned(),
            },
            None => if trimmed.is_empty() {
                BotStep::Nothing
            } else {
                self.ask(chat_id, message_id, trimmed, task_finished)
            },
        }
    }

    /// Where a prompt went.
    fn prompts(&self, chat_id: i64, message_id: i64) -> (res: Option<ThreadTarget>)
        ensures
            match res {
                Some(target) => self@.prompts.contains_key((chat_id, message_id))
                    && self@.prompts[(chat_id, message_id)] == target@,
                None => !self@.prompts.contains_key((chat_id, message_id)),
            },
    {
        match self.tracked_prompts.get(&chat_id) {
            Some(chat) => match chat.get(&message_id) {
                Some(target) => Some(target.copy()),
                None => None,
            },
            None => None,
        }
    }

    /// Decides about a message that was edited.
    pub fn on_edited_message(
        &mut self,
        from: Option<i64>,
        chat_id: i64,
        message_id: i64,
        sent: Option<&str>,
        task_finished: bool,
    ) -> (res: BotStep)
        ensures
            (final(self)@, res@) == old(self)@.on_edited_message(
                from,
                chat_id,
                message_id,
                text::opt_str(sent),
                task_finished,
            ),
    {
        if !self.is_allowed(from) {
            return BotStep::Nothing;
        }
        let prompt = trimmed_or_empty(sent);
        if prompt.is_empty() || labels::menu_action(prompt).is_some() {
            return BotStep::Nothing;
        }
        let target = match self.prompts(chat_id, message_id) {
            Some(target) => target,
            None => {
                return BotStep::Say {
                    chat_id,
                    text: "这条消息没有可回退的 Codex 记录，请直接发送新消息继续。".to_owned(),
                };
            },
        };
        if self.active_turn.is_some() {
            return BotStep::Say {
                chat_id,
                text: "Codex 正在处理当前任务，请等待完成或点击停止。".to_owned(),
            };
        }
        self.current_thread_id = Some(target.thread_id);
        self.current_project_dir = target.project_dir;
        self.ask(chat_id, message_id, prompt, task_finished)
    }

    /// What a token of the last list of threads stands for.
    fn thread_target(&self, token: &str) -> (res: Option<ThreadTarget>)
        ensures
            match res {
                Some(target) => menus::place_for(token@, self@.targets.len()) matches Some(place)
                    && target@ == self@.targets[place],
                None => menus::place_for(token@, self@.targets.len()) is None,
            },
    {
        match menus::find_token(token, self.thread_targets.len()) {
            Some(place) => Some(self.thread_targets[place].copy()),
            None => None,
        }
    }

    /// What a token of the last list of projects stands for.
    fn project_dir(&self, token: &str) -> (res: Option<String>)
        ensures
            match res {
                Some(dir) => menus::place_for(token@, self@.project_dirs.len()) matches Some(place)
                    && dir@ == self@.project_dirs[place],
                None => menus::place_for(token@, self@.project_dirs.len()) is None,
            },
    {
        match menus::find_token(token, self.project_dirs.len()) {
            Some(place) => Some(self.project_dirs[place].clone()),
            None => None,
        }
    }

    /// Decides about a button, given who pressed it, the chat and the message that it is in,
    /// and its data.
    pub fn on_callback(
        &mut self,
        from: i64,
        message: Option<(i64, i64)>,
        data: Option<&str>,
        task_finished: bool,
    ) -> (res: BotStep)
        ensures
            (final(self)@, res@) == old(self)@.on_callback(
                from,
                message,
                text::opt_str(data),
                task_finished,
            ),
    {
        if !self.is_allowed(Some(from)) {
            return BotStep::Nothing;
        }
        let (chat_id, message_id) = match message {
            Some(message) => message,
            None => {
                return BotStep::Nothing;
            },
        };
        let data = match data {
            Some(data) => data,
            None => {
                proof {
                    reveal_strlit("");
                    assert(""@ =~= seq![]);
                }
                ""
            },
        };
        if text::eq(data, "stop") {
            proof {
                lemma_stop_is_stop();
            }
            return self.stop_active_turn(chat_id, task_finished);
        }
        self.on_button(chat_id, message_id, data)
    }

    /// Decides about the data of a button, other than a wish to stop.
    fn on_button(&mut self, chat_id: i64, message_id: i64, data: &str) -> (res: BotStep)
        requires
            data@ != "stop"@,
        ensures
            final(self)@ == old(self)@.after_button(chat_id, data@),
            res@ == old(self)@.button_step(chat_id, message_id, data@),
    {
        if text::eq(data, "new") {
            BotStep::StartThread { chat_id, project_dir: None }
        } else if text::eq(data, "projects") {
            BotStep::ListProjects { chat_id, message_id: Some(message_id) }
        } else if text::eq(data, "sessions") {
            BotStep::ListSessions { chat_id, message_id: Some(message_id) }
        } else if text::eq(data, "status") {
            BotStep::ShowStatus { chat_id, message_id: Some(message_id) }
        } else if text::eq(data, "menu") {
            BotStep::EditMenu { chat_id, message_id, view: self.menu() }
        } else if text::begins_with(data, "history:") {
            match self.thread_target(text::without_prefixes(data, "history:").as_str()) {
                Some(target) => BotStep::ShowHistory { chat_id, thread_id: target.thread_id },
                None => BotStep::Say {
                    chat_id,
                    text: "这个历史入口已过期，请重新打开对话列表。".to_owned(),
                },
            }
        } else if text::begins_with(data, "thread:") {
            match self.thread_target(text::without_prefixes(data, "thread:").as_str()) {
                Some(target) => {
                    self.current_thread_id = Some(target.thread_id.clone());
                    self.current_project_dir = text::copy_opt(&target.project_dir);
                    BotStep::ShowSelected { chat_id, target }
                },
                None => BotStep::Say {
                    chat_id,
                    text: "这个对话入口已过期，请重新打开对话列表。".to_owned(),
                },
            }
        } else if text::begins_with(data, "project:") {
            match self.project_dir(text::without_prefixes(data, "project:").as_str()) {
                Some(project_dir) => BotStep::ListProject { chat_id, message_id, project_dir },
                None => BotStep::Say {
                    chat_id,
                    text: "这个项目入口已过期，请重新打开项目列表。".to_owned(),
                },
            }
        } else if text::begins_with(data, "project_new:") {
            match self.project_dir(text::without_prefixes(data, "project_new:").as_str()) {
                Some(project_dir) => BotStep::StartThread {
                    chat_id,
                    project_dir: Some(project_dir),
                },
                None => BotStep::Say {
                    chat_id,
                    text: "这个项目入口已过期，请重新打开项目列表。".to_owned(),
                },
            }
        } else {
            BotStep::Nothing
        }
    }

    /// Remembers that a thread is loaded.
    fn note_loaded(&mut self, thread_id: &str)
        ensures
            final(self)@ == (BotModel {
                loaded: old(self)@.loaded.insert(thread_id@),
                ..old(self)@
            }),
    {
        if !is_listed(&self.loaded_thread_ids, thread_id) {
            let ghost before = text::texts(self.loaded_thread_ids@);
            self.loaded_thread_ids.push(thread_id.to_owned());
            proof {
                let after = text::texts(self.loaded_thread_ids@);
                assert(after =~= before.push(thread_id@));
                assert(after.to_set() =~= before.to_set().insert(thread_id@)) by {
                    assert(after[after.len() - 1] == thread_id@);
                    assert forall|s: Seq<char>| before.to_set().contains(
                        s,
                    ) implies after.to_set().contains(s) by {
                        let k = choose|k: int| 0 <= k < before.len() && before[k] == s;
                        assert(after[k] == s);
                    }
                    assert forall|s: Seq<char>|
                        after.to_set().contains(s) && s != thread_id@ implies before.to_set().contains(
                        s,
                    ) by {
                        let k = choose|k: int| 0 <= k < after.len() && after[k] == s;
                        assert(before[k] == s);
                    }
                }
            }
        } else {
            assert(self@.loaded.insert(thread_id@) =~= self@.loaded);
        }
        assert(self@ =~= (BotModel {
            loaded: old(self)@.loaded.insert(thread_id@),
            ..old(self)@
        }));
    }

    /// Goes on with a thread that was started, and tells what to say.
    pub fn thread_started(&mut self, thread_id: &str, project_dir: Option<String>) -> (res: String)
        ensures
            final(self)@ == old(self)@.in_new_thread(thread_id@, text::opt_text(project_dir)),
            res@ == new_thread_text(text::opt_text(project_dir)),
    {
        let said = match &project_dir {
            Some(project) => text::cat3(
                "已切换到项目新对话：",
                labels::project_label(project.as_str()).as_str(),
                "。直接发送消息即可开始。",
            ),
            None => "已切换到独立新对话。直接发送消息即可开始。".to_owned(),
        };
        self.note_loaded(thread_id);
        self.current_thread_id = Some(thread_id.to_owned());
        self.current_project_dir = project_dir;
        assert(self@ =~= old(self)@.in_new_thread(thread_id@, text::opt_text(project_dir)));
        said
    }

    /// Notes that a task was started for a turn; it can be interrupted.
    pub fn task_begun(&mut self)
        ensures
            final(self)@ == (BotModel {
                task_started: true,
                interrupt_ready: true,
                ..old(self)@
            }),
    {
        self.task_started = true;
        self.interrupt_ready = true;
    }

    /// Notes that a turn has started for a prompt that was sent in a project.
    pub fn turn_begun(
        &mut self,
        chat_id: i64,
        message_id: i64,
        project_dir: Option<String>,
        handle: &AppServerTurnHandle,
    )
        ensures
            final(self)@ == old(self)@.in_turn(
                chat_id,
                message_id,
                text::opt_text(project_dir),
                handle.thread_id@,
                handle.turn_id@,
            ),
    {
        let ghost project = text::opt_text(project_dir);
        self.note_loaded(handle.thread_id.as_str());
        self.current_thread_id = Some(handle.thread_id.clone());
        let target = ThreadTarget { thread_id: handle.thread_id.clone(), project_dir };
        let ghost view = target@;
        let ghost before = self.tracked_prompts@;
        let mut chat = match self.tracked_prompts.remove(&chat_id) {
            Some(chat) => chat,
            None => HashMap::new(),
        };
        let ghost old_chat = chat@;
        chat.insert(message_id, target);
        self.tracked_prompts.insert(chat_id, chat);
        self.active_turn = Some(
            ActiveTurn {
                chat_id,
                thread_id: handle.thread_id.clone(),
                turn_id: handle.turn_id.clone(),
            },
        );
        proof {
            assert(self@.prompts =~= prompts_map(before).insert((chat_id, message_id), view));
            assert(self@ =~= old(self)@.in_turn(
                chat_id,
                message_id,
                project,
                handle.thread_id@,
                handle.turn_id@,
            ));
        }
    }

    /// Takes in how a wish to stop turned out, and tells what to say.
    pub fn finish_stop(&mut self, outcome: &StopOutcome) -> (res: String)
        ensures
            final(self)@ == match *outcome {
                StopOutcome::NotDelivered => BotModel { active: None, ..old(self)@ },
                StopOutcome::Stopped => BotModel { active: None, ..old(self)@ },
                _ => old(self)@,
            },
            res@ == stop_text(*outcome),
    {
        match outcome {
            StopOutcome::NotDelivered => {
                self.active_turn = None;
                "当前没有可停止的任务。".to_owned()
            },
            StopOutcome::Stopped => {
                self.active_turn = None;
                "已停止当前生成。".to_owned()
            },
            StopOutcome::Failed(error) => text::cat("停止失败：", error.as_str()),
            StopOutcome::TaskGone => "停止失败：生成任务已结束。".to_owned(),
            StopOutcome::TimedOut => "停止失败：等待 app-server 确认超时。".to_owned(),
        }
    }

    /// Shows the projects of some threads, and remembers what their tokens stand for.
    pub fn projects_listed(&mut self, ids: &mut RequestIds, threads: &Vec<AppServerThread>) -> (res:
        MenuView)
        ensures
            exists|groups: Seq<projects::GroupModel>, cwds: Seq<Option<Seq<char>>>|
                {
                    &&& projects::may_group_all(
                        replies::thread_views(threads@),
                        cwds,
                        old(ids)@,
                    )
                    &&& #[trigger] projects::are_groups(
                        groups,
                        replies::thread_views(threads@),
                        cwds,
                        threads@.len(),
                    )
                    &&& projects::in_order(groups)
                    &&& res@ == menus::projects_menu(groups)
                    &&& final(self)@ == (BotModel {
                        project_dirs: group_dirs(groups),
                        targets: seq![],
                        ..old(self)@
                    })
                },
            final(ids)@ == replies::id_at(
                old(ids)@,
                replies::thread_views(threads@),
                threads@.len() as int,
            ),
    {
        let groups = projects::group_projects(ids, threads);
        let ghost views = projects::group_views(groups@);
        let mut dirs: Vec<String> = Vec::new();
        let mut i: usize = 0;
        while i < groups.len()
            invariant
                i <= groups@.len(),
                dirs@.len() == i,
                forall|k: int| 0 <= k < i ==> (#[trigger] dirs@[k])@ == groups@[k].cwd@,
            decreases groups.len() - i,
        {
            dirs.push(groups[i].cwd.clone());
            i += 1;
        }
        assert(text::texts(dirs@) =~= group_dirs(views));
        self.project_dirs = dirs;
        self.thread_targets = Vec::new();
        assert(self@.targets =~= seq![]);
        assert(self@ =~= (BotModel {
            project_dirs: group_dirs(views),
            targets: seq![],
            ..old(self)@
        }));
        menus::projects_view(&groups)
    }

    /// Shows the threads of a project, and remembers what their tokens stand for.
    pub fn project_listed(&mut self, threads: &Vec<AppServerThread>, project_dir: &str) -> (res:
        MenuView)
        ensures
            ({
                let kept = menus::threads_in(replies::thread_views(threads@), project_dir@);
                &&& exists|token: Option<Seq<char>>|
                    #[trigger]
                    menus::is_project_token(token, old(self)@.project_dirs, project_dir@) && res@
                        == menus::project_sessions_menu(kept, project_dir@, token)
                &&& final(self)@ == (BotModel {
                    targets: targets_of(kept, true),
                    ..old(self)@
                })
            }),
    {
        let kept = menus::project_threads(threads, project_dir);
        self.remember_targets(&kept, true);
        let token = menus::token_for_project(&self.project_dirs, project_dir);
        menus::project_sessions_view(&kept, project_dir, as_opt_str(&token))
    }

    /// Shows the standalone chats among some threads, and remembers what their tokens stand for.
    pub fn sessions_listed(&mut self, ids: &mut RequestIds, threads: &Vec<AppServerThread>) -> (res:
        MenuView)
        ensures
            exists|kept: Seq<replies::ThreadModel>|
                {
                    &&& #[trigger] menus::may_be_standalone_threads(
                        replies::thread_views(threads@),
                        kept,
                        old(ids)@,
                    )
                    &&& res@ == menus::sessions_menu(kept)
                    &&& final(self)@ == (BotModel {
                        targets: targets_of(kept, false),
                        ..old(self)@
                    })
                },
            final(ids)@ == replies::id_at(
                old(ids)@,
                replies::thread_views(threads@),
                threads@.len() as int,
            ),
    {
        let kept = menus::standalone_threads(ids, threads);
        self.remember_targets(&kept, false);
        menus::sessions_view(&kept)
    }

    /// Remembers the threads of a list, with the projects they work in or without.
    fn remember_targets(&mut self, threads: &Vec<AppServerThread>, with_project: bool)
        ensures
            final(self)@ == (BotModel {
                targets: targets_of(replies::thread_views(threads@), with_project),
                ..old(self)@
            }),
    {
        let mut targets: Vec<ThreadTarget> = Vec::new();
        let mut i: usize = 0;
        while i < threads.len()
            invariant
                i <= threads@.len(),
                targets@.len() == i,
                forall|k: int|
                    0 <= k < i ==> (#[trigger] targets@[k])@ == target_of(
                        threads@[k]@,
                        with_project,
                    ),
            decreases threads.len() - i,
        {
            let project_dir = if with_project {
                text::copy_opt(&threads[i].cwd)
            } else {
                None
            };
            targets.push(ThreadTarget { thread_id: threads[i].id.clone(), project_dir });
            i += 1;
        }
        assert(target_views(targets@) =~= targets_of(
            replies::thread_views(threads@),
            with_project,
        ));
        self.thread_targets = targets;
    }
}

/// The target that a thread of a list stands for.
pub open spec fn target_of(thread: replies::ThreadModel, with_project: bool) -> TargetModel {
    TargetModel {
        thread_id: thread.id,
        project_dir: if with_project {
            thread.cwd
        } else {
            None
        },
    }
}

/// The targets that the threads of a list stand for.
pub open spec fn targets_of(threads: Seq<replies::ThreadModel>, with_project: bool) -> Seq<
    TargetModel,
> {
    threads.map_values(|thread: replies::ThreadModel| target_of(thread, with_project))
}

/// The directories of groups.
pub open spec fn group_dirs(groups: Seq<projects::GroupModel>) -> Seq<Seq<char>> {
    groups.map_values(|group: projects::GroupModel| group.cwd)
}

/// `s` trimmed; nothing where there is none.
fn trimmed_or_empty(s: Option<&str>) -> (res: &str)
    ensures
        res@ == match text::opt_str(s) {
            Some(s) => text::trim(s),
            None => seq![],
        },
{
    match s {
        Some(s) => text::trimmed(s),
        None => {
            proof {
                reveal_strlit("");
                assert(""@ =~= seq![]);
            }
            ""
        },
    }
}

/// The wish to stop is no other button.
proof fn lemma_stop_is_stop()
    ensures
        "stop"@ != "new"@,
        "stop"@ != "projects"@,
        "stop"@ != "sessions"@,
        "stop"@ != "status"@,
        "stop"@ != "menu"@,
{
    reveal_strlit("stop");
    reveal_strlit("new");
    reveal_strlit("projects");
    reveal_strlit("sessions");
    reveal_strlit("status");
    reveal_strlit("menu");
    assert("stop"@.len() == 4);
    assert("new"@.len() == 3);
    assert("projects"@.len() == 8);
    assert("sessions"@.len() == 8);
    assert("status"@.len() == 6);
    assert("menu"@[0] == 'm');
    assert("stop"@[0] == 's');
}

// ---------------------------------------------------------------------------
// After a turn
// ---------------------------------------------------------------------------

/// What becomes of the message that stood for a running turn.
#[derive(Debug, Clone, PartialEq, Eq)]
pub enum Delivery {
    /// Nothing: the turn was interrupted.
    Nothing,
    /// The first text goes into the message, the others follow it.
    Output(Vec<String>),
    /// This text goes into the message.
    Failure(String),
}

/// The output that is shown of a turn.
pub open spec fn shown_output(output: Seq<char>) -> Seq<char> {
    if text::trim(output).len() == 0 {
        "Codex 已完成，但没有返回文本。"@
    } else {
        output
    }
}

/// Decides what becomes of the message that stood for a turn.
pub fn turn_delivery(result: Result<AppServerTurnResult, String>) -> (res: Delivery)
    ensures
        match result {
            Ok(turn) => if turn.completed {
                res matches Delivery::Output(chunks) && text::texts(chunks@) == labels::chunks(
                    shown_output(turn.output@),
                ) && chunks@.len() > 0
            } else {
                res == Delivery::Nothing
            },
            Err(error) => res matches Delivery::Failure(said) && said@ == "Codex 调用失败："@
                + error@,
        },
{
    match result {
        Ok(turn) => {
            if !turn.completed {
                return Delivery::Nothing;
            }
            proof {
                reveal_strlit("Codex 已完成，但没有返回文本。");
                if turn.output@.len() == 0 {
                    text::lemma_trim_fixed(turn.output@);
                }
                labels::law_messages_make_up_the_text(shown_output(turn.output@));
            }
            let chunks = if text::trimmed(turn.output.as_str()).is_empty() {
                labels::split_long_text("Codex 已完成，但没有返回文本。")
            } else {
                labels::split_long_text(turn.output.as_str())
            };
            assert(text::texts(chunks@).len() == chunks@.len());
            Delivery::Output(chunks)
        },
        Err(error) => Delivery::Failure(text::cat("Codex 调用失败：", error.as_str())),
    }
}

/// What is said when a thread was chosen, given its history or why that cannot be read.
pub open spec fn selected_text(target: TargetModel, history: Result<Seq<char>, Seq<char>>) -> Seq<
    char,
> {
    let project = match target.project_dir {
        Some(project) => labels::project_name(project),
        None => "独立对话"@,
    };
    let shown = match history {
        Ok(history) => history,
        Err(error) => "历史记录读取失败："@ + error,
    };
    "已切换到对话："@ + target.thread_id + "\n项目："@ + project + "\n\n"@ + shown
}

/// What is said when a thread was chosen.
pub fn thread_selected_text(target: &ThreadTarget, history: Result<String, String>) -> (res: String)
    ensures
        res@ == selected_text(target@, text::result_text(history)),
{
    let project = match &target.project_dir {
        Some(project) => labels::project_label(project.as_str()),
        None => "独立对话".to_owned(),
    };
    let shown = match history {
        Ok(history) => history,
        Err(error) => text::cat("历史记录读取失败：", error.as_str()),
    };
    let mut out = text::cat3("已切换到对话：", target.thread_id.as_str(), "\n项目：");
    out.append(project.as_str());
    out.append("\n\n");
    out.append(shown.as_str());
    out
}

// ---------------------------------------------------------------------------
// Laws
// ---------------------------------------------------------------------------

/// Nobody but the allowed user changes anything, and all they are told is that they may not.
pub proof fn law_strangers_change_nothing(
    bot: BotModel,
    stranger: Option<i64>,
    chat_id: i64,
    message_id: i64,
    sent: Option<Seq<char>>,
    message: Option<(i64, i64)>,
    task_finished: bool,
)
    requires
        stranger != Some(bot.allowed_user_id),
    ensures
        bot.on_message(stranger, chat_id, message_id, sent, task_finished) == (
            bot,
            StepModel::Say { chat_id, text: "没有权限使用这个 bot。"@ },
        ),
        bot.on_edited_message(stranger, chat_id, message_id, sent, task_finished) == (
            bot,
            StepModel::Nothing,
        ),
        stranger matches Some(id) ==> bot.on_callback(id, message, sent, task_finished) == (
            bot,
            StepModel::Nothing,
        ),
{
}

/// While a turn runs no message and no button starts another, and a prompt of the allowed user
/// goes to the turn that runs.
pub proof fn law_one_turn_at_a_time(
    bot: BotModel,
    from: Option<i64>,
    chat_id: i64,
    message_id: i64,
    sent: Option<Seq<char>>,
    message: Option<(i64, i64)>,
)
    requires
        bot.active is Some,
    ensures
        !(bot.on_message(from, chat_id, message_id, sent, false).1 is Ask),
        !(bot.on_edited_message(from, chat_id, message_id, sent, false).1 is Ask),
        from matches Some(id) ==> !(bot.on_callback(id, message, sent, false).1 is Ask),
        sent matches Some(sent) ==> from == Some(bot.allowed_user_id) && text::trim(sent).len() > 0
            && labels::action_for(text::trim(sent)) is None ==> {
            let (after, step) = bot.on_message(from, chat_id, message_id, Some(sent), false);
            &&& after == bot
            &&& step is Steer
            &&& step->Steer_thread_id == bot.active->0.thread_id
            &&& step->Steer_turn_id == bot.active->0.turn_id
            &&& step->Steer_prompt == text::trim(sent)
        },
{
}

/// A prompt that is edited is asked again in the thread and the project that it went to.
pub proof fn law_edited_prompt_goes_back_to_its_thread(
    bot: BotModel,
    chat_id: i64,
    message_id: i64,
    project: Option<Seq<char>>,
    thread_id: Seq<char>,
    turn_id: Seq<char>,
    prompt: Seq<char>,
)
    requires
        text::trim(prompt).len() > 0,
        labels::action_for(text::trim(prompt)) is None,
    ensures
        ({
            let ran = bot.in_turn(chat_id, message_id, project, thread_id, turn_id);
            let done = BotModel { task_started: true, ..ran }.cleared(true);
            let (after, step) = done.on_edited_message(
                Some(bot.allowed_user_id),
                chat_id,
                message_id,
                Some(prompt),
                true,
            );
            &&& after.thread == Some(thread_id)
            &&& after.project == project
            &&& step is Ask
            &&& step->Ask_thread_id == Some(thread_id)
            &&& step->Ask_project_dir == project
            &&& step->Ask_prompt == text::trim(prompt)
        }),
{
}

/// A thread in which a turn has started is loaded: it is not loaded again for the next one.
pub proof fn law_loaded_thread_is_not_resumed(
    bot: BotModel,
    chat_id: i64,
    message_id: i64,
    project: Option<Seq<char>>,
    thread_id: Seq<char>,
    turn_id: Seq<char>,
)
    requires
        text::trim(thread_id) == thread_id,
    ensures
        !needs_resume(
            Some(thread_id),
            bot.in_turn(chat_id, message_id, project, thread_id, turn_id).loaded,
        ),
        !needs_resume(Some(thread_id), bot.in_new_thread(thread_id, project).loaded),
{
}

/// Stripping a prefix leaves what begins otherwise.
proof fn lemma_stripped(prefix: Seq<char>, rest: Seq<char>)
    requires
        prefix.len() > 0,
        !text::has_prefix(rest, prefix),
    ensures
        text::has_prefix(prefix + rest, prefix),
        text::strip_prefixes(prefix + rest, prefix) == rest,
{
    let whole = prefix + rest;
    assert(whole.take(prefix.len() as int) =~= prefix);
    assert(whole.skip(prefix.len() as int) =~= rest);
    assert(text::strip_prefixes(whole, prefix) == text::strip_prefixes(rest, prefix));
}

/// A token begins with a digit.
proof fn lemma_token_digit(place: int)
    requires
        0 <= place,
    ensures
        menus::token(place).len() > 0,
        '0' <= menus::token(place)[0] <= '9',
{
    text::lemma_decimal_digits((place + 1) as nat);
}

/// The button of a thread in the last list chooses that thread, and the bot goes on with it.
pub proof fn law_thread_button_chooses_it(
    bot: BotModel,
    chat_id: i64,
    message_id: i64,
    place: int,
    task_finished: bool,
)
    requires
        0 <= place < bot.targets.len(),
    ensures
        ({
            let (after, step) = bot.on_callback(
                bot.allowed_user_id,
                Some((chat_id, message_id)),
                Some("thread:"@ + menus::token(place)),
                task_finished,
            );
            &&& step == StepModel::ShowSelected { chat_id, target: bot.targets[place] }
            &&& after == BotModel {
                thread: Some(bot.targets[place].thread_id),
                project: bot.targets[place].project_dir,
                ..bot
            }
        }),
{
    let t = menus::token(place);
    let data = "thread:"@ + t;
    reveal_strlit("thread:");
    reveal_strlit("history:");
    reveal_strlit("new");
    reveal_strlit("projects");
    reveal_strlit("sessions");
    reveal_strlit("status");
    reveal_strlit("menu");
    reveal_strlit("stop");
    lemma_token_digit(place);
    if text::has_prefix(t, "thread:"@) {
        assert(t.take(7)[0] == 't');
    }
    lemma_stripped("thread:"@, t);
    menus::law_token_finds_its_place(place, bot.targets.len());
    assert(data[0] == 't');
    assert("new"@[0] == 'n');
    assert("projects"@[0] == 'p');
    assert("sessions"@[0] == 's');
    assert("status"@[0] == 's');
    assert("menu"@[0] == 'm');
    assert("stop"@[0] == 's');
    if text::has_prefix(data, "history:"@) {
        assert(data.take(8)[0] == 'h');
    }
}

/// The button of a project in the last list opens that project.
pub proof fn law_project_button_opens_it(
    bot: BotModel,
    chat_id: i64,
    message_id: i64,
    place: int,
    task_finished: bool,
)
    requires
        0 <= place < bot.project_dirs.len(),
    ensures
        bot.on_callback(
            bot.allowed_user_id,
            Some((chat_id, message_id)),
            Some("project:"@ + menus::token(place)),
            task_finished,
        ) == (
            bot,
            StepModel::ListProject {
                chat_id,
                message_id,
                project_dir: bot.project_dirs[place],
            },
        ),
        bot.on_callback(
            bot.allowed_user_id,
            Some((chat_id, message_id)),
            Some("project_new:"@ + menus::token(place)),
            task_finished,
        ) == (
            bot,
            StepModel::StartThread { chat_id, project_dir: Some(bot.project_dirs[place]) },
        ),
{
    let t = menus::token(place);
    let open = "project:"@ + t;
    let new = "project_new:"@ + t;
    reveal_strlit("thread:");
    reveal_strlit("history:");
    reveal_strlit("project:");
    reveal_strlit("project_new:");
    reveal_strlit("new");
    reveal_strlit("projects");
    reveal_strlit("sessions");
    reveal_strlit("status");
    reveal_strlit("menu");
    reveal_strlit("stop");
    lemma_token_digit(place);
    if text::has_prefix(t, "project:"@) {
        assert(t.take(8)[0] == 'p');
    }
    if text::has_prefix(t, "project_new:"@) {
        assert(t.take(12)[0] == 'p');
    }
    lemma_stripped("project:"@, t);
    lemma_stripped("project_new:"@, t);
    menus::law_token_finds_its_place(place, bot.project_dirs.len());
    assert(open[0] == 'p');
    assert(new[0] == 'p');
    assert(open[7] == ':');
    assert(new[7] == '_');
    assert("new"@[0] == 'n');
    assert("projects"@[7] == 's');
    assert("sessions"@[0] == 's');
    assert("status"@[0] == 's');
    assert("menu"@[0] == 'm');
    assert("stop"@[0] == 's');
    if text::has_prefix(open, "history:"@) {
        assert(open.take(8)[0] == 'h');
    }
    if text::has_prefix(open, "thread:"@) {
        assert(open.take(7)[0] == 't');
    }
    if text::has_prefix(new, "history:"@) {
        assert(new.take(8)[0] == 'h');
    }
    if text::has_prefix(new, "thread:"@) {
        assert(new.take(7)[0] == 't');
    }
    if text::has_prefix(new, "project:"@) {
        assert(new.take(8)[7] == ':');
    }
}

/// A turn is stopped from the chat it runs for, and from no other.
pub proof fn law_only_its_chat_stops_a_turn(bot: BotModel, chat_id: i64)
    requires
        !bot.runs_for(chat_id),
    ensures
        bot.stopping(chat_id) == bot,
        !(bot.stop_step(chat_id) is Interrupt),
{
}

/// Whether the turn of the bot still runs, given whether the task that was started for it has
/// finished.
pub open spec fn still_runs(bot: BotModel, task_finished: bool) -> bool {
    bot.active is Some && !(bot.task_started && task_finished)
}

/// Whether a text is a prompt: it is not blank, begins with no slash, and is no word of the menu.
pub open spec fn is_prompt(trimmed: Seq<char>) -> bool {
    &&& trimmed.len() > 0
    &&& trimmed[0] != '/'
    &&& trimmed != "菜单"@
    &&& trimmed != "新对话"@
    &&& trimmed != "项目"@
    &&& trimmed != "对话"@
    &&& trimmed != "状态"@
    &&& trimmed != "停止"@
}

/// Whatever thread and project the bot is in, asking for a new chat starts a thread without a
/// project directory, in the chat that asked, and changes nothing else yet.
pub proof fn law_new_chat_has_no_project(
    bot: &mut BotState,
    from: Option<i64>,
    chat_id: i64,
    message_id: i64,
    said: &str,
    task_finished: bool,
    res: BotStep,
)
    requires
        call_ensures(
            BotState::on_message,
            (bot, from, chat_id, message_id, Some(said), task_finished),
            res,
        ),
        from == Some(old(bot)@.allowed_user_id),
        labels::is_command(text::trim(said@), "new"@) || text::trim(said@) == "新对话"@,
    ensures
        res@ == (StepModel::StartThread { chat_id, project_dir: None }),
        final(bot)@ == old(bot)@,
{
    labels::lemma_asked(text::trim(said@));
}

/// A message that asks for the menu, for the projects, for the chats or for the status gets what
/// it asks for, in the chat that asked, and changes nothing.
pub proof fn law_message_gets_what_it_asks_for(
    bot: &mut BotState,
    from: Option<i64>,
    chat_id: i64,
    message_id: i64,
    said: &str,
    task_finished: bool,
    res: BotStep,
    thread: Option<&str>,
    project: Option<&str>,
    menu: MenuView,
)
    requires
        call_ensures(
            BotState::on_message,
            (bot, from, chat_id, message_id, Some(said), task_finished),
            res,
        ),
        from == Some(old(bot)@.allowed_user_id),
        text::opt_str(thread) == old(bot)@.thread,
        text::opt_str(project) == old(bot)@.project,
        call_ensures(menus::menu_view, (thread, project), menu),
    ensures
        ({
            let asked = text::trim(said@);
            &&& labels::is_command(asked, "start"@) || asked == "菜单"@ ==> res@
                == StepModel::OpenMenu { chat_id, view: menu@ } && final(bot)@ == old(bot)@
            &&& labels::is_command(asked, "projects"@) || asked == "项目"@ ==> res@
                == StepModel::ListProjects { chat_id, message_id: None } && final(bot)@ == old(
                bot,
            )@
            &&& labels::is_command(asked, "sessions"@) || asked == "对话"@ ==> res@
                == StepModel::ListSessions { chat_id, message_id: None } && final(bot)@ == old(
                bot,
            )@
            &&& labels::is_command(asked, "status"@) || asked == "状态"@ ==> res@
                == StepModel::ShowStatus { chat_id, message_id: None } && final(bot)@ == old(bot)@
        }),
{
    labels::lemma_asked(text::trim(said@));
}

/// A message that is blank does nothing, and a command that is not known is answered as such.
pub proof fn law_blank_and_unknown_messages_do_nothing(
    bot: &mut BotState,
    from: Option<i64>,
    chat_id: i64,
    message_id: i64,
    said: &str,
    task_finished: bool,
    res: BotStep,
    name: Seq<char>,
)
    requires
        call_ensures(
            BotState::on_message,
            (bot, from, chat_id, message_id, Some(said), task_finished),
            res,
        ),
        from == Some(old(bot)@.allowed_user_id),
        name.len() > 0,
        forall|i: int|
            0 <= i < name.len() ==> !text::is_space(#[trigger] name[i]) && name[i] != '@',
        name != "start"@,
        name != "new"@,
        name != "projects"@,
        name != "sessions"@,
        name != "status"@,
    ensures
        text::is_blank(said@) ==> res@ == StepModel::Nothing && final(bot)@ == old(bot)@,
        labels::is_command(text::trim(said@), name) ==> res@ == (StepModel::Say {
            chat_id,
            text: "暂不支持这个命令。可用 /start 打开菜单。"@,
        }) && final(bot)@ == old(bot)@,
{
    text::lemma_trim_blank(said@);
    labels::lemma_asked(text::trim(said@));
    reveal_strlit("菜单");
    reveal_strlit("新对话");
    reveal_strlit("项目");
    reveal_strlit("对话");
    reveal_strlit("状态");
    reveal_strlit("停止");
    assert("菜单"@.len() == 2);
    assert("新对话"@.len() == 3);
    assert("项目"@.len() == 2);
    assert("对话"@.len() == 2);
    assert("状态"@.len() == 2);
    assert("停止"@.len() == 2);
    assert("菜单"@[0] == '菜');
    assert("项目"@[0] == '项');
    assert("对话"@[0] == '对');
    assert("状态"@[0] == '状');
    assert("停止"@[0] == '停');
    if labels::is_command(text::trim(said@), name) {
        labels::lemma_command(text::trim(said@), name);
    }
}

/// A prompt goes to the turn that runs, as more input for that turn of that thread, and changes
/// nothing.
pub proof fn law_prompt_goes_to_the_running_turn(
    bot: &mut BotState,
    from: Option<i64>,
    chat_id: i64,
    message_id: i64,
    said: &str,
    task_finished: bool,
    res: BotStep,
)
    requires
        call_ensures(
            BotState::on_message,
            (bot, from, chat_id, message_id, Some(said), task_finished),
            res,
        ),
        from == Some(old(bot)@.allowed_user_id),
        is_prompt(text::trim(said@)),
        still_runs(old(bot)@, task_finished),
    ensures
        final(bot)@ == old(bot)@,
        res@ matches StepModel::Steer { chat_id: to, thread_id, turn_id, prompt, said: answer } && {
            &&& to == chat_id
            &&& thread_id == old(bot)@.active->0.thread_id
            &&& turn_id == old(bot)@.active->0.turn_id
            &&& prompt == text::trim(said@)
            &&& answer == "已追加到当前运行。"@
        },
{
    labels::lemma_asked(text::trim(said@));
}

/// A prompt while no turn runs asks for one in the thread and the project that the bot is in; the
/// thread is loaded again exactly where it is named and not loaded, and a chat without a thread
/// and a project is announced.
pub proof fn law_prompt_asks_for_a_turn_where_the_bot_is(
    bot: &mut BotState,
    from: Option<i64>,
    chat_id: i64,
    message_id: i64,
    said: &str,
    task_finished: bool,
    res: BotStep,
)
    requires
        call_ensures(
            BotState::on_message,
            (bot, from, chat_id, message_id, Some(said), task_finished),
            res,
        ),
        from == Some(old(bot)@.allowed_user_id),
        is_prompt(text::trim(said@)),
        !still_runs(old(bot)@, task_finished),
    ensures
        final(bot)@.active is None,
        final(bot)@.thread == old(bot)@.thread,
        final(bot)@.project == old(bot)@.project,
        final(bot)@.loaded == old(bot)@.loaded,
        final(bot)@.prompts == old(bot)@.prompts,
        final(bot)@.targets == old(bot)@.targets,
        final(bot)@.project_dirs == old(bot)@.project_dirs,
        final(bot)@.allowed_user_id == old(bot)@.allowed_user_id,
        res@ matches StepModel::Ask {
            chat_id: to,
            message_id: message,
            prompt,
            notice,
            said: answer,
            thread_id,
            project_dir,
            resume,
        } && {
            &&& to == chat_id
            &&& message == message_id
            &&& prompt == text::trim(said@)
            &&& answer == "正在处理..."@
            &&& thread_id == old(bot)@.thread
            &&& project_dir == old(bot)@.project
            &&& notice is Some <==> old(bot)@.thread is None && old(bot)@.project is None
            &&& resume <==> (old(bot)@.thread matches Some(thread) && !text::is_blank(thread)
                && !old(bot)@.loaded.contains(text::trim(thread)))
        },
{
    labels::lemma_asked(text::trim(said@));
    if let Some(thread) = old(bot)@.thread {
        text::lemma_trim_blank(thread);
    }
}

/// A wish to stop interrupts the turn that runs for the chat, once; where that turn cannot be
/// interrupted it is forgotten, and where none runs for the chat there is nothing to stop.
pub proof fn law_stop_interrupts_the_turn_of_the_chat(
    bot: &mut BotState,
    from: Option<i64>,
    chat_id: i64,
    message_id: i64,
    said: &str,
    task_finished: bool,
    res: BotStep,
)
    requires
        call_ensures(
            BotState::on_message,
            (bot, from, chat_id, message_id, Some(said), task_finished),
            res,
        ),
        from == Some(old(bot)@.allowed_user_id),
        text::trim(said@) == "停止"@,
    ensures
        ({
            let before = old(bot)@;
            let after = final(bot)@;
            let mine = still_runs(before, task_finished) && before.active->0.chat_id == chat_id;
            &&& mine && before.interrupt_ready ==> res@ == StepModel::Interrupt { chat_id }
                && !after.interrupt_ready && after.active == before.active
            &&& mine && !before.interrupt_ready ==> after.active is None
            &&& !(mine && before.interrupt_ready) ==> res@ == (StepModel::Say {
                chat_id,
                text: "当前没有可停止的任务。"@,
            })
            &&& !mine && still_runs(before, task_finished) ==> after == before
            &&& !still_runs(before, task_finished) ==> after.active is None
            &&& after.thread == before.thread
            &&& after.project == before.project
            &&& after.loaded == before.loaded
            &&& after.prompts == before.prompts
        }),
{
    labels::lemma_asked(text::trim(said@));
}

/// A message of anyone but the allowed user is answered that they may not, an edited one and a
/// button not at all, and none of them changes anything.
pub proof fn law_stranger_gets_nothing(
    bot: &mut BotState,
    from: Option<i64>,
    chat_id: i64,
    message_id: i64,
    sent: Option<&str>,
    task_finished: bool,
    res: BotStep,
)
    requires
        call_ensures(
            BotState::on_message,
            (bot, from, chat_id, message_id, sent, task_finished),
            res,
        ),
        from != Some(old(bot)@.allowed_user_id),
    ensures
        final(bot)@ == old(bot)@,
        res@ == (StepModel::Say { chat_id, text: "没有权限使用这个 bot。"@ }),
{
}

/// A message that a stranger edits does nothing.
pub proof fn law_stranger_edits_nothing(
    bot: &mut BotState,
    from: Option<i64>,
    chat_id: i64,
    message_id: i64,
    sent: Option<&str>,
    task_finished: bool,
    res: BotStep,
)
    requires
        call_ensures(
            BotState::on_edited_message,
            (bot, from, chat_id, message_id, sent, task_finished),
            res,
        ),
        from != Some(old(bot)@.allowed_user_id),
    ensures
        final(bot)@ == old(bot)@,
        res@ == StepModel::Nothing,
{
}

/// A button that a stranger presses, or one without a message, does nothing.
pub proof fn law_stranger_presses_nothing(
    bot: &mut BotState,
    from: i64,
    message: Option<(i64, i64)>,
    data: Option<&str>,
    task_finished: bool,
    res: BotStep,
)
    requires
        call_ensures(BotState::on_callback, (bot, from, message, data, task_finished), res),
        from != old(bot)@.allowed_user_id || message is None,
    ensures
        final(bot)@ == old(bot)@,
        res@ == StepModel::Nothing,
{
}

/// A prompt that is edited is asked again in the thread and the project that it went to, which the
/// bot then is in; not while a turn runs, and not where it is not known where the prompt went.
pub proof fn law_edited_prompt_is_asked_where_it_went(
    bot: &mut BotState,
    from: Option<i64>,
    chat_id: i64,
    message_id: i64,
    said: &str,
    task_finished: bool,
    res: BotStep,
)
    requires
        call_ensures(
            BotState::on_edited_message,
            (bot, from, chat_id, message_id, Some(said), task_finished),
            res,
        ),
        from == Some(old(bot)@.allowed_user_id),
        is_prompt(text::trim(said@)),
    ensures
        ({
            let before = old(bot)@;
            let after = final(bot)@;
            let key = (chat_id, message_id);
            if !before.prompts.contains_key(key) {
                &&& after == before
                &&& res@ == (StepModel::Say {
                    chat_id,
                    text: "这条消息没有可回退的 Codex 记录，请直接发送新消息继续。"@,
                })
            } else if before.active is Some {
                &&& after == before
                &&& res@ == (StepModel::Say {
                    chat_id,
                    text: "Codex 正在处理当前任务，请等待完成或点击停止。"@,
                })
            } else {
                let target = before.prompts[key];
                &&& after.thread == Some(target.thread_id)
                &&& after.project == target.project_dir
                &&& after.loaded == before.loaded
                &&& after.prompts == before.prompts
                &&& res@ matches StepModel::Ask {
                    chat_id: to,
                    message_id: message,
                    prompt,
                    notice,
                    said: _,
                    thread_id,
                    project_dir,
                    resume,
                }
                &&& to == chat_id
                &&& message == message_id
                &&& prompt == text::trim(said@)
                &&& notice is None
                &&& thread_id == Some(target.thread_id)
                &&& project_dir == target.project_dir
                &&& resume <==> !text::is_blank(target.thread_id) && !before.loaded.contains(
                    text::trim(target.thread_id),
                )
            }
        }),
{
    labels::lemma_asked(text::trim(said@));
    if old(bot)@.prompts.contains_key((chat_id, message_id)) {
        text::lemma_trim_blank(old(bot)@.prompts[(chat_id, message_id)].thread_id);
    }
}

/// An edited message that is blank, a word of the menu or a command that is known does nothing.
pub proof fn law_edited_command_does_nothing(
    bot: &mut BotState,
    from: Option<i64>,
    chat_id: i64,
    message_id: i64,
    said: &str,
    task_finished: bool,
    res: BotStep,
)
    requires
        call_ensures(
            BotState::on_edited_message,
            (bot, from, chat_id, message_id, Some(said), task_finished),
            res,
        ),
        ({
            let trimmed = text::trim(said@);
            ||| text::is_blank(said@)
            ||| labels::is_command(trimmed, "start"@)
            ||| labels::is_command(trimmed, "new"@)
            ||| labels::is_command(trimmed, "projects"@)
            ||| labels::is_command(trimmed, "sessions"@)
            ||| labels::is_command(trimmed, "status"@)
            ||| trimmed == "菜单"@
            ||| trimmed == "新对话"@
            ||| trimmed == "项目"@
            ||| trimmed == "对话"@
            ||| trimmed == "状态"@
            ||| trimmed == "停止"@
        }),
    ensures
        final(bot)@ == old(bot)@,
        res@ == StepModel::Nothing,
{
    text::lemma_trim_blank(said@);
    labels::lemma_asked(text::trim(said@));
}

/// The buttons of the menus do what they say, in the chat and in the message that they are in, and
/// change nothing.
pub proof fn law_menu_buttons_do_what_they_say(
    bot: &mut BotState,
    from: i64,
    chat_id: i64,
    message_id: i64,
    data: &str,
    task_finished: bool,
    res: BotStep,
    thread: Option<&str>,
    project: Option<&str>,
    menu: MenuView,
)
    requires
        call_ensures(
            BotState::on_callback,
            (bot, from, Some((chat_id, message_id)), Some(data), task_finished),
            res,
        ),
        from == old(bot)@.allowed_user_id,
        text::opt_str(thread) == old(bot)@.thread,
        text::opt_str(project) == old(bot)@.project,
        call_ensures(menus::menu_view, (thread, project), menu),
    ensures
        data@ == "new"@ ==> res@ == (StepModel::StartThread { chat_id, project_dir: None })
            && final(bot)@ == old(bot)@,
        data@ == "projects"@ ==> res@ == (StepModel::ListProjects {
            chat_id,
            message_id: Some(message_id),
        }) && final(bot)@ == old(bot)@,
        data@ == "sessions"@ ==> res@ == (StepModel::ListSessions {
            chat_id,
            message_id: Some(message_id),
        }) && final(bot)@ == old(bot)@,
        data@ == "status"@ ==> res@ == (StepModel::ShowStatus {
            chat_id,
            message_id: Some(message_id),
        }) && final(bot)@ == old(bot)@,
        data@ == "menu"@ ==> res@ == (StepModel::EditMenu { chat_id, message_id, view: menu@ })
            && final(bot)@ == old(bot)@,
{
    reveal_strlit("new");
    reveal_strlit("projects");
    reveal_strlit("sessions");
    reveal_strlit("status");
    reveal_strlit("menu");
    reveal_strlit("stop");
    assert("new"@.len() == 3);
    assert("projects"@.len() == 8);
    assert("sessions"@.len() == 8);
    assert("status"@.len() == 6);
    assert("menu"@.len() == 4);
    assert("stop"@.len() == 4);
    assert("projects"@[0] == 'p');
    assert("sessions"@[0] == 's');
    assert("menu"@[0] == 'm');
    assert("stop"@[0] == 's');
}

/// The button for stopping does what the message for it does.
pub proof fn law_stop_button_is_the_stop_message(
    bot: &mut BotState,
    again: &mut BotState,
    from: i64,
    chat_id: i64,
    message_id: i64,
    data: &str,
    said: &str,
    task_finished: bool,
    by_button: BotStep,
    by_message: BotStep,
)
    requires
        call_ensures(
            BotState::on_callback,
            (bot, from, Some((chat_id, message_id)), Some(data), task_finished),
            by_button,
        ),
        call_ensures(
            BotState::on_message,
            (again, Some(from), chat_id, message_id, Some(said), task_finished),
            by_message,
        ),
        old(bot)@ == old(again)@,
        from == old(bot)@.allowed_user_id,
        data@ == "stop"@,
        text::trim(said@) == "停止"@,
    ensures
        final(bot)@ == final(again)@,
        by_button@ == by_message@,
{
    lemma_stop_is_stop();
    labels::lemma_asked(text::trim(said@));
}

/// The button for the history of a thread in the last list shows the history of that thread, and
/// the bot stays where it is.
pub proof fn law_history_button_shows_it(
    bot: &mut BotState,
    chat_id: i64,
    message_id: i64,
    data: &str,
    place: int,
    task_finished: bool,
    res: BotStep,
)
    requires
        call_ensures(
            BotState::on_callback,
            (
                bot,
                old(bot)@.allowed_user_id,
                Some((chat_id, message_id)),
                Some(data),
                task_finished,
            ),
            res,
        ),
        0 <= place < old(bot)@.targets.len(),
        data@ == "history:"@ + text::decimal((place + 1) as nat),
    ensures
        res@ == (StepModel::ShowHistory {
            chat_id,
            thread_id: old(bot)@.targets[place].thread_id,
        }),
        final(bot)@ == old(bot)@,
{
    let t = menus::token(place);
    reveal_strlit("history:");
    reveal_strlit("new");
    reveal_strlit("projects");
    reveal_strlit("sessions");
    reveal_strlit("status");
    reveal_strlit("menu");
    reveal_strlit("stop");
    assert("history:"@.len() == 8);
    assert("new"@.len() == 3);
    assert("projects"@.len() == 8);
    assert("sessions"@.len() == 8);
    assert("status"@.len() == 6);
    assert("menu"@.len() == 4);
    assert("stop"@.len() == 4);
    assert("history:"@[0] == 'h');
    assert("projects"@[0] == 'p');
    assert("sessions"@[0] == 's');
    assert("menu"@[0] == 'm');
    assert("stop"@[0] == 's');
    assert("history:"@[0] == 'h');
    assert("new"@[0] == 'n');
    assert("projects"@[0] == 'p');
    assert("sessions"@[0] == 's');
    assert("status"@[0] == 's');
    assert("menu"@[0] == 'm');
    assert("stop"@[0] == 's');
    assert(data@[0] == 'h');
    lemma_token_digit(place);
    if text::has_prefix(t, "history:"@) {
        assert(t.take(8)[0] == 'h');
    }
    lemma_stripped("history:"@, t);
    menus::law_token_finds_its_place(place, old(bot)@.targets.len());
}

/// The button of a thread in the last list chooses that thread: it is shown, and the bot is in it
/// and in its project from then on.
pub proof fn law_thread_button_enters_the_thread(
    bot: &mut BotState,
    chat_id: i64,
    message_id: i64,
    data: &str,
    place: int,
    task_finished: bool,
    res: BotStep,
)
    requires
        call_ensures(
            BotState::on_callback,
            (
                bot,
                old(bot)@.allowed_user_id,
                Some((chat_id, message_id)),
                Some(data),
                task_finished,
            ),
            res,
        ),
        0 <= place < old(bot)@.targets.len(),
        data@ == "thread:"@ + text::decimal((place + 1) as nat),
    ensures
        res@ == (StepModel::ShowSelected { chat_id, target: old(bot)@.targets[place] }),
        final(bot)@.thread == Some(old(bot)@.targets[place].thread_id),
        final(bot)@.project == old(bot)@.targets[place].project_dir,
        final(bot)@.active == old(bot)@.active,
        final(bot)@.loaded == old(bot)@.loaded,
        final(bot)@.targets == old(bot)@.targets,
        final(bot)@.project_dirs == old(bot)@.project_dirs,
{
    law_thread_button_chooses_it(old(bot)@, chat_id, message_id, place, task_finished);
}

/// The buttons of a project in the last list open that project, and start a thread in it.
pub proof fn law_project_buttons_are_of_the_project(
    bot: &mut BotState,
    chat_id: i64,
    message_id: i64,
    data: &str,
    place: int,
    task_finished: bool,
    res: BotStep,
)
    requires
        call_ensures(
            BotState::on_callback,
            (
                bot,
                old(bot)@.allowed_user_id,
                Some((chat_id, message_id)),
                Some(data),
                task_finished,
            ),
            res,
        ),
        0 <= place < old(bot)@.project_dirs.len(),
    ensures
        data@ == "project:"@ + text::decimal((place + 1) as nat) ==> res@
            == (StepModel::ListProject {
            chat_id,
            message_id,
            project_dir: old(bot)@.project_dirs[place],
        }) && final(bot)@ == old(bot)@,
        data@ == "project_new:"@ + text::decimal((place + 1) as nat) ==> res@
            == (StepModel::StartThread {
            chat_id,
            project_dir: Some(old(bot)@.project_dirs[place]),
        }) && final(bot)@ == old(bot)@,
{
    law_project_button_opens_it(old(bot)@, chat_id, message_id, place, task_finished);
}

/// A thread has to be loaded again exactly where it is named and is not in the list of those that
/// are loaded.
pub proof fn law_only_unloaded_threads_are_resumed(
    thread_id: Option<&str>,
    loaded: &Vec<String>,
    res: bool,
)
    requires
        call_ensures(should_resume_thread, (thread_id, loaded), res),
    ensures
        res <==> (thread_id matches Some(thread) && !text::is_blank(thread@) && forall|i: int|
            0 <= i < loaded@.len() ==> (#[trigger] loaded@[i])@ != text::trim(thread@)),
{
    if let Some(thread) = thread_id {
        text::lemma_trim_blank(thread@);
        let wanted = text::trim(thread@);
        let all = text::texts(loaded@);
        assert(forall|i: int| 0 <= i < loaded@.len() ==> all[i] == (#[trigger] loaded@[i])@);
        if all.to_set().contains(wanted) {
            let k = choose|k: int| 0 <= k < all.len() && all[k] == wanted;
            assert(loaded@[k]@ == wanted);
        } else if exists|i: int| 0 <= i < loaded@.len() && (#[trigger] loaded@[i])@ == wanted {
            let k = choose|i: int| 0 <= i < loaded@.len() && (#[trigger] loaded@[i])@ == wanted;
            assert(all[k] == wanted);
            assert(all.to_set().contains(wanted));
        }
    }
}

/// A bot that is new is for its user alone, and is nowhere.
pub proof fn law_new_bot_is_nowhere(allowed_user_id: i64, res: BotState)
    requires
        call_ensures(BotState::new, (allowed_user_id,), res),
    ensures
        res@.allowed_user_id == allowed_user_id,
        res@.thread is None,
        res@.project is None,
        res@.active is None,
        !res@.interrupt_ready,
        !res@.task_started,
        forall|thread: Seq<char>| !res@.loaded.contains(thread),
        forall|key: (i64, i64)| !res@.prompts.contains_key(key),
        res@.targets.len() == 0,
        res@.project_dirs.len() == 0,
{
}

/// A turn is forgotten exactly where a task was started for it and has finished; nothing else is.
pub proof fn law_finished_task_is_forgotten(bot: &mut BotState, task_finished: bool)
    requires
        call_ensures(BotState::clear_finished_task, (bot, task_finished), ()),
    ensures
        old(bot)@.task_started && task_finished ==> final(bot)@.active is None
            && !final(bot)@.task_started && !final(bot)@.interrupt_ready,
        !(old(bot)@.task_started && task_finished) ==> final(bot)@ == old(bot)@,
        final(bot)@.thread == old(bot)@.thread,
        final(bot)@.project == old(bot)@.project,
        final(bot)@.loaded == old(bot)@.loaded,
        final(bot)@.prompts == old(bot)@.prompts,
{
}

/// Once a thread was started the bot is in it and in the project it was started for, and knows it
/// as loaded; what is said names the project, where there is one.
pub proof fn law_bot_is_in_the_thread_it_started(
    bot: &mut BotState,
    thread_id: &str,
    project_dir: Option<String>,
    dir: &str,
    name: String,
    res: String,
)
    requires
        call_ensures(BotState::thread_started, (bot, thread_id, project_dir), res),
        project_dir matches Some(project) ==> dir@ == project@,
        call_ensures(labels::project_label, (dir,), name),
    ensures
        final(bot)@.thread == Some(thread_id@),
        final(bot)@.project == text::opt_text(project_dir),
        forall|thread: Seq<char>|
            final(bot)@.loaded.contains(thread) <==> thread == thread_id@ || old(
                bot,
            )@.loaded.contains(thread),
        final(bot)@.active == old(bot)@.active,
        final(bot)@.prompts == old(bot)@.prompts,
        res@ == match project_dir {
            Some(_) => "已切换到项目新对话："@ + name@ + "。直接发送消息即可开始。"@,
            None => "已切换到独立新对话。直接发送消息即可开始。"@,
        },
{
}

/// A task that was begun can be interrupted.
pub proof fn law_begun_task_can_be_interrupted(bot: &mut BotState)
    requires
        call_ensures(BotState::task_begun, (bot,), ()),
    ensures
        final(bot)@.task_started,
        final(bot)@.interrupt_ready,
        final(bot)@.active == old(bot)@.active,
        final(bot)@.thread == old(bot)@.thread,
        final(bot)@.project == old(bot)@.project,
        final(bot)@.loaded == old(bot)@.loaded,
        final(bot)@.prompts == old(bot)@.prompts,
{
}

/// Once a turn has begun it runs for its chat, its thread is the one that the bot is in and is
/// loaded, and its prompt is known to have gone to that thread and its project; where other
/// prompts went stays known.
pub proof fn law_begun_turn_is_remembered(
    bot: &mut BotState,
    chat_id: i64,
    message_id: i64,
    project_dir: Option<String>,
    handle: &AppServerTurnHandle,
)
    requires
        call_ensures(
            BotState::turn_begun,
            (bot, chat_id, message_id, project_dir, handle),
            (),
        ),
    ensures
        ({
            let before = old(bot)@;
            let after = final(bot)@;
            let key = (chat_id, message_id);
            &&& after.thread == Some(handle.thread_id@)
            &&& after.project == before.project
            &&& after.active is Some
            &&& after.active->0.chat_id == chat_id
            &&& after.active->0.thread_id == handle.thread_id@
            &&& after.active->0.turn_id == handle.turn_id@
            &&& after.loaded.contains(handle.thread_id@)
            &&& forall|thread: Seq<char>|
                #[trigger] before.loaded.contains(thread) ==> after.loaded.contains(thread)
            &&& after.prompts.contains_key(key)
            &&& after.prompts[key].thread_id == handle.thread_id@
            &&& after.prompts[key].project_dir == text::opt_text(project_dir)
            &&& forall|other: (i64, i64)|
                other != key && #[trigger] before.prompts.contains_key(other)
                    ==> after.prompts.contains_key(other) && after.prompts[other]
                    == before.prompts[other]
        }),
{
}

/// A turn that was stopped, or that was gone before, is forgotten; where stopping failed it is not.
/// What is said tells how it turned out.
pub proof fn law_stopped_turn_is_forgotten(bot: &mut BotState, outcome: &StopOutcome, res: String)
    requires
        call_ensures(BotState::finish_stop, (bot, outcome), res),
    ensures
        match *outcome {
            StopOutcome::NotDelivered => final(bot)@.active is None && res@
                == "当前没有可停止的任务。"@,
            StopOutcome::Stopped => final(bot)@.active is None && res@ == "已停止当前生成。"@,
            StopOutcome::Failed(error) => final(bot)@ == old(bot)@ && res@ == "停止失败："@
                + error@,
            StopOutcome::TaskGone => final(bot)@ == old(bot)@ && res@
                == "停止失败：生成任务已结束。"@,
            StopOutcome::TimedOut => final(bot)@ == old(bot)@ && res@
                == "停止失败：等待 app-server 确认超时。"@,
        },
        final(bot)@.thread == old(bot)@.thread,
        final(bot)@.project == old(bot)@.project,
        final(bot)@.prompts == old(bot)@.prompts,
{
}

/// After a list of projects every button of it stands for the project in its row, and the buttons
/// of threads that were listed before stand for nothing any more.
pub proof fn law_listed_projects_are_remembered(
    bot: &mut BotState,
    ids: &mut RequestIds,
    threads: &Vec<AppServerThread>,
    res: MenuView,
)
    requires
        call_ensures(BotState::projects_listed, (bot, ids, threads), res),
    ensures
        final(bot)@.targets.len() == 0,
        final(bot)@.thread == old(bot)@.thread,
        final(bot)@.project == old(bot)@.project,
        exists|groups: Seq<projects::GroupModel>|
            {
                &&& #[trigger] menus::projects_menu(groups) == res@
                &&& final(bot)@.project_dirs.len() == groups.len()
                &&& forall|i: int|
                    0 <= i < groups.len() ==> final(bot)@.project_dirs[i] == (
                    #[trigger] groups[i]).cwd
            },
{
    let (groups, cwds) = choose|
        groups: Seq<projects::GroupModel>,
        cwds: Seq<Option<Seq<char>>>,
    |
        {
            &&& projects::may_group_all(replies::thread_views(threads@), cwds, old(ids)@)
            &&& #[trigger] projects::are_groups(
                groups,
                replies::thread_views(threads@),
                cwds,
                threads@.len(),
            )
            &&& projects::in_order(groups)
            &&& res@ == menus::projects_menu(groups)
            &&& final(bot)@ == (BotModel {
                project_dirs: group_dirs(groups),
                targets: seq![],
                ..old(bot)@
            })
        };
    assert(menus::projects_menu(groups) == res@);
}

/// After a list of the threads of a project its buttons stand for these threads, in their order
/// and each with the directory it works in, which is that project.
pub proof fn law_listed_project_is_remembered(
    bot: &mut BotState,
    threads: &Vec<AppServerThread>,
    project_dir: &str,
    kept: Vec<AppServerThread>,
    res: MenuView,
)
    requires
        call_ensures(BotState::project_listed, (bot, threads, project_dir), res),
        call_ensures(menus::project_threads, (threads, project_dir), kept),
    ensures
        final(bot)@.targets.len() == kept@.len(),
        forall|i: int|
            0 <= i < kept@.len() ==> final(bot)@.targets[i] == (TargetModel {
                thread_id: (#[trigger] kept@[i])@.id,
                project_dir: kept@[i]@.cwd,
            }),
        final(bot)@.thread == old(bot)@.thread,
        final(bot)@.project == old(bot)@.project,
        final(bot)@.project_dirs == old(bot)@.project_dirs,
{
    let views = replies::thread_views(kept@);
    assert(forall|i: int| 0 <= i < kept@.len() ==> views[i] == (#[trigger] kept@[i])@);
}

/// After a list of standalone chats its buttons stand for these chats, in their order and without
/// a project.
pub proof fn law_listed_chats_are_remembered(
    bot: &mut BotState,
    ids: &mut RequestIds,
    threads: &Vec<AppServerThread>,
    res: MenuView,
)
    requires
        call_ensures(BotState::sessions_listed, (bot, ids, threads), res),
    ensures
        final(bot)@.thread == old(bot)@.thread,
        final(bot)@.project == old(bot)@.project,
        final(bot)@.project_dirs == old(bot)@.project_dirs,
        exists|kept: Seq<replies::ThreadModel>|
            {
                &&& #[trigger] menus::sessions_menu(kept) == res@
                &&& final(bot)@.targets.len() == kept.len()
                &&& forall|i: int|
                    0 <= i < kept.len() ==> final(bot)@.targets[i] == (TargetModel {
                        thread_id: (#[trigger] kept[i]).id,
                        project_dir: None,
                    })
            },
{
    let kept = choose|kept: Seq<replies::ThreadModel>|
        {
            &&& #[trigger] menus::may_be_standalone_threads(
                replies::thread_views(threads@),
                kept,
                old(ids)@,
            )
            &&& res@ == menus::sessions_menu(kept)
            &&& final(bot)@ == (BotModel { targets: targets_of(kept, false), ..old(bot)@ })
        };
    assert(menus::sessions_menu(kept) == res@);
}

/// All of the output of a turn that was completed is delivered, one message after another; of one
/// that was not nothing is, and an error is told as such.
pub proof fn law_whole_output_is_delivered(
    result: Result<AppServerTurnResult, String>,
    res: Delivery,
)
    requires
        call_ensures(turn_delivery, (result,), res),
    ensures
        match result {
            Ok(turn) => if turn.completed {
                &&& res matches Delivery::Output(parts)
                &&& parts@.len() > 0
                &&& labels::joined_parts(text::texts(parts@)) == if text::is_blank(turn.output@) {
                    "Codex 已完成，但没有返回文本。"@
                } else {
                    turn.output@
                }
            } else {
                res is Nothing
            },
            Err(error) => res matches Delivery::Failure(said) && said@ == "Codex 调用失败："@
                + error@,
        },
{
    if let Ok(turn) = result {
        text::lemma_trim_blank(turn.output@);
        labels::law_messages_make_up_the_text(shown_output(turn.output@));
    }
}

/// What is said of a thread that was chosen names the thread and its project, and shows its
/// history, or why that cannot be read.
pub proof fn law_chosen_thread_is_named(
    target: &ThreadTarget,
    history: Result<String, String>,
    dir: &str,
    name: String,
    res: String,
)
    requires
        call_ensures(thread_selected_text, (target, history), res),
        target@.project_dir matches Some(project) ==> dir@ == project,
        call_ensures(labels::project_label, (dir,), name),
    ensures
        res@ == "已切换到对话："@ + target@.thread_id + "\n项目："@ + (
        if target@.project_dir is Some {
            name@
        } else {
            "独立对话"@
        }) + "\n\n"@ + (match history {
            Ok(history) => history@,
            Err(error) => "历史记录读取失败："@ + error@,
        }),
{
}

/// The bot tells the thread and the project that it is in.
pub proof fn law_bot_tells_where_it_is<'a>(
    bot: &'a BotState,
    thread: Option<&'a str>,
    project: Option<&'a str>,
)
    requires
        call_ensures(BotState::current_thread, (bot,), thread),
        call_ensures(BotState::current_project, (bot,), project),
    ensures
        text::opt_str(thread) == bot@.thread,
        text::opt_str(project) == bot@.project,
{
}

} // verus!
