//! The settings of the Telegram bot, and the state of its service.
use vstd::prelude::*;

use crate::app_server::replies;
use crate::codex_provider;
use crate::config;
use crate::config::{AppConfig, ConfigModel};
use crate::text;
use crate::workdir;
use crate::workdir::{HostPath, PathModel};

verus! {

/// The settings as they are shown.
#[derive(Debug, Clone, PartialEq, Eq)]
pub struct BotSettingsView {
    pub telegram_bot_token_masked: String,
    pub has_telegram_bot_token: bool,
    pub telegram_allowed_user_id: String,
    pub codex_path: String,
    pub env_path: String,
}

/// What a `BotSettingsView` says.
#[verifier::ext_equal]
pub struct ShownSettings {
    pub telegram_bot_token_masked: Seq<char>,
    pub has_telegram_bot_token: bool,
    pub telegram_allowed_user_id: Seq<char>,
    pub codex_path: Seq<char>,
    pub env_path: Seq<char>,
}

impl View for BotSettingsView {
    type V = ShownSettings;

    open spec fn view(&self) -> ShownSettings {
        ShownSettings {
            telegram_bot_token_masked: self.telegram_bot_token_masked@,
            has_telegram_bot_token: self.has_telegram_bot_token,
            telegram_allowed_user_id: self.telegram_allowed_user_id@,
            codex_path: self.codex_path@,
            env_path: self.env_path@,
        }
    }
}

/// New settings. A token that is missing or blank leaves the old one.
#[derive(Debug, Clone, PartialEq, Eq)]
pub struct BotSettingsInput {
    pub telegram_bot_token: Option<String>,
    pub telegram_allowed_user_id: String,
    pub codex_path: String,
}

/// The state of the bot's service.
#[derive(Debug, Clone, PartialEq, Eq)]
pub struct BotServiceStatus {
    pub configured: bool,
    pub running: bool,
    pub detail: String,
}

/// The path of the file that holds the settings: `config.json`, which holds the providers too.
pub fn default_env_path() -> (res: Result<HostPath, String>)
    ensures
        exists|home: Option<PathModel>|
            workdir::result_path(res) == #[trigger] config::config_path(home),
{
    config::default_config_path()
}

/// What is shown of the settings in a configuration that is kept at `path`.
pub open spec fn shown_settings(config: ConfigModel, path: Seq<char>) -> ShownSettings {
    ShownSettings {
        telegram_bot_token_masked: codex_provider::masked(config.telegram_bot_token),
        has_telegram_bot_token: text::trim(config.telegram_bot_token).len() > 0,
        telegram_allowed_user_id: config.telegram_allowed_user_id,
        codex_path: config.codex_path,
        env_path: path,
    }
}

/// What is shown of the settings in a configuration that is kept at `path`.
pub fn read_settings(config: &AppConfig, path: &HostPath) -> (res: BotSettingsView)
    ensures
        res@ == shown_settings(config@, path@.text),
{
    BotSettingsView {
        telegram_bot_token_masked: codex_provider::mask_secret(config.telegram_bot_token.as_str()),
        has_telegram_bot_token: !text::trimmed(config.telegram_bot_token.as_str()).is_empty(),
        telegram_allowed_user_id: config.telegram_allowed_user_id.clone(),
        codex_path: config.codex_path.clone(),
        env_path: path.text.clone(),
    }
}

/// A configuration with new settings. The providers are not touched.
pub open spec fn with_settings(
    config: ConfigModel,
    token: Option<Seq<char>>,
    user_id: Seq<char>,
    codex_path: Seq<char>,
) -> ConfigModel {
    ConfigModel {
        telegram_bot_token: match replies::trimmed_text(token) {
            Some(token) => token,
            None => config.telegram_bot_token,
        },
        telegram_allowed_user_id: text::trim(user_id),
        codex_path: text::trim(codex_path),
        ..config
    }
}

/// Puts new settings into a configuration that is kept at `path`.
pub fn save_settings(config: &mut AppConfig, input: BotSettingsInput, path: &HostPath) -> (res:
    BotSettingsView)
    ensures
        final(config)@ == with_settings(
            old(config)@,
            text::opt_text(input.telegram_bot_token),
            input.telegram_allowed_user_id@,
            input.codex_path@,
        ),
        res@ == shown_settings(final(config)@, path@.text),
{
    let token = match &input.telegram_bot_token {
        Some(token) => Some(token.as_str()),
        None => None,
    };
    if let Some(token) = replies::trimmed_or_none(token) {
        config.telegram_bot_token = token.to_owned();
    }
    config.telegram_allowed_user_id =
    text::trimmed(input.telegram_allowed_user_id.as_str()).to_owned();
    config.codex_path = text::trimmed(input.codex_path.as_str()).to_owned();
    read_settings(config, path)
}

/// What asking launchd for the service gave.
#[derive(Debug, Clone, PartialEq, Eq)]
pub enum ServicePrint {
    /// The service is known; this is its description.
    Known(String),
    /// The service is not known; this is what was said of it.
    Unknown(String),
    /// Launchd could not be asked.
    Failed(String),
}

/// Whether the settings are complete enough to run the bot.
pub open spec fn settings_complete(settings: Option<ShownSettings>) -> bool {
    match settings {
        Some(settings) => settings.has_telegram_bot_token
            && settings.telegram_allowed_user_id.len() > 0,
        None => false,
    }
}

/// The state of the service: whether it is configured, whether it runs, and the detail.
pub open spec fn service_state(complete: bool, print: ServicePrint) -> (bool, bool, Seq<char>) {
    match print {
        ServicePrint::Known(description) => if !complete {
            (false, false, "缺少 Bot Token 或用户 ID，请前往设置配置"@)
        } else if text::has_part(description@, "state = running"@) {
            (true, true, "服务已配置并运行中"@)
        } else {
            (true, false, "服务已配置但未运行"@)
        },
        ServicePrint::Unknown(said) => (false, false, text::trim(said@)),
        ServicePrint::Failed(error) => (false, false, "无法读取 launchd 状态："@ + error@),
    }
}

/// The state of the service, given the settings, where they can be read, and what asking
/// launchd gave.
pub fn service_status(settings: Option<&BotSettingsView>, print: &ServicePrint) -> (res:
    BotServiceStatus)
    ensures
        (res.configured, res.running, res.detail@) == service_state(
            settings_complete(
                match settings {
                    Some(settings) => Some(settings@),
                    None => None,
                },
            ),
            *print,
        ),
{
    let complete = match settings {
        Some(settings) => settings.has_telegram_bot_token
            && !settings.telegram_allowed_user_id.as_str().is_empty(),
        None => false,
    };
    match print {
        ServicePrint::Known(description) => {
            let running = text::holds_part(description.as_str(), "state = running");
            if !complete {
                return BotServiceStatus {
                    configured: false,
                    running: false,
                    detail: "缺少 Bot Token 或用户 ID，请前往设置配置".to_owned(),
                };
            }
            let detail = if running {
                "服务已配置并运行中"
            } else {
                "服务已配置但未运行"
            };
            BotServiceStatus { configured: true, running, detail: detail.to_owned() }
        },
        ServicePrint::Unknown(said) => BotServiceStatus {
            configured: false,
            running: false,
            detail: text::trimmed(said.as_str()).to_owned(),
        },
        ServicePrint::Failed(error) => BotServiceStatus {
            configured: false,
            running: false,
            detail: text::cat("无法读取 launchd 状态：", error.as_str()),
        },
    }
}

/// What a command of launchd gave.
#[derive(Debug, Clone, PartialEq, Eq)]
pub enum CommandOutcome {
    Succeeded,
    /// The command failed; this is what it said.
    Refused(String),
    /// The command could not be run.
    NotRun(String),
}

/// The outcome of a command, with what is reported where it could not be run.
pub open spec fn command_result(outcome: CommandOutcome, not_run: Seq<char>) -> Option<Seq<char>> {
    match outcome {
        CommandOutcome::Succeeded => None,
        CommandOutcome::Refused(said) => Some(text::trim(said@)),
        CommandOutcome::NotRun(error) => Some(not_run + error@),
    }
}

/// The outcome of a command.
fn outcome_of(outcome: &CommandOutcome, not_run: &str) -> (res: Result<(), String>)
    ensures
        codex_provider::message_of(res) == command_result(*outcome, not_run@),
{
    match outcome {
        CommandOutcome::Succeeded => Ok(()),
        CommandOutcome::Refused(said) => Err(text::trimmed(said.as_str()).to_owned()),
        CommandOutcome::NotRun(error) => Err(text::cat(not_run, error.as_str())),
    }
}

/// The outcome of restarting the service.
pub fn restart_outcome(outcome: &CommandOutcome) -> (res: Result<(), String>)
    ensures
        codex_provider::message_of(res) == command_result(*outcome, "执行 launchctl 失败："@),
{
    outcome_of(outcome, "执行 launchctl 失败：")
}

/// The outcome of loading the service.
pub fn bootstrap_outcome(outcome: &CommandOutcome) -> (res: Result<(), String>)
    ensures
        codex_provider::message_of(res) == command_result(
            *outcome,
            "执行 launchctl bootstrap 失败："@,
        ),
{
    outcome_of(outcome, "执行 launchctl bootstrap 失败：")
}

/// The domain of a user in launchd.
pub open spec fn user_domain(uid: Seq<char>) -> Seq<char> {
    "gui/"@ + uid
}

/// The domain of a user in launchd.
pub fn service_domain(uid: &str) -> (res: String)
    ensures
        res@ == user_domain(uid@),
{
    text::cat("gui/", uid)
}

/// The name of the service in launchd.
pub fn service_target(uid: &str) -> (res: String)
    ensures
        res@ == user_domain(uid@) + "/com.local.telegram-codex-bot"@,
{
    text::cat(service_domain(uid).as_str(), "/com.local.telegram-codex-bot")
}

/// The file that describes the service to launchd.
pub open spec fn plist(home: Option<PathModel>) -> Result<PathModel, Seq<char>> {
    match home {
        Some(home) => Ok(
            workdir::host_join(
                home,
                "Library/LaunchAgents/com.local.telegram-codex-bot.plist"@,
            ),
        ),
        None => Err("无法定位 launchd plist"@),
    }
}

/// The file that describes the service, in the given home directory.
pub fn plist_in(home: Option<HostPath>) -> (res: Result<HostPath, String>)
    ensures
        workdir::result_path(res) == plist(workdir::opt_path(home)),
{
    match home {
        Some(home) => Ok(
            home.join("Library/LaunchAgents/com.local.telegram-codex-bot.plist"),
        ),
        None => Err("无法定位 launchd plist".to_owned()),
    }
}

/// The file that describes the service.
pub fn plist_path() -> (res: Result<HostPath, String>)
    ensures
        exists|home: Option<PathModel>| workdir::result_path(res) == #[trigger] plist(home),
{
    plist_in(workdir::home_dir())
}

/// What has to be done before the service can be restarted.
#[derive(Debug, Clone, PartialEq, Eq)]
pub enum LoadStep {
    /// Nothing: it is loaded.
    Loaded,
    /// It has to be loaded from this file.
    Bootstrap(HostPath),
    /// It cannot be loaded.
    Impossible(String),
}

/// Decides whether the service has to be loaded, given where its description is and whether
/// that file exists.
pub fn load_step(configured: bool, plist: Result<HostPath, String>, exists: bool) -> (res: LoadStep)
    ensures
        configured ==> res == LoadStep::Loaded,
        !configured ==> match plist {
            Ok(path) => if exists {
                res matches LoadStep::Bootstrap(from) && from@ == path@
            } else {
                res matches LoadStep::Impossible(message) && message@ == "launchd plist 不存在："@
                    + path@.text
            },
            Err(error) => res matches LoadStep::Impossible(message) && message@ == error@,
        },
{
    if configured {
        return LoadStep::Loaded;
    }
    match plist {
        Ok(path) => if exists {
            LoadStep::Bootstrap(path)
        } else {
            LoadStep::Impossible(text::cat("launchd plist 不存在：", path.text.as_str()))
        },
        Err(error) => LoadStep::Impossible(error),
    }
}

/// The first of some lines that is not blank, trimmed.
pub open spec fn first_filled(lines: Seq<Seq<char>>) -> Option<Seq<char>>
    decreases lines.len(),
{
    if lines.len() == 0 {
        None
    } else if text::trim(lines[0]).len() > 0 {
        Some(text::trim(lines[0]))
    } else {
        first_filled(lines.skip(1))
    }
}

/// The first line of a text that is not blank, trimmed.
pub fn first_non_empty_line(value: &str) -> (res: Option<String>)
    ensures
        text::opt_text(res) == first_filled(text::split(value@, '\n')),
{
    let lines = text::pieces(value, '\n');
    let ghost views = text::split(value@, '\n');
    let mut i: usize = 0;
    assert(views.skip(0) =~= views);
    while i < lines.len()
        invariant
            i <= lines@.len(),
            views == text::texts(lines@),
            views == text::split(value@, '\n'),
            first_filled(views) == first_filled(views.skip(i as int)),
        decreases lines.len() - i,
    {
        assert(views.skip(i as int)[0] == lines@[i as int]@);
        assert(views.skip(i as int).skip(1) =~= views.skip(i + 1));
        let line = text::trimmed(lines[i].as_str());
        if !line.is_empty() {
            return Some(line.to_owned());
        }
        i += 1;
    }
    None
}

/// The user id: of the environment, else what `id -u` told, else that of the first user.
pub open spec fn uid(env: Option<Seq<char>>, told: Option<Seq<char>>) -> Seq<char> {
    match env {
        Some(env) => env,
        None => match replies::trimmed_text(told) {
            Some(told) => told,
            None => "501"@,
        },
    }
}

/// The user id, given the environment and what `id -u` told.
pub fn current_uid(env: Option<&str>, told: Option<&str>) -> (res: String)
    ensures
        res@ == uid(text::opt_str(env), text::opt_str(told)),
{
    match env {
        Some(env) => env.to_owned(),
        None => match replies::trimmed_or_none(told) {
            Some(told) => told.to_owned(),
            None => "501".to_owned(),
        },
    }
}

// ---------------------------------------------------------------------------
// Laws
// ---------------------------------------------------------------------------

/// Saving settings keeps the providers and the one in use, and keeps the token where none is
/// given.
pub proof fn law_saving_settings_keeps_the_rest(
    config: ConfigModel,
    token: Option<Seq<char>>,
    user_id: Seq<char>,
    codex_path: Seq<char>,
)
    ensures
        ({
            let after = with_settings(config, token, user_id, codex_path);
            &&& after.providers == config.providers
            &&& after.active_provider_id == config.active_provider_id
            &&& replies::trimmed_text(token) is None ==> after.telegram_bot_token
                == config.telegram_bot_token
        }),
{
}

/// A service is reported to run only where it is configured, and to be configured only where
/// the settings are complete.
pub proof fn law_running_service_is_configured(complete: bool, print: ServicePrint)
    ensures
        service_state(complete, print).1 ==> service_state(complete, print).0,
        service_state(complete, print).0 ==> complete,
{
}

/// Whether an optional text is there and not blank.
proof fn lemma_given_text(s: Option<Seq<char>>)
    ensures
        replies::trimmed_text(s) is Some <==> (s matches Some(s) && !text::is_blank(s)),
        replies::trimmed_text(s) matches Some(trimmed) ==> trimmed == text::trim(s->0),
{
    if let Some(s) = s {
        text::lemma_trim_blank(s);
    }
}

/// What is shown of the settings is what is kept, except that of the token only the mask is shown
/// and whether there is one.
pub proof fn law_settings_are_shown_as_kept(
    config: &AppConfig,
    path: &HostPath,
    secret: &str,
    mask: String,
    res: BotSettingsView,
)
    requires
        call_ensures(read_settings, (config, path), res),
        secret@ == config@.telegram_bot_token,
        call_ensures(codex_provider::mask_secret, (secret,), mask),
    ensures
        res@.telegram_bot_token_masked == mask@,
        res@.has_telegram_bot_token <==> !text::is_blank(config@.telegram_bot_token),
        res@.telegram_allowed_user_id == config@.telegram_allowed_user_id,
        res@.codex_path == config@.codex_path,
        res@.env_path == path@.text,
{
    text::lemma_trim_blank(config@.telegram_bot_token);
}

/// Settings that are saved are kept as they are given, trimmed: a token that is not blank takes the
/// place of the old one, and one that is missing or blank leaves it. Nothing else changes, and
/// what is shown is what is kept then.
pub proof fn law_saved_settings_are_as_given(
    config: &mut AppConfig,
    input: BotSettingsInput,
    path: &HostPath,
    res: BotSettingsView,
)
    requires
        call_ensures(save_settings, (config, input, path), res),
    ensures
        final(config)@.telegram_bot_token == match input.telegram_bot_token {
            Some(token) => if text::is_blank(token@) {
                old(config)@.telegram_bot_token
            } else {
                text::trim(token@)
            },
            None => old(config)@.telegram_bot_token,
        },
        final(config)@.telegram_allowed_user_id == text::trim(input.telegram_allowed_user_id@),
        final(config)@.codex_path == text::trim(input.codex_path@),
        final(config)@.providers == old(config)@.providers,
        final(config)@.active_provider_id == old(config)@.active_provider_id,
        res@.telegram_allowed_user_id == text::trim(input.telegram_allowed_user_id@),
        res@.codex_path == text::trim(input.codex_path@),
        res@.env_path == path@.text,
        res@.has_telegram_bot_token <==> !text::is_blank(final(config)@.telegram_bot_token),
{
    lemma_given_text(text::opt_text(input.telegram_bot_token));
    text::lemma_trim_blank(final(config)@.telegram_bot_token);
}

/// The service runs where it is known to launchd, is described as running, and the settings hold a
/// token and a user; it is configured where it is known and the settings do.
pub proof fn law_service_runs_where_it_is_said_to(
    settings: Option<&BotSettingsView>,
    print: &ServicePrint,
    res: BotServiceStatus,
)
    requires
        call_ensures(service_status, (settings, print), res),
    ensures
        ({
            let complete = settings matches Some(settings) && settings.has_telegram_bot_token
                && settings.telegram_allowed_user_id@.len() > 0;
            match *print {
                ServicePrint::Known(description) => {
                    let running = text::has_part(description@, "state = running"@);
                    &&& res.configured <==> complete
                    &&& res.running <==> complete && running
                    &&& !complete ==> res.detail@ == "缺少 Bot Token 或用户 ID，请前往设置配置"@
                    &&& complete && running ==> res.detail@ == "服务已配置并运行中"@
                    &&& complete && !running ==> res.detail@ == "服务已配置但未运行"@
                },
                ServicePrint::Unknown(said) => !res.configured && !res.running && res.detail@
                    == text::trim(said@),
                ServicePrint::Failed(error) => !res.configured && !res.running && res.detail@
                    == "无法读取 launchd 状态："@ + error@,
            }
        }),
{
}

/// A command that succeeded is in order; one that was refused is told by what it said, and one
/// that could not be run by its error.
pub proof fn law_commands_are_told_by_what_they_said(
    outcome: &CommandOutcome,
    restarted: Result<(), String>,
    loaded: Result<(), String>,
)
    requires
        call_ensures(restart_outcome, (outcome,), restarted),
        call_ensures(bootstrap_outcome, (outcome,), loaded),
    ensures
        match *outcome {
            CommandOutcome::Succeeded => restarted is Ok && loaded is Ok,
            CommandOutcome::Refused(said) => {
                &&& restarted matches Err(a)
                &&& a@ == text::trim(said@)
                &&& loaded matches Err(b)
                &&& b@ == text::trim(said@)
            },
            CommandOutcome::NotRun(error) => {
                &&& restarted matches Err(a)
                &&& a@ == "执行 launchctl 失败："@ + error@
                &&& loaded matches Err(b)
                &&& b@ == "执行 launchctl bootstrap 失败："@ + error@
            },
        },
{
}

/// The service is named in the domain of its user.
pub proof fn law_service_is_named_for_its_user(uid: &str, domain: String, target: String)
    requires
        call_ensures(service_domain, (uid,), domain),
        call_ensures(service_target, (uid,), target),
    ensures
        domain@ == "gui/"@ + uid@,
        target@ == domain@ + "/com.local.telegram-codex-bot"@,
{
}

/// The description of the service lies in the home directory, under the agents of the user.
pub proof fn law_service_is_described_at_home(
    home: HostPath,
    joined: HostPath,
    res: Result<HostPath, String>,
    none: Result<HostPath, String>,
)
    requires
        call_ensures(plist_in, (Some(home),), res),
        call_ensures(plist_in, (None,), none),
        call_ensures(
            HostPath::join,
            (&home, "Library/LaunchAgents/com.local.telegram-codex-bot.plist"),
            joined,
        ),
    ensures
        res matches Ok(path) && path@ == joined@,
        none matches Err(message) && message@ == "无法定位 launchd plist"@,
{
}

/// A service that is configured is not loaded again; any other is loaded from its description,
/// where that exists.
pub proof fn law_service_is_loaded_from_its_description(
    configured: bool,
    plist: Result<HostPath, String>,
    exists: bool,
    res: LoadStep,
)
    requires
        call_ensures(load_step, (configured, plist, exists), res),
    ensures
        configured ==> res is Loaded,
        !configured ==> match plist {
            Ok(path) => {
                &&& exists ==> (res matches LoadStep::Bootstrap(from) && from@ == path@)
                &&& !exists ==> (res matches LoadStep::Impossible(said) && said@
                    == "launchd plist 不存在："@ + path@.text)
            },
            Err(error) => res matches LoadStep::Impossible(said) && said@ == error@,
        },
{
}

/// The first line that is filled, by its place.
proof fn lemma_first_filled(lines: Seq<Seq<char>>, at: int)
    requires
        0 <= at <= lines.len(),
        forall|k: int| 0 <= k < at ==> text::is_blank(#[trigger] lines[k]),
        at < lines.len() ==> !text::is_blank(lines[at]),
    ensures
        first_filled(lines) == if at < lines.len() {
            Some(text::trim(lines[at]))
        } else {
            None
        },
    decreases lines.len(),
{
    if lines.len() > 0 {
        text::lemma_trim_blank(lines[0]);
        if at > 0 {
            let rest = lines.skip(1);
            assert forall|k: int| 0 <= k < at - 1 implies text::is_blank(#[trigger] rest[k]) by {
                assert(rest[k] == lines[k + 1]);
            }
            lemma_first_filled(rest, at - 1);
        }
    }
}

/// The first line that is not blank is found, trimmed, and none where all are blank.
pub proof fn law_first_line_that_is_not_blank(value: &str, at: int, res: Option<String>)
    requires
        call_ensures(first_non_empty_line, (value,), res),
        0 <= at <= text::split(value@, '\n').len(),
        forall|k: int|
            0 <= k < at ==> text::is_blank(#[trigger] text::split(value@, '\n')[k]),
        at < text::split(value@, '\n').len() ==> !text::is_blank(text::split(value@, '\n')[at]),
    ensures
        at < text::split(value@, '\n').len() ==> text::opt_text(res) == Some(
            text::trim(text::split(value@, '\n')[at]),
        ),
        at == text::split(value@, '\n').len() ==> res is None,
{
    lemma_first_filled(text::split(value@, '\n'), at);
}

/// The user is told by the environment as it is, else by `id`, trimmed, else is the first one.
pub proof fn law_user_is_told_by_the_environment(
    env: Option<&str>,
    told: Option<&str>,
    res: String,
)
    requires
        call_ensures(current_uid, (env, told), res),
    ensures
        env matches Some(env) ==> res@ == env@,
        env is None ==> match told {
            Some(told) => res@ == if text::is_blank(told@) {
                "501"@
            } else {
                text::trim(told@)
            },
            None => res@ == "501"@,
        },
{
    lemma_given_text(text::opt_str(told));
}

/// The settings lie in `config.json`, and the description of the service under its name, wherever
/// the home directory is.
pub proof fn law_files_go_by_their_names(
    settings: Result<HostPath, String>,
    described: Result<HostPath, String>,
)
    requires
        call_ensures(default_env_path, (), settings),
        call_ensures(plist_path, (), described),
    ensures
        settings matches Ok(path) ==> text::has_suffix(path@.text, "config.json"@),
        described matches Ok(path) ==> text::has_suffix(
            path@.text,
            "Library/LaunchAgents/com.local.telegram-codex-bot.plist"@,
        ),
{
    if let Ok(path) = settings {
        let tail = "config.json"@;
        assert(path@.text.skip(path@.text.len() - tail.len()) =~= tail);
    }
    if let Ok(path) = described {
        let tail = "Library/LaunchAgents/com.local.telegram-codex-bot.plist"@;
        assert(path@.text.skip(path@.text.len() - tail.len()) =~= tail);
    }
}

} // verus!
