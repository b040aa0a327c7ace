//! The configuration of the program.
use vstd::prelude::*;

use crate::text;
use crate::workdir;
use crate::workdir::{HostPath, PathModel};

verus! {

/// A provider of models for Codex.
#[derive(Debug, Clone, PartialEq, Eq)]
pub struct CodexProvider {
    pub id: String,
    pub name: String,
    pub base_url: String,
    pub model: String,
    pub api_key: Option<String>,
    pub auth_text: Option<String>,
    pub config_text: Option<String>,
    pub context_window_1m: bool,
    pub auto_compact_token_limit: Option<u64>,
    pub active: bool,
    pub is_official: bool,
}

/// What a `CodexProvider` says.
#[verifier::ext_equal]
pub struct ProviderModel {
    pub id: Seq<char>,
    pub name: Seq<char>,
    pub base_url: Seq<char>,
    pub model: Seq<char>,
    pub api_key: Option<Seq<char>>,
    pub auth_text: Option<Seq<char>>,
    pub config_text: Option<Seq<char>>,
    pub context_window_1m: bool,
    pub auto_compact_token_limit: Option<u64>,
    pub active: bool,
    pub is_official: bool,
}

impl View for CodexProvider {
    type V = ProviderModel;

    open spec fn view(&self) -> ProviderModel {
        ProviderModel {
            id: self.id@,
            name: self.name@,
            base_url: self.base_url@,
            model: self.model@,
            api_key: text::opt_text(self.api_key),
            auth_text: text::opt_text(self.auth_text),
            config_text: text::opt_text(self.config_text),
            context_window_1m: self.context_window_1m,
            auto_compact_token_limit: self.auto_compact_token_limit,
            active: self.active,
            is_official: self.is_official,
        }
    }
}

/// The views of a list of providers.
pub open spec fn provider_views(providers: Seq<CodexProvider>) -> Seq<ProviderModel> {
    providers.map_values(|provider: CodexProvider| provider@)
}

impl CodexProvider {
    /// A copy of the provider.
    pub fn copy(&self) -> (res: Self)
        ensures
            res@ == self@,
    {
        CodexProvider {
            id: self.id.clone(),
            name: self.name.clone(),
            base_url: self.base_url.clone(),
            model: self.model.clone(),
            api_key: text::copy_opt(&self.api_key),
            auth_text: text::copy_opt(&self.auth_text),
            config_text: text::copy_opt(&self.config_text),
            context_window_1m: self.context_window_1m,
            auto_compact_token_limit: self.auto_compact_token_limit,
            active: self.active,
            is_official: self.is_official,
        }
    }
}

/// Copies of a list of providers.
pub fn copy_providers(providers: &Vec<CodexProvider>) -> (res: Vec<CodexProvider>)
    ensures
        provider_views(res@) == provider_views(providers@),
{
    let mut res: Vec<CodexProvider> = Vec::new();
    let mut i: usize = 0;
    while i < providers.len()
        invariant
            i <= providers@.len(),
            res@.len() == i,
            forall|k: int| 0 <= k < i ==> (#[trigger] res@[k])@ == providers@[k]@,
        decreases providers.len() - i,
    {
        res.push(providers[i].copy());
        i += 1;
    }
    assert(provider_views(res@) =~= provider_views(providers@));
    res
}

/// The configuration file.
#[derive(Debug, Clone, PartialEq, Eq)]
pub struct AppConfig {
    pub telegram_bot_token: String,
    pub telegram_allowed_user_id: String,
    pub codex_path: String,
    pub providers: Vec<CodexProvider>,
    pub active_provider_id: Option<String>,
}

/// What an `AppConfig` says.
#[verifier::ext_equal]
pub struct ConfigModel {
    pub telegram_bot_token: Seq<char>,
    pub telegram_allowed_user_id: Seq<char>,
    pub codex_path: Seq<char>,
    pub providers: Seq<ProviderModel>,
    pub active_provider_id: Option<Seq<char>>,
}

impl View for AppConfig {
    type V = ConfigModel;

    open spec fn view(&self) -> ConfigModel {
        ConfigModel {
            telegram_bot_token: self.telegram_bot_token@,
            telegram_allowed_user_id: self.telegram_allowed_user_id@,
            codex_path: self.codex_path@,
            providers: provider_views(self.providers@),
            active_provider_id: text::opt_text(self.active_provider_id),
        }
    }
}

impl Default for AppConfig {
    /// The configuration where there is no file.
    fn default() -> (res: Self)
        ensures
            res@ == (ConfigModel {
                telegram_bot_token: seq![],
                telegram_allowed_user_id: seq![],
                codex_path: seq![],
                providers: seq![],
                active_provider_id: None,
            }),
    {
        let res = AppConfig {
            telegram_bot_token: String::new(),
            telegram_allowed_user_id: String::new(),
            codex_path: String::new(),
            providers: Vec::new(),
            active_provider_id: None,
        };
        assert(res@.telegram_bot_token =~= seq![]);
        assert(res@.telegram_allowed_user_id =~= seq![]);
        assert(res@.codex_path =~= seq![]);
        assert(res@.providers =~= seq![]);
        res
    }
}

/// The path of `codex` where a configuration file names none.
pub fn default_codex_path() -> (res: String)
    ensures
        res@ == "codex"@,
{
    "codex".to_owned()
}

/// The path of the configuration file.
pub open spec fn config_path(home: Option<PathModel>) -> Result<PathModel, Seq<char>> {
    match home {
        Some(home) => Ok(
            workdir::host_join(workdir::host_join(home, ".codex-manager"@), "config.json"@),
        ),
        None => Err("无法定位用户目录"@),
    }
}

/// The path of the configuration file in the given home directory.
pub fn config_path_in(home: Option<HostPath>) -> (res: Result<HostPath, String>)
    ensures
        workdir::result_path(res) == config_path(workdir::opt_path(home)),
{
    match home {
        Some(home) => Ok(home.join(".codex-manager").join("config.json")),
        None => Err("无法定位用户目录".to_owned()),
    }
}

/// The path of the configuration file.
pub fn default_config_path() -> (res: Result<HostPath, String>)
    ensures
        exists|home: Option<PathModel>| workdir::result_path(res) == #[trigger] config_path(home),
{
    config_path_in(workdir::home_dir())
}

// ---------------------------------------------------------------------------
// Laws
// ---------------------------------------------------------------------------

/// Without a file nothing is configured.
pub proof fn law_default_configuration_is_empty(res: AppConfig)
    requires
        call_ensures(AppConfig::default, (), res),
    ensures
        res@.telegram_bot_token.len() == 0,
        res@.telegram_allowed_user_id.len() == 0,
        res@.codex_path.len() == 0,
        res@.providers.len() == 0,
        res@.active_provider_id is None,
{
}

/// A copy of providers is the same, one by one and in order.
pub proof fn law_copies_are_the_same(
    providers: &Vec<CodexProvider>,
    i: int,
    one: CodexProvider,
    res: Vec<CodexProvider>,
)
    requires
        call_ensures(copy_providers, (providers,), res),
        0 <= i < providers@.len(),
        call_ensures(CodexProvider::copy, (&providers@[i],), one),
    ensures
        res@.len() == providers@.len(),
        res@[i]@ == providers@[i]@,
        one@ == providers@[i]@,
{
    assert(provider_views(res@).len() == res@.len());
    assert(provider_views(res@)[i] == res@[i]@);
    assert(provider_views(providers@)[i] == providers@[i]@);
}

/// The configuration lies in the home directory, in the directory of this program.
pub proof fn law_configuration_lies_at_home(
    home: HostPath,
    dir: HostPath,
    file: HostPath,
    res: Result<HostPath, String>,
    none: Result<HostPath, String>,
)
    requires
        call_ensures(config_path_in, (Some(home),), res),
        call_ensures(config_path_in, (None,), none),
        call_ensures(HostPath::join, (&home, ".codex-manager"), dir),
        call_ensures(HostPath::join, (&dir, "config.json"), file),
    ensures
        res matches Ok(path) && path@ == file@,
        none matches Err(message) && message@ == "无法定位用户目录"@,
{
}

/// `codex` is looked for under its name.
pub proof fn law_codex_goes_by_its_name(res: String)
    requires
        call_ensures(default_codex_path, (), res),
    ensures
        res@ == "codex"@,
{
}

/// The configuration is called `config.json`, wherever the home directory is.
pub proof fn law_configuration_goes_by_its_name(res: Result<HostPath, String>)
    requires
        call_ensures(default_config_path, (), res),
    ensures
        res matches Ok(path) ==> text::has_suffix(path@.text, "/config.json"@),
        res matches Err(message) ==> message@ == "无法定位用户目录"@,
{
    let home = choose|home: Option<PathModel>|
        workdir::result_path(res) == #[trigger] config_path(home);
    if let Ok(path) = res {
        let dir = workdir::host_join(home->0, ".codex-manager"@);
        reveal_strlit(".codex-manager");
        reveal_strlit("config.json");
        reveal_strlit("/config.json");
        assert(dir.text.len() > 0);
        assert(dir.text.last() == ".codex-manager"@.last());
        assert("/config.json"@ =~= seq!['/'] + "config.json"@);
        let tail = "/config.json"@;
        assert(path@.text.skip(path@.text.len() - tail.len()) =~= tail);
    }
}

} // verus!
