//! Providers, settings, permissions and the tray.
use codex_manager::bot_settings::{
    bootstrap_outcome, current_uid, default_env_path, first_non_empty_line, load_step, plist_in,
    plist_path, read_settings, restart_outcome, save_settings, service_domain, service_status, service_target,
    BotSettingsInput, CommandOutcome, LoadStep, ServicePrint,
};
use codex_manager::codex_provider::{
    activate_provider, codex_dir_in, default_codex_dir, default_store_path, delete_provider,
    escape_toml_string, list_provider_views, mask_secret, normalize_id, provider_key, read_store,
    render_provider_auth_text, render_provider_config, save_provider, validate_provider,
    write_store, ProviderStore,
};
use codex_manager::config::{config_path_in, default_codex_path, AppConfig, CodexProvider};
use codex_manager::startup_permissions::{
    check_startup_permissions, check_startup_permissions_with, PermissionApi,
    StartupPermissionStatus,
};
use codex_manager::tray::{codex_provider_menu, tray_action, TrayAction};
use codex_manager::wire::parse_json;
use codex_manager::workdir::HostPath;

fn provider() -> CodexProvider {
    CodexProvider {
        id: "demo".to_string(),
        name: "Demo API".to_string(),
        base_url: "https://example.com/v1".to_string(),
        model: "gpt-5.4".to_string(),
        api_key: Some("sk-demo".to_string()),
        auth_text: None,
        config_text: None,
        context_window_1m: false,
        auto_compact_token_limit: None,
        active: false,
        is_official: false,
    }
}

fn empty_store() -> ProviderStore {
    ProviderStore { active_id: None, providers: Vec::new() }
}

fn path(text: &str) -> HostPath {
    HostPath { text: text.to_string(), raw: None }
}

// Providers

#[test]
fn render_provider_config_generates_codex_toml() {
    let provider = CodexProvider {
        id: "demo".to_string(),
        name: "Demo API".to_string(),
        base_url: "https://example.com/v1".to_string(),
        model: "gpt-5.4".to_string(),
        api_key: Some("sk-demo".to_string()),
        auth_text: None,
        config_text: None,
        context_window_1m: false,
        auto_compact_token_limit: None,
        active: false,
        is_official: false,
    };

    let text = render_provider_config(&provider);

    assert!(text.contains("model_provider = \"demo_api\""));
    assert!(text.contains("base_url = \"https://example.com/v1\""));
    toml::from_str::<toml::Table>(&text).expect("有效 TOML");
    assert_eq!(
        text,
        "model_provider = \"demo_api\"\nmodel = \"gpt-5.4\"\nmodel_reasoning_effort = \"high\"\ndisable_response_storage = true\n\n[model_providers.demo_api]\nname = \"demo_api\"\nbase_url = \"https://example.com/v1\"\nenv_key = \"OPENAI_API_KEY\"\nwire_api = \"responses\"\nrequires_openai_auth = true\n"
    );
}

#[test]
fn render_provider_config_adds_context_window_fields() {
    let provider = CodexProvider {
        id: "demo".to_string(),
        name: "Demo API".to_string(),
        base_url: "https://example.com/v1".to_string(),
        model: "gpt-5.4".to_string(),
        api_key: Some("sk-demo".to_string()),
        auth_text: None,
        config_text: None,
        context_window_1m: true,
        auto_compact_token_limit: Some(850_000),
        active: false,
        is_official: false,
    };

    let text = render_provider_config(&provider);

    assert!(text.contains("model_context_window = 1000000"));
    assert!(text.contains("model_auto_compact_token_limit = 850000"));
    toml::from_str::<toml::Table>(&text).expect("有效 TOML");
    let usual = CodexProvider { auto_compact_token_limit: None, ..provider };
    assert!(render_provider_config(&usual).contains("model_auto_compact_token_limit = 900000\n"));
}

#[test]
fn render_provider_auth_uses_auth_json_when_present() {
    let provider = CodexProvider {
        id: "demo".to_string(),
        name: "Demo API".to_string(),
        base_url: "https://example.com/v1".to_string(),
        model: "gpt-5.4".to_string(),
        api_key: Some("sk-field".to_string()),
        auth_text: Some("{\"OPENAI_API_KEY\":\"sk-auth\"}".to_string()),
        config_text: None,
        context_window_1m: false,
        auto_compact_token_limit: None,
        active: false,
        is_official: false,
    };

    let text = render_provider_auth_text(&provider);
    let auth: serde_json::Value = serde_json::from_str(&text).expect("有效 JSON");

    assert_eq!(auth["OPENAI_API_KEY"], "sk-auth");
}

#[test]
fn generated_auth_is_read_back() {
    let text = render_provider_auth_text(&provider());
    assert_eq!(text, "{\n  \"OPENAI_API_KEY\": \"sk-demo\"\n}\n");
    let auth = parse_json(&text).unwrap();
    assert_eq!(auth.get("OPENAI_API_KEY").unwrap().as_str(), Some("sk-demo"));
    let without = CodexProvider { api_key: Some(" ".to_string()), ..provider() };
    assert_eq!(render_provider_auth_text(&without), "{}\n");
}

#[test]
fn official_provider_writes_empty_auth_and_config() {
    let provider = CodexProvider {
        id: "openai".to_string(),
        name: "OpenAI 官方".to_string(),
        base_url: String::new(),
        model: String::new(),
        api_key: None,
        auth_text: Some("{\"OPENAI_API_KEY\":\"sk-ignored\"}".to_string()),
        config_text: Some("model = \"ignored\"".to_string()),
        context_window_1m: true,
        auto_compact_token_limit: Some(900_000),
        active: false,
        is_official: true,
    };

    assert_eq!(render_provider_auth_text(&provider), "{}\n");
    assert_eq!(render_provider_config(&provider), "");
    assert_eq!(validate_provider(&provider), Ok(()));
    let mut store = ProviderStore { active_id: None, providers: vec![provider] };
    let (_, live) = activate_provider(&mut store, "openai").unwrap();
    assert_eq!((live.auth_text.as_str(), live.config_text.as_str()), ("{}", ""));
    assert_eq!(store.active_id.as_deref(), Some("openai"));
}

#[test]
fn save_provider_preserves_existing_key_when_new_key_is_empty() {
    let mut store = empty_store();
    let first = CodexProvider {
        id: "demo".to_string(),
        name: "Demo".to_string(),
        base_url: "https://one.example/v1".to_string(),
        model: "gpt-5.4".to_string(),
        api_key: Some("sk-old".to_string()),
        auth_text: None,
        config_text: None,
        context_window_1m: false,
        auto_compact_token_limit: None,
        active: false,
        is_official: false,
    };
    save_provider(&mut store, first).expect("第一次保存");

    save_provider(
        &mut store,
        CodexProvider {
            id: "demo".to_string(),
            name: "Demo".to_string(),
            base_url: "https://two.example/v1".to_string(),
            model: "gpt-5.4".to_string(),
            api_key: Some(String::new()),
            auth_text: None,
            config_text: None,
            context_window_1m: false,
            auto_compact_token_limit: None,
            active: false,
            is_official: false,
        },
    )
    .expect("第二次保存");

    let mut config = AppConfig::default();
    write_store(&mut config, &store);
    let store = read_store(&config);
    assert_eq!(store.providers.len(), 1);
    assert_eq!(store.providers[0].api_key.as_deref(), Some("sk-old"));
    assert_eq!(store.providers[0].base_url, "https://two.example/v1");
}

#[test]
fn activate_provider_writes_live_codex_files() {
    let mut store = empty_store();
    let provider = CodexProvider {
        id: "demo".to_string(),
        name: "Demo".to_string(),
        base_url: "https://example.com/v1".to_string(),
        model: "gpt-5.4".to_string(),
        api_key: Some("sk-demo".to_string()),
        auth_text: None,
        config_text: None,
        context_window_1m: true,
        auto_compact_token_limit: Some(900_000),
        active: false,
        is_official: false,
    };
    save_provider(&mut store, provider).expect("保存");

    let (view, live) = activate_provider(&mut store, "demo").expect("激活");

    assert!(view.active);
    let auth: serde_json::Value = serde_json::from_str(&live.auth_text).unwrap();
    assert_eq!(auth["OPENAI_API_KEY"], "sk-demo");
    assert!(live.config_text.contains("wire_api = \"responses\""));
    assert!(live.config_text.contains("model_context_window = 1000000"));
    assert!(live.config_text.contains("model_auto_compact_token_limit = 900000"));
    assert_eq!(
        activate_provider(&mut store, "none").unwrap_err(),
        "找不到 Codex 供应商：none"
    );
}

#[test]
fn activation_refuses_broken_files() {
    let broken = |change: fn(&mut CodexProvider)| {
        let mut bad = provider();
        change(&mut bad);
        let mut store = ProviderStore { active_id: None, providers: vec![bad] };
        let error = activate_provider(&mut store, "demo").unwrap_err();
        assert_eq!(store.active_id, None);
        error
    };
    assert!(broken(|bad| bad.config_text = Some("= 1".to_string()))
        .starts_with("Codex config.toml 语法错误："));
    assert!(broken(|bad| bad.auth_text = Some("{".to_string()))
        .starts_with("Codex auth.json 语法错误："));
    assert_eq!(
        broken(|bad| bad.auth_text = Some("[]".to_string())),
        "Codex auth.json 必须是 JSON 对象"
    );
}

#[test]
fn a_provider_is_checked_before_it_is_saved() {
    let error = |change: fn(&mut CodexProvider)| {
        let mut bad = provider();
        change(&mut bad);
        let mut store = empty_store();
        let error = save_provider(&mut store, bad).unwrap_err();
        assert_eq!(store, empty_store());
        error
    };
    assert_eq!(error(|bad| bad.name = " ".to_string()), "供应商名称不能为空");
    assert_eq!(error(|bad| bad.base_url = String::new()), "Base URL 不能为空");
    assert_eq!(error(|bad| bad.model = String::new()), "模型名称不能为空");
    assert_eq!(error(|bad| bad.api_key = None), "自定义供应商必须填写 OPENAI_API_KEY");
    assert_eq!(
        error(|bad| bad.auth_text = Some("1".to_string())),
        "Codex auth.json 必须是 JSON 对象"
    );
    assert!(error(|bad| bad.auth_text = Some("x".to_string()))
        .starts_with("Codex auth.json 语法错误：expected value"));
    assert!(error(|bad| bad.config_text = Some("a = ".to_string()))
        .starts_with("Codex config.toml 语法错误："));
}

#[test]
fn deleting_the_provider_in_use_moves_on_to_the_first() {
    let mut store = empty_store();
    for id in ["One", "two!", "3"] {
        save_provider(&mut store, CodexProvider { id: id.to_string(), ..provider() }).unwrap();
    }
    let ids: Vec<&str> = store.providers.iter().map(|provider| provider.id.as_str()).collect();
    assert_eq!(ids, vec!["one", "two", "3"]);
    assert_eq!(store.active_id.as_deref(), Some("one"));
    delete_provider(&mut store, "two");
    assert_eq!(store.active_id.as_deref(), Some("one"));
    delete_provider(&mut store, "one");
    assert_eq!(store.active_id.as_deref(), Some("3"));
    delete_provider(&mut store, "3");
    assert_eq!(store, empty_store());
}

#[test]
fn provider_keys_are_lower_case_words() {
    assert_eq!(provider_key("  Demo  API--v2 "), "demo_api_v2");
    assert_eq!(provider_key("__ÄB__"), "b");
    assert_eq!(provider_key("官方"), "custom");
    assert_eq!(provider_key("demo_api_v2"), "demo_api_v2");
    assert_eq!(provider_key("Demo API"), provider_key("\u{3000}Demo API\n"));
    assert_eq!(provider_key("Demo API"), "demo_api");
    assert_eq!(provider_key(" -- "), "custom");
    assert_eq!(provider_key("\u{3000}《》\n"), "custom");
    assert_eq!(provider_key("\u{212a}"), "k");
    assert_eq!(normalize_id(" ", "My API"), "my_api");
    assert_eq!(normalize_id("x1", "My API"), "x1");
    assert_eq!(escape_toml_string("a\\b\"c"), "a\\\\b\\\"c");
}

#[test]
fn the_generated_configuration_keeps_its_values() {
    let strange = CodexProvider {
        model: "a\\\"b\"\\".to_string(),
        base_url: "model_context_window".to_string(),
        ..provider()
    };
    let text = render_provider_config(&strange);
    let table = text.parse::<toml::Table>().unwrap();
    assert_eq!(table["model"].as_str(), Some(strange.model.as_str()));
    assert_eq!(table["model_provider"].as_str(), Some("demo_api"));
    let inner = &table["model_providers"]["demo_api"];
    assert_eq!(inner["base_url"].as_str(), Some("model_context_window"));
    assert!(!text.lines().any(|line| line.starts_with("model_context_window")));
    let large = CodexProvider { context_window_1m: true, ..strange };
    let text = render_provider_config(&large);
    assert!(text.lines().any(|line| line == "model_context_window = 1000000"));
    assert!(text.lines().any(|line| line == "model_auto_compact_token_limit = 900000"));
    let table = text.parse::<toml::Table>().unwrap();
    assert_eq!(table["model_context_window"].as_integer(), Some(1_000_000));
    assert_eq!(table["model_auto_compact_token_limit"].as_integer(), Some(900_000));
    assert_eq!(table["model_providers"].as_table().unwrap().len(), 1);
}

#[test]
fn generated_files_can_always_be_put_to_use() {
    for (limit, works) in [(0, true), (99, true), (i64::MAX as u64, true), (u64::MAX, false)] {
        let entry = CodexProvider {
            model: "\u{80} ''\"\\ é中".to_string(),
            base_url: String::new(),
            context_window_1m: true,
            auto_compact_token_limit: Some(limit),
            ..provider()
        };
        let mut store = ProviderStore { active_id: None, providers: vec![entry] };
        let outcome = activate_provider(&mut store, "demo");
        assert_eq!(outcome.is_ok(), works);
        if let Ok((_, live)) = outcome {
            let table = live.config_text.parse::<toml::Table>().unwrap();
            let read = table["model_auto_compact_token_limit"].as_integer();
            assert_eq!(read, Some(limit as i64));
            assert_eq!(table["model"].as_str(), Some("\u{80} ''\"\\ é中"));
            let inner = &table["model_providers"]["demo_api"];
            assert_eq!(inner["base_url"].as_str(), Some(""));
        }
    }
    let broken = CodexProvider { model: "a\u{1}".to_string(), ..provider() };
    let mut store = ProviderStore { active_id: None, providers: vec![broken] };
    assert!(activate_provider(&mut store, "demo").is_err());
}

#[test]
fn secrets_are_masked() {
    assert_eq!(mask_secret(""), "");
    assert_eq!(mask_secret("12345678"), "********");
    assert_eq!(mask_secret("123456789"), "********6789");
    assert_eq!(mask_secret("abcdefghijklmnop"), "************mnop");
    assert_eq!(mask_secret("密密密密密密密密钥匙在此"), "********钥匙在此");
}

#[test]
fn providers_are_shown_without_their_keys() {
    let mut store = empty_store();
    let key = "sk-0123456789".to_string();
    save_provider(&mut store, CodexProvider { api_key: Some(key), ..provider() }).unwrap();
    let views = list_provider_views(&store);
    assert_eq!(views.len(), 1);
    assert_eq!(views[0].api_key_masked, "*********6789");
    assert!(views[0].has_api_key);
    assert!(views[0].active);
}

#[test]
fn files_are_kept_in_the_home_directory() {
    assert_eq!(
        config_path_in(Some(path("/home/a"))),
        Ok(path("/home/a/.codex-manager/config.json"))
    );
    assert_eq!(config_path_in(None), Err("无法定位用户目录".to_string()));
    assert_eq!(codex_dir_in(Some(path("/home/a/"))), Ok(path("/home/a/.codex")));
    assert_eq!(codex_dir_in(None), Err("无法定位用户 HOME 目录".to_string()));
    let strange = HostPath { text: "/\u{fffd}".to_string(), raw: Some(b"/\xff".to_vec()) };
    assert_eq!(codex_dir_in(Some(strange.clone())).unwrap().raw, Some(b"/\xff/.codex".to_vec()));
    assert_eq!(
        config_path_in(Some(strange)).unwrap().raw,
        Some(b"/\xff/.codex-manager/config.json".to_vec())
    );
    assert_eq!(default_store_path(), default_env_path());
    if let Ok(found) = default_store_path() {
        assert!(found.text.ends_with(".codex-manager/config.json"));
    }
    if let Ok(found) = default_codex_dir() {
        assert!(found.text.ends_with(".codex"));
    }
    assert_eq!(default_codex_path(), "codex");
}

// Settings

#[test]
fn save_settings_preserves_existing_token_when_input_empty() {
    let mut config = AppConfig {
        telegram_bot_token: "secret-token".to_string(),
        telegram_allowed_user_id: "1".to_string(),
        codex_path: default_codex_path(),
        ..AppConfig::default()
    };

    let view = save_settings(
        &mut config,
        BotSettingsInput {
            telegram_bot_token: Some(String::new()),
            telegram_allowed_user_id: "2".to_string(),
            codex_path: "codex".to_string(),
        },
        &path("/c/config.json"),
    );

    assert!(view.has_telegram_bot_token);
    assert_eq!(view.telegram_allowed_user_id, "2");
    assert_eq!(view.telegram_bot_token_masked, "********oken");
    assert_eq!(view.env_path, "/c/config.json");
    assert_eq!(config.telegram_bot_token, "secret-token");
    assert_eq!(config.codex_path, "codex");
}

#[test]
fn save_settings_keeps_other_config_values() {
    let kept = CodexProvider { name: "Demo".to_string(), api_key: None, ..provider() };
    let mut config = AppConfig {
        telegram_bot_token: "secret-token".to_string(),
        codex_path: default_codex_path(),
        providers: vec![kept.clone()],
        ..AppConfig::default()
    };

    save_settings(
        &mut config,
        BotSettingsInput {
            telegram_bot_token: None,
            telegram_allowed_user_id: "2".to_string(),
            codex_path: "codex".to_string(),
        },
        &path("/c/config.json"),
    );

    assert_eq!(config.telegram_bot_token, "secret-token");
    assert_eq!(config.providers, vec![kept]);
}

#[test]
fn settings_are_trimmed_when_they_are_saved() {
    let mut config = AppConfig::default();
    let view = save_settings(
        &mut config,
        BotSettingsInput {
            telegram_bot_token: Some(" new ".to_string()),
            telegram_allowed_user_id: " 2 ".to_string(),
            codex_path: " /bin/codex ".to_string(),
        },
        &path("/c"),
    );
    assert_eq!(config.telegram_bot_token, "new");
    assert_eq!((view.telegram_allowed_user_id, view.codex_path), ("2".to_string(), "/bin/codex".to_string()));
}

#[test]
fn the_service_is_judged_by_settings_and_launchd() {
    let config = AppConfig {
        telegram_bot_token: "t".to_string(),
        telegram_allowed_user_id: "1".to_string(),
        ..AppConfig::default()
    };
    let settings = read_settings(&config, &path("/c"));
    let status = |complete: bool, print: ServicePrint| {
        let status = service_status(if complete { Some(&settings) } else { None }, &print);
        (status.configured, status.running, status.detail)
    };
    let known = |state: &str| ServicePrint::Known(format!("x\n  state = {state}\n"));
    assert_eq!(
        status(true, known("running")),
        (true, true, "服务已配置并运行中".to_string())
    );
    assert_eq!(
        status(true, known("waiting")),
        (true, false, "服务已配置但未运行".to_string())
    );
    assert_eq!(
        status(false, known("running")),
        (false, false, "缺少 Bot Token 或用户 ID，请前往设置配置".to_string())
    );
    assert_eq!(
        status(true, ServicePrint::Unknown(" none \n".to_string())),
        (false, false, "none".to_string())
    );
    assert_eq!(
        status(true, ServicePrint::Failed("x".to_string())),
        (false, false, "无法读取 launchd 状态：x".to_string())
    );
}

#[test]
fn the_service_is_loaded_before_it_is_restarted() {
    let plist = plist_in(Some(path("/home/a")));
    let file = "/home/a/Library/LaunchAgents/com.local.telegram-codex-bot.plist";
    assert_eq!(plist, Ok(path(file)));
    assert_eq!(load_step(true, plist.clone(), false), LoadStep::Loaded);
    assert_eq!(load_step(false, plist.clone(), true), LoadStep::Bootstrap(path(file)));
    assert_eq!(
        load_step(false, plist, false),
        LoadStep::Impossible(format!("launchd plist 不存在：{file}"))
    );
    assert_eq!(
        load_step(false, plist_in(None), false),
        LoadStep::Impossible("无法定位 launchd plist".to_string())
    );
    if let Ok(found) = plist_path() {
        assert!(found.text.ends_with("/com.local.telegram-codex-bot.plist"));
    }
    assert_eq!(service_domain("501"), "gui/501");
    assert_eq!(service_target("501"), "gui/501/com.local.telegram-codex-bot");
    assert_eq!(restart_outcome(&CommandOutcome::Succeeded), Ok(()));
    assert_eq!(
        restart_outcome(&CommandOutcome::Refused(" no ".to_string())),
        Err("no".to_string())
    );
    assert_eq!(
        restart_outcome(&CommandOutcome::NotRun("x".to_string())),
        Err("执行 launchctl 失败：x".to_string())
    );
    assert_eq!(
        bootstrap_outcome(&CommandOutcome::NotRun("x".to_string())),
        Err("执行 launchctl bootstrap 失败：x".to_string())
    );
}

#[test]
fn user_ids_and_first_lines_are_trimmed() {
    assert_eq!(current_uid(Some("7"), Some("8")), "7");
    assert_eq!(current_uid(None, Some(" 8\n")), "8");
    assert_eq!(current_uid(None, Some("\n")), "501");
    assert_eq!(current_uid(None, None), "501");
    assert_eq!(first_non_empty_line("\n \r\n a b \nc").as_deref(), Some("a b"));
    assert_eq!(first_non_empty_line(" \n"), None);
}

// Permissions

#[derive(Default)]
struct FakePermissionApi {
    screen_capture_granted: bool,
    accessibility_trusted: bool,
}

impl PermissionApi for FakePermissionApi {
    fn screen_capture_granted(&self) -> bool {
        self.screen_capture_granted
    }

    fn accessibility_trusted(&self) -> bool {
        self.accessibility_trusted
    }
}

#[test]
fn startup_permissions_report_missing_permissions_without_requesting() {
    let api = FakePermissionApi::default();

    let status = check_startup_permissions_with(&api);

    assert_eq!(
        status,
        StartupPermissionStatus {
            screen_capture_granted: false,
            accessibility_trusted: false,
        }
    );
    assert_eq!(check_startup_permissions(Some(&api)), status);
    assert_eq!(check_startup_permissions::<FakePermissionApi>(None), status);
}

#[test]
fn startup_permissions_report_already_granted_permissions() {
    let api = FakePermissionApi {
        screen_capture_granted: true,
        accessibility_trusted: true,
        ..Default::default()
    };

    let status = check_startup_permissions_with(&api);

    assert_eq!(
        status,
        StartupPermissionStatus {
            screen_capture_granted: true,
            accessibility_trusted: true,
        }
    );
}

#[test]
fn startup_permissions_keep_the_two_apart() {
    let api = FakePermissionApi { accessibility_trusted: true, ..Default::default() };
    let status = check_startup_permissions_with(&api);
    assert!(!status.screen_capture_granted);
    assert!(status.accessibility_trusted);
    assert_eq!(check_startup_permissions(Some(&api)), status);
}

// The tray

#[test]
fn the_tray_lists_providers() {
    let empty = codex_provider_menu(&Vec::new());
    assert_eq!(empty.title, "Codex · 未配置");
    assert_eq!(empty.items.len(), 1);
    assert!(!empty.items[0].enabled);
    assert_eq!(empty.items[0].label, "暂无供应商");

    let mut store = empty_store();
    for name in ["One", "Two"] {
        let given = CodexProvider { id: String::new(), name: name.to_string(), ..provider() };
        save_provider(&mut store, given).unwrap();
    }
    store.active_id = Some("two".to_string());
    let menu = codex_provider_menu(&list_provider_views(&store));
    assert_eq!(menu.title, "Codex · Two");
    let items: Vec<(&str, Option<bool>)> =
        menu.items.iter().map(|item| (item.id.as_str(), item.checked)).collect();
    assert_eq!(
        items,
        vec![("codex-provider:one", Some(false)), ("codex-provider:two", Some(true))]
    );
    assert_eq!(tray_action(&menu.items[0].id), TrayAction::Activate("one".to_string()));
    store.active_id = None;
    assert_eq!(codex_provider_menu(&list_provider_views(&store)).title, "Codex · default");
}

#[test]
fn items_of_the_tray_have_their_actions() {
    assert_eq!(tray_action("open-main"), TrayAction::OpenMain);
    assert_eq!(tray_action("quit"), TrayAction::Quit);
    assert_eq!(tray_action("codex-provider-empty"), TrayAction::Refresh);
    assert_eq!(
        tray_action("codex-provider:codex-provider:a"),
        TrayAction::Activate("a".to_string())
    );
}
