use pyappify::cli::{handle_command_line, has_cli_command, setup_request};
use pyappify::config::{
    get_default_lang_from_locale, get_locale, normalize_locale, AppConfig, ConfigValue, EnvAction,
    UpdateOutcome,
};
use pyappify::logger::LoggerBuilder;
use pyappify::paths::{
    get_app_base_path, get_app_config_json_path, get_app_repo_path, get_app_working_dir_path,
    get_config_dir, get_log_dir, get_pip_cache_dir, get_python_dir, get_python_exe,
    strip_extended_path_prefix,
};
use pyappify::app::App;
use pyappify::registry::Registry;
use pyappify::sync::{
    configure_credentials, ensure_repository, get_commit_messages_for_version_diff, CommitInfo,
    CredentialMethod, RepoAction, TransferThrottle,
};
use pyappify::text::{decimal, signed_decimal, split_whitespace, trim};
use pyappify::yaml_parser::{load_config_from_yaml, Config, Profile as LegacyProfile};

fn parts(v: &[&str]) -> Vec<String> {
    v.iter().map(|s| s.to_string()).collect()
}

fn text_value(v: Option<ConfigValue>) -> Option<String> {
    match v {
        Some(ConfigValue::String(s)) => Some(s),
        _ => None,
    }
}

#[test]
fn config_defaults() {
    let c = AppConfig::new(&parts(&["cfg"]), "ja-JP", &vec![]);
    assert_eq!(text_value(c.get_item_value("Language")), Some("ja".to_string()));
    assert_eq!(text_value(c.get_item_value("Pip Index URL")), Some(String::new()));
    assert_eq!(text_value(c.get_item_value("Default Python Version")), Some("3.12".to_string()));
    assert_eq!(c.get_effective_update_method(), "AUTO_UPDATE");
    assert_eq!(c.config_path(), parts(&["cfg", "app_config.json"]));
    let names: Vec<String> = c.get_all_items_vec().into_iter().map(|i| i.name).collect();
    assert_eq!(
        names,
        vec!["Default Python Version", "Language", "Pip Cache Directory", "Pip Index URL", "Update Method"]
    );
}

#[test]
fn chinese_locale_defaults_to_mirror_index() {
    let c = AppConfig::new(&parts(&["cfg"]), "zh-CN", &vec![]);
    assert_eq!(text_value(c.get_item_value("Language")), Some("zh-CN".to_string()));
    assert_eq!(
        c.get_effective_pip_index_url(),
        Some("https://mirrors.aliyun.com/pypi/simple/".to_string())
    );
}

#[test]
fn config_loaded_values_are_validated() {
    let loaded = vec![
        ("Language".to_string(), ConfigValue::String("fr".to_string())),
        ("Update Method".to_string(), ConfigValue::String("IGNORE_UPDATE".to_string())),
        ("Pip Cache Directory".to_string(), ConfigValue::Integer(3)),
        ("Obsolete".to_string(), ConfigValue::Integer(1)),
    ];
    let c = AppConfig::new(&parts(&["cfg"]), "en-US", &loaded);
    assert_eq!(text_value(c.get_item_value("Language")), Some("en".to_string()));
    assert_eq!(c.get_effective_update_method(), "IGNORE_UPDATE");
    assert_eq!(text_value(c.get_item_value("Pip Cache Directory")), Some("App Install Directory".to_string()));
    assert!(c.get_item_value("Obsolete").is_none());
    assert_eq!(c.values_to_save().len(), 5);
}

#[test]
fn config_updates() {
    let mut c = AppConfig::new(&parts(&["cfg"]), "en-US", &vec![]);
    assert!(matches!(
        c.update_item_value("Pip Index URL", ConfigValue::String("https://pypi.org/simple/".to_string())),
        UpdateOutcome::Updated
    ));
    assert_eq!(c.get_effective_pip_index_url(), Some("https://pypi.org/simple/".to_string()));
    assert!(matches!(
        c.update_item_value("Pip Index URL", ConfigValue::Integer(1)),
        UpdateOutcome::TypeMismatch
    ));
    assert!(matches!(c.update_item_value("Nope", ConfigValue::Integer(1)), UpdateOutcome::NotFound));
    assert!(matches!(
        c.update_item_value("Pip Index URL", ConfigValue::String("https://elsewhere/".to_string())),
        UpdateOutcome::Updated
    ));
    assert_eq!(c.get_effective_pip_index_url(), None);
    assert!(matches!(c.update_pip_index_url_env_var_from_config(), EnvAction::Remove));
    match c.update_pip_cache_env_var_from_config("/cache/pip") {
        EnvAction::Assign(d) => assert_eq!(d, "/cache/pip"),
        _ => panic!("expected the cache directory"),
    }
    assert_eq!(c.get_effective_pip_cache_dir(&parts(&["cache", "pip"])), Some(parts(&["cache", "pip"])));
    c.update_item_value("Pip Cache Directory", ConfigValue::String("System Default".to_string()));
    assert!(matches!(c.update_pip_cache_env_var_from_config("/cache/pip"), EnvAction::Remove));
    assert_eq!(c.get_effective_pip_cache_dir(&parts(&["cache", "pip"])), None);
}

#[test]
fn languages_from_locale() {
    assert_eq!(get_default_lang_from_locale("zh-CN"), "zh-CN");
    assert_eq!(get_default_lang_from_locale("zh-HK"), "zh-TW");
    assert_eq!(get_default_lang_from_locale("es-MX"), "es");
    assert_eq!(get_default_lang_from_locale("ko"), "ko");
    assert_eq!(get_default_lang_from_locale("de-DE"), "en");
    assert_eq!(normalize_locale(Some("zh_CN")), "zh-CN");
    assert_eq!(normalize_locale(None), "en-US");
    assert_eq!(get_locale(None, "ja"), "en");
    let c = AppConfig::new(&parts(&["cfg"]), "ko-KR", &vec![]);
    assert_eq!(get_locale(Some(&c), "ko-KR"), "ko");
    assert_eq!(c.get_effective_lang("ko-KR"), "ko");
}

#[test]
fn config_value_text() {
    assert_eq!(ConfigValue::Integer(-42).to_display_string(), "-42");
    assert_eq!(ConfigValue::String("x".to_string()).to_display_string(), "x");
}

#[test]
fn directory_layout() {
    let cwd = parts(&["/", "opt", "launcher"]);
    assert_eq!(get_log_dir(), parts(&["data", "logs"]));
    assert_eq!(get_app_base_path(&cwd, "demo"), parts(&["/", "opt", "launcher", "data", "apps", "demo"]));
    assert_eq!(get_python_dir(&cwd, "demo").last().unwrap(), "python");
    assert_eq!(get_python_exe(&cwd, "demo", true).last().unwrap(), "pythonw.exe");
    assert_eq!(get_python_exe(&cwd, "demo", false).last().unwrap(), "python.exe");
    assert_eq!(get_app_repo_path(&cwd, "demo").last().unwrap(), "repo");
    assert_eq!(get_app_working_dir_path(&cwd, "demo").last().unwrap(), "working");
    assert_eq!(get_app_config_json_path(&cwd, "demo").last().unwrap(), "app.json");
    assert_eq!(get_pip_cache_dir(&cwd), parts(&["/", "opt", "launcher", "cache", "pip"]));
    assert_eq!(get_config_dir(&cwd), parts(&["/", "opt", "launcher", "data", "config"]));
    assert_eq!(strip_extended_path_prefix("\\\\?\\C:\\apps"), "C:\\apps");
    assert_eq!(strip_extended_path_prefix("C:\\apps"), "C:\\apps");
}

#[test]
fn logger_settings() {
    let b = LoggerBuilder::new();
    assert_eq!(b.dir(), parts(&["data", "logs"]));
    assert_eq!(b.prefix(), "app.log");
    assert_eq!(b.level(), "info");
    let b = b.log_dir(parts(&["logs"])).file_prefix("app".to_string()).default_level("debug".to_string());
    assert_eq!(b.dir(), parts(&["logs"]));
    assert_eq!(b.prefix(), "app");
    assert_eq!(b.level(), "debug");
}

#[test]
fn headless_command_line() {
    let args = parts(&["launcher", "-c", "setup", "-p", "gui"]);
    assert!(has_cli_command(&args, false));
    let req = handle_command_line(&args, None, None);
    assert_eq!(setup_request(&req), Some("gui".to_string()));
    let args = parts(&["launcher", "-p", "gui"]);
    assert!(!has_cli_command(&args, false));
    assert!(has_cli_command(&args, true));
    let req = handle_command_line(&args, Some("setup".to_string()), Some("other".to_string()));
    assert_eq!(req.command, Some("setup".to_string()));
    assert_eq!(req.profile_name, Some("gui".to_string()));
    let req = handle_command_line(&parts(&["launcher", "-c"]), None, None);
    assert_eq!(req.command, None);
    assert_eq!(setup_request(&req), None);
}

#[test]
fn credentials_by_scheme() {
    assert!(matches!(configure_credentials(Some(" GIT@github.com:a/b")), CredentialMethod::SshAgent));
    assert!(matches!(configure_credentials(Some("ssh://host/x")), CredentialMethod::SshAgent));
    assert!(matches!(configure_credentials(Some("HTTPS://host/x")), CredentialMethod::DefaultCredentials));
    assert!(matches!(configure_credentials(Some("file:///x")), CredentialMethod::TryAll));
    assert!(matches!(configure_credentials(None), CredentialMethod::TryAll));
}

#[test]
fn repository_plan() {
    assert!(matches!(ensure_repository(false, false, None, "u"), RepoAction::Clone));
    assert!(matches!(ensure_repository(true, false, None, "u"), RepoAction::RemoveAndClone));
    assert!(matches!(ensure_repository(true, true, Some("u"), "u"), RepoAction::Fetch { update_origin: false }));
    assert!(matches!(ensure_repository(true, true, Some("old"), "u"), RepoAction::Fetch { update_origin: true }));
}

#[test]
fn transfer_throttle() {
    let mut t = TransferThrottle::new();
    assert!(t.observe(0, 1000));
    assert!(!t.observe(0, 1000));
    assert!(t.observe(1, 1000));
    assert!(!t.observe(1, 1000));
    assert!(t.observe(1000, 1000));
    assert!(t.observe(1000, 1000));
    assert!(t.observe(5, 0));
}

fn commit(parents: usize, msg: &str) -> CommitInfo {
    CommitInfo { parent_count: parents, message: Some(msg.to_string()) }
}

#[test]
fn release_notes_between_versions() {
    let commits = vec![
        commit(1, "Add feature\n\n  details here  \n"),
        commit(2, "Merge branch 'x'"),
        commit(1, "Add feature\nFix bug\r\n"),
    ];
    let notes = get_commit_messages_for_version_diff(&commits, Some("ignored"));
    assert_eq!(notes, vec!["Add feature", "details here", "Fix bug"]);
}

#[test]
fn release_notes_capped_at_ten() {
    let msg: String = (0..15).map(|i| format!("line {}\n", i)).collect();
    let notes = get_commit_messages_for_version_diff(&vec![commit(1, &msg)], None);
    assert_eq!(notes.len(), 10);
    assert_eq!(notes[9], "line 9");
}

#[test]
fn release_notes_fall_back_to_target_summary() {
    let notes = get_commit_messages_for_version_diff(&vec![], Some("\n Release 1.0 \nmore"));
    assert_eq!(notes, vec!["Release 1.0"]);
    assert!(get_commit_messages_for_version_diff(&vec![commit(2, "merge")], None).is_empty());
}

#[test]
fn legacy_config() {
    let d = load_config_from_yaml(None);
    assert_eq!(d.requires_python, "3.12");
    assert_eq!(d.profiles[0].main_script, "main.py");
    let p = |name: &str, script: &str, admin: bool| LegacyProfile {
        name: name.to_string(),
        main_script: script.to_string(),
        admin,
        requirements: String::new(),
        python_path: String::new(),
    };
    let parsed = Config { requires_python: "3.11".to_string(), profiles: vec![p("default", "a.py", true), p("x", "", false)] };
    let c = load_config_from_yaml(Some(parsed));
    assert_eq!(c.requires_python, "3.11");
    assert_eq!(c.profiles[1].main_script, "a.py");
    assert!(c.profiles[1].admin);
    assert!(c.get_profile("x").is_some());
    assert!(c.get_profile("y").is_none());
    let parsed = Config { requires_python: "3.11".to_string(), profiles: vec![p("main", "a.py", true)] };
    assert_eq!(load_config_from_yaml(Some(parsed)).requires_python, "3.12");
    assert_eq!(Config::default().profiles[0].name, "default");
}

#[test]
fn registry_records() {
    let rec = |name: &str, running: bool, last: i64| App {
        name: name.to_string(),
        current_version: None,
        available_versions: vec![],
        running,
        last_start: last,
        current_profile: String::new(),
        installed: false,
        profiles: vec![],
        show_add_defender: false,
    };
    let mut r = Registry::new();
    r.upsert(rec("a", false, 5));
    r.upsert(rec("b", false, 9));
    r.upsert(rec("a", false, 1));
    assert_eq!(r.len(), 2);
    assert_eq!(r.get_app_by_name("a").unwrap().last_start, 1);
    assert!(r.get_app_by_name("c").is_none());
    assert!(r.set_running("a", true));
    assert!(!r.set_running("a", true));
    assert!(!r.set_running("zzz", true));
    let order: Vec<String> = r.list().into_iter().map(|x| x.name).collect();
    assert_eq!(order, vec!["a", "b"]);
    assert_eq!(r.names(), vec!["a", "b"]);
}

#[test]
fn text_helpers() {
    assert_eq!(trim("\u{3000} a b \t\n"), "a b");
    assert_eq!(split_whitespace("  a\tb  c "), vec!["a", "b", "c"]);
    assert_eq!(decimal(0), "0");
    assert_eq!(decimal(18446744073709551615), "18446744073709551615");
    assert_eq!(signed_decimal(-7), "-7");
    assert_eq!(signed_decimal(i64::MIN), "-9223372036854775808");
}
