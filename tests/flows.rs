use pyappify::app::{
    correct_record_name, finish_setup, finish_update, mark_not_installed, needs_requirements_install,
    record_start, stale_app_dirs, App,
};
use pyappify::registry::{OpGate, Registry};
use pyappify::supervisor::{
    is_root_uid_output, launch_mode, start_poll, LaunchMode, StartPoll, START_POLL_ATTEMPTS,
};

fn record(name: &str, installed: bool) -> App {
    App {
        name: name.to_string(),
        current_version: None,
        available_versions: vec![],
        running: false,
        last_start: 0,
        current_profile: String::new(),
        installed,
        profiles: vec![],
        show_add_defender: false,
    }
}

#[test]
fn second_setup_waits_and_sees_first_result() {
    let mut gate = OpGate::new();
    let mut registry = Registry::new();
    registry.upsert(record("demo", false));
    assert!(gate.try_begin("demo"));
    assert!(!gate.try_begin("demo"));
    assert!(gate.try_begin("other"));
    let mut first = registry.get_app_by_name("demo").unwrap();
    finish_setup(&mut first, "gui".to_string());
    registry.upsert(first);
    gate.finish("demo");
    assert!(gate.try_begin("demo"));
    let seen = registry.get_app_by_name("demo").unwrap();
    assert!(seen.installed);
    assert_eq!(seen.current_profile, "gui");
    assert_eq!(registry.len(), 1);
    gate.finish("demo");
    gate.finish("other");
    assert!(gate.try_begin("other"));
}

#[test]
fn record_name_follows_directory() {
    let mut a = record("old", false);
    assert!(correct_record_name(&mut a, "new"));
    assert_eq!(a.name, "new");
    assert!(!correct_record_name(&mut a, "new"));
}

#[test]
fn stale_directories() {
    let dirs = vec!["demo".to_string(), "old".to_string(), "tmp".to_string()];
    assert_eq!(stale_app_dirs(&dirs, "demo"), vec!["old", "tmp"]);
}

#[test]
fn root_uid_detection() {
    assert!(is_root_uid_output("0\n"));
    assert!(!is_root_uid_output("1000\n"));
}

#[test]
fn elevation_decision() {
    assert!(matches!(launch_mode(false, false), LaunchMode::Direct));
    assert!(matches!(launch_mode(false, true), LaunchMode::Direct));
    assert!(matches!(launch_mode(true, false), LaunchMode::Elevated));
    assert!(matches!(launch_mode(true, true), LaunchMode::AlreadyElevated));
}

#[test]
fn repo_path_of_record() {
    let cwd = vec!["/".to_string(), "srv".to_string()];
    assert_eq!(record("demo", false).get_repo_path(&cwd), vec!["/", "srv", "data", "apps", "demo", "repo"]);
}

#[test]
fn record_steps() {
    let mut a = record("demo", true);
    finish_update(&mut a, "1.2.0");
    assert_eq!(a.current_version, Some("1.2.0".to_string()));
    record_start(&mut a, 42);
    assert_eq!(a.last_start, 42);
    mark_not_installed(&mut a);
    assert!(!a.installed);
    assert!(needs_requirements_install("requirements.txt"));
    assert!(!needs_requirements_install(""));
}

#[test]
fn start_polling() {
    assert_eq!(start_poll(1, true), StartPoll::Running);
    assert_eq!(start_poll(1, false), StartPoll::Wait);
    assert_eq!(start_poll(START_POLL_ATTEMPTS - 1, false), StartPoll::Wait);
    assert_eq!(start_poll(START_POLL_ATTEMPTS, false), StartPoll::GiveUp);
    assert_eq!(start_poll(START_POLL_ATTEMPTS, true), StartPoll::Running);
}
