use pyappify::app::{
    apply_profile_inheritance, get_apps_as_vec, get_profile_for_setup, inherit_profiles,
    merge_disk_record, prepare_manifest_app, reconcile_installed, should_auto_start,
    update_app_from_manifest, apply_version_info, App, Profile, SetupError,
};

fn profile(name: &str) -> Profile {
    Profile {
        name: name.to_string(),
        main_script: String::new(),
        admin: None,
        requires_defender_whitelist: None,
        requirements: String::new(),
        python_path: String::new(),
        git_url: String::new(),
        requires_python: String::new(),
        pip_args: String::new(),
    }
}

fn app(name: &str, profiles: Vec<Profile>) -> App {
    App {
        name: name.to_string(),
        current_version: None,
        available_versions: vec![],
        running: false,
        last_start: 0,
        current_profile: String::new(),
        installed: false,
        profiles,
        show_add_defender: false,
    }
}

#[test]
fn gui_profile_inherits_from_default() {
    let mut first = profile("default");
    first.main_script = "app.py".to_string();
    first.requirements = "requirements.txt".to_string();
    let mut gui = profile("gui");
    gui.admin = Some(true);
    let mut a = app("demo", vec![first, gui]);
    apply_profile_inheritance(&mut a);
    let g = &a.profiles[1];
    assert_eq!(g.main_script, "app.py");
    assert_eq!(g.requirements, "requirements.txt");
    assert_eq!(g.admin, Some(true));
    assert!(g.is_admin());
    assert_eq!(g.name, "gui");
}

#[test]
fn inheritance_twice_is_a_no_op() {
    let mut first = profile("default");
    first.main_script = "main.py".to_string();
    first.git_url = "https://example.com/a.git".to_string();
    first.requires_python = "3.12".to_string();
    first.admin = Some(false);
    let mut other = profile("other");
    other.main_script = "other.py".to_string();
    let once = inherit_profiles(&vec![first, other]);
    let twice = inherit_profiles(&once);
    assert_eq!(once.len(), twice.len());
    for (a, b) in once.iter().zip(twice.iter()) {
        assert_eq!(a.main_script, b.main_script);
        assert_eq!(a.git_url, b.git_url);
        assert_eq!(a.requires_python, b.requires_python);
        assert_eq!(a.admin, b.admin);
    }
    assert_eq!(once[1].main_script, "other.py");
    assert_eq!(once[1].git_url, "https://example.com/a.git");
    assert_eq!(once[1].admin, Some(false));
}

#[test]
fn get_profile_falls_back_to_first() {
    let a = app("demo", vec![profile("default"), profile("gui")]);
    assert_eq!(a.get_profile("gui").unwrap().name, "gui");
    assert_eq!(a.get_profile("missing").unwrap().name, "default");
    assert!(app("empty", vec![]).get_profile("x").is_none());
}

#[test]
fn manifest_sets_empty_current_profile_to_first() {
    let mut a = app("demo", vec![profile("default"), profile("gui")]);
    prepare_manifest_app(&mut a);
    assert_eq!(a.current_profile, "default");
    assert_eq!(a.get_current_profile_settings().name, "default");
}

#[test]
fn manifest_refresh_keeps_or_resets_current_profile() {
    let mut a = app("old", vec![profile("default"), profile("gui")]);
    a.current_profile = "gui".to_string();
    let parsed = app("new", vec![profile("main"), profile("gui")]);
    update_app_from_manifest(&mut a, &parsed);
    assert_eq!(a.name, "new");
    assert_eq!(a.current_profile, "gui");
    let parsed = app("new", vec![profile("main")]);
    update_app_from_manifest(&mut a, &parsed);
    assert_eq!(a.current_profile, "main");
}

#[test]
fn disk_record_takes_template_profiles() {
    let mut disk = app("demo", vec![profile("stale")]);
    disk.current_profile = "gui".to_string();
    disk.installed = true;
    let template = app("demo", vec![profile("default"), profile("gui")]);
    merge_disk_record(&mut disk, &template, true);
    assert!(disk.running);
    assert!(disk.installed);
    assert_eq!(disk.profiles.len(), 2);
    assert_eq!(disk.current_profile, "gui");
}

#[test]
fn missing_runtime_demotes_and_deletes() {
    let mut a = app("demo", vec![profile("default")]);
    a.installed = true;
    assert!(reconcile_installed(&mut a, false, true));
    assert!(!a.installed);
    let mut b = app("demo", vec![profile("default")]);
    b.installed = true;
    assert!(!reconcile_installed(&mut b, true, false));
    assert!(!b.installed);
    let mut c = app("demo", vec![profile("default")]);
    c.installed = true;
    assert!(!reconcile_installed(&mut c, true, true));
    assert!(c.installed);
}

#[test]
fn auto_start_only_for_single_installed_latest_app() {
    let mut a = app("demo", vec![profile("default")]);
    a.installed = true;
    a.available_versions = vec!["2.0".to_string(), "1.0".to_string()];
    a.current_version = Some("2.0".to_string());
    let mut apps = vec![a];
    assert!(should_auto_start(&apps));
    apps[0].current_version = Some("1.0".to_string());
    assert!(!should_auto_start(&apps));
}

#[test]
fn version_info_reports_change() {
    let mut a = app("demo", vec![profile("default")]);
    assert!(apply_version_info(&mut a, vec!["1.0".to_string()], "1.0".to_string()));
    assert!(!apply_version_info(&mut a, vec!["1.0".to_string()], "1.0".to_string()));
    assert_eq!(a.current_version, Some("1.0".to_string()));
}

#[test]
fn display_order_running_first_then_recent() {
    let mut a = app("a", vec![]);
    a.last_start = 10;
    let mut b = app("b", vec![]);
    b.last_start = 30;
    let mut c = app("c", vec![]);
    c.running = true;
    c.last_start = 5;
    let out = get_apps_as_vec(vec![a, b, c]);
    let order: Vec<&str> = out.iter().map(|x| x.name.as_str()).collect();
    assert_eq!(order, vec!["c", "b", "a"]);
}

#[test]
fn setup_profile_choice() {
    let a = app("demo", vec![profile("default"), profile("gui")]);
    let (p, n) = get_profile_for_setup(&a, "gui").ok().unwrap();
    assert_eq!(p.name, "gui");
    assert_eq!(n, "gui");
    let (p, n) = get_profile_for_setup(&a, "nope").ok().unwrap();
    assert_eq!(p.name, "default");
    assert_eq!(n, "nope");
    let empty = app("demo", vec![]);
    assert!(matches!(get_profile_for_setup(&empty, "default"), Err(SetupError::ProfileNotFound)));
}
