use pyappify::app::Profile;
use pyappify::supervisor::{
    build_python_execution_environment, command_to_string, elevated_kill_command, emit_log_impl,
    escalate_after_failed_kill, get_pids_related_to_app_dir, is_app_running,
    is_process_related_to_app_dir, kill_app_processes, python_envs_to_clear, script_candidates,
    script_command, should_forward_stderr, stop_app, ProcessInfo, STOP_GRACE_MS,
};

fn parts(v: &[&str]) -> Vec<String> {
    v.iter().map(|s| s.to_string()).collect()
}

fn process(pid: u32, exe: Option<&[&str]>) -> ProcessInfo {
    ProcessInfo { pid, exe: exe.map(parts) }
}

#[test]
fn related_processes_lie_under_app_dir() {
    let dir = parts(&["/", "srv", "data", "apps", "demo"]);
    let procs = vec![
        process(1, Some(&["/", "srv", "data", "apps", "demo", "python", "python.exe"])),
        process(2, Some(&["/", "srv", "data", "apps", "demo2", "python.exe"])),
        process(3, None),
        process(4, Some(&["/", "srv", "data", "apps", "demo", "tool"])),
    ];
    assert!(is_process_related_to_app_dir(&procs[0], &dir));
    assert!(!is_process_related_to_app_dir(&procs[1], &dir));
    assert_eq!(get_pids_related_to_app_dir(&procs, &dir), vec![1, 4]);
    assert!(is_app_running(&procs, &dir));
}

#[test]
fn stop_without_related_processes_targets_nothing() {
    let dir = parts(&["/", "srv", "data", "apps", "demo"]);
    let procs = vec![process(7, Some(&["/", "usr", "bin", "bash"])), process(8, None)];
    let plan = kill_app_processes(&procs, &dir);
    assert!(!plan.targeted_any);
    assert!(plan.pids.is_empty());
    assert_eq!(plan.grace_ms, 0);
    let running = is_app_running(&procs, &dir);
    let outcome = stop_app(true, plan.targeted_any, running);
    assert!(!outcome.running);
    assert!(outcome.status_changed);
    assert!(!outcome.may_still_run);
}

#[test]
fn stop_with_survivor_is_reported() {
    let dir = parts(&["/", "a"]);
    let procs = vec![process(9, Some(&["/", "a", "b"]))];
    let plan = kill_app_processes(&procs, &dir);
    assert!(plan.targeted_any);
    assert_eq!(plan.grace_ms, STOP_GRACE_MS);
    let outcome = stop_app(true, plan.targeted_any, true);
    assert!(outcome.may_still_run);
    assert!(!outcome.status_changed);
    assert!(escalate_after_failed_kill(true));
    assert!(!escalate_after_failed_kill(false));
}

#[test]
fn child_environment() {
    let p = Profile {
        name: "gui".to_string(),
        main_script: "app.py".to_string(),
        admin: None,
        requires_defender_whitelist: None,
        requirements: String::new(),
        python_path: String::new(),
        git_url: String::new(),
        requires_python: String::new(),
        pip_args: String::new(),
    };
    let (envs, removed) =
        build_python_execution_environment(&p, Some("1.2.0".to_string()), 4242, "0.5.0", Some("/opt/launcher"));
    let pairs: Vec<(&str, &str)> = envs.iter().map(|(k, v)| (k.as_str(), v.as_str())).collect();
    assert_eq!(
        pairs,
        vec![
            ("PYAPPIFY_APP_VERSION", "1.2.0"),
            ("PYAPPIFY_APP_PROFILE", "gui"),
            ("PYAPPIFY_PID", "4242"),
            ("PYAPPIFY_UPGRADEABLE", "1"),
            ("PYAPPIFY_VERSION", "0.5.0"),
            ("PYTHONIOENCODING", "utf-8"),
            ("PYTHONUNBUFFERED", "1"),
            ("PYAPPIFY_EXECUTABLE", "/opt/launcher"),
        ]
    );
    assert_eq!(removed, vec!["PYTHONHOME", "PYTHONSTARTUP", "VIRTUAL_ENV", "PYTHONPATH"]);
    let mut q = p;
    q.python_path = "src".to_string();
    let (envs, removed) = build_python_execution_environment(&q, None, 0, "0.5.0", None);
    assert_eq!(envs[0], ("PYTHONPATH".to_string(), "src".to_string()));
    assert_eq!(envs[2], ("PYAPPIFY_PID".to_string(), "0".to_string()));
    assert_eq!(envs.len(), 7);
    assert_eq!(removed.len(), 3);
    assert_eq!(python_envs_to_clear().len(), 6);
}

#[test]
fn script_commands() {
    let extra = parts(&["--flag"]);
    let (prog, args) = script_command("/py/python.exe", "/w/app.py", &extra);
    assert_eq!(prog, "/py/python.exe");
    assert_eq!(args, vec!["/w/app.py", "--flag"]);
    let (prog, args) = script_command("/py/python.exe", "/py/Scripts/tool.exe", &extra);
    assert_eq!(prog, "/py/Scripts/tool.exe");
    assert_eq!(args, vec!["--flag"]);
}

#[test]
fn script_lookup_order() {
    let c = script_candidates("tool", &parts(&["w"]), &parts(&["py", "Scripts"]), false);
    assert_eq!(c.len(), 4);
    assert_eq!(c[0], parts(&["w", "tool"]));
    assert_eq!(c[1], parts(&["py", "Scripts", "tool"]));
    assert_eq!(c[3], parts(&["py", "Scripts", "tool.sh"]));
    let c = script_candidates("tool", &parts(&["w"]), &parts(&["s"]), true);
    assert_eq!(c.len(), 7);
    assert_eq!(c[2], parts(&["s", "tool.exe"]));
    assert_eq!(c[6], parts(&["s", "tool"]));
}

#[test]
fn kill_commands() {
    let (p, a) = elevated_kill_command(123, true);
    assert_eq!(p, "taskkill");
    assert_eq!(a, vec!["/F", "/PID", "123"]);
    let (p, a) = elevated_kill_command(7, false);
    assert_eq!(p, "kill");
    assert_eq!(a, vec!["-9", "7"]);
}

#[test]
fn stderr_filter() {
    assert!(should_forward_stderr("Traceback (most recent call last):\n"));
    assert!(!should_forward_stderr("   \n"));
    assert!(!should_forward_stderr("[notice] A new release of pip is available: 23.0 -> 24.0\n"));
    assert!(!should_forward_stderr("[notice] To update, run: python -m pip install --upgrade pip\n"));
}

#[test]
fn command_line_for_log() {
    let args = vec![Some("-m".to_string()), Some("a b".to_string()), None, Some("say \"hi\"".to_string())];
    assert_eq!(command_to_string(Some("python"), &args), "python -m \"a b\" \"say \"\"hi\"\"\"");
    assert_eq!(command_to_string(None, &vec![]), "<non-UTF8 program path>");
}

#[test]
fn log_message_shaping() {
    assert!(emit_log_impl("", false, true).is_none());
    let l = emit_log_impl("50%\r", false, false).unwrap();
    assert_eq!(l.message, "50%");
    assert!(l.update);
    let l = emit_log_impl("done", false, true).unwrap();
    assert_eq!(l.message, "done");
    assert!(!l.update);
    assert!(l.error);
}
