//! Process supervision decisions: which processes belong to an application,
//! what stopping it comes to, the child's environment and command line.

use vstd::prelude::*;
use crate::app::Profile;
use crate::text::{decimal_text, has_infix, has_suffix, push_char, texts, trimmed};

verus! {

/// A running process as enumerated: its id and the components of its
/// executable's path, where that is known.
pub struct ProcessInfo {
    pub pid: u32,
    pub exe: Option<Vec<String>>,
}

pub type ProcessView = (u32, Option<Seq<Seq<char>>>);

impl View for ProcessInfo {
    type V = ProcessView;

    open spec fn view(&self) -> ProcessView {
        (
            self.pid,
            match self.exe {
                Some(e) => Some(texts(e@)),
                None => None,
            },
        )
    }
}

pub open spec fn process_views(v: Seq<ProcessInfo>) -> Seq<ProcessView> {
    v.map_values(|p: ProcessInfo| p@)
}

/// `dir`'s components begin `path`.
pub open spec fn lies_under(path: Seq<Seq<char>>, dir: Seq<Seq<char>>) -> bool {
    dir.len() <= path.len() && path.subrange(0, dir.len() as int) == dir
}

/// A process belongs to an application when its executable lies under the
/// application's directory.
pub open spec fn related_to(p: ProcessView, dir: Seq<Seq<char>>) -> bool {
    match p.1 {
        Some(e) => lies_under(e, dir),
        None => false,
    }
}

/// The ids of the processes that belong to the application, in listing order.
pub open spec fn related_pids(ps: Seq<ProcessView>, dir: Seq<Seq<char>>) -> Seq<u32>
    decreases ps.len(),
{
    if ps.len() == 0 {
        Seq::empty()
    } else {
        let r = related_pids(ps.drop_last(), dir);
        if related_to(ps.last(), dir) {
            r.push(ps.last().0)
        } else {
            r
        }
    }
}

/// Whether a process's executable lies under the application directory.
pub fn is_process_related_to_app_dir(process: &ProcessInfo, app_dir: &Vec<String>) -> (r: bool)
    ensures
        r == related_to(process@, texts(app_dir@)),
{
    match &process.exe {
        None => false,
        Some(e) => {
            let ghost ev = texts(e@);
            let ghost dv = texts(app_dir@);
            if app_dir.len() > e.len() {
                return false;
            }
            let mut i: usize = 0;
            while i < app_dir.len()
                invariant
                    ev == texts(e@),
                    dv == texts(app_dir@),
                    process@.1 == Some(ev),
                    app_dir@.len() <= e@.len(),
                    i <= app_dir@.len(),
                    forall|j: int| 0 <= j < i ==> ev[j] == dv[j],
                decreases app_dir@.len() - i,
            {
                assert(ev[i as int] == e@[i as int]@ && dv[i as int] == app_dir@[i as int]@);
                if !crate::text::same_text(e[i].as_str(), app_dir[i].as_str()) {
                    assert(ev.len() == e@.len() && dv.len() == app_dir@.len());
                    assert(ev.subrange(0, dv.len() as int)[i as int] != dv[i as int]);
                    assert(ev.subrange(0, dv.len() as int) != dv);
                    assert(!lies_under(ev, dv));
                    assert(process@.1 == Some(ev));
                    return false;
                }
                i = i + 1;
            }
            assert(ev.len() == e@.len() && dv.len() == app_dir@.len());
            assert(ev.subrange(0, dv.len() as int) =~= dv);
            true
        },
    }
}

/// The ids of the processes that belong to the application directory.
pub fn get_pids_related_to_app_dir(processes: &Vec<ProcessInfo>, app_dir: &Vec<String>) -> (r: Vec<u32>)
    ensures
        r@ == related_pids(process_views(processes@), texts(app_dir@)),
{
    let ghost ps = process_views(processes@);
    let mut out: Vec<u32> = Vec::new();
    let mut i: usize = 0;
    while i < processes.len()
        invariant
            ps == process_views(processes@),
            i <= processes@.len(),
            out@ == related_pids(ps.subrange(0, i as int), texts(app_dir@)),
        decreases processes@.len() - i,
    {
        assert(ps.subrange(0, i + 1).drop_last() =~= ps.subrange(0, i as int));
        assert(ps.subrange(0, i + 1).last() == processes@[i as int]@);
        if is_process_related_to_app_dir(&processes[i], app_dir) {
            out.push(processes[i].pid);
        }
        i = i + 1;
    }
    assert(ps.subrange(0, processes@.len() as int) =~= ps);
    out
}

/// An application is running while some process belongs to it.
pub fn is_app_running(processes: &Vec<ProcessInfo>, app_dir: &Vec<String>) -> (r: bool)
    ensures
        r == (related_pids(process_views(processes@), texts(app_dir@)).len() > 0),
{
    get_pids_related_to_app_dir(processes, app_dir).len() > 0
}

/// The grace period after a termination pass, in milliseconds.
pub const STOP_GRACE_MS: u64 = 1000;

/// What a termination pass targets.
pub struct KillPlan {
    pub pids: Vec<u32>,
    pub targeted_any: bool,
    /// How long to wait before the final liveness check.
    pub grace_ms: u64,
}

/// The termination pass over a process listing: every process of the
/// application is targeted; a grace period follows only when one was.
pub fn kill_app_processes(processes: &Vec<ProcessInfo>, app_dir: &Vec<String>) -> (r: KillPlan)
    ensures
        r.pids@ == related_pids(process_views(processes@), texts(app_dir@)),
        r.targeted_any == (r.pids@.len() > 0),
        r.grace_ms == if r.targeted_any {
            STOP_GRACE_MS
        } else {
            0
        },
{
    let pids = get_pids_related_to_app_dir(processes, app_dir);
    let targeted_any = pids.len() > 0;
    KillPlan { pids, targeted_any, grace_ms: if targeted_any { STOP_GRACE_MS } else { 0 } }
}

/// What to do after the normal kill of one process failed: escalate to a
/// privileged kill, unless the process is gone already.
pub fn escalate_after_failed_kill(still_present: bool) -> (r: bool)
    ensures
        r == still_present,
{
    still_present
}

/// The outcome of a stop, after the final liveness check.
pub struct StopOutcome {
    /// The running flag the record takes.
    pub running: bool,
    /// Whether the record's running flag changed.
    pub status_changed: bool,
    /// Processes were targeted and some still run: reported, not retried.
    pub may_still_run: bool,
}

pub fn stop_app(was_running: bool, targeted_any: bool, running_now: bool) -> (r: StopOutcome)
    ensures
        r.running == running_now,
        r.status_changed == (was_running != running_now),
        r.may_still_run == (targeted_any && running_now),
{
    StopOutcome {
        running: running_now,
        status_changed: was_running != running_now,
        may_still_run: targeted_any && running_now,
    }
}

/// Stopping an application none of whose processes are listed targets
/// nothing, waits for nothing, and leaves it not running.
pub proof fn lemma_stop_without_processes(ps: Seq<ProcessView>, dir: Seq<Seq<char>>)
    requires
        forall|i: int| 0 <= i < ps.len() ==> !related_to(#[trigger] ps[i], dir),
    ensures
        related_pids(ps, dir).len() == 0,
{
    lemma_no_related(ps, dir);
}

proof fn lemma_no_related(ps: Seq<ProcessView>, dir: Seq<Seq<char>>)
    requires
        forall|i: int| 0 <= i < ps.len() ==> !related_to(#[trigger] ps[i], dir),
    ensures
        related_pids(ps, dir).len() == 0,
    decreases ps.len(),
{
    if ps.len() > 0 {
        let t = ps.drop_last();
        assert forall|i: int| 0 <= i < t.len() implies !related_to(#[trigger] t[i], dir) by {
            assert(t[i] == ps[i]);
        }
        lemma_no_related(t, dir);
        assert(!related_to(ps[ps.len() - 1], dir));
    }
}


pub open spec fn pair_views(v: Seq<(String, String)>) -> Seq<(Seq<char>, Seq<char>)> {
    v.map_values(|p: (String, String)| (p.0@, p.1@))
}

fn push_pair(v: &mut Vec<(String, String)>, k: &str, x: &str)
    ensures
        pair_views(final(v)@) == pair_views(old(v)@).push((k@, x@)),
{
    v.push((k.to_owned(), x.to_owned()));
    assert(pair_views(final(v)@) =~= pair_views(old(v)@).push((k@, x@)));
}

fn push_text(v: &mut Vec<String>, x: &str)
    ensures
        texts(final(v)@) == texts(old(v)@).push(x@),
{
    v.push(x.to_owned());
    assert(texts(final(v)@) =~= texts(old(v)@).push(x@));
}

/// The variables a child is started without: inherited runtime-home and
/// virtual-environment markers, and the search path where the profile sets none.
pub open spec fn removed_env_spec(python_path: Seq<char>) -> Seq<Seq<char>> {
    seq!["PYTHONHOME"@, "PYTHONSTARTUP"@, "VIRTUAL_ENV"@] + if python_path.len() == 0 {
        seq!["PYTHONPATH"@]
    } else {
        Seq::empty()
    }
}

/// The variables a child is started with.
pub open spec fn env_spec(
    python_path: Seq<char>,
    current_version: Option<Seq<char>>,
    profile_name: Seq<char>,
    pid: u32,
    launcher_version: Seq<char>,
    executable: Option<Seq<char>>,
) -> Seq<(Seq<char>, Seq<char>)> {
    (if python_path.len() > 0 {
        seq![("PYTHONPATH"@, python_path)]
    } else {
        Seq::empty()
    }) + (match current_version {
        Some(v) => seq![("PYAPPIFY_APP_VERSION"@, v)],
        None => Seq::empty(),
    }) + seq![
        ("PYAPPIFY_APP_PROFILE"@, profile_name),
        ("PYAPPIFY_PID"@, decimal_text(pid as nat)),
        ("PYAPPIFY_UPGRADEABLE"@, "1"@),
        ("PYAPPIFY_VERSION"@, launcher_version),
        ("PYTHONIOENCODING"@, "utf-8"@),
        ("PYTHONUNBUFFERED"@, "1"@),
    ] + (match executable {
        Some(e) => seq![("PYAPPIFY_EXECUTABLE"@, e)],
        None => Seq::empty(),
    })
}

/// The child's environment: the variables to set and the ones to remove.
/// `pid` is the supervisor's own process id, `launcher_version` its version
/// and `executable` its executable path, where known.
pub fn build_python_execution_environment(
    profile: &Profile,
    current_version: Option<String>,
    pid: u32,
    launcher_version: &str,
    executable: Option<&str>,
) -> (r: (Vec<(String, String)>, Vec<String>))
    ensures
        pair_views(r.0@) == env_spec(
            profile.python_path@,
            crate::version::opt_text(current_version),
            profile.name@,
            pid,
            launcher_version@,
            match executable {
                Some(e) => Some(e@),
                None => None,
            },
        ),
        texts(r.1@) == removed_env_spec(profile.python_path@),
{
    let mut remove: Vec<String> = Vec::new();
    push_text(&mut remove, "PYTHONHOME");
    push_text(&mut remove, "PYTHONSTARTUP");
    push_text(&mut remove, "VIRTUAL_ENV");
    let mut envs: Vec<(String, String)> = Vec::new();
    if profile.python_path.unicode_len() > 0 {
        push_pair(&mut envs, "PYTHONPATH", profile.python_path.as_str());
    } else {
        push_text(&mut remove, "PYTHONPATH");
    }
    let ghost e1 = pair_views(envs@);
    match &current_version {
        Some(v) => push_pair(&mut envs, "PYAPPIFY_APP_VERSION", v.as_str()),
        None => {},
    }
    let ghost e2 = pair_views(envs@);
    let pid_text = crate::text::decimal(pid as u64);
    push_pair(&mut envs, "PYAPPIFY_APP_PROFILE", profile.name.as_str());
    push_pair(&mut envs, "PYAPPIFY_PID", pid_text.as_str());
    push_pair(&mut envs, "PYAPPIFY_UPGRADEABLE", "1");
    push_pair(&mut envs, "PYAPPIFY_VERSION", launcher_version);
    push_pair(&mut envs, "PYTHONIOENCODING", "utf-8");
    push_pair(&mut envs, "PYTHONUNBUFFERED", "1");
    let ghost e3 = pair_views(envs@);
    match executable {
        Some(e) => push_pair(&mut envs, "PYAPPIFY_EXECUTABLE", e),
        None => {},
    }
    proof {
        let path_part = if profile.python_path@.len() > 0 {
            seq![("PYTHONPATH"@, profile.python_path@)]
        } else {
            Seq::<(Seq<char>, Seq<char>)>::empty()
        };
        assert(e1 =~= path_part);
        let version_part = match crate::version::opt_text(current_version) {
            Some(v) => seq![("PYAPPIFY_APP_VERSION"@, v)],
            None => Seq::<(Seq<char>, Seq<char>)>::empty(),
        };
        assert(e2 =~= path_part + version_part);
        assert(e3 =~= path_part + version_part + seq![
            ("PYAPPIFY_APP_PROFILE"@, profile.name@),
            ("PYAPPIFY_PID"@, decimal_text(pid as nat)),
            ("PYAPPIFY_UPGRADEABLE"@, "1"@),
            ("PYAPPIFY_VERSION"@, launcher_version@),
            ("PYTHONIOENCODING"@, "utf-8"@),
            ("PYTHONUNBUFFERED"@, "1"@),
        ]);
        assert(pair_views(envs@) =~= env_spec(
            profile.python_path@,
            crate::version::opt_text(current_version),
            profile.name@,
            pid,
            launcher_version@,
            match executable {
                Some(e) => Some(e@),
                None => None,
            },
        ));
        assert(texts(remove@) =~= removed_env_spec(profile.python_path@));
    }
    (envs, remove)
}

/// The variables cleared on every child command before its own are set.
pub fn python_envs_to_clear() -> (r: Vec<String>)
    ensures
        texts(r@) == seq![
            "PYTHONHOME"@,
            "PYTHONSTARTUP"@,
            "VIRTUAL_ENV"@,
            "Path"@,
            "PYTHONPATH"@,
            "PYTHONUSERBASE"@,
        ],
{
    let mut r: Vec<String> = Vec::new();
    push_text(&mut r, "PYTHONHOME");
    push_text(&mut r, "PYTHONSTARTUP");
    push_text(&mut r, "VIRTUAL_ENV");
    push_text(&mut r, "Path");
    push_text(&mut r, "PYTHONPATH");
    push_text(&mut r, "PYTHONUSERBASE");
    assert(texts(r@) =~= seq![
        "PYTHONHOME"@,
        "PYTHONSTARTUP"@,
        "VIRTUAL_ENV"@,
        "Path"@,
        "PYTHONPATH"@,
        "PYTHONUSERBASE"@,
    ]);
    r
}

/// The program and arguments that run an entry point: a `.py` script runs
/// under the runtime, anything else runs itself; the supervisor's own extra
/// arguments follow.
pub fn script_command(python_path: &str, script_path: &str, extra_args: &Vec<String>) -> (r: (
    String,
    Vec<String>,
))
    ensures
        has_suffix(script_path@, ".py"@) ==> r.0@ == python_path@ && texts(r.1@) == seq![
            script_path@,
        ] + texts(extra_args@),
        !has_suffix(script_path@, ".py"@) ==> r.0@ == script_path@ && texts(r.1@) == texts(
            extra_args@,
        ),
{
    let is_py = crate::text::ends_with(script_path, ".py");
    let mut args: Vec<String> = Vec::new();
    let program = if is_py {
        push_text(&mut args, script_path);
        python_path.to_owned()
    } else {
        script_path.to_owned()
    };
    let ghost start = texts(args@);
    let mut i: usize = 0;
    while i < extra_args.len()
        invariant
            i <= extra_args@.len(),
            texts(args@) == start + texts(extra_args@).subrange(0, i as int),
        decreases extra_args@.len() - i,
    {
        push_text(&mut args, extra_args[i].as_str());
        i = i + 1;
        assert(texts(args@) =~= start + texts(extra_args@).subrange(0, i as int));
    }
    assert(texts(extra_args@).subrange(0, extra_args@.len() as int) =~= texts(extra_args@));
    assert(is_py ==> start =~= seq![script_path@]);
    assert(!is_py ==> start =~= Seq::<Seq<char>>::empty());
    (program, args)
}

/// The privileged kill command for a process: `taskkill /F /PID <pid>` on
/// Windows, `kill -9 <pid>` elsewhere.
pub fn elevated_kill_command(pid: u32, windows: bool) -> (r: (String, Vec<String>))
    ensures
        windows ==> r.0@ == "taskkill"@ && texts(r.1@) == seq!["/F"@, "/PID"@, decimal_text(pid as nat)],
        !windows ==> r.0@ == "kill"@ && texts(r.1@) == seq!["-9"@, decimal_text(pid as nat)],
{
    let p = crate::text::decimal(pid as u64);
    let mut args: Vec<String> = Vec::new();
    if windows {
        push_text(&mut args, "/F");
        push_text(&mut args, "/PID");
        push_text(&mut args, p.as_str());
        assert(texts(args@) =~= seq!["/F"@, "/PID"@, decimal_text(pid as nat)]);
        ("taskkill".to_owned(), args)
    } else {
        push_text(&mut args, "-9");
        push_text(&mut args, p.as_str());
        assert(texts(args@) =~= seq!["-9"@, decimal_text(pid as nat)]);
        ("kill".to_owned(), args)
    }
}

/// A line of a child's error output is passed on to the log unless it is
/// blank or the package installer's upgrade notice.
pub fn should_forward_stderr(line: &str) -> (r: bool)
    ensures
        r == (trimmed(line@).len() > 0 && !has_infix(line@, "A new release of pip is available"@)
            && !has_infix(line@, "[notice] To update, run"@)),
{
    let t = crate::text::trim(line);
    t.unicode_len() > 0 && !crate::text::contains(line, "A new release of pip is available")
        && !crate::text::contains(line, "[notice] To update, run")
}

/// Where an entry point is looked for, in order: the working directory, the
/// runtime's scripts directory, then that directory with each executable
/// extension of the platform.
pub fn script_candidates(
    script: &str,
    working_dir: &Vec<String>,
    script_dir: &Vec<String>,
    windows: bool,
) -> (r: Vec<Vec<String>>)
    ensures
        r@.len() == if windows {
            7nat
        } else {
            4nat
        },
        texts(r@[0]@) == texts(working_dir@).push(script@),
        texts(r@[1]@) == texts(script_dir@).push(script@),
        forall|i: int|
            2 <= i < r@.len() ==> texts((#[trigger] r@[i])@) == texts(script_dir@).push(
                script@ + (if windows {
                    seq![".exe"@, ".bat"@, ".cmd"@, ".ps1"@, ""@]
                } else {
                    seq![""@, ".sh"@]
                })[i - 2],
            ),
{
    let mut out: Vec<Vec<String>> = Vec::new();
    let mut a = crate::app::copy_texts(working_dir);
    push_text(&mut a, script);
    out.push(a);
    let mut b = crate::app::copy_texts(script_dir);
    push_text(&mut b, script);
    out.push(b);
    let exts: Vec<&str> = if windows {
        vec![".exe", ".bat", ".cmd", ".ps1", ""]
    } else {
        vec!["", ".sh"]
    };
    let ghost ext_views = if windows {
        seq![".exe"@, ".bat"@, ".cmd"@, ".ps1"@, ""@]
    } else {
        seq![""@, ".sh"@]
    };
    assert(exts@.map_values(|e: &str| e@) =~= ext_views);
    let mut i: usize = 0;
    while i < exts.len()
        invariant
            exts@.map_values(|e: &str| e@) == ext_views,
            out@.len() == 2 + i,
            i <= exts@.len(),
            texts(out@[0]@) == texts(working_dir@).push(script@),
            texts(out@[1]@) == texts(script_dir@).push(script@),
            forall|j: int|
                2 <= j < out@.len() ==> texts((#[trigger] out@[j])@) == texts(script_dir@).push(
                    script@ + ext_views[j - 2],
                ),
        decreases exts@.len() - i,
    {
        let mut name = script.to_owned();
        name.append(exts[i]);
        assert(ext_views[i as int] == exts@[i as int]@);
        let mut c = crate::app::copy_texts(script_dir);
        push_text(&mut c, name.as_str());
        out.push(c);
        i = i + 1;
    }
    out
}


/// `a` with every `"` doubled.
pub open spec fn doubled_quotes(a: Seq<char>) -> Seq<char>
    decreases a.len(),
{
    if a.len() == 0 {
        Seq::empty()
    } else {
        doubled_quotes(a.drop_last()) + if a.last() == '"' {
            seq!['"', '"']
        } else {
            seq![a.last()]
        }
    }
}

/// An argument as shown: quoted, with inner quotes doubled, where it holds
/// a space or a quote.
pub open spec fn shown_arg(a: Seq<char>) -> Seq<char> {
    if has_infix(a, " "@) || has_infix(a, "\""@) {
        seq!['"'] + doubled_quotes(a) + seq!['"']
    } else {
        a
    }
}

/// The arguments as shown, each after a space; arguments that are not
/// valid text are left out.
pub open spec fn shown_args(args: Seq<Option<Seq<char>>>) -> Seq<char>
    decreases args.len(),
{
    if args.len() == 0 {
        Seq::empty()
    } else {
        shown_args(args.drop_last()) + match args.last() {
            Some(a) => seq![' '] + shown_arg(a),
            None => Seq::empty(),
        }
    }
}

fn quote_doubled(a: &str) -> (r: String)
    ensures
        r@ == doubled_quotes(a@),
{
    let n = a.unicode_len();
    let mut out = String::new();
    let mut i: usize = 0;
    while i < n
        invariant
            n == a@.len(),
            i <= n,
            out@ == doubled_quotes(a@.subrange(0, i as int)),
        decreases n - i,
    {
        let c = a.get_char(i);
        assert(a@.subrange(0, i + 1).drop_last() =~= a@.subrange(0, i as int));
        let ghost before = out@;
        push_char(&mut out, c);
        if c == '"' {
            push_char(&mut out, '"');
        }
        i = i + 1;
        assert(out@ =~= doubled_quotes(a@.subrange(0, i as int)));
    }
    assert(a@.subrange(0, n as int) =~= a@);
    out
}

pub open spec fn opt_texts(v: Seq<Option<String>>) -> Seq<Option<Seq<char>>> {
    v.map_values(|o: Option<String>| crate::version::opt_text(o))
}

/// A command as one line for the log: the program (or a placeholder where
/// its path is not valid text) and the arguments.
pub fn command_to_string(program: Option<&str>, args: &Vec<Option<String>>) -> (r: String)
    ensures
        r@ == match program {
            Some(p) => p@,
            None => "<non-UTF8 program path>"@,
        } + shown_args(opt_texts(args@)),
{
    let mut out = match program {
        Some(p) => p.to_owned(),
        None => "<non-UTF8 program path>".to_owned(),
    };
    let ghost head = out@;
    let ghost av = opt_texts(args@);
    let mut i: usize = 0;
    while i < args.len()
        invariant
            av == opt_texts(args@),
            av.len() == args@.len(),
            i <= args@.len(),
            out@ == head + shown_args(av.subrange(0, i as int)),
        decreases args@.len() - i,
    {
        assert(av.subrange(0, i + 1).drop_last() =~= av.subrange(0, i as int));
        assert(av.subrange(0, i + 1).last() == crate::version::opt_text(args@[i as int]));
        let ghost before = out@;
        match &args[i] {
            Some(a) => {
                push_char(&mut out, ' ');
                if crate::text::contains(a.as_str(), " ") || crate::text::contains(a.as_str(), "\"") {
                    push_char(&mut out, '"');
                    let d = quote_doubled(a.as_str());
                    out.append(d.as_str());
                    push_char(&mut out, '"');
                    assert(out@ =~= before + (seq![' '] + shown_arg(a@)));
                } else {
                    out.append(a.as_str());
                    assert(out@ =~= before + (seq![' '] + shown_arg(a@)));
                }
            },
            None => {
                assert(before + Seq::<char>::empty() =~= before);
            },
        }
        i = i + 1;
        assert(out@ =~= head + shown_args(av.subrange(0, i as int)));
    }
    assert(av.subrange(0, av.len() as int) =~= av);
    out
}

/// A log line for the event sink.
pub struct LogLine {
    pub message: String,
    /// The line replaces the previous one (a progress update).
    pub update: bool,
    pub error: bool,
}

/// How a message goes to the sink: an empty error message is dropped; a
/// message ending in a carriage return loses it and becomes an update.
pub fn emit_log_impl(message: &str, is_update: bool, is_error: bool) -> (r: Option<LogLine>)
    ensures
        is_error && message@.len() == 0 ==> r is None,
        !(is_error && message@.len() == 0) ==> (r matches Some(l) && l.error == is_error && if has_suffix(message@, seq!['\r']) {
            l.update && l.message@ == message@.subrange(0, message@.len() - 1)
        } else {
            l.update == is_update && l.message@ == message@
        }),
{
    let n = message.unicode_len();
    if is_error && n == 0 {
        return None;
    }
    if n > 0 && message.get_char(n - 1) == '\r' {
        assert(message@.subrange(message@.len() - 1, message@.len() as int) =~= seq!['\r']);
        Some(LogLine { message: message.substring_char(0, n - 1).to_owned(), update: true, error: is_error })
    } else {
        proof {
            if n > 0 {
                assert(message@.subrange(n - 1, n as int)[0] == message@[n - 1]);
            }
        }
        Some(LogLine { message: message.to_owned(), update: is_update, error: is_error })
    }
}


/// A process runs elevated (outside Windows) when `id -u` prints `0`.
pub fn is_root_uid_output(stdout: &str) -> (r: bool)
    ensures
        r == (trimmed(stdout@) == "0"@),
{
    let t = crate::text::trim(stdout);
    crate::text::same_text(t.as_str(), "0")
}


/// How an entry point is started.
#[derive(Debug)]
pub enum LaunchMode {
    /// A plain child process.
    Direct,
    /// Through the platform's privilege-elevation helper.
    Elevated,
    /// The profile asks for elevation but the supervisor already has it:
    /// started directly, with a note in the log.
    AlreadyElevated,
}

/// A profile that asks for elevation is started through the elevation
/// helper, unless the supervisor already runs elevated.
pub fn launch_mode(requires_admin: bool, currently_admin: bool) -> (r: LaunchMode)
    ensures
        !requires_admin ==> r is Direct,
        requires_admin && !currently_admin ==> r is Elevated,
        requires_admin && currently_admin ==> r is AlreadyElevated,
{
    if !requires_admin {
        LaunchMode::Direct
    } else if currently_admin {
        LaunchMode::AlreadyElevated
    } else {
        LaunchMode::Elevated
    }
}


/// How many liveness checks follow a start, at most.
pub const START_POLL_ATTEMPTS: u32 = 10;

/// The pause before each liveness check after a start, in milliseconds.
pub const START_POLL_INTERVAL_MS: u64 = 1000;

/// What a liveness check after a start comes to.
#[derive(Debug, PartialEq, Eq)]
pub enum StartPoll {
    /// The application runs: record it as running.
    Running,
    /// Not yet seen: wait and check again.
    Wait,
    /// Not seen within the allowed checks: record what a last check shows.
    GiveUp,
}

/// After `checks_done` checks (the last of which saw `running`), whether to
/// record the start, check again, or stop checking.
pub fn start_poll(checks_done: u32, running: bool) -> (r: StartPoll)
    ensures
        running ==> r == StartPoll::Running,
        !running && checks_done < START_POLL_ATTEMPTS ==> r == StartPoll::Wait,
        !running && checks_done >= START_POLL_ATTEMPTS ==> r == StartPoll::GiveUp,
{
    if running {
        StartPoll::Running
    } else if checks_done < START_POLL_ATTEMPTS {
        StartPoll::Wait
    } else {
        StartPoll::GiveUp
    }
}

} // verus!
