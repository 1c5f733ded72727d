//! The application record and its profiles: lookup, inheritance from the
//! first profile, and the record updates that the lifecycle flows make.

use vstd::prelude::*;
use crate::text::texts;
use crate::version::opt_text;

verus! {

/// A named execution configuration of an application.
pub struct Profile {
    pub name: String,
    pub main_script: String,
    pub admin: Option<bool>,
    pub requires_defender_whitelist: Option<bool>,
    pub requirements: String,
    pub python_path: String,
    pub git_url: String,
    pub requires_python: String,
    pub pip_args: String,
}

pub struct ProfileView {
    pub name: Seq<char>,
    pub main_script: Seq<char>,
    pub admin: Option<bool>,
    pub requires_defender_whitelist: Option<bool>,
    pub requirements: Seq<char>,
    pub python_path: Seq<char>,
    pub git_url: Seq<char>,
    pub requires_python: Seq<char>,
    pub pip_args: Seq<char>,
}

impl View for Profile {
    type V = ProfileView;

    open spec fn view(&self) -> ProfileView {
        ProfileView {
            name: self.name@,
            main_script: self.main_script@,
            admin: self.admin,
            requires_defender_whitelist: self.requires_defender_whitelist,
            requirements: self.requirements@,
            python_path: self.python_path@,
            git_url: self.git_url@,
            requires_python: self.requires_python@,
            pip_args: self.pip_args@,
        }
    }
}

/// A text field left empty takes the first profile's value.
pub open spec fn or_first(own: Seq<char>, first: Seq<char>) -> Seq<char> {
    if own.len() == 0 {
        first
    } else {
        own
    }
}

/// A flag left unset takes the first profile's value.
pub open spec fn flag_or_first(own: Option<bool>, first: Option<bool>) -> Option<bool> {
    if own is None {
        first
    } else {
        own
    }
}

/// `p` with every empty or unset field taken from `first`; the name stays.
pub open spec fn inherit_from(p: ProfileView, first: ProfileView) -> ProfileView {
    ProfileView {
        name: p.name,
        main_script: or_first(p.main_script, first.main_script),
        admin: flag_or_first(p.admin, first.admin),
        requires_defender_whitelist: flag_or_first(
            p.requires_defender_whitelist,
            first.requires_defender_whitelist,
        ),
        requirements: or_first(p.requirements, first.requirements),
        python_path: or_first(p.python_path, first.python_path),
        git_url: or_first(p.git_url, first.git_url),
        requires_python: or_first(p.requires_python, first.requires_python),
        pip_args: or_first(p.pip_args, first.pip_args),
    }
}

/// The profiles after inheritance: the first stays, every later one inherits from it.
pub open spec fn with_inheritance(ps: Seq<ProfileView>) -> Seq<ProfileView> {
    Seq::new(
        ps.len(),
        |i: int|
            if i == 0 {
                ps[0]
            } else {
                inherit_from(ps[i], ps[0])
            },
    )
}

pub open spec fn profile_views(ps: Seq<Profile>) -> Seq<ProfileView> {
    ps.map_values(|p: Profile| p@)
}

fn text_or(own: &String, first: &String) -> (r: String)
    ensures
        r@ == or_first(own@, first@),
{
    if own.unicode_len() == 0 {
        first.clone()
    } else {
        own.clone()
    }
}

fn flag_or(own: Option<bool>, first: Option<bool>) -> (r: Option<bool>)
    ensures
        r == flag_or_first(own, first),
{
    match own {
        Some(b) => Some(b),
        None => first,
    }
}

impl Profile {
    pub fn is_admin(&self) -> (r: bool)
        ensures
            r == (self.admin == Some(true)),
    {
        match self.admin {
            Some(b) => b,
            None => false,
        }
    }

    pub fn requires_defender_whitelist(&self) -> (r: bool)
        ensures
            r == (self.requires_defender_whitelist == Some(true)),
    {
        match self.requires_defender_whitelist {
            Some(b) => b,
            None => false,
        }
    }

    pub fn duplicate(&self) -> (r: Profile)
        ensures
            r@ == self@,
    {
        Profile {
            name: self.name.clone(),
            main_script: self.main_script.clone(),
            admin: self.admin,
            requires_defender_whitelist: self.requires_defender_whitelist,
            requirements: self.requirements.clone(),
            python_path: self.python_path.clone(),
            git_url: self.git_url.clone(),
            requires_python: self.requires_python.clone(),
            pip_args: self.pip_args.clone(),
        }
    }

    /// This profile with its empty or unset fields taken from `first`.
    pub fn inherited_from(&self, first: &Profile) -> (r: Profile)
        ensures
            r@ == inherit_from(self@, first@),
    {
        Profile {
            name: self.name.clone(),
            main_script: text_or(&self.main_script, &first.main_script),
            admin: flag_or(self.admin, first.admin),
            requires_defender_whitelist: flag_or(
                self.requires_defender_whitelist,
                first.requires_defender_whitelist,
            ),
            requirements: text_or(&self.requirements, &first.requirements),
            python_path: text_or(&self.python_path, &first.python_path),
            git_url: text_or(&self.git_url, &first.git_url),
            requires_python: text_or(&self.requires_python, &first.requires_python),
            pip_args: text_or(&self.pip_args, &first.pip_args),
        }
    }
}

/// Every profile after the first takes each empty or unset field from the first.
pub fn inherit_profiles(profiles: &Vec<Profile>) -> (r: Vec<Profile>)
    ensures
        profile_views(r@) == with_inheritance(profile_views(profiles@)),
{
    let ghost src = profile_views(profiles@);
    let mut out: Vec<Profile> = Vec::new();
    let n = profiles.len();
    let mut i: usize = 0;
    while i < n
        invariant
            n == profiles@.len(),
            src == profile_views(profiles@),
            i <= n,
            out@.len() == i,
            forall|j: int| 0 <= j < i ==> (#[trigger] out@[j])@ == with_inheritance(src)[j],
        decreases n - i,
    {
        let p = if i == 0 {
            profiles[0].duplicate()
        } else {
            profiles[i].inherited_from(&profiles[0])
        };
        out.push(p);
        i = i + 1;
    }
    assert(profile_views(out@) =~= with_inheritance(src));
    out
}

/// Inheritance leaves every field of a later profile equal to its own value
/// where that was set, else to the first profile's; applying it a second
/// time changes nothing.
pub proof fn lemma_inheritance(ps: Seq<ProfileView>)
    ensures
        forall|i: int|
            0 < i < ps.len() ==> {
                let q = #[trigger] with_inheritance(ps)[i];
                &&& (ps[i].main_script.len() == 0 ==> q.main_script == ps[0].main_script)
                &&& (ps[i].requirements.len() == 0 ==> q.requirements == ps[0].requirements)
                &&& (ps[i].python_path.len() == 0 ==> q.python_path == ps[0].python_path)
                &&& (ps[i].git_url.len() == 0 ==> q.git_url == ps[0].git_url)
                &&& (ps[i].requires_python.len() == 0 ==> q.requires_python
                    == ps[0].requires_python)
                &&& (ps[i].pip_args.len() == 0 ==> q.pip_args == ps[0].pip_args)
                &&& (ps[i].admin is None ==> q.admin == ps[0].admin)
                &&& (ps[i].requires_defender_whitelist is None ==> q.requires_defender_whitelist
                    == ps[0].requires_defender_whitelist)
            },
        with_inheritance(with_inheritance(ps)) == with_inheritance(ps),
{
    let once = with_inheritance(ps);
    let twice = with_inheritance(once);
    assert forall|i: int| 0 <= i < ps.len() implies #[trigger] twice[i] == once[i] by {
        if i > 0 {
            assert(once[0] == ps[0]);
        }
    }
    assert(twice =~= once);
}


/// The persisted state of one managed application.
pub struct App {
    pub name: String,
    pub current_version: Option<String>,
    pub available_versions: Vec<String>,
    pub running: bool,
    /// Time of the last start, in milliseconds since the Unix epoch (UTC).
    pub last_start: i64,
    pub current_profile: String,
    pub installed: bool,
    pub profiles: Vec<Profile>,
    pub show_add_defender: bool,
}

pub struct AppView {
    pub name: Seq<char>,
    pub current_version: Option<Seq<char>>,
    pub available_versions: Seq<Seq<char>>,
    pub running: bool,
    pub last_start: i64,
    pub current_profile: Seq<char>,
    pub installed: bool,
    pub profiles: Seq<ProfileView>,
    pub show_add_defender: bool,
}

impl View for App {
    type V = AppView;

    open spec fn view(&self) -> AppView {
        AppView {
            name: self.name@,
            current_version: opt_text(self.current_version),
            available_versions: texts(self.available_versions@),
            running: self.running,
            last_start: self.last_start,
            current_profile: self.current_profile@,
            installed: self.installed,
            profiles: profile_views(self.profiles@),
            show_add_defender: self.show_add_defender,
        }
    }
}

/// Index of the first profile from `i` on named `name`, or the length.
pub open spec fn index_of_profile(ps: Seq<ProfileView>, name: Seq<char>, i: int) -> int
    decreases ps.len() - i,
{
    if i < 0 || i >= ps.len() {
        ps.len() as int
    } else if ps[i].name == name {
        i
    } else {
        index_of_profile(ps, name, i + 1)
    }
}

/// The profile that a name selects: the first one of that name, else the
/// first profile; none where there are no profiles.
pub open spec fn selected_profile(ps: Seq<ProfileView>, name: Seq<char>) -> Option<int> {
    let k = index_of_profile(ps, name, 0);
    if k < ps.len() {
        Some(k)
    } else if ps.len() > 0 {
        Some(0)
    } else {
        None
    }
}

pub fn copy_texts(v: &Vec<String>) -> (r: Vec<String>)
    ensures
        texts(r@) == texts(v@),
{
    let mut out: Vec<String> = Vec::new();
    let mut i: usize = 0;
    while i < v.len()
        invariant
            i <= v@.len(),
            texts(out@) == texts(v@).subrange(0, i as int),
        decreases v@.len() - i,
    {
        let ghost prev = out@;
        let x = v[i].clone();
        out.push(x);
        assert(texts(out@) =~= texts(prev).push(x@));
        i = i + 1;
        assert(texts(out@) =~= texts(v@).subrange(0, i as int));
    }
    assert(texts(v@).subrange(0, v@.len() as int) =~= texts(v@));
    out
}

pub fn copy_profiles(v: &Vec<Profile>) -> (r: Vec<Profile>)
    ensures
        profile_views(r@) == profile_views(v@),
{
    let mut out: Vec<Profile> = Vec::new();
    let mut i: usize = 0;
    while i < v.len()
        invariant
            i <= v@.len(),
            profile_views(out@) == profile_views(v@).subrange(0, i as int),
        decreases v@.len() - i,
    {
        let ghost prev = out@;
        let x = v[i].duplicate();
        out.push(x);
        assert(profile_views(out@) =~= profile_views(prev).push(x@));
        i = i + 1;
        assert(profile_views(out@) =~= profile_views(v@).subrange(0, i as int));
    }
    assert(profile_views(v@).subrange(0, v@.len() as int) =~= profile_views(v@));
    out
}

fn find_profile(ps: &Vec<Profile>, name: &str) -> (r: usize)
    ensures
        r == index_of_profile(profile_views(ps@), name@, 0),
{
    let ghost v = profile_views(ps@);
    let mut i: usize = 0;
    while i < ps.len()
        invariant
            v == profile_views(ps@),
            i <= ps@.len(),
            index_of_profile(v, name@, i as int) == index_of_profile(v, name@, 0),
        decreases ps@.len() - i,
    {
        if crate::text::same_text(ps[i].name.as_str(), name) {
            return i;
        }
        i = i + 1;
    }
    i
}

impl App {
    /// The application's repository under the launcher's directory `cwd`.
    pub fn get_repo_path(&self, cwd: &Vec<String>) -> (r: Vec<String>)
        ensures
            texts(r@) == texts(cwd@).push("data"@).push("apps"@).push(self.name@).push("repo"@),
    {
        crate::paths::get_app_repo_path(cwd, self.name.as_str())
    }

    pub fn duplicate(&self) -> (r: App)
        ensures
            r@ == self@,
    {
        App {
            name: self.name.clone(),
            current_version: crate::version::clone_opt_text(&self.current_version),
            available_versions: copy_texts(&self.available_versions),
            running: self.running,
            last_start: self.last_start,
            current_profile: self.current_profile.clone(),
            installed: self.installed,
            profiles: copy_profiles(&self.profiles),
            show_add_defender: self.show_add_defender,
        }
    }

    /// The profile named `profile_name`, else the first profile.
    pub fn get_profile(&self, profile_name: &str) -> (r: Option<&Profile>)
        ensures
            match r {
                Some(p) => selected_profile(self@.profiles, profile_name@) is Some && p@
                    == self@.profiles[selected_profile(self@.profiles, profile_name@)->0],
                None => selected_profile(self@.profiles, profile_name@) is None,
            },
    {
        let k = find_profile(&self.profiles, profile_name);
        if k < self.profiles.len() {
            Some(&self.profiles[k])
        } else if self.profiles.len() > 0 {
            Some(&self.profiles[0])
        } else {
            None
        }
    }

    /// The profile that `current_profile` selects.
    pub fn get_current_profile_settings(&self) -> (r: &Profile)
        requires
            self.profiles@.len() > 0,
        ensures
            selected_profile(self@.profiles, self@.current_profile) is Some,
            r@ == self@.profiles[selected_profile(self@.profiles, self@.current_profile)->0],
    {
        let k = find_profile(&self.profiles, self.current_profile.as_str());
        if k < self.profiles.len() {
            &self.profiles[k]
        } else {
            &self.profiles[0]
        }
    }
}

/// Applies profile inheritance to an application's profiles; nothing else changes.
pub fn apply_profile_inheritance(config: &mut App)
    ensures
        final(config)@ == (AppView { profiles: with_inheritance(old(config)@.profiles), ..old(config)@ }),
{
    let inherited = inherit_profiles(&config.profiles);
    config.profiles = inherited;
}

/// A manifest as loaded: inheritance applied, and an empty current profile
/// set to the first profile's name.
pub fn prepare_manifest_app(app: &mut App)
    requires
        old(app).profiles@.len() > 0,
    ensures
        final(app)@ == (AppView {
            profiles: with_inheritance(old(app)@.profiles),
            current_profile: if old(app)@.current_profile.len() == 0 {
                old(app)@.profiles[0].name
            } else {
                old(app)@.current_profile
            },
            ..old(app)@
        }),
{
    apply_profile_inheritance(app);
    assert(app.profiles@.len() == profile_views(app.profiles@).len());
    assert(profile_views(app.profiles@)[0] == app.profiles@[0]@);
    if app.current_profile.unicode_len() == 0 {
        app.current_profile = app.profiles[0].name.clone();
    }
}

/// Refreshes a record from a freshly parsed manifest: the name and the whole
/// profile list are replaced (after inheritance); the current profile stays
/// where it still names a profile, else it falls back to the first profile.
pub fn update_app_from_manifest(app: &mut App, parsed: &App)
    ensures
        ({
            let ps = with_inheritance(parsed@.profiles);
            final(app)@ == (AppView {
                name: parsed@.name,
                profiles: ps,
                current_profile: if index_of_profile(ps, old(app)@.current_profile, 0) < ps.len()
                    || ps.len() == 0 {
                    old(app)@.current_profile
                } else {
                    ps[0].name
                },
                ..old(app)@
            })
        }),
{
    let ps = inherit_profiles(&parsed.profiles);
    app.name = parsed.name.clone();
    app.profiles = ps;
    let k = find_profile(&app.profiles, app.current_profile.as_str());
    if k >= app.profiles.len() && app.profiles.len() > 0 {
        app.current_profile = app.profiles[0].name.clone();
    }
}


/// A record loaded from disk takes the template's profiles and the observed
/// running flag; its other fields, the current profile among them, stay.
pub fn merge_disk_record(disk: &mut App, template: &App, running: bool)
    ensures
        final(disk)@ == (AppView { running: running, profiles: template@.profiles, ..old(disk)@ }),
{
    disk.running = running;
    disk.profiles = copy_profiles(&template.profiles);
}

/// An installed record whose runtime or repository is missing is demoted to
/// not installed. Returns whether its files are to be deleted, which is the
/// case where the runtime is missing.
pub fn reconcile_installed(app: &mut App, runtime_present: bool, repo_present: bool) -> (delete: bool)
    ensures
        delete == (old(app).installed && !runtime_present),
        final(app)@ == (AppView {
            installed: old(app).installed && runtime_present && repo_present,
            ..old(app)@
        }),
{
    let mut delete = false;
    if app.installed && !runtime_present {
        delete = true;
        app.installed = false;
    }
    if app.installed && !repo_present {
        app.installed = false;
    }
    delete
}

/// The one application of a fresh start is started on its own when it is
/// installed and at the newest offered version.
pub fn should_auto_start(apps: &Vec<App>) -> (r: bool)
    ensures
        r == (apps@.len() == 1 && apps@[0].installed && apps@[0]@.available_versions.len() > 0
            && apps@[0]@.current_version == Some(apps@[0]@.available_versions[0])),
{
    if apps.len() != 1 {
        return false;
    }
    let app = &apps[0];
    if !app.installed || app.available_versions.len() == 0 {
        return false;
    }
    assert(app@.available_versions[0] == app.available_versions@[0]@);
    match &app.current_version {
        Some(v) => crate::text::same_text(v.as_str(), app.available_versions[0].as_str()),
        None => false,
    }
}

/// Whether two lists of texts are equal.
pub fn same_texts(a: &Vec<String>, b: &Vec<String>) -> (r: bool)
    ensures
        r == (texts(a@) == texts(b@)),
{
    if a.len() != b.len() {
        assert(texts(a@).len() != texts(b@).len());
        return false;
    }
    let mut i: usize = 0;
    while i < a.len()
        invariant
            a@.len() == b@.len(),
            i <= a@.len(),
            forall|j: int| 0 <= j < i ==> a@[j]@ == b@[j]@,
        decreases a@.len() - i,
    {
        if !crate::text::same_text(a[i].as_str(), b[i].as_str()) {
            assert(texts(a@)[i as int] != texts(b@)[i as int]);
            return false;
        }
        i = i + 1;
    }
    assert(texts(a@) =~= texts(b@));
    true
}

/// The version list and current version are read from the repository only
/// for an installed application whose repository is present.
pub fn needs_version_refresh(app: &App, repo_present: bool) -> (r: bool)
    ensures
        r == (app.installed && repo_present),
{
    app.installed && repo_present
}

/// Stores the versions read from the repository. Returns whether the record changed.
pub fn apply_version_info(app: &mut App, versions: Vec<String>, current: String) -> (changed: bool)
    ensures
        final(app)@ == (AppView {
            available_versions: texts(versions@),
            current_version: Some(current@),
            ..old(app)@
        }),
        changed == (old(app)@.available_versions != texts(versions@) || old(app)@.current_version
            != Some(current@)),
{
    let same_list = same_texts(&app.available_versions, &versions);
    let same_current = match &app.current_version {
        Some(c) => crate::text::same_text(c.as_str(), current.as_str()),
        None => false,
    };
    app.available_versions = versions;
    app.current_version = Some(current);
    !same_list || !same_current
}

/// Why a setup could not pick a profile.
#[derive(Debug)]
pub enum SetupError {
    /// The manifest declares no profile at all.
    ProfileNotFound,
}

/// The profile a setup runs with and the profile name it records: the
/// profile that `profile_name` selects (it falls back to the first) under the
/// requested name; an error where the manifest has no profiles.
pub fn get_profile_for_setup<'a>(temp_app_config: &'a App, profile_name: &str) -> (r: Result<
    (&'a Profile, String),
    SetupError,
>)
    ensures
        match r {
            Ok((p, n)) => temp_app_config@.profiles.len() > 0 && n@ == profile_name@ && p@
                == temp_app_config@.profiles[selected_profile(
                temp_app_config@.profiles,
                profile_name@,
            )->0],
            Err(_) => temp_app_config@.profiles.len() == 0,
        },
{
    match temp_app_config.get_profile(profile_name) {
        Some(p) => Ok((p, profile_name.to_owned())),
        None => Err(SetupError::ProfileNotFound),
    }
}

/// `a` is listed before `b`: running applications first, then the most
/// recently started.
pub open spec fn shown_before(a: AppView, b: AppView) -> bool {
    (a.running && !b.running) || (a.running == b.running && a.last_start > b.last_start)
}

pub open spec fn app_views(v: Seq<App>) -> Seq<AppView> {
    v.map_values(|a: App| a@)
}

/// No application is listed after one that it is shown before.
pub open spec fn display_ordered(s: Seq<AppView>) -> bool {
    forall|i: int, j: int| 0 <= i < j < s.len() ==> !shown_before(#[trigger] s[j], #[trigger] s[i])
}

fn shown_before_exec(a: &App, b: &App) -> (r: bool)
    ensures
        r == shown_before(a@, b@),
{
    (a.running && !b.running) || (a.running == b.running && a.last_start > b.last_start)
}

/// The applications in display order: running first, then by most recent
/// start; the same applications as given.
pub fn get_apps_as_vec(apps: Vec<App>) -> (r: Vec<App>)
    ensures
        app_views(r@).to_multiset() == app_views(apps@).to_multiset(),
        display_ordered(app_views(r@)),
{
    let mut out: Vec<App> = Vec::new();
    let mut rest = apps;
    let ghost all = app_views(rest@);
    let n = rest.len();
    assert(all.len() == n);
    let mut taken: usize = 0;
    assert(app_views(out@) =~= all.subrange(0, 0));
    while rest.len() > 0
        invariant
            all.len() <= usize::MAX,
            all.len() == taken + rest@.len(),
            app_views(rest@) == all.subrange(taken as int, all.len() as int),
            app_views(out@).to_multiset() == all.subrange(0, taken as int).to_multiset(),
            display_ordered(app_views(out@)),
        decreases rest@.len(),
    {
        let ghost rest_before = rest@;
        let x = rest.remove(0);
        assert(app_views(rest@) =~= app_views(rest_before).subrange(1, rest_before.len() as int));
        assert(all.subrange(taken as int, all.len() as int)[0] == x@) by {
            assert(app_views(rest_before)[0] == x@);
        }
        let mut p: usize = 0;
        while p < out.len() && !shown_before_exec(&x, &out[p])
            invariant
                p <= out@.len(),
                forall|q: int| 0 <= q < p ==> !shown_before(x@, #[trigger] out@[q]@),
            decreases out@.len() - p,
        {
            p = p + 1;
        }
        let ghost before = app_views(out@);
        out.insert(p, x);
        proof {
            assert(app_views(out@) =~= before.insert(p as int, x@));
            vstd::seq_lib::to_multiset_insert(before, p as int, x@);
            assert(all.subrange(0, taken + 1) =~= all.subrange(0, taken as int).push(x@));
            vstd::seq_lib::to_multiset_build(all.subrange(0, taken as int), x@);
            let s = app_views(out@);
            assert forall|i: int, j: int| 0 <= i < j < s.len() implies !shown_before(
                #[trigger] s[j],
                #[trigger] s[i],
            ) by {
                if j == p {
                    assert(s[i] == before[i]);
                    assert(before[i] == out@[i]@);
                } else if i == p {
                    assert(s[j] == before[j - 1]);
                    if p < before.len() {
                        assert(before[p as int] == out@[p as int + 1]@);
                    }
                } else {
                    let si = if i < p { i } else { i - 1 };
                    let sj = if j < p { j } else { j - 1 };
                    assert(s[i] == before[si]);
                    assert(s[j] == before[sj]);
                }
            }
        }
        taken = taken + 1;
        assert(app_views(rest@) =~= all.subrange(taken as int, all.len() as int));
    }
    assert(all.subrange(0, all.len() as int) =~= all);
    out
}


/// A stored record takes the name of the directory it was found in.
/// Returns whether the stored name differed.
pub fn correct_record_name(app: &mut App, dir_name: &str) -> (corrected: bool)
    ensures
        corrected == (old(app)@.name != dir_name@),
        final(app)@ == (AppView { name: dir_name@, ..old(app)@ }),
{
    let corrected = !crate::text::same_text(app.name.as_str(), dir_name);
    app.name = dir_name.to_owned();
    corrected
}

/// The application directories that are stale: every one not named after
/// the application, in the order listed.
pub fn stale_app_dirs(dir_names: &Vec<String>, app_name: &str) -> (r: Vec<String>)
    ensures
        texts(r@) == texts(dir_names@).filter(|d: Seq<char>| d != app_name@),
{
    let ghost all = texts(dir_names@);
    let mut out: Vec<String> = Vec::new();
    let mut i: usize = 0;
    while i < dir_names.len()
        invariant
            all == texts(dir_names@),
            all.len() == dir_names@.len(),
            i <= dir_names@.len(),
            texts(out@) == all.subrange(0, i as int).filter(|d: Seq<char>| d != app_name@),
        decreases dir_names@.len() - i,
    {
        let ghost prefix = all.subrange(0, i + 1);
        assert(prefix.drop_last() =~= all.subrange(0, i as int));
        assert(prefix.last() == dir_names@[i as int]@);
        proof {
            all.subrange(0, i as int).lemma_filter_push(dir_names@[i as int]@, |d: Seq<char>| d != app_name@);
            assert(all.subrange(0, i as int).push(dir_names@[i as int]@) =~= prefix);
        }
        if !crate::text::same_text(dir_names[i].as_str(), app_name) {
            let ghost prev = out@;
            out.push(dir_names[i].clone());
            assert(texts(out@) =~= texts(prev).push(dir_names@[i as int]@));
        }
        i = i + 1;
    }
    assert(all.subrange(0, all.len() as int) =~= all);
    out
}


/// A record after a successful setup: installed, under the profile it was set up with.
pub open spec fn setup_done(a: AppView, profile_name: Seq<char>) -> AppView {
    AppView { installed: true, current_profile: profile_name, ..a }
}

/// Marks a record as set up with `profile_name`.
pub fn finish_setup(app: &mut App, profile_name: String)
    ensures
        final(app)@ == setup_done(old(app)@, profile_name@),
{
    app.installed = true;
    app.current_profile = profile_name;
}

/// A setup installs dependencies only where the profile names some.
pub fn needs_requirements_install(requirements: &str) -> (r: bool)
    ensures
        r == (requirements@.len() > 0),
{
    requirements.unicode_len() > 0
}

/// Records the version an update moved to.
pub fn finish_update(app: &mut App, version: &str)
    ensures
        final(app)@ == (AppView { current_version: Some(version@), ..old(app)@ }),
{
    app.current_version = Some(version.to_owned());
}

/// Demotes a record to not installed (its files were deleted, or its
/// runtime went missing).
pub fn mark_not_installed(app: &mut App)
    ensures
        final(app)@ == (AppView { installed: false, ..old(app)@ }),
{
    app.installed = false;
}

/// Records the time of a start, in milliseconds since the Unix epoch.
pub fn record_start(app: &mut App, now_millis: i64)
    ensures
        final(app)@ == (AppView { last_start: now_millis, ..old(app)@ }),
{
    app.last_start = now_millis;
}

} // verus!
