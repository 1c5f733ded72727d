//! The older single-file configuration: a runtime version and a list of
//! profiles, of which one must be named `default`.

use vstd::prelude::*;

verus! {

/// A profile of the older configuration format.
pub struct Profile {
    pub name: String,
    pub main_script: String,
    pub admin: bool,
    pub requirements: String,
    pub python_path: String,
}

pub struct LegacyProfileView {
    pub name: Seq<char>,
    pub main_script: Seq<char>,
    pub admin: bool,
    pub requirements: Seq<char>,
    pub python_path: Seq<char>,
}

impl View for Profile {
    type V = LegacyProfileView;

    open spec fn view(&self) -> LegacyProfileView {
        LegacyProfileView {
            name: self.name@,
            main_script: self.main_script@,
            admin: self.admin,
            requirements: self.requirements@,
            python_path: self.python_path@,
        }
    }
}

/// The older configuration: a runtime version and its profiles.
pub struct Config {
    pub requires_python: String,
    pub profiles: Vec<Profile>,
}

pub open spec fn legacy_views(v: Seq<Profile>) -> Seq<LegacyProfileView> {
    v.map_values(|p: Profile| p@)
}

/// The configuration used where none can be read: runtime 3.12 and one
/// `default` profile running `main.py` with `requirements.txt`.
pub open spec fn default_config_view() -> (Seq<char>, Seq<LegacyProfileView>) {
    (
        "3.12"@,
        seq![
            LegacyProfileView {
                name: "default"@,
                main_script: "main.py"@,
                admin: false,
                requirements: "requirements.txt"@,
                python_path: ""@,
            },
        ],
    )
}

impl Default for Config {
    fn default() -> (r: Config)
        ensures
            (r.requires_python@, legacy_views(r.profiles@)) == default_config_view(),
    {
        let p = Profile {
            name: "default".to_owned(),
            main_script: "main.py".to_owned(),
            admin: false,
            requirements: "requirements.txt".to_owned(),
            python_path: "".to_owned(),
        };
        let profiles = vec![p];
        let r = Config { requires_python: "3.12".to_owned(), profiles };
        assert(legacy_views(r.profiles@) =~= default_config_view().1);
        r
    }
}

/// Index of the first profile from `i` on named `name`, or the length.
pub open spec fn legacy_index(ps: Seq<LegacyProfileView>, name: Seq<char>, i: int) -> int
    decreases ps.len() - i,
{
    if i < 0 || i >= ps.len() {
        ps.len() as int
    } else if ps[i].name == name {
        i
    } else {
        legacy_index(ps, name, i + 1)
    }
}

impl Config {
    /// The profile named exactly `profile_name`.
    pub fn get_profile(&self, profile_name: &str) -> (r: Option<&Profile>)
        ensures
            match r {
                Some(p) => legacy_index(legacy_views(self.profiles@), profile_name@, 0)
                    < self.profiles@.len() && p@ == legacy_views(self.profiles@)[legacy_index(
                    legacy_views(self.profiles@),
                    profile_name@,
                    0,
                )],
                None => legacy_index(legacy_views(self.profiles@), profile_name@, 0)
                    == self.profiles@.len(),
            },
    {
        let ghost v = legacy_views(self.profiles@);
        let mut i: usize = 0;
        while i < self.profiles.len()
            invariant
                v == legacy_views(self.profiles@),
                i <= self.profiles@.len(),
                legacy_index(v, profile_name@, i as int) == legacy_index(v, profile_name@, 0),
            decreases self.profiles@.len() - i,
        {
            if crate::text::same_text(self.profiles[i].name.as_str(), profile_name) {
                return Some(&self.profiles[i]);
            }
            i = i + 1;
        }
        None
    }
}

/// A profile with empty texts and an unset flag taken from `first`.
pub open spec fn legacy_inherit(p: LegacyProfileView, first: LegacyProfileView) -> LegacyProfileView {
    LegacyProfileView {
        name: p.name,
        main_script: if p.main_script.len() == 0 { first.main_script } else { p.main_script },
        admin: if !p.admin { first.admin } else { p.admin },
        requirements: if p.requirements.len() == 0 { first.requirements } else { p.requirements },
        python_path: if p.python_path.len() == 0 { first.python_path } else { p.python_path },
    }
}

/// What a parsed configuration comes to: the default configuration where
/// none was read, where it has no profiles, or where none is named
/// `default`; else every profile takes its empty fields from the first.
pub fn load_config_from_yaml(parsed: Option<Config>) -> (r: Config)
    ensures
        match parsed {
            None => (r.requires_python@, legacy_views(r.profiles@)) == default_config_view(),
            Some(c) => {
                let ps = legacy_views(c.profiles@);
                if ps.len() == 0 || legacy_index(ps, "default"@, 0) == ps.len() {
                    (r.requires_python@, legacy_views(r.profiles@)) == default_config_view()
                } else {
                    r.requires_python@ == c.requires_python@ && legacy_views(r.profiles@)
                        == Seq::new(ps.len(), |i: int| legacy_inherit(ps[i], ps[0]))
                }
            },
        },
{
    let c = match parsed {
        None => return Config::default(),
        Some(c) => c,
    };
    if c.profiles.len() == 0 {
        return Config::default();
    }
    match c.get_profile("default") {
        None => return Config::default(),
        Some(_) => {},
    }
    let ghost ps = legacy_views(c.profiles@);
    let mut out: Vec<Profile> = Vec::new();
    let mut i: usize = 0;
    while i < c.profiles.len()
        invariant
            ps == legacy_views(c.profiles@),
            ps.len() > 0,
            i <= c.profiles@.len(),
            out@.len() == i,
            forall|j: int| 0 <= j < i ==> (#[trigger] out@[j])@ == legacy_inherit(ps[j], ps[0]),
        decreases c.profiles@.len() - i,
    {
        let first = &c.profiles[0];
        let p = &c.profiles[i];
        let q = Profile {
            name: p.name.clone(),
            main_script: if p.main_script.unicode_len() == 0 { first.main_script.clone() } else { p.main_script.clone() },
            admin: if !p.admin { first.admin } else { p.admin },
            requirements: if p.requirements.unicode_len() == 0 { first.requirements.clone() } else { p.requirements.clone() },
            python_path: if p.python_path.unicode_len() == 0 { first.python_path.clone() } else { p.python_path.clone() },
        };
        out.push(q);
        i = i + 1;
    }
    assert(legacy_views(out@) =~= Seq::new(ps.len(), |i: int| legacy_inherit(ps[i], ps[0])));
    Config { requires_python: c.requires_python, profiles: out }
}

} // verus!
