//! The registry: the authoritative set of application records, one per name.

use vstd::prelude::*;
use crate::app::{App, AppView, app_views};

verus! {

/// Index of the first record from `i` on named `name`, or the length.
pub open spec fn app_index(s: Seq<AppView>, name: Seq<char>, i: int) -> int
    decreases s.len() - i,
{
    if i < 0 || i >= s.len() {
        s.len() as int
    } else if s[i].name == name {
        i
    } else {
        app_index(s, name, i + 1)
    }
}

/// The record named `name`.
pub open spec fn lookup(s: Seq<AppView>, name: Seq<char>) -> Option<AppView> {
    let i = app_index(s, name, 0);
    if 0 <= i < s.len() {
        Some(s[i])
    } else {
        None
    }
}

proof fn lemma_index_found(s: Seq<AppView>, k: Seq<char>, j: int)
    requires
        0 <= j <= s.len(),
    ensures
        j <= app_index(s, k, j) <= s.len(),
        app_index(s, k, j) < s.len() ==> s[app_index(s, k, j)].name == k,
    decreases s.len() - j,
{
    if j < s.len() && s[j].name != k {
        lemma_index_found(s, k, j + 1);
    }
}

proof fn lemma_index_absent(s: Seq<AppView>, k: Seq<char>, j: int)
    requires
        0 <= j <= s.len(),
        app_index(s, k, j) == s.len(),
    ensures
        forall|m: int| j <= m < s.len() ==> (#[trigger] s[m]).name != k,
    decreases s.len() - j,
{
    if j < s.len() {
        lemma_index_absent(s, k, j + 1);
    }
}

/// No two records share a name.
pub open spec fn names_unique(s: Seq<AppView>) -> bool {
    forall|i: int, j: int| 0 <= i < j < s.len() ==> (#[trigger] s[i]).name != (#[trigger] s[j]).name
}

/// The records as a map from name to record.
pub open spec fn as_map(s: Seq<AppView>) -> Map<Seq<char>, AppView> {
    Map::new(|k: Seq<char>| lookup(s, k) is Some, |k: Seq<char>| lookup(s, k)->0)
}

proof fn lemma_map_from_lookups(s: Seq<AppView>, t: Seq<AppView>, name: Seq<char>, x: AppView)
    requires
        lookup(t, name) == Some(x),
        forall|k: Seq<char>| k != name ==> #[trigger] lookup(t, k) == lookup(s, k),
    ensures
        as_map(t) == as_map(s).insert(name, x),
{
    assert forall|k: Seq<char>| #[trigger] as_map(t).contains_key(k) == as_map(s).insert(name, x).contains_key(k) by {
        if k != name {
            assert(lookup(t, k) == lookup(s, k));
        }
    }
    assert forall|k: Seq<char>| as_map(t).contains_key(k) implies #[trigger] as_map(t)[k] == as_map(s).insert(name, x)[k] by {
        if k != name {
            assert(lookup(t, k) == lookup(s, k));
        }
    }
    assert(as_map(t) =~= as_map(s).insert(name, x));
}

proof fn lemma_index_same_names(s: Seq<AppView>, t: Seq<AppView>, k: Seq<char>, j: int)
    requires
        s.len() == t.len(),
        forall|m: int| 0 <= m < s.len() ==> (#[trigger] s[m]).name == t[m].name,
        0 <= j <= s.len(),
    ensures
        app_index(s, k, j) == app_index(t, k, j),
    decreases s.len() - j,
{
    if j < s.len() {
        lemma_index_same_names(s, t, k, j + 1);
    }
}

proof fn lemma_index_push(s: Seq<AppView>, x: AppView, k: Seq<char>, j: int)
    requires
        0 <= j <= s.len(),
        app_index(s, x.name, j) == s.len(),
    ensures
        k == x.name ==> app_index(s.push(x), k, j) == s.len(),
        k != x.name ==> app_index(s.push(x), k, j) == if app_index(s, k, j) < s.len() {
            app_index(s, k, j)
        } else {
            (s.len() + 1) as int
        },
    decreases s.len() + 1 - j,
{
    let t = s.push(x);
    if j < s.len() {
        assert(t[j] == s[j]);
        if s[j].name != x.name && s[j].name != k {
            lemma_index_push(s, x, k, j + 1);
        } else if s[j].name != x.name {
            lemma_index_push(s, x, k, j + 1);
        }
    } else {
        assert(t[j] == x);
        if k != x.name {
            assert(app_index(t, k, j + 1) == t.len());
        }
    }
}

/// The records, at most one per name.
pub struct Registry {
    apps: Vec<App>,
}

impl Registry {
    pub closed spec fn records(&self) -> Seq<AppView> {
        app_views(self.apps@)
    }

    /// At most one record per name.
    pub open spec fn well_formed(&self) -> bool {
        names_unique(self.records())
    }

    /// The records by name.
    pub open spec fn records_map(&self) -> Map<Seq<char>, AppView> {
        as_map(self.records())
    }

    pub fn new() -> (r: Registry)
        ensures
            r.records().len() == 0,
            r.well_formed(),
            r.records_map() == Map::<Seq<char>, AppView>::empty(),
    {
        let r = Registry { apps: Vec::new() };
        assert(r.records() =~= Seq::<AppView>::empty());
        assert(r.records_map() =~= Map::<Seq<char>, AppView>::empty());
        r
    }

    pub fn len(&self) -> (r: usize)
        ensures
            r == self.records().len(),
    {
        self.apps.len()
    }

    fn find(&self, name: &str) -> (r: usize)
        ensures
            r == app_index(self.records(), name@, 0),
            r <= self.records().len(),
    {
        let ghost v = self.records();
        let mut i: usize = 0;
        while i < self.apps.len()
            invariant
                v == self.records(),
                v.len() == self.apps@.len(),
                i <= self.apps@.len(),
                app_index(v, name@, i as int) == app_index(v, name@, 0),
            decreases self.apps@.len() - i,
        {
            assert(v[i as int] == self.apps@[i as int]@);
            if crate::text::same_text(self.apps[i].name.as_str(), name) {
                return i;
            }
            i = i + 1;
        }
        i
    }

    /// A copy of the record named `name`.
    pub fn get_app_by_name(&self, app_name: &str) -> (r: Option<App>)
        ensures
            match r {
                Some(a) => lookup(self.records(), app_name@) == Some(a@),
                None => lookup(self.records(), app_name@) is None,
            },
    {
        let i = self.find(app_name);
        if i < self.apps.len() {
            assert(self.records()[i as int] == self.apps@[i as int]@);
            Some(self.apps[i].duplicate())
        } else {
            None
        }
    }

    /// Stores a record under its name, replacing the one of that name.
    pub fn upsert(&mut self, app: App)
        ensures
            old(self).well_formed() ==> final(self).well_formed(),
            final(self).records_map() == old(self).records_map().insert(app@.name, app@),
            lookup(final(self).records(), app@.name) == Some(app@),
            forall|k: Seq<char>| k != app@.name ==> #[trigger] lookup(final(self).records(), k) == lookup(old(self).records(), k),
    {
        let i = self.find(app.name.as_str());
        let ghost old_v = self.records();
        let ghost x = app@;
        proof {
            lemma_index_found(old_v, x.name, 0);
        }
        if i < self.apps.len() {
            self.apps.set(i, app);
            proof {
                let new_v = self.records();
                assert(new_v =~= old_v.update(i as int, x));
                assert forall|k: Seq<char>| k != x.name implies #[trigger] lookup(new_v, k) == lookup(old_v, k) by {
                    lemma_index_same_names(new_v, old_v, k, 0);
                    lemma_index_found(old_v, k, 0);
                }
                lemma_index_same_names(new_v, old_v, x.name, 0);
                lemma_map_from_lookups(old_v, new_v, x.name, x);
                assert(names_unique(old_v) ==> names_unique(new_v)) by {
                    if names_unique(old_v) {
                        assert forall|a: int, b: int| 0 <= a < b < new_v.len() implies (#[trigger] new_v[a]).name != (#[trigger] new_v[b]).name by {
                            assert(new_v[a].name == old_v[a].name);
                            assert(new_v[b].name == old_v[b].name);
                        }
                    }
                }
            }
        } else {
            self.apps.push(app);
            proof {
                let new_v = self.records();
                assert(new_v =~= old_v.push(x));
                assert forall|k: Seq<char>| true implies #[trigger] app_index(new_v, k, 0) == if k == x.name {
                    old_v.len() as int
                } else if app_index(old_v, k, 0) < old_v.len() {
                    app_index(old_v, k, 0)
                } else {
                    (old_v.len() + 1) as int
                } by {
                    lemma_index_push(old_v, x, k, 0);
                }
                assert forall|k: Seq<char>| k != x.name implies #[trigger] lookup(new_v, k) == lookup(old_v, k) by {
                    lemma_index_found(old_v, k, 0);
                    assert(app_index(new_v, k, 0) == app_index(new_v, k, 0));
                    if app_index(old_v, k, 0) < old_v.len() {
                        assert(new_v[app_index(old_v, k, 0)] == old_v[app_index(old_v, k, 0)]);
                    }
                }
                assert(app_index(new_v, x.name, 0) == app_index(new_v, x.name, 0));
                lemma_map_from_lookups(old_v, new_v, x.name, x);
                lemma_index_absent(old_v, x.name, 0);
                assert(names_unique(old_v) ==> names_unique(new_v)) by {
                    if names_unique(old_v) {
                        assert forall|a: int, b: int| 0 <= a < b < new_v.len() implies (#[trigger] new_v[a]).name != (#[trigger] new_v[b]).name by {
                            if b == old_v.len() {
                                assert(new_v[a] == old_v[a]);
                            } else {
                                assert(new_v[a] == old_v[a]);
                                assert(new_v[b] == old_v[b]);
                            }
                        }
                    }
                }
            }
        }
    }

    /// The names of all records.
    pub fn names(&self) -> (r: Vec<String>)
        ensures
            crate::text::texts(r@) == self.records().map_values(|a: AppView| a.name),
    {
        let mut out: Vec<String> = Vec::new();
        let mut i: usize = 0;
        while i < self.apps.len()
            invariant
                i <= self.apps@.len(),
                crate::text::texts(out@) == self.records().map_values(|a: AppView| a.name).subrange(0, i as int),
            decreases self.apps@.len() - i,
        {
            let ghost prev = out@;
            let n = self.apps[i].name.clone();
            out.push(n);
            assert(crate::text::texts(out@) =~= crate::text::texts(prev).push(n@));
            i = i + 1;
            assert(crate::text::texts(out@) =~= self.records().map_values(|a: AppView| a.name).subrange(0, i as int));
        }
        assert(self.records().map_values(|a: AppView| a.name).subrange(0, self.apps@.len() as int) =~= self.records().map_values(|a: AppView| a.name));
        out
    }

    /// All records in display order: running first, then most recently started.
    pub fn list(&self) -> (r: Vec<App>)
        ensures
            app_views(r@).to_multiset() == self.records().to_multiset(),
            crate::app::display_ordered(app_views(r@)),
    {
        let mut copies: Vec<App> = Vec::new();
        let mut i: usize = 0;
        while i < self.apps.len()
            invariant
                i <= self.apps@.len(),
                app_views(copies@) == self.records().subrange(0, i as int),
            decreases self.apps@.len() - i,
        {
            let ghost prev = copies@;
            let a = self.apps[i].duplicate();
            copies.push(a);
            assert(app_views(copies@) =~= app_views(prev).push(a@));
            i = i + 1;
            assert(app_views(copies@) =~= self.records().subrange(0, i as int));
        }
        assert(self.records().subrange(0, self.apps@.len() as int) =~= self.records());
        crate::app::get_apps_as_vec(copies)
    }

    /// Records the observed running flag of an application; returns whether
    /// it changed. Nothing changes for an unknown name.
    pub fn set_running(&mut self, app_name: &str, running: bool) -> (changed: bool)
        ensures
            old(self).well_formed() ==> final(self).well_formed(),
            final(self).records_map() == if old(self).records_map().contains_key(app_name@) {
                old(self).records_map().insert(
                    app_name@,
                    AppView { running: running, ..old(self).records_map()[app_name@] },
                )
            } else {
                old(self).records_map()
            },
            match lookup(old(self).records(), app_name@) {
                Some(a) => changed == (a.running != running) && lookup(final(self).records(), app_name@)
                    == Some(AppView { running: running, ..a }),
                None => !changed && final(self).records() == old(self).records(),
            },
            forall|k: Seq<char>| k != app_name@ ==> #[trigger] lookup(final(self).records(), k) == lookup(old(self).records(), k),
    {
        let i = self.find(app_name);
        if i >= self.apps.len() {
            return false;
        }
        let ghost old_v = self.records();
        proof {
            lemma_index_found(old_v, app_name@, 0);
        }
        assert(old_v[i as int] == self.apps@[i as int]@);
        let changed = self.apps[i].running != running;
        let mut a = self.apps[i].duplicate();
        a.running = running;
        self.apps.set(i, a);
        proof {
            let new_v = self.records();
            assert(new_v =~= old_v.update(i as int, AppView { running: running, ..old_v[i as int] }));
            assert forall|k: Seq<char>| k != app_name@ implies #[trigger] lookup(new_v, k) == lookup(old_v, k) by {
                lemma_index_same_names(new_v, old_v, k, 0);
                lemma_index_found(old_v, k, 0);
            }
            lemma_index_same_names(new_v, old_v, app_name@, 0);
            lemma_map_from_lookups(old_v, new_v, app_name@, AppView { running: running, ..old_v[i as int] });
            assert(names_unique(old_v) ==> names_unique(new_v)) by {
                if names_unique(old_v) {
                    assert forall|a: int, b: int| 0 <= a < b < new_v.len() implies (#[trigger] new_v[a]).name != (#[trigger] new_v[b]).name by {
                        assert(new_v[a].name == old_v[a].name);
                        assert(new_v[b].name == old_v[b].name);
                    }
                }
            }
        }
        changed
    }
}


/// The applications that a mutating flow holds: at most one flow per
/// application runs at a time; flows on other applications are not held up.
pub struct OpGate {
    busy: Vec<String>,
}

impl OpGate {
    pub closed spec fn held(&self) -> Set<Seq<char>> {
        crate::text::texts(self.busy@).to_set()
    }

    pub fn new() -> (r: OpGate)
        ensures
            r.held() == Set::<Seq<char>>::empty(),
    {
        let r = OpGate { busy: Vec::new() };
        assert(r.held() =~= Set::<Seq<char>>::empty());
        r
    }

    fn position(&self, name: &str) -> (r: usize)
        ensures
            r <= self.busy@.len(),
            r < self.busy@.len() ==> self.busy@[r as int]@ == name@,
            r == self.busy@.len() ==> !self.held().contains(name@),
    {
        let mut i: usize = 0;
        while i < self.busy.len()
            invariant
                i <= self.busy@.len(),
                forall|j: int| 0 <= j < i ==> self.busy@[j]@ != name@,
            decreases self.busy@.len() - i,
        {
            if crate::text::same_text(self.busy[i].as_str(), name) {
                return i;
            }
            i = i + 1;
        }
        proof {
            let t = crate::text::texts(self.busy@);
            if t.to_set().contains(name@) {
                let k = choose|k: int| 0 <= k < t.len() && t[k] == name@;
                assert(t[k] == self.busy@[k]@);
            }
        }
        i
    }

    /// Starts a flow on `app_name` unless one is running on it; returns
    /// whether it started (otherwise the caller waits and tries again).
    pub fn try_begin(&mut self, app_name: &str) -> (started: bool)
        ensures
            started == !old(self).held().contains(app_name@),
            final(self).held() == old(self).held().insert(app_name@),
    {
        let i = self.position(app_name);
        if i < self.busy.len() {
            proof {
                let t = crate::text::texts(self.busy@);
                assert(t[i as int] == app_name@);
                assert(t.contains(app_name@));
                assert(self.held().insert(app_name@) =~= self.held());
            }
            return false;
        }
        let ghost before = crate::text::texts(self.busy@);
        self.busy.push(app_name.to_owned());
        proof {
            assert(crate::text::texts(self.busy@) =~= before.push(app_name@));
            before.lemma_push_to_set_commute(app_name@);
        }
        true
    }

    /// Ends the flow on `app_name`.
    pub fn finish(&mut self, app_name: &str)
        ensures
            final(self).held() == old(self).held().remove(app_name@),
    {
        let ghost start = self.held();
        let mut i: usize = 0;
        while i < self.busy.len()
            invariant
                i <= self.busy@.len(),
                forall|j: int| 0 <= j < i ==> self.busy@[j]@ != app_name@,
                self.held().remove(app_name@) == start.remove(app_name@),
                self.held().subset_of(start),
            decreases self.busy@.len() - i,
        {
            if crate::text::same_text(self.busy[i].as_str(), app_name) {
                let ghost before = crate::text::texts(self.busy@);
                self.busy.remove(i);
                proof {
                    let after = crate::text::texts(self.busy@);
                    assert(after =~= before.remove(i as int));
                    assert forall|x: Seq<char>| after.to_set().contains(x) implies before.to_set().contains(x) by {
                        let k = choose|k: int| 0 <= k < after.len() && after[k] == x;
                        if k < i {
                            assert(before[k] == x);
                        } else {
                            assert(before[k + 1] == x);
                        }
                    }
                    assert forall|x: Seq<char>| x != app_name@ && before.to_set().contains(x) implies after.to_set().contains(x) by {
                        let k = choose|k: int| 0 <= k < before.len() && before[k] == x;
                        if k < i {
                            assert(after[k] == x);
                        } else {
                            assert(k != i);
                            assert(after[k - 1] == x);
                        }
                    }
                    assert(self.held().remove(app_name@) =~= start.remove(app_name@));
                }
            } else {
                i = i + 1;
            }
        }
        proof {
            let t = crate::text::texts(self.busy@);
            assert forall|x: Seq<char>| self.held().contains(x) implies x != app_name@ by {
                let k = choose|k: int| 0 <= k < t.len() && t[k] == x;
                assert(t[k] == self.busy@[k]@);
            }
            assert(self.held() =~= start.remove(app_name@));
        }
    }
}

/// Two setups of one application run one after the other, and the second
/// sees what the first stored. Stated over the operations' own contracts:
/// the first setup's `OpGate::try_begin` turns the held set `held` into
/// `held.insert(name)`, so the second's `try_begin` returns false and it
/// waits, while flows on other applications still start; the first then
/// stores its record, `finish_setup` followed by `Registry::upsert`, which
/// turns the records into `records.insert(name, setup_done(before, profile))`,
/// and calls `OpGate::finish`, leaving `held.insert(name).remove(name)`; the
/// second's `try_begin` now returns true and its `get_app_by_name` reads the
/// first's record, installed, and no record in between.
pub proof fn lemma_setup_serialised(
    held: Set<Seq<char>>,
    records: Map<Seq<char>, AppView>,
    name: Seq<char>,
    other: Seq<char>,
    before: AppView,
    profile: Seq<char>,
)
    requires
        !held.contains(name),
        !held.contains(other),
        other != name,
        before.name == name,
    ensures
        ({
            let during = held.insert(name);
            let stored = records.insert(name, crate::app::setup_done(before, profile));
            let after = during.remove(name);
            &&& during.contains(name)
            &&& !during.contains(other)
            &&& !after.contains(name)
            &&& after == held
            &&& stored.contains_key(name)
            &&& stored[name] == crate::app::setup_done(before, profile)
            &&& stored[name].installed
            &&& stored[name].current_profile == profile
            &&& forall|k: Seq<char>| k != name ==> #[trigger] stored.contains_key(k) == records.contains_key(k)
        }),
{
    assert(held.insert(name).remove(name) =~= held);
}

} // verus!
