//! Release tags: the `v?MAJOR.MINOR[.PATCH][suffix]` grammar, the newest-first
//! ordering, the clip at the `lts` tag and the current version at HEAD.

use vstd::prelude::*;

verus! {

/// A release tag read by the tag grammar.
pub struct VersionKey {
    pub major: u32,
    pub minor: u32,
    pub patch: u32,
    pub suffix: String,
}

/// The ordering model of a release tag.
pub type KeyView = (u32, u32, u32, Seq<char>);

impl View for VersionKey {
    type V = KeyView;

    open spec fn view(&self) -> KeyView {
        (self.major, self.minor, self.patch, self.suffix@)
    }
}

pub open spec fn is_digit(c: char) -> bool {
    '0' <= c && c <= '9'
}

/// A character that may stand in a tag's suffix: ASCII letters, digits, `.` and `-`.
pub open spec fn is_suffix_char(c: char) -> bool {
    ||| ('a' <= c && c <= 'z')
    ||| ('A' <= c && c <= 'Z')
    ||| is_digit(c)
    ||| c == '.'
    ||| c == '-'
}

/// End of the run of decimal digits that starts at `i`.
pub open spec fn digit_run_end(s: Seq<char>, i: int) -> int
    decreases s.len() - i,
{
    if 0 <= i < s.len() && is_digit(s[i]) {
        digit_run_end(s, i + 1)
    } else {
        i
    }
}

/// The number that a run of decimal digits writes.
pub open spec fn digits_value(d: Seq<char>) -> nat
    decreases d.len(),
{
    if d.len() == 0 {
        0
    } else {
        digits_value(d.drop_last()) * 10 + ((d.last() as int) - ('0' as int)) as nat
    }
}

/// A digit run read as `u32`, or 0 where it does not fit.
pub open spec fn u32_of_digits(d: Seq<char>) -> u32 {
    if digits_value(d) <= u32::MAX {
        digits_value(d) as u32
    } else {
        0
    }
}

/// The tag grammar: an optional `v`, MAJOR `.` MINOR, an optional `.` PATCH,
/// then a suffix of letters, digits, `.` and `-`. A missing PATCH reads as 0.
pub open spec fn parse_tag_spec(s: Seq<char>) -> Option<KeyView> {
    let a: int = if s.len() > 0 && s[0] == 'v' { 1 } else { 0 };
    let e1 = digit_run_end(s, a);
    let b = e1 + 1;
    let e2 = digit_run_end(s, b);
    let has_patch = e2 + 1 < s.len() && s[e2] == '.' && is_digit(s[e2 + 1]);
    let e3 = if has_patch { digit_run_end(s, e2 + 1) } else { e2 };
    if e1 > a && e1 < s.len() && s[e1] == '.' && e2 > b && (forall|k: int|
        e3 <= k < s.len() ==> is_suffix_char(#[trigger] s[k])) {
        Some(
            (
                u32_of_digits(s.subrange(a, e1)),
                u32_of_digits(s.subrange(b, e2)),
                if has_patch {
                    u32_of_digits(s.subrange(e2 + 1, e3))
                } else {
                    0
                },
                s.subrange(e3, s.len() as int),
            ),
        )
    } else {
        None
    }
}

proof fn lemma_digit_run_bounds(s: Seq<char>, i: int)
    requires
        0 <= i <= s.len(),
    ensures
        i <= digit_run_end(s, i) <= s.len(),
        forall|k: int| i <= k < digit_run_end(s, i) ==> is_digit(#[trigger] s[k]),
    decreases s.len() - i,
{
    if i < s.len() && is_digit(s[i]) {
        lemma_digit_run_bounds(s, i + 1);
    }
}

fn digit_at(s: &str, i: usize, n: usize) -> (r: bool)
    requires
        n == s@.len(),
    ensures
        r == (i < n && is_digit(s@[i as int])),
{
    if i < n {
        let c = s.get_char(i);
        '0' <= c && c <= '9'
    } else {
        false
    }
}

/// End of the digit run at `i`.
fn scan_digits(s: &str, i: usize, n: usize) -> (e: usize)
    requires
        n == s@.len(),
        i <= n,
    ensures
        e == digit_run_end(s@, i as int),
{
    let mut e = i;
    while digit_at(s, e, n)
        invariant
            n == s@.len(),
            i <= e <= n,
            digit_run_end(s@, e as int) == digit_run_end(s@, i as int),
        decreases n - e,
    {
        e = e + 1;
    }
    e
}

/// The digits from `a` to `e` read as `u32`, 0 where the number does not fit.
fn read_u32(s: &str, a: usize, e: usize, n: usize) -> (v: u32)
    requires
        n == s@.len(),
        a <= e <= n,
        forall|k: int| a <= k < e ==> is_digit(#[trigger] s@[k]),
    ensures
        v == u32_of_digits(s@.subrange(a as int, e as int)),
{
    let mut acc: u64 = 0;
    let mut over = false;
    let mut i = a;
    while i < e
        invariant
            n == s@.len(),
            a <= i <= e <= n,
            forall|k: int| a <= k < e ==> is_digit(#[trigger] s@[k]),
            !over ==> acc == digits_value(s@.subrange(a as int, i as int)) && acc <= u32::MAX,
            over ==> digits_value(s@.subrange(a as int, i as int)) > u32::MAX,
        decreases e - i,
    {
        let c = s.get_char(i);
        let d = (c as u32 - '0' as u32) as u64;
        assert(s@.subrange(a as int, i + 1).drop_last() =~= s@.subrange(a as int, i as int));
        assert(s@.subrange(a as int, i + 1).last() == c);
        if !over {
            acc = acc * 10 + d;
            if acc > 4294967295 {
                over = true;
            }
        } else {
            assert(digits_value(s@.subrange(a as int, i + 1)) >= digits_value(
                s@.subrange(a as int, i as int),
            ));
        }
        i = i + 1;
    }
    if over {
        0
    } else {
        acc as u32
    }
}

/// Whether every character from `from` on may stand in a suffix.
fn suffix_chars_from(s: &str, from: usize, n: usize) -> (r: bool)
    requires
        n == s@.len(),
        from <= n,
    ensures
        r == (forall|j: int| from <= j < n ==> is_suffix_char(#[trigger] s@[j])),
{
    let mut k = from;
    while k < n
        invariant
            n == s@.len(),
            from <= k <= n,
            forall|j: int| from <= j < k ==> is_suffix_char(#[trigger] s@[j]),
        decreases n - k,
    {
        let c = s.get_char(k);
        if !(('a' <= c && c <= 'z') || ('A' <= c && c <= 'Z') || ('0' <= c && c <= '9') || c
            == '.' || c == '-') {
            assert(!is_suffix_char(s@[k as int]));
            return false;
        }
        k = k + 1;
    }
    true
}

/// Reads a tag by the tag grammar; `None` where the tag does not match.
pub fn parse_tag(s: &str) -> (r: Option<VersionKey>)
    ensures
        match r {
            Some(k) => parse_tag_spec(s@) == Some(k@),
            None => parse_tag_spec(s@) is None,
        },
{
    let n = s.unicode_len();
    let a: usize = if n > 0 && s.get_char(0) == 'v' {
        1
    } else {
        0
    };
    let e1 = scan_digits(s, a, n);
    proof {
        lemma_digit_run_bounds(s@, a as int);
    }
    if e1 == a || e1 >= n || s.get_char(e1) != '.' {
        return None;
    }
    let b = e1 + 1;
    let e2 = scan_digits(s, b, n);
    proof {
        lemma_digit_run_bounds(s@, b as int);
    }
    if e2 == b {
        return None;
    }
    let has_patch = e2 < n && n - e2 > 1 && s.get_char(e2) == '.' && digit_at(s, e2 + 1, n);
    let e3 = if has_patch {
        scan_digits(s, e2 + 1, n)
    } else {
        e2
    };
    proof {
        if has_patch {
            lemma_digit_run_bounds(s@, e2 + 1);
        }
    }
    if !suffix_chars_from(s, e3, n) {
        return None;
    }
    let major = read_u32(s, a, e1, n);
    let minor = read_u32(s, b, e2, n);
    let patch = if has_patch {
        read_u32(s, e2 + 1, e3, n)
    } else {
        0
    };
    let suffix = s.substring_char(e3, n).to_owned();
    Some(VersionKey { major, minor, patch, suffix })
}


/// Character-wise lexicographic order, as `str`'s `Ord` orders text.
pub open spec fn text_less(a: Seq<char>, b: Seq<char>) -> bool
    decreases a.len(),
{
    if a.len() == 0 {
        b.len() > 0
    } else if b.len() == 0 {
        false
    } else if a[0] != b[0] {
        (a[0] as int) < (b[0] as int)
    } else {
        text_less(a.drop_first(), b.drop_first())
    }
}

/// `a` ranks below `b`: numerically by (MAJOR, MINOR, PATCH); for equal
/// numbers a tag with a suffix ranks below one without; then by suffix text.
pub open spec fn ranks_below(a: KeyView, b: KeyView) -> bool {
    if a.0 != b.0 {
        a.0 < b.0
    } else if a.1 != b.1 {
        a.1 < b.1
    } else if a.2 != b.2 {
        a.2 < b.2
    } else if (a.3.len() == 0) != (b.3.len() == 0) {
        a.3.len() > 0
    } else {
        text_less(a.3, b.3)
    }
}

/// Text order is a strict total order.
pub proof fn lemma_text_order(a: Seq<char>, b: Seq<char>, c: Seq<char>)
    ensures
        text_less(a, b) ==> !text_less(b, a),
        text_less(a, b) && text_less(b, c) ==> text_less(a, c),
        a != b ==> text_less(a, b) || text_less(b, a),
        !text_less(a, a),
{
    lemma_text_less_order(a, b, c);
}

/// A higher (MAJOR, MINOR, PATCH) ranks above a lower one whatever the
/// suffixes; for equal numbers a tag without suffix ranks above one with.
pub proof fn lemma_release_ranks(a: KeyView, b: KeyView)
    ensures
        (a.0, a.1, a.2) != (b.0, b.1, b.2) && (a.0 > b.0 || (a.0 == b.0 && (a.1 > b.1 || (a.1
            == b.1 && a.2 > b.2)))) ==> ranks_below(b, a),
        a.0 == b.0 && a.1 == b.1 && a.2 == b.2 && a.3.len() == 0 && b.3.len() > 0 ==> ranks_below(
            b,
            a,
        ),
{
}

proof fn lemma_text_less_order(a: Seq<char>, b: Seq<char>, c: Seq<char>)
    ensures
        text_less(a, b) ==> !text_less(b, a),
        text_less(a, b) && text_less(b, c) ==> text_less(a, c),
        a != b ==> text_less(a, b) || text_less(b, a),
        !text_less(a, a),
    decreases a.len(),
{
    if a.len() > 0 && b.len() > 0 && c.len() > 0 {
        lemma_text_less_order(a.drop_first(), b.drop_first(), c.drop_first());
    }
    if a.len() > 0 && b.len() > 0 {
        lemma_text_less_order(a.drop_first(), b.drop_first(), b.drop_first());
        if a != b && a[0] == b[0] {
            assert(a.drop_first() != b.drop_first()) by {
                if a.drop_first() == b.drop_first() {
                    assert(a =~= seq![a[0]] + a.drop_first());
                    assert(b =~= seq![b[0]] + b.drop_first());
                }
            }
        }
    }
    if a.len() > 0 {
        lemma_text_less_order(a.drop_first(), a.drop_first(), a.drop_first());
    }
    if a.len() == 0 && b.len() == 0 {
        assert(a =~= b);
    }
}

/// The rank order is a strict weak order: asymmetric, transitive, and two
/// keys that neither ranks below the other are equal.
pub proof fn lemma_rank_order(a: KeyView, b: KeyView, c: KeyView)
    ensures
        ranks_below(a, b) ==> !ranks_below(b, a),
        ranks_below(a, b) && ranks_below(b, c) ==> ranks_below(a, c),
        !ranks_below(a, b) && !ranks_below(b, a) ==> a == b,
        !ranks_below(a, a),
{
    lemma_text_less_order(a.3, b.3, c.3);
    lemma_text_less_order(b.3, a.3, c.3);
}

pub fn text_less_exec(a: &str, b: &str) -> (r: bool)
    ensures
        r == text_less(a@, b@),
{
    let n = a.unicode_len();
    let m = b.unicode_len();
    let mut i: usize = 0;
    assert(a@.subrange(0, n as int) =~= a@);
    assert(b@.subrange(0, m as int) =~= b@);
    while i < n && i < m
        invariant
            n == a@.len(),
            m == b@.len(),
            i <= n,
            i <= m,
            text_less(a@.subrange(i as int, n as int), b@.subrange(i as int, m as int))
                == text_less(a@, b@),
        decreases n - i,
    {
        let x = a.get_char(i);
        let y = b.get_char(i);
        assert(a@.subrange(i as int, n as int).drop_first() =~= a@.subrange(i + 1, n as int));
        assert(b@.subrange(i as int, m as int).drop_first() =~= b@.subrange(i + 1, m as int));
        if x != y {
            return (x as u32) < (y as u32);
        }
        i = i + 1;
    }
    assert(a@.subrange(i as int, n as int).len() == n - i);
    i == n && i < m
}

/// Whether `a` ranks below `b`.
pub fn ranks_below_exec(a: &VersionKey, b: &VersionKey) -> (r: bool)
    ensures
        r == ranks_below(a@, b@),
{
    if a.major != b.major {
        a.major < b.major
    } else if a.minor != b.minor {
        a.minor < b.minor
    } else if a.patch != b.patch {
        a.patch < b.patch
    } else {
        let ea = a.suffix.unicode_len() == 0;
        let eb = b.suffix.unicode_len() == 0;
        if ea != eb {
            !ea
        } else {
            text_less_exec(a.suffix.as_str(), b.suffix.as_str())
        }
    }
}

/// A tag as the repository lists it: its name and the commit it points at,
/// where it could be resolved to one.
pub struct TagRef {
    pub name: String,
    pub commit: Option<String>,
}

pub open spec fn opt_text(o: Option<String>) -> Option<Seq<char>> {
    match o {
        Some(s) => Some(s@),
        None => None,
    }
}

pub type TagRefView = (Seq<char>, Option<Seq<char>>);

impl View for TagRef {
    type V = TagRefView;

    open spec fn view(&self) -> TagRefView {
        (self.name@, opt_text(self.commit))
    }
}

pub fn clone_opt_text(o: &Option<String>) -> (r: Option<String>)
    ensures
        opt_text(r) == opt_text(*o),
{
    match o {
        Some(s) => Some(s.clone()),
        None => None,
    }
}

impl TagRef {
    pub fn duplicate(&self) -> (r: TagRef)
        ensures
            r@ == self@,
    {
        TagRef { name: self.name.clone(), commit: clone_opt_text(&self.commit) }
    }
}

pub open spec fn ref_views(v: Seq<TagRef>) -> Seq<TagRefView> {
    v.map_values(|t: TagRef| t@)
}

/// A matched tag with its rank key.
pub type RankedTag = (KeyView, TagRefView);

/// The tags that match the grammar, in the order given, each with its key.
pub open spec fn tag_entries(refs: Seq<TagRefView>) -> Seq<RankedTag>
    decreases refs.len(),
{
    if refs.len() == 0 {
        Seq::empty()
    } else {
        let rest = tag_entries(refs.drop_last());
        match parse_tag_spec(refs.last().0) {
            Some(k) => rest.push((k, refs.last())),
            None => rest,
        }
    }
}

/// Inserts `x` before the first entry that ranks below it.
pub open spec fn insert_ranked(s: Seq<RankedTag>, x: RankedTag) -> Seq<RankedTag>
    decreases s.len(),
{
    if s.len() == 0 {
        seq![x]
    } else if ranks_below(s[0].0, x.0) {
        seq![x] + s
    } else {
        seq![s[0]] + insert_ranked(s.drop_first(), x)
    }
}

/// Newest first; entries of equal rank keep their order (a stable sort).
pub open spec fn sort_ranked(s: Seq<RankedTag>) -> Seq<RankedTag>
    decreases s.len(),
{
    if s.len() == 0 {
        s
    } else {
        insert_ranked(sort_ranked(s.drop_last()), s.last())
    }
}

/// No entry ranks below a later one.
pub open spec fn newest_first(s: Seq<RankedTag>) -> bool {
    forall|i: int, j: int| 0 <= i < j < s.len() ==> !ranks_below(#[trigger] s[i].0, #[trigger] s[j].0)
}

/// The matched tags, newest first.
pub open spec fn version_order(refs: Seq<TagRefView>) -> Seq<TagRefView> {
    sort_ranked(tag_entries(refs)).map_values(|e: RankedTag| e.1)
}

/// Where `insert_ranked` puts `x`: before the first entry that ranks below it.
proof fn lemma_insert_ranked_at(s: Seq<RankedTag>, x: RankedTag, p: int)
    requires
        0 <= p <= s.len(),
        forall|i: int| 0 <= i < p ==> !ranks_below(#[trigger] s[i].0, x.0),
        p < s.len() ==> ranks_below(s[p].0, x.0),
    ensures
        insert_ranked(s, x) == s.insert(p, x),
    decreases s.len(),
{
    if s.len() == 0 {
        assert(s.insert(p, x) =~= seq![x]);
    } else if ranks_below(s[0].0, x.0) {
        assert(p == 0);
        assert(s.insert(p, x) =~= seq![x] + s);
    } else {
        let t = s.drop_first();
        assert forall|i: int| 0 <= i < p - 1 implies !ranks_below(#[trigger] t[i].0, x.0) by {
            assert(t[i] == s[i + 1]);
        }
        lemma_insert_ranked_at(t, x, p - 1);
        assert(s.insert(p, x) =~= seq![s[0]] + t.insert(p - 1, x));
    }
}

/// Inserting at the place `insert_ranked` picks keeps the order newest first.
proof fn lemma_insert_keeps_order(s: Seq<RankedTag>, x: RankedTag, p: int)
    requires
        newest_first(s),
        0 <= p <= s.len(),
        forall|i: int| 0 <= i < p ==> !ranks_below(#[trigger] s[i].0, x.0),
        p < s.len() ==> ranks_below(s[p].0, x.0),
    ensures
        newest_first(s.insert(p, x)),
{
    let r = s.insert(p, x);
    assert forall|i: int, j: int| 0 <= i < j < r.len() implies !ranks_below(
        #[trigger] r[i].0,
        #[trigger] r[j].0,
    ) by {
        if j == p {
            assert(r[i] == s[i]);
        } else if i == p {
            assert(r[j] == s[j - 1]);
            if j - 1 > p {
                assert(!ranks_below(s[p].0, s[j - 1].0));
            }
            lemma_rank_order(x.0, s[j - 1].0, s[p].0);
            lemma_rank_order(s[p].0, x.0, s[j - 1].0);
            lemma_rank_order(s[j - 1].0, s[p].0, x.0);
        } else {
            let si = if i < p { i } else { i - 1 };
            let sj = if j < p { j } else { j - 1 };
            assert(r[i] == s[si]);
            assert(r[j] == s[sj]);
        }
    }
}

/// The first place at which `x` goes: before the first entry ranking below it.
proof fn lemma_insert_place_exists(s: Seq<RankedTag>, x: RankedTag) -> (p: int)
    ensures
        0 <= p <= s.len(),
        forall|i: int| 0 <= i < p ==> !ranks_below(#[trigger] s[i].0, x.0),
        p < s.len() ==> ranks_below(s[p].0, x.0),
    decreases s.len(),
{
    if s.len() == 0 {
        0
    } else if ranks_below(s[0].0, x.0) {
        0
    } else {
        let t = s.drop_first();
        let q = lemma_insert_place_exists(t, x);
        assert forall|i: int| 0 <= i < q + 1 implies !ranks_below(#[trigger] s[i].0, x.0) by {
            if i > 0 {
                assert(s[i] == t[i - 1]);
            }
        }
        q + 1
    }
}

/// The stable newest-first sort yields entries newest first.
pub proof fn lemma_sort_ranked_ordered(s: Seq<RankedTag>)
    ensures
        newest_first(sort_ranked(s)),
        sort_ranked(s).len() == s.len(),
    decreases s.len(),
{
    if s.len() > 0 {
        let t = sort_ranked(s.drop_last());
        lemma_sort_ranked_ordered(s.drop_last());
        let p = lemma_insert_place_exists(t, s.last());
        lemma_insert_ranked_at(t, s.last(), p);
        lemma_insert_keeps_order(t, s.last(), p);
    }
}


/// Every entry carries the key that its tag name reads as.
pub open spec fn keys_read_from_names(s: Seq<RankedTag>) -> bool {
    forall|i: int| 0 <= i < s.len() ==> parse_tag_spec((#[trigger] s[i]).1.0) == Some(s[i].0)
}

proof fn lemma_tag_entries_keys(refs: Seq<TagRefView>)
    ensures
        keys_read_from_names(tag_entries(refs)),
    decreases refs.len(),
{
    if refs.len() > 0 {
        lemma_tag_entries_keys(refs.drop_last());
    }
}

/// What `sort_ranked` holds is what it was given.
proof fn lemma_sort_ranked_members(s: Seq<RankedTag>)
    ensures
        forall|x: RankedTag| s.contains(x) <==> #[trigger] sort_ranked(s).contains(x),
    decreases s.len(),
{
    if s.len() > 0 {
        let t = sort_ranked(s.drop_last());
        lemma_sort_ranked_members(s.drop_last());
        let p = lemma_insert_place_exists(t, s.last());
        lemma_insert_ranked_at(t, s.last(), p);
        let r = t.insert(p, s.last());
        assert forall|x: RankedTag| s.contains(x) <==> #[trigger] r.contains(x) by {
            if s.contains(x) {
                let i = choose|i: int| 0 <= i < s.len() && s[i] == x;
                if i < s.len() - 1 {
                    assert(s.drop_last()[i] == x);
                    assert(s.drop_last().contains(x));
                    assert(t.contains(x));
                    let j = choose|j: int| 0 <= j < t.len() && t[j] == x;
                    if j < p {
                        assert(r[j] == x);
                    } else {
                        assert(r[j + 1] == x);
                    }
                } else {
                    assert(r[p] == x);
                }
            }
            if r.contains(x) {
                let j = choose|j: int| 0 <= j < r.len() && r[j] == x;
                if j == p {
                    assert(s[s.len() - 1] == x);
                } else {
                    let tj = if j < p { j } else { j - 1 };
                    assert(t[tj] == x);
                    assert(t.contains(x));
                    assert(s.drop_last().contains(x));
                    let k = choose|k: int| 0 <= k < s.drop_last().len() && s.drop_last()[k] == x;
                    assert(s[k] == x);
                }
            }
        }
    }
}

/// Sorting entries that are already newest first changes nothing.
proof fn lemma_sort_ranked_of_ordered(s: Seq<RankedTag>)
    requires
        newest_first(s),
    ensures
        sort_ranked(s) == s,
    decreases s.len(),
{
    if s.len() > 0 {
        let t = s.drop_last();
        assert(newest_first(t)) by {
            assert forall|i: int, j: int| 0 <= i < j < t.len() implies !ranks_below(
                #[trigger] t[i].0,
                #[trigger] t[j].0,
            ) by {
                assert(t[i] == s[i] && t[j] == s[j]);
            }
        }
        lemma_sort_ranked_of_ordered(t);
        assert forall|i: int| 0 <= i < t.len() implies !ranks_below(
            #[trigger] t[i].0,
            s.last().0,
        ) by {
            assert(t[i] == s[i]);
        }
        lemma_insert_ranked_at(t, s.last(), t.len() as int);
        assert(t.insert(t.len() as int, s.last()) =~= s);
    }
}

/// Reading the names of entries whose keys come from their names gives the
/// entries back.
proof fn lemma_entries_of_names(s: Seq<RankedTag>)
    requires
        keys_read_from_names(s),
    ensures
        tag_entries(s.map_values(|e: RankedTag| e.1)) == s,
    decreases s.len(),
{
    let names = s.map_values(|e: RankedTag| e.1);
    if s.len() > 0 {
        let t = s.drop_last();
        assert(keys_read_from_names(t)) by {
            assert forall|i: int| 0 <= i < t.len() implies parse_tag_spec(
                (#[trigger] t[i]).1.0,
            ) == Some(t[i].0) by {
                assert(t[i] == s[i]);
            }
        }
        lemma_entries_of_names(t);
        assert(names.drop_last() =~= t.map_values(|e: RankedTag| e.1));
        assert(parse_tag_spec(s[s.len() - 1].1.0) == Some(s[s.len() - 1].0));
        assert(t.push(s.last()) =~= s);
    } else {
        assert(names =~= Seq::<TagRefView>::empty());
    }
}

/// Ordering an ordered tag list again gives the same list.
pub proof fn lemma_version_order_idempotent(refs: Seq<TagRefView>)
    ensures
        version_order(version_order(refs)) == version_order(refs),
{
    let e = tag_entries(refs);
    let s = sort_ranked(e);
    lemma_tag_entries_keys(refs);
    lemma_sort_ranked_members(e);
    lemma_sort_ranked_ordered(e);
    assert(keys_read_from_names(s)) by {
        assert forall|i: int| 0 <= i < s.len() implies parse_tag_spec((#[trigger] s[i]).1.0)
            == Some(s[i].0) by {
            assert(s.contains(s[i]));
            assert(e.contains(s[i]));
            let j = choose|j: int| 0 <= j < e.len() && e[j] == s[i];
        }
    }
    lemma_entries_of_names(s);
    lemma_sort_ranked_of_ordered(s);
}

/// Pairs up keys and tags.
pub open spec fn ranked(keys: Seq<VersionKey>, tags: Seq<TagRef>) -> Seq<RankedTag> {
    Seq::new(keys.len(), |j: int| (keys[j]@, tags[j]@))
}

/// The tags that match the tag grammar, newest first; tags of equal rank
/// keep the order in which they were listed.
pub fn sort_version_tags(refs: &Vec<TagRef>) -> (r: Vec<TagRef>)
    ensures
        ref_views(r@) == version_order(ref_views(refs@)),
{
    let ghost all = ref_views(refs@);
    let mut keys: Vec<VersionKey> = Vec::new();
    let mut tags: Vec<TagRef> = Vec::new();
    let mut i: usize = 0;
    while i < refs.len()
        invariant
            all == ref_views(refs@),
            i <= refs@.len(),
            keys@.len() == tags@.len(),
            ranked(keys@, tags@) == sort_ranked(tag_entries(all.subrange(0, i as int))),
        decreases refs@.len() - i,
    {
        let t = &refs[i];
        let ghost before = all.subrange(0, i as int);
        assert(all.subrange(0, i + 1).drop_last() =~= before);
        assert(all.subrange(0, i + 1).last() == t@);
        match parse_tag(t.name.as_str()) {
            Some(k) => {
                let mut p: usize = 0;
                while p < keys.len() && !ranks_below_exec(&keys[p], &k)
                    invariant
                        p <= keys@.len(),
                        forall|q: int| 0 <= q < p ==> !ranks_below(#[trigger] keys@[q]@, k@),
                    decreases keys@.len() - p,
                {
                    p = p + 1;
                }
                let ghost old_ranked = ranked(keys@, tags@);
                let ghost x = (k@, t@);
                assert(tag_entries(before).push(x).drop_last() =~= tag_entries(before));
                proof {
                    assert forall|q: int| 0 <= q < p implies !ranks_below(
                        #[trigger] old_ranked[q].0,
                        x.0,
                    ) by {
                        assert(old_ranked[q].0 == keys@[q]@);
                    }
                    lemma_insert_ranked_at(old_ranked, x, p as int);
                }
                keys.insert(p, k);
                tags.insert(p, t.duplicate());
                assert(ranked(keys@, tags@) =~= old_ranked.insert(p as int, x));
            },
            None => {},
        }
        i = i + 1;
    }
    assert(all.subrange(0, refs@.len() as int) =~= all);
    assert(ref_views(tags@) =~= ranked(keys@, tags@).map_values(|e: RankedTag| e.1));
    tags
}

/// Index of the first entry from `i` on that points at commit `c`, or the length.
pub open spec fn index_of_commit(s: Seq<TagRefView>, c: Seq<char>, i: int) -> int
    decreases s.len() - i,
{
    if i < 0 || i >= s.len() {
        s.len() as int
    } else if s[i].1 == Some(c) {
        i
    } else {
        index_of_commit(s, c, i + 1)
    }
}

/// Index of the first tag from `i` on named `name`, or the length.
pub open spec fn index_of_name(s: Seq<TagRefView>, name: Seq<char>, i: int) -> int
    decreases s.len() - i,
{
    if i < 0 || i >= s.len() {
        s.len() as int
    } else if s[i].0 == name {
        i
    } else {
        index_of_name(s, name, i + 1)
    }
}

/// The commit that the tag named `name` points at, if it is listed and resolved.
pub open spec fn commit_of_tag(refs: Seq<TagRefView>, name: Seq<char>) -> Option<Seq<char>> {
    let i = index_of_name(refs, name, 0);
    if 0 <= i < refs.len() {
        refs[i].1
    } else {
        None
    }
}

/// Position in the ordered list of the first tag that points where `lts` points.
pub open spec fn lts_position(refs: Seq<TagRefView>) -> Option<int> {
    let order = version_order(refs);
    match commit_of_tag(refs, seq!['l', 't', 's']) {
        Some(c) => {
            let k = index_of_commit(order, c, 0);
            if k < order.len() {
                Some(k)
            } else {
                None
            }
        },
        None => None,
    }
}

/// The versions offered: the ordered tag names, clipped right after the
/// `lts` point where there is one.
pub open spec fn available_versions(refs: Seq<TagRefView>) -> Seq<Seq<char>> {
    let order = version_order(refs);
    let kept = match lts_position(refs) {
        Some(k) => order.subrange(0, k + 1),
        None => order,
    };
    kept.map_values(|t: TagRefView| t.0)
}

/// The first ordered tag that points at `head`, or the commit id itself.
pub open spec fn current_version(refs: Seq<TagRefView>, head: Seq<char>) -> Seq<char> {
    let order = version_order(refs);
    let h = index_of_commit(order, head, 0);
    if h < order.len() {
        order[h].0
    } else {
        head
    }
}

fn find_commit(s: &Vec<TagRef>, c: &str) -> (r: usize)
    ensures
        r == index_of_commit(ref_views(s@), c@, 0),
{
    let ghost v = ref_views(s@);
    let mut i: usize = 0;
    while i < s.len()
        invariant
            v == ref_views(s@),
            i <= s@.len(),
            index_of_commit(v, c@, i as int) == index_of_commit(v, c@, 0),
        decreases s@.len() - i,
    {
        match &s[i].commit {
            Some(x) => {
                if crate::text::same_text(x.as_str(), c) {
                    return i;
                }
            },
            None => {},
        }
        i = i + 1;
    }
    i
}

fn find_name(s: &Vec<TagRef>, name: &str) -> (r: usize)
    ensures
        r == index_of_name(ref_views(s@), name@, 0),
{
    let ghost v = ref_views(s@);
    let mut i: usize = 0;
    while i < s.len()
        invariant
            v == ref_views(s@),
            i <= s@.len(),
            index_of_name(v, name@, i as int) == index_of_name(v, name@, 0),
        decreases s@.len() - i,
    {
        if crate::text::same_text(s[i].name.as_str(), name) {
            return i;
        }
        i = i + 1;
    }
    i
}

/// The version list that a repository offers and the version at `head`:
/// the matched tags newest first, clipped right after the entry that points
/// where `lts` points, and the first ordered tag at `head` (before clipping),
/// else the commit id of `head` itself.
pub fn get_tags_and_current_version(refs: &Vec<TagRef>, head: &str) -> (r: (Vec<String>, String))
    ensures
        crate::text::texts(r.0@) == available_versions(ref_views(refs@)),
        r.1@ == current_version(ref_views(refs@), head@),
        lts_position(ref_views(refs@)) is Some ==> r.0@.len() == lts_position(
            ref_views(refs@),
        )->0 + 1,
{
    let order = sort_version_tags(refs);
    let h = find_commit(&order, head);
    let current = if h < order.len() {
        order[h].name.clone()
    } else {
        head.to_owned()
    };
    let lts = find_name(refs, "lts");
    proof {
        reveal_strlit("lts");
        assert("lts"@ =~= seq!['l', 't', 's']);
    }
    let mut end = order.len();
    if lts < refs.len() {
        match &refs[lts].commit {
            Some(c) => {
                let k = find_commit(&order, c.as_str());
                if k < order.len() {
                    end = k + 1;
                }
            },
            None => {},
        }
    }
    let mut names: Vec<String> = Vec::new();
    let mut j: usize = 0;
    while j < end
        invariant
            end <= order@.len(),
            j <= end,
            crate::text::texts(names@) == ref_views(order@).subrange(0, j as int).map_values(
                |t: TagRefView| t.0,
            ),
        decreases end - j,
    {
        let ghost prev = names@;
        let nm = order[j].name.clone();
        assert(nm@ == ref_views(order@)[j as int].0);
        names.push(nm);
        assert(crate::text::texts(names@) =~= crate::text::texts(prev).push(nm@));
        j = j + 1;
        assert(crate::text::texts(names@) =~= ref_views(order@).subrange(0, j as int).map_values(
            |t: TagRefView| t.0,
        ));
    }
    assert(ref_views(order@).subrange(0, order@.len() as int) =~= ref_views(order@));
    (names, current)
}


/// Why a repository step could not go on.
#[derive(Debug)]
pub enum SyncError {
    /// The requested tag is not listed, or does not resolve to a commit.
    TagNotFound,
}

/// The commit that checking out `tag` moves HEAD to: the commit the tag
/// points at; an error where the tag is not listed or does not resolve.
pub fn checkout_version_tag(refs: &Vec<TagRef>, tag: &str) -> (r: Result<String, SyncError>)
    ensures
        match r {
            Ok(c) => commit_of_tag(ref_views(refs@), tag@) == Some(c@),
            Err(_) => commit_of_tag(ref_views(refs@), tag@) is None,
        },
{
    let i = find_name(refs, tag);
    if i < refs.len() {
        match &refs[i].commit {
            Some(c) => Ok(c.clone()),
            None => Err(SyncError::TagNotFound),
        }
    } else {
        Err(SyncError::TagNotFound)
    }
}

proof fn lemma_index_of_name(s: Seq<TagRefView>, name: Seq<char>, i: int)
    requires
        0 <= i <= s.len(),
    ensures
        i <= index_of_name(s, name, i) <= s.len(),
        index_of_name(s, name, i) < s.len() ==> s[index_of_name(s, name, i)].0 == name,
    decreases s.len() - i,
{
    if i < s.len() && s[i].0 != name {
        lemma_index_of_name(s, name, i + 1);
    }
}

proof fn lemma_index_of_commit(s: Seq<TagRefView>, c: Seq<char>, i: int, j: int)
    requires
        0 <= i <= j < s.len(),
        s[j].1 == Some(c),
    ensures
        i <= index_of_commit(s, c, i) <= j,
        s[index_of_commit(s, c, i)].1 == Some(c),
    decreases j - i,
{
    if s[i].1 != Some(c) {
        lemma_index_of_commit(s, c, i + 1, j);
    }
}

proof fn lemma_tag_entries_members(refs: Seq<TagRefView>)
    ensures
        forall|j: int|
            0 <= j < refs.len() && (#[trigger] parse_tag_spec(refs[j].0)) is Some
                ==> tag_entries(refs).contains((parse_tag_spec(refs[j].0)->0, refs[j])),
        forall|e: RankedTag| #[trigger] tag_entries(refs).contains(e) ==> refs.contains(e.1),
    decreases refs.len(),
{
    if refs.len() > 0 {
        let t = refs.drop_last();
        let rest = tag_entries(t);
        lemma_tag_entries_members(t);
        let all = tag_entries(refs);
        assert forall|j: int|
            0 <= j < refs.len() && (#[trigger] parse_tag_spec(refs[j].0)) is Some
                implies all.contains((parse_tag_spec(refs[j].0)->0, refs[j])) by {
            let x = (parse_tag_spec(refs[j].0)->0, refs[j]);
            if j < refs.len() - 1 {
                assert(t[j] == refs[j]);
                assert(parse_tag_spec(t[j].0) is Some);
                assert(rest.contains(x));
                let q = choose|q: int| 0 <= q < rest.len() && rest[q] == x;
                assert(all[q] == x);
            } else {
                assert(all[all.len() - 1] == x);
            }
        }
        assert forall|e: RankedTag| #[trigger] all.contains(e) implies refs.contains(e.1) by {
            let q = choose|q: int| 0 <= q < all.len() && all[q] == e;
            if q < rest.len() {
                assert(rest[q] == e);
                assert(rest.contains(e));
                assert(t.contains(e.1));
                let w = choose|w: int| 0 <= w < t.len() && t[w] == e.1;
                assert(refs[w] == e.1);
            } else {
                assert(refs[refs.len() - 1] == e.1);
            }
        }
    }
}

/// Checking out a version tag and then reading the versions back reports
/// that tag as the current version, where no other tag points at its commit.
pub proof fn lemma_checkout_then_fetch(refs: Seq<TagRefView>, v: Seq<char>)
    requires
        parse_tag_spec(v) is Some,
        commit_of_tag(refs, v) is Some,
        forall|i: int|
            0 <= i < refs.len() && (#[trigger] refs[i]).1 == commit_of_tag(refs, v) ==> refs[i].0
                == v,
    ensures
        current_version(refs, commit_of_tag(refs, v)->0) == v,
{
    let c = commit_of_tag(refs, v)->0;
    lemma_index_of_name(refs, v, 0);
    let i0 = index_of_name(refs, v, 0);
    let e = tag_entries(refs);
    lemma_tag_entries_members(refs);
    assert(parse_tag_spec(refs[i0].0) is Some);
    let x = (parse_tag_spec(refs[i0].0)->0, refs[i0]);
    assert(e.contains(x));
    lemma_sort_ranked_members(e);
    let s = sort_ranked(e);
    assert(s.contains(x));
    let j = choose|j: int| 0 <= j < s.len() && s[j] == x;
    let order = version_order(refs);
    assert(order[j] == refs[i0]);
    lemma_index_of_commit(order, c, 0, j);
    let h = index_of_commit(order, c, 0);
    assert(order[h] == s[h].1);
    assert(s.contains(s[h]));
    assert(e.contains(s[h]));
    assert(refs.contains(s[h].1));
}

} // verus!
