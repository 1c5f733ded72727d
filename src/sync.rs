//! Repository synchronisation decisions: credentials by URL scheme, what
//! `ensure` does with the local copy, refspecs, transfer-progress throttling
//! and the release notes between HEAD and a target version.

use vstd::prelude::*;
use crate::text::{has_prefix, push_char, split_on, texts, trimmed};
use crate::version::{TagRef, opt_text, ref_views, version_order};

verus! {

/// How a remote is authenticated.
pub enum CredentialMethod {
    /// A key from the running SSH agent.
    SshAgent,
    /// The ambient default credentials.
    DefaultCredentials,
    /// Every available method, in order.
    TryAll,
}

/// ASCII letters in lower case; every other character as it is.
pub open spec fn ascii_lower(c: char) -> char {
    if 'A' <= c && c <= 'Z' {
        ((c as u32) + 32) as char
    } else {
        c
    }
}

pub open spec fn lower_text(s: Seq<char>) -> Seq<char> {
    s.map_values(|c: char| ascii_lower(c))
}

/// Whether `s`, with ASCII letters lowered, starts with the lower-case `p`.
fn starts_with_lowered(s: &str, p: &str) -> (r: bool)
    ensures
        r == has_prefix(lower_text(s@), p@),
{
    let n = s.unicode_len();
    let m = p.unicode_len();
    if m > n {
        return false;
    }
    let mut k: usize = 0;
    while k < m
        invariant
            n == s@.len(),
            m == p@.len(),
            m <= n,
            k <= m,
            forall|j: int| 0 <= j < k ==> ascii_lower(s@[j]) == p@[j],
        decreases m - k,
    {
        let c = s.get_char(k);
        let lc = if 'A' <= c && c <= 'Z' {
            ((c as u8) + 32) as char
        } else {
            c
        };
        assert(lc == ascii_lower(c)) by {
            if 'A' <= c && c <= 'Z' {
                assert(((c as u8) + 32) as char == ((c as u32) + 32) as char);
            }
        }
        if lc != p.get_char(k) {
            assert(lower_text(s@).subrange(0, m as int)[k as int] != p@[k as int]);
            return false;
        }
        k = k + 1;
    }
    assert(lower_text(s@).subrange(0, m as int) =~= p@);
    true
}

/// The credential method for a remote URL: SSH-style URLs use the key
/// agent, HTTPS URLs the default credentials, anything else (or no URL)
/// tries every method. The scheme is read case-insensitively, after trimming.
pub open spec fn credential_method_for(url: Option<Seq<char>>) -> CredentialMethod {
    match url {
        Some(u) => {
            let l = lower_text(trimmed(u));
            if has_prefix(l, "git@"@) || has_prefix(l, "ssh://"@) {
                CredentialMethod::SshAgent
            } else if has_prefix(l, "https://"@) {
                CredentialMethod::DefaultCredentials
            } else {
                CredentialMethod::TryAll
            }
        },
        None => CredentialMethod::TryAll,
    }
}

pub fn configure_credentials(url: Option<&str>) -> (r: CredentialMethod)
    ensures
        r == credential_method_for(
            match url {
                Some(u) => Some(u@),
                None => None,
            },
        ),
{
    match url {
        Some(u) => {
            let t = crate::text::trim(u);
            if starts_with_lowered(t.as_str(), "git@") || starts_with_lowered(t.as_str(), "ssh://") {
                CredentialMethod::SshAgent
            } else if starts_with_lowered(t.as_str(), "https://") {
                CredentialMethod::DefaultCredentials
            } else {
                CredentialMethod::TryAll
            }
        },
        None => CredentialMethod::TryAll,
    }
}

/// What `ensure` does with the local copy.
pub enum RepoAction {
    /// No local copy: clone it.
    Clone,
    /// A directory is there but is no repository: delete it, then clone.
    RemoveAndClone,
    /// A valid repository: point `origin` at the profile's URL where it
    /// differs, then fetch branches and tags, pruning stale tags.
    Fetch { update_origin: bool },
}

pub fn ensure_repository(dir_exists: bool, opens_as_repo: bool, origin_url: Option<&str>, profile_url: &str) -> (r: RepoAction)
    ensures
        !dir_exists ==> r is Clone,
        dir_exists && !opens_as_repo ==> r is RemoveAndClone,
        dir_exists && opens_as_repo ==> (r matches RepoAction::Fetch { update_origin } && update_origin
            == (match origin_url {
            Some(o) => o@ != profile_url@,
            None => true,
        })),
{
    if !dir_exists {
        RepoAction::Clone
    } else if !opens_as_repo {
        RepoAction::RemoveAndClone
    } else {
        let update_origin = match origin_url {
            Some(o) => !crate::text::same_text(o, profile_url),
            None => true,
        };
        RepoAction::Fetch { update_origin }
    }
}

/// Index of the first entry from `i` on whose tag resolves to a commit, or the length.
pub open spec fn first_resolved(s: Seq<crate::version::TagRefView>, i: int) -> int
    decreases s.len() - i,
{
    if i < 0 || i >= s.len() {
        s.len() as int
    } else if s[i].1 is Some {
        i
    } else {
        first_resolved(s, i + 1)
    }
}

/// The tag a fresh clone checks out: the newest version tag that resolves
/// to a commit, if any; with none the clone stays on its default branch.
pub fn initial_checkout_tag(refs: &Vec<TagRef>) -> (r: Option<String>)
    ensures
        ({
            let order = version_order(ref_views(refs@));
            let k = first_resolved(order, 0);
            match r {
                Some(t) => k < order.len() && t@ == order[k].0,
                None => k == order.len(),
            }
        }),
{
    let order = crate::version::sort_version_tags(refs);
    let ghost v = ref_views(order@);
    let mut i: usize = 0;
    while i < order.len()
        invariant
            v == ref_views(order@),
            v == version_order(ref_views(refs@)),
            v.len() == order@.len(),
            i <= order@.len(),
            first_resolved(v, i as int) == first_resolved(v, 0),
        decreases order@.len() - i,
    {
        assert(v[i as int] == order@[i as int]@);
        if order[i].commit.is_some() {
            assert(v[i as int].1 is Some);
            assert(first_resolved(v, i as int) == i);
            return Some(order[i].name.clone());
        }
        i = i + 1;
    }
    None
}

/// The reference of a tag: `refs/tags/<tag>`.
pub fn tag_ref_name(tag: &str) -> (r: String)
    ensures
        r@ == "refs/tags/"@ + tag@,
{
    let mut s = String::from_str("refs/tags/");
    s.append(tag);
    s
}

/// The refspec that fetches exactly one tag, forcing the local ref.
pub fn tag_refspec(tag: &str) -> (r: String)
    ensures
        r@ == "+refs/tags/"@ + tag@ + ":refs/tags/"@ + tag@,
{
    let mut s = String::from_str("+refs/tags/");
    s.append(tag);
    s.append(":refs/tags/");
    s.append(tag);
    s
}

/// Throttles transfer-progress notices to changes of a tenth of a percent.
pub struct TransferThrottle {
    /// The last reported progress, in tenths of a percent.
    pub last_tenths: Option<u128>,
}

/// Progress in tenths of a percent, rounded half up.
pub open spec fn tenths_of(received: u64, total: u64) -> u128 {
    ((received as int * 1000 + total as int / 2) / total as int) as u128
}

impl TransferThrottle {
    pub fn new() -> (r: TransferThrottle)
        ensures
            r.last_tenths is None,
    {
        TransferThrottle { last_tenths: None }
    }

    /// Whether to report this progress: always while the total is unknown,
    /// else when the progress moved by a tenth of a percent or the transfer
    /// is complete.
    pub fn observe(&mut self, received: u64, total: u64) -> (report: bool)
        ensures
            total == 0 ==> report && final(self).last_tenths == old(self).last_tenths,
            total > 0 ==> {
                let t = tenths_of(received, total);
                &&& report == (old(self).last_tenths != Some(t) || received == total)
                &&& final(self).last_tenths == if report {
                    Some(t)
                } else {
                    old(self).last_tenths
                }
            },
    {
        if total == 0 {
            return true;
        }
        let t: u128 = ((received as u128) * 1000 + (total as u128) / 2) / (total as u128);
        let report = match self.last_tenths {
            Some(l) => l != t || received == total,
            None => true,
        };
        if report {
            self.last_tenths = Some(t);
        }
        report
    }
}

/// A commit met while walking from the target back to HEAD.
pub struct CommitInfo {
    pub parent_count: usize,
    pub message: Option<String>,
}

/// The non-blank lines of the pieces, trimmed, in order.
pub open spec fn kept_lines(pieces: Seq<Seq<char>>) -> Seq<Seq<char>>
    decreases pieces.len(),
{
    if pieces.len() == 0 {
        Seq::empty()
    } else {
        let rest = kept_lines(pieces.drop_last());
        if trimmed(pieces.last()).len() > 0 {
            rest.push(trimmed(pieces.last()))
        } else {
            rest
        }
    }
}

/// The non-blank lines of a message, trimmed.
pub open spec fn message_lines(msg: Seq<char>) -> Seq<Seq<char>> {
    kept_lines(split_on(msg, '\n'))
}

/// The most notes collected.
pub const MAX_NOTES: usize = 10;

/// Adds lines to the notes, skipping repeats, until there are ten.
pub open spec fn add_notes(acc: Seq<Seq<char>>, lines: Seq<Seq<char>>) -> Seq<Seq<char>>
    decreases lines.len(),
{
    if lines.len() == 0 {
        acc
    } else {
        let before = add_notes(acc, lines.drop_last());
        if before.len() >= 10 || before.contains(lines.last()) {
            before
        } else {
            before.push(lines.last())
        }
    }
}

pub type CommitView = (usize, Option<Seq<char>>);

pub open spec fn commit_views(v: Seq<CommitInfo>) -> Seq<CommitView> {
    v.map_values(|c: CommitInfo| (c.parent_count, opt_text(c.message)))
}

/// The notes of the walked commits, newest first: the lines of every
/// non-merge commit's message, without repeats, at most ten.
pub open spec fn walk_notes(commits: Seq<CommitView>) -> Seq<Seq<char>>
    decreases commits.len(),
{
    if commits.len() == 0 {
        Seq::empty()
    } else {
        let before = walk_notes(commits.drop_last());
        let c = commits.last();
        if c.0 > 1 {
            before
        } else {
            match c.1 {
                Some(m) => add_notes(before, message_lines(m)),
                None => before,
            }
        }
    }
}

/// The release notes between HEAD and a target: the notes of the walk, or,
/// where the walk gives none (HEAD at or past the target), at most the
/// target's own summary line.
pub open spec fn update_notes(commits: Seq<CommitView>, target_message: Option<Seq<char>>) -> Seq<Seq<char>> {
    let w = walk_notes(commits);
    if w.len() > 0 {
        w
    } else {
        match target_message {
            Some(m) => if message_lines(m).len() > 0 {
                seq![message_lines(m)[0]]
            } else {
                Seq::empty()
            },
            None => Seq::empty(),
        }
    }
}

/// The trimmed non-blank lines of a message.
pub fn message_lines_of(msg: &str) -> (r: Vec<String>)
    ensures
        texts(r@) == message_lines(msg@),
{
    let pieces = crate::text::split_char(msg, '\n');
    let ghost ps = texts(pieces@);
    let mut out: Vec<String> = Vec::new();
    let mut i: usize = 0;
    while i < pieces.len()
        invariant
            ps == texts(pieces@),
            ps == split_on(msg@, '\n'),
            ps.len() == pieces@.len(),
            i <= pieces@.len(),
            texts(out@) == kept_lines(ps.subrange(0, i as int)),
        decreases pieces@.len() - i,
    {
        assert(ps.subrange(0, i + 1).drop_last() =~= ps.subrange(0, i as int));
        assert(ps.subrange(0, i + 1).last() == pieces@[i as int]@);
        let t = crate::text::trim(pieces[i].as_str());
        if t.unicode_len() > 0 {
            let ghost prev = out@;
            out.push(t);
            assert(texts(out@) =~= texts(prev).push(t@));
        }
        i = i + 1;
    }
    assert(ps.subrange(0, ps.len() as int) =~= ps);
    out
}

fn has_text(v: &Vec<String>, x: &String) -> (r: bool)
    ensures
        r == texts(v@).contains(x@),
{
    let mut i: usize = 0;
    while i < v.len()
        invariant
            i <= v@.len(),
            forall|j: int| 0 <= j < i ==> v@[j]@ != x@,
        decreases v@.len() - i,
    {
        if crate::text::same_text(v[i].as_str(), x.as_str()) {
            assert(texts(v@)[i as int] == x@);
            return true;
        }
        i = i + 1;
    }
    assert forall|j: int| 0 <= j < texts(v@).len() implies texts(v@)[j] != x@ by {
        assert(texts(v@)[j] == v@[j]@);
    }
    false
}

fn add_lines(acc: &mut Vec<String>, lines: Vec<String>)
    ensures
        texts(final(acc)@) == add_notes(texts(old(acc)@), texts(lines@)),
{
    let ghost start = texts(acc@);
    let ghost ls = texts(lines@);
    let mut i: usize = 0;
    while i < lines.len()
        invariant
            ls == texts(lines@),
            ls.len() == lines@.len(),
            i <= lines@.len(),
            texts(acc@) == add_notes(start, ls.subrange(0, i as int)),
        decreases lines@.len() - i,
    {
        assert(ls.subrange(0, i + 1).drop_last() =~= ls.subrange(0, i as int));
        assert(ls.subrange(0, i + 1).last() == lines@[i as int]@);
        if acc.len() < MAX_NOTES && !has_text(acc, &lines[i]) {
            let ghost prev = acc@;
            acc.push(lines[i].clone());
            assert(texts(acc@) =~= texts(prev).push(lines@[i as int]@));
        }
        i = i + 1;
    }
    assert(ls.subrange(0, ls.len() as int) =~= ls);
}

/// The release notes between HEAD and a target version, from the commits
/// reachable from the target but not from HEAD (newest first) and the
/// target's own message.
pub fn get_commit_messages_for_version_diff(commits: &Vec<CommitInfo>, target_message: Option<&str>) -> (r: Vec<String>)
    ensures
        texts(r@) == update_notes(
            commit_views(commits@),
            match target_message {
                Some(m) => Some(m@),
                None => None,
            },
        ),
{
    let ghost cs = commit_views(commits@);
    let mut notes: Vec<String> = Vec::new();
    let mut i: usize = 0;
    while i < commits.len()
        invariant
            cs == commit_views(commits@),
            i <= commits@.len(),
            texts(notes@) == walk_notes(cs.subrange(0, i as int)),
        decreases commits@.len() - i,
    {
        assert(cs.subrange(0, i + 1).drop_last() =~= cs.subrange(0, i as int));
        assert(cs.subrange(0, i + 1).last() == cs[i as int]);
        let c = &commits[i];
        if c.parent_count <= 1 {
            match &c.message {
                Some(m) => {
                    let lines = message_lines_of(m.as_str());
                    add_lines(&mut notes, lines);
                },
                None => {},
            }
        }
        i = i + 1;
    }
    assert(cs.subrange(0, cs.len() as int) =~= cs);
    if notes.len() > 0 {
        return notes;
    }
    let mut out: Vec<String> = Vec::new();
    match target_message {
        Some(m) => {
            let lines = message_lines_of(m);
            if lines.len() > 0 {
                out.push(lines[0].clone());
                assert(texts(out@) =~= seq![texts(lines@)[0]]);
            } else {
                assert(texts(out@) =~= Seq::<Seq<char>>::empty());
            }
        },
        None => {
            assert(texts(out@) =~= Seq::<Seq<char>>::empty());
        },
    }
    out
}

} // verus!
