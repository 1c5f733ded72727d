//! Installing from a repository location: the application's name derived
//! from the location, and file names taken from download URLs.

use vstd::prelude::*;
use crate::text::{has_prefix, has_suffix, split_on, texts, trimmed};
use crate::version::opt_text;

verus! {

/// The path of `s` where `s` parses as an absolute URL.
pub uninterp spec fn url_path_of(s: Seq<char>) -> Option<Seq<char>>;

/// Relies on `url::Url::parse` (re-exported as `reqwest::Url`) and
/// `Url::path`: the path component of the URL, where the text parses.
#[verifier::external_body]
pub(crate) fn parse_url_path(s: &str) -> (r: Option<String>)
    ensures
        opt_text(r) == url_path_of(s@),
{
    reqwest::Url::parse(s).ok().map(|u| u.path().to_string())
}

/// The last piece of `ps` that is neither empty nor `.`, scanning from the end.
pub open spec fn last_component(ps: Seq<Seq<char>>) -> Option<Seq<char>>
    decreases ps.len(),
{
    if ps.len() == 0 {
        None
    } else if ps.last().len() > 0 && ps.last() != seq!['.'] {
        Some(ps.last())
    } else {
        last_component(ps.drop_last())
    }
}

/// The final component of a `/`-separated path: empty and `.` components
/// do not count, and a final `..` names no file.
pub open spec fn file_name_of(p: Seq<char>) -> Option<Seq<char>> {
    match last_component(split_on(p, '/')) {
        Some(x) => if x == seq!['.', '.'] {
            None
        } else {
            Some(x)
        },
        None => None,
    }
}

/// The last component of a path, as `file_name_of` states it.
pub fn file_name(p: &str) -> (r: Option<String>)
    ensures
        opt_text(r) == file_name_of(p@),
{
    let pieces = crate::text::split_char(p, '/');
    let ghost ps = texts(pieces@);
    proof {
        reveal_strlit(".");
        reveal_strlit("..");
        assert(seq!['.'] =~= "."@);
        assert(seq!['.', '.'] =~= ".."@);
        assert(ps.subrange(0, ps.len() as int) =~= ps);
    }
    let mut i = pieces.len();
    while i > 0
        invariant
            ps == texts(pieces@),
            ps == split_on(p@, '/'),
            ps.len() == pieces@.len(),
            i <= pieces@.len(),
            last_component(ps.subrange(0, i as int)) == last_component(ps),
            seq!['.'] == "."@,
            seq!['.', '.'] == ".."@,
        decreases i,
    {
        let piece = &pieces[i - 1];
        assert(ps.subrange(0, i as int).last() == piece@);
        assert(ps.subrange(0, i as int).drop_last() =~= ps.subrange(0, i - 1));
        let is_dot = crate::text::same_text(piece.as_str(), ".");
        if piece.unicode_len() > 0 && !is_dot {
            assert(last_component(ps) == Some(piece@));
            if crate::text::same_text(piece.as_str(), "..") {
                return None;
            }
            return Some(piece.clone());
        }
        i = i - 1;
    }
    assert(ps.subrange(0, 0) =~= Seq::<Seq<char>>::empty());
    None
}

/// `s` without a trailing `.git`.
pub open spec fn without_git_suffix(s: Seq<char>) -> Seq<char> {
    if has_suffix(s, ".git"@) {
        s.subrange(0, s.len() - 4)
    } else {
        s
    }
}

/// Index of the first `:` in `s`, or the length.
pub open spec fn first_colon(s: Seq<char>, i: int) -> int
    decreases s.len() - i,
{
    if i < 0 || i >= s.len() {
        s.len() as int
    } else if s[i] == ':' {
        i
    } else {
        first_colon(s, i + 1)
    }
}

/// The path part of a repository location: for a location that starts with
/// `http` or `git@`, the URL path where it parses, else what follows the
/// first `:` (scp-like form); any other location is taken as a path.
pub open spec fn location_path(t: Seq<char>) -> Option<Seq<char>> {
    if has_prefix(t, "http"@) || has_prefix(t, "git@"@) {
        match url_path_of(t) {
            Some(p) => Some(p),
            None => {
                let c = first_colon(t, 0);
                if c < t.len() {
                    Some(t.subrange(c + 1, t.len() as int))
                } else {
                    None
                }
            },
        }
    } else {
        Some(t)
    }
}

/// Why a repository location yields no application.
#[derive(Debug)]
pub enum InstallError {
    /// No path could be read from the location.
    NoPath,
    /// The path names no final component.
    NoName,
}

/// What installing from a repository location needs: the application's
/// name, the location as given, and the supported runtime lines.
pub struct AppInstallDetails {
    pub name: String,
    pub url: String,
    pub python_versions: Vec<String>,
}

/// The application name a repository location yields: the final component
/// of its path (see `location_path`), without a `.git` suffix.
pub open spec fn app_name_of_location(url: Seq<char>) -> Option<Seq<char>> {
    match location_path(trimmed(url)) {
        Some(p) => match file_name_of(p) {
            Some(n) => Some(without_git_suffix(n)),
            None => None,
        },
        None => None,
    }
}

fn find_colon(s: &str) -> (r: usize)
    ensures
        r == first_colon(s@, 0),
{
    let n = s.unicode_len();
    let mut i: usize = 0;
    while i < n
        invariant
            n == s@.len(),
            i <= n,
            first_colon(s@, i as int) == first_colon(s@, 0),
        decreases n - i,
    {
        if s.get_char(i) == ':' {
            return i;
        }
        i = i + 1;
    }
    i
}

/// The name, location and supported runtime lines for installing from `url`.
pub fn get_app_install_details_by_url(url: &str) -> (r: Result<AppInstallDetails, InstallError>)
    ensures
        match r {
            Ok(d) => app_name_of_location(url@) == Some(d.name@) && d.url@ == url@ && texts(
                d.python_versions@,
            ) == crate::runtime::known_patches().map_values(|p: crate::runtime::PatchRow| p.0),
            Err(e) => match location_path(trimmed(url@)) {
                None => e is NoPath,
                Some(p) => file_name_of(p) is None && e is NoName,
            },
        },
{
    let t = crate::text::trim(url);
    let path = if crate::text::starts_with(t.as_str(), "http") || crate::text::starts_with(
        t.as_str(),
        "git@",
    ) {
        match parse_url_path(t.as_str()) {
            Some(p) => p,
            None => {
                let c = find_colon(t.as_str());
                let n = t.unicode_len();
                if c < n {
                    t.as_str().substring_char(c + 1, n).to_owned()
                } else {
                    return Err(InstallError::NoPath);
                }
            },
        }
    } else {
        t
    };
    let name = match file_name(path.as_str()) {
        Some(n) => n,
        None => return Err(InstallError::NoName),
    };
    let stripped = if crate::text::ends_with(name.as_str(), ".git") {
        proof {
            reveal_strlit(".git");
        }
        let k = name.unicode_len();
        name.as_str().substring_char(0, k - 4).to_owned()
    } else {
        name
    };
    Ok(
        AppInstallDetails {
            name: stripped,
            url: url.to_owned(),
            python_versions: crate::runtime::get_supported_python_versions(),
        },
    )
}

/// The file a URL path names: the text after its last `/`, where the path
/// starts with `/` and that text is not empty.
pub open spec fn url_file_name(p: Seq<char>) -> Option<Seq<char>> {
    if p.len() > 0 && p[0] == '/' {
        let pieces = split_on(p.subrange(1, p.len() as int), '/');
        if pieces.len() > 0 && pieces.last().len() > 0 {
            Some(pieces.last())
        } else {
            None
        }
    } else {
        None
    }
}

/// The file name a download URL names.
pub fn get_filename_from_url(url_string: &str) -> (r: Result<String, crate::runtime::RuntimeError>)
    ensures
        match r {
            Ok(f) => url_path_of(url_string@) matches Some(p) && url_file_name(p) == Some(f@),
            Err(e) => match url_path_of(url_string@) {
                None => e is InvalidUrl,
                Some(p) => url_file_name(p) is None && e is NoFileName,
            },
        },
{
    let path = match parse_url_path(url_string) {
        Some(p) => p,
        None => return Err(crate::runtime::RuntimeError::InvalidUrl),
    };
    let n = path.unicode_len();
    if n == 0 || path.as_str().get_char(0) != '/' {
        return Err(crate::runtime::RuntimeError::NoFileName);
    }
    let rest = path.as_str().substring_char(1, n);
    let pieces = crate::text::split_char(rest, '/');
    let ghost ps = texts(pieces@);
    if pieces.len() == 0 {
        return Err(crate::runtime::RuntimeError::NoFileName);
    }
    let last = &pieces[pieces.len() - 1];
    assert(ps.last() == last@);
    if last.unicode_len() == 0 {
        return Err(crate::runtime::RuntimeError::NoFileName);
    }
    Ok(last.clone())
}

} // verus!
