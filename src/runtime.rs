//! Runtime provisioning decisions: the table of known runtime releases,
//! version-spec resolution, what to do with an existing installation, the
//! package-installer command line, and reading a runtime's reported version.

use vstd::prelude::*;
use crate::text::{has_prefix, has_suffix, split_on, texts, trimmed, words};
use crate::version::opt_text;

verus! {

pub type PatchRow = (Seq<char>, Seq<char>, Seq<char>, Seq<char>);

/// The supported runtime lines, newest first: MAJOR.MINOR, the latest
/// known patch release, its primary download and its mirror.
pub open spec fn known_patches() -> Seq<PatchRow> {
    seq![
        ("3.13"@, "3.13.5"@, "https://www.python.org/ftp/python/3.13.5/python-3.13.5-amd64.zip"@, "https://mirrors.huaweicloud.com/python/3.13.5/python-3.13.5-amd64.zip"@),
        ("3.12"@, "3.12.10"@, "https://www.python.org/ftp/python/3.12.10/python-3.12.10-amd64.zip"@, "https://mirrors.huaweicloud.com/python/3.12.10/python-3.12.10-amd64.zip"@),
        ("3.11"@, "3.11.9"@, "https://www.python.org/ftp/python/3.11.9/python-3.11.9-amd64.zip"@, "https://mirrors.huaweicloud.com/python/3.11.9/python-3.11.9-amd64.zip"@),
        ("3.10"@, "3.10.16"@, "https://github.com/astral-sh/python-build-standalone/releases/download/20250317/cpython-3.10.16+20250317-x86_64-pc-windows-msvc-install_only_stripped.tar.gz"@, "https://www.modelscope.cn/models/okoldking/ok/resolve/master/pythons/cpython-3.10.16+20250317-x86_64-pc-windows-msvc-install_only_stripped.tar.gz"@),
        ("3.9"@, "3.9.21"@, "https://github.com/astral-sh/python-build-standalone/releases/download/20250317/cpython-3.9.21+20250317-x86_64-pc-windows-msvc-install_only_stripped.tar.gz"@, "https://www.modelscope.cn/models/okoldking/ok/resolve/master/pythons/cpython-3.9.21+20250317-x86_64-pc-windows-msvc-install_only_stripped.tar.gz"@),
        ("3.8"@, "3.8.20"@, "https://github.com/astral-sh/python-build-standalone/releases/download/20241002/cpython-3.8.20+20241002-x86_64-pc-windows-msvc-install_only_stripped.tar.gz"@, "https://www.modelscope.cn/models/okoldking/ok/resolve/master/pythons/cpython-3.8.20+20241002-x86_64-pc-windows-msvc-install_only_stripped.tar.gz"@),
        ("3.7"@, "3.7.9"@, "https://github.com/astral-sh/python-build-standalone/releases/download/20200822/cpython-3.7.9-x86_64-pc-windows-msvc-shared-pgo-20200823T0118.tar.zst"@, "https://www.modelscope.cn/models/okoldking/ok/resolve/master/pythons/cpython-3.7.9-x86_64-pc-windows-msvc-shared-pgo-20200823T0118.tar.zst"@),
    ]
}

pub const KNOWN_PATCH_COUNT: usize = 7;

fn known_patch(i: usize) -> (r: (&'static str, &'static str, &'static str, &'static str))
    requires
        i < KNOWN_PATCH_COUNT,
    ensures
        (r.0@, r.1@, r.2@, r.3@) == known_patches()[i as int],
{
    if i == 0 {
        ("3.13", "3.13.5", "https://www.python.org/ftp/python/3.13.5/python-3.13.5-amd64.zip", "https://mirrors.huaweicloud.com/python/3.13.5/python-3.13.5-amd64.zip")
    } else if i == 1 {
        ("3.12", "3.12.10", "https://www.python.org/ftp/python/3.12.10/python-3.12.10-amd64.zip", "https://mirrors.huaweicloud.com/python/3.12.10/python-3.12.10-amd64.zip")
    } else if i == 2 {
        ("3.11", "3.11.9", "https://www.python.org/ftp/python/3.11.9/python-3.11.9-amd64.zip", "https://mirrors.huaweicloud.com/python/3.11.9/python-3.11.9-amd64.zip")
    } else if i == 3 {
        ("3.10", "3.10.16", "https://github.com/astral-sh/python-build-standalone/releases/download/20250317/cpython-3.10.16+20250317-x86_64-pc-windows-msvc-install_only_stripped.tar.gz", "https://www.modelscope.cn/models/okoldking/ok/resolve/master/pythons/cpython-3.10.16+20250317-x86_64-pc-windows-msvc-install_only_stripped.tar.gz")
    } else if i == 4 {
        ("3.9", "3.9.21", "https://github.com/astral-sh/python-build-standalone/releases/download/20250317/cpython-3.9.21+20250317-x86_64-pc-windows-msvc-install_only_stripped.tar.gz", "https://www.modelscope.cn/models/okoldking/ok/resolve/master/pythons/cpython-3.9.21+20250317-x86_64-pc-windows-msvc-install_only_stripped.tar.gz")
    } else if i == 5 {
        ("3.8", "3.8.20", "https://github.com/astral-sh/python-build-standalone/releases/download/20241002/cpython-3.8.20+20241002-x86_64-pc-windows-msvc-install_only_stripped.tar.gz", "https://www.modelscope.cn/models/okoldking/ok/resolve/master/pythons/cpython-3.8.20+20241002-x86_64-pc-windows-msvc-install_only_stripped.tar.gz")
    } else {
        ("3.7", "3.7.9", "https://github.com/astral-sh/python-build-standalone/releases/download/20200822/cpython-3.7.9-x86_64-pc-windows-msvc-shared-pgo-20200823T0118.tar.zst", "https://www.modelscope.cn/models/okoldking/ok/resolve/master/pythons/cpython-3.7.9-x86_64-pc-windows-msvc-shared-pgo-20200823T0118.tar.zst")
    }
}

/// Why a runtime could not be resolved or read.
#[derive(Debug)]
pub enum RuntimeError {
    /// A version spec that is neither MAJOR.MINOR nor MAJOR.MINOR.PATCH.
    InvalidVersionFormat,
    /// A MAJOR.MINOR line that the table of known releases lacks.
    UnsupportedVersion,
    /// No download is known for the requested release.
    NoDownloadUrl,
    /// The download URL does not parse.
    InvalidUrl,
    /// The download URL's path names no file.
    NoFileName,
    /// The runtime's version command reported failure.
    VersionCommandFailed,
    /// The version command printed nothing usable.
    NoVersionOutput,
    /// The version command's output holds no version word.
    UnparsableVersionOutput,
    /// An archive of a format that cannot be extracted.
    UnsupportedArchive,
    /// Neither the primary download nor the backup succeeded.
    DownloadFailed,
    /// The archive could not be extracted.
    ExtractionFailed,
    /// The runtime executable is missing after extraction.
    CorruptInstall,
}

/// The MAJOR.MINOR lines the table supports, newest first.
pub fn get_supported_python_versions() -> (r: Vec<String>)
    ensures
        texts(r@) == known_patches().map_values(|p: PatchRow| p.0),
{
    let mut out: Vec<String> = Vec::new();
    let mut i: usize = 0;
    while i < KNOWN_PATCH_COUNT
        invariant
            i <= KNOWN_PATCH_COUNT,
            texts(out@) == known_patches().map_values(|p: PatchRow| p.0).subrange(0, i as int),
        decreases KNOWN_PATCH_COUNT - i,
    {
        let row = known_patch(i);
        let ghost prev = out@;
        let s = row.0.to_owned();
        out.push(s);
        assert(texts(out@) =~= texts(prev).push(s@));
        i = i + 1;
        assert(texts(out@) =~= known_patches().map_values(|p: PatchRow| p.0).subrange(0, i as int));
    }
    assert(known_patches().map_values(|p: PatchRow| p.0).subrange(0, 7) =~= known_patches().map_values(|p: PatchRow| p.0));
    out
}

/// Index of the first row from `i` on whose MAJOR.MINOR is `mm`, or the length.
pub open spec fn row_by_minor(mm: Seq<char>, i: int) -> int
    decreases known_patches().len() - i,
{
    if i < 0 || i >= known_patches().len() {
        known_patches().len() as int
    } else if known_patches()[i].0 == mm {
        i
    } else {
        row_by_minor(mm, i + 1)
    }
}

/// Index of the first row from `i` on that names `v` as its line or its release.
pub open spec fn row_by_version(v: Seq<char>, i: int) -> int
    decreases known_patches().len() - i,
{
    if i < 0 || i >= known_patches().len() {
        known_patches().len() as int
    } else if known_patches()[i].0 == v || known_patches()[i].1 == v {
        i
    } else {
        row_by_version(v, i + 1)
    }
}

/// The latest known patch release of a MAJOR.MINOR line.
pub fn get_latest_known_patch_for_major_minor(major_minor: &str) -> (r: Result<String, RuntimeError>)
    ensures
        match r {
            Ok(p) => row_by_minor(major_minor@, 0) < 7 && p@ == known_patches()[row_by_minor(
                major_minor@,
                0,
            )].1,
            Err(e) => row_by_minor(major_minor@, 0) == 7 && e is UnsupportedVersion,
        },
{
    let mut i: usize = 0;
    while i < KNOWN_PATCH_COUNT
        invariant
            i <= KNOWN_PATCH_COUNT,
            row_by_minor(major_minor@, i as int) == row_by_minor(major_minor@, 0),
        decreases KNOWN_PATCH_COUNT - i,
    {
        let row = known_patch(i);
        if crate::text::same_text(row.0, major_minor) {
            return Ok(row.1.to_owned());
        }
        i = i + 1;
    }
    Err(RuntimeError::UnsupportedVersion)
}

/// The primary and backup download of a release (named by its line or its
/// exact release); for the `zh-CN` language the mirror comes first.
pub fn get_download_urls(patch_version: &str, locale: &str) -> (r: Result<(String, String), RuntimeError>)
    ensures
        match r {
            Ok((a, b)) => row_by_version(patch_version@, 0) < 7 && {
                let row = known_patches()[row_by_version(patch_version@, 0)];
                if locale@ == "zh-CN"@ {
                    a@ == row.3 && b@ == row.2
                } else {
                    a@ == row.2 && b@ == row.3
                }
            },
            Err(e) => row_by_version(patch_version@, 0) == 7 && e is NoDownloadUrl,
        },
{
    let mut i: usize = 0;
    while i < KNOWN_PATCH_COUNT
        invariant
            i <= KNOWN_PATCH_COUNT,
            row_by_version(patch_version@, i as int) == row_by_version(patch_version@, 0),
        decreases KNOWN_PATCH_COUNT - i,
    {
        let row = known_patch(i);
        if crate::text::same_text(row.0, patch_version) || crate::text::same_text(
            row.1,
            patch_version,
        ) {
            if crate::text::same_text(locale, "zh-CN") {
                return Ok((row.3.to_owned(), row.2.to_owned()));
            } else {
                return Ok((row.2.to_owned(), row.3.to_owned()));
            }
        }
        i = i + 1;
    }
    Err(RuntimeError::NoDownloadUrl)
}

/// A version spec read as its MAJOR.MINOR line and, for an exact release,
/// the release itself.
pub open spec fn parse_version_spec(s: Seq<char>) -> Option<(Seq<char>, Option<Seq<char>>)> {
    let parts = split_on(s, '.');
    if parts.len() == 2 {
        Some((parts[0] + seq!['.'] + parts[1], None))
    } else if parts.len() == 3 {
        Some((parts[0] + seq!['.'] + parts[1], Some(s)))
    } else {
        None
    }
}

/// Splits a version spec into its MAJOR.MINOR line and, where it names an
/// exact MAJOR.MINOR.PATCH release, that release.
pub fn parse_version(version_str: &str) -> (r: Result<(String, Option<String>), RuntimeError>)
    ensures
        match r {
            Ok((mm, full)) => parse_version_spec(version_str@) == Some((mm@, opt_text(full))),
            Err(e) => parse_version_spec(version_str@) is None && e is InvalidVersionFormat,
        },
{
    let parts = crate::text::split_char(version_str, '.');
    assert(texts(parts@).len() == parts@.len());
    if parts.len() == 2 || parts.len() == 3 {
        let mut mm = parts[0].clone();
        mm.append(".");
        mm.append(parts[1].as_str());
        proof {
            reveal_strlit(".");
            assert(texts(parts@)[0] == parts@[0]@);
            assert(texts(parts@)[1] == parts@[1]@);
            assert(mm@ =~= parts@[0]@ + seq!['.'] + parts@[1]@);
        }
        if parts.len() == 2 {
            Ok((mm, None))
        } else {
            Ok((mm, Some(version_str.to_owned())))
        }
    } else {
        Err(RuntimeError::InvalidVersionFormat)
    }
}


/// The output a runtime's version command is read from: trimmed standard
/// output where it starts with `Python `, else trimmed standard error where
/// that does, else non-empty trimmed standard output.
pub open spec fn version_source(out: Seq<char>, err: Seq<char>) -> Option<Seq<char>> {
    let o = trimmed(out);
    let e = trimmed(err);
    if o.len() > 0 && has_prefix(o, "Python "@) {
        Some(o)
    } else if e.len() > 0 && has_prefix(e, "Python "@) {
        Some(e)
    } else if o.len() > 0 {
        Some(o)
    } else {
        None
    }
}

/// The version a runtime reports: the second word of its version output.
pub fn parse_python_version_output(stdout: &str, stderr: &str, success: bool) -> (r: Result<
    String,
    RuntimeError,
>)
    ensures
        !success ==> r matches Err(RuntimeError::VersionCommandFailed),
        success ==> match version_source(stdout@, stderr@) {
            None => r matches Err(RuntimeError::NoVersionOutput),
            Some(src) => if words(src).len() >= 2 {
                r matches Ok(v) && v@ == words(src)[1]
            } else {
                r matches Err(RuntimeError::UnparsableVersionOutput)
            },
        },
{
    if !success {
        return Err(RuntimeError::VersionCommandFailed);
    }
    let o = crate::text::trim(stdout);
    let e = crate::text::trim(stderr);
    let src = if o.unicode_len() > 0 && crate::text::starts_with(o.as_str(), "Python ") {
        o
    } else if e.unicode_len() > 0 && crate::text::starts_with(e.as_str(), "Python ") {
        e
    } else if o.unicode_len() > 0 {
        o
    } else {
        return Err(RuntimeError::NoVersionOutput);
    };
    let ws = crate::text::split_whitespace(src.as_str());
    assert(texts(ws@).len() == ws@.len());
    if ws.len() >= 2 {
        assert(texts(ws@)[1] == ws@[1]@);
        Ok(ws[1].clone())
    } else {
        Err(RuntimeError::UnparsableVersionOutput)
    }
}

/// What was found where the runtime is installed.
pub enum InstalledRuntime {
    /// No runtime executable is present.
    Missing,
    /// The runtime ran and reported this version.
    Reported(String),
    /// A runtime executable is present but could not report a version.
    Unusable,
}

/// What provisioning a runtime comes to.
pub enum RuntimePlan {
    /// The installed runtime is of the requested line and is kept.
    Reuse { version: String },
    /// A release is downloaded and extracted; an installation already
    /// present is removed first.
    Install {
        remove_existing: bool,
        version: String,
        primary_url: String,
        backup_url: String,
        archive_name: String,
    },
}

/// The MAJOR.MINOR line of a version spec, where it parses.
pub open spec fn line_of(s: Seq<char>) -> Option<Seq<char>> {
    match parse_version_spec(s) {
        Some((mm, _)) => Some(mm),
        None => None,
    }
}

/// Whether an installed runtime reporting `v` serves the version spec: for a
/// MAJOR.MINOR spec, any release of that line; for an exact MAJOR.MINOR.PATCH
/// spec, that exact release or the line's latest known patch (the release
/// the spec resolves to). A reported version that does not parse serves no
/// spec: such a runtime is replaced like one that cannot report at all.
pub open spec fn reuses_installed(spec: Seq<char>, v: Seq<char>) -> bool {
    match parse_version_spec(spec) {
        Some((mm, None)) => line_of(v) == Some(mm),
        Some((mm, Some(full))) => v == full || (row_by_minor(mm, 0) < 7 && v == known_patches()[row_by_minor(mm, 0)].1),
        None => false,
    }
}

/// Resolves a runtime version spec against what is installed: an installed
/// runtime that serves the spec (see `reuses_installed`) is reused; otherwise the line's
/// latest known release is installed from its downloads (mirror first for
/// the `zh-CN` language), replacing whatever runtime is present.
pub fn setup_python_env(python_version_spec: &str, installed: &InstalledRuntime, locale: &str) -> (r: Result<
    RuntimePlan,
    RuntimeError,
>)
    ensures
        line_of(python_version_spec@) is None ==> r matches Err(
            RuntimeError::InvalidVersionFormat,
        ),
        line_of(python_version_spec@) matches Some(mm) ==> match *installed {
            InstalledRuntime::Reported(v) if reuses_installed(python_version_spec@, v@) => r matches Ok(
                RuntimePlan::Reuse { version },
            ) && version@ == v@,
            _ => {
                let k = row_by_minor(mm, 0);
                if k == 7 {
                    r matches Err(RuntimeError::UnsupportedVersion)
                } else {
                    let row = known_patches()[k];
                    let j = row_by_version(row.1, 0);
                    j < 7 && {
                        let urls = known_patches()[j];
                        let primary = if locale@ == "zh-CN"@ {
                            urls.3
                        } else {
                            urls.2
                        };
                        let backup = if locale@ == "zh-CN"@ {
                            urls.2
                        } else {
                            urls.3
                        };
                        match crate::install::url_path_of(primary) {
                            None => r matches Err(RuntimeError::InvalidUrl),
                            Some(p) => match crate::install::url_file_name(p) {
                                None => r matches Err(RuntimeError::NoFileName),
                                Some(f) => r matches Ok(
                                    RuntimePlan::Install {
                                        remove_existing,
                                        version,
                                        primary_url,
                                        backup_url,
                                        archive_name,
                                    },
                                ) && remove_existing == !(*installed is Missing) && version@
                                    == row.1 && primary_url@ == primary && backup_url@ == backup
                                    && archive_name@ == f,
                            },
                        }
                    }
                }
            },
        },
{
    let (mm, full) = match parse_version(python_version_spec) {
        Ok(x) => x,
        Err(e) => return Err(e),
    };
    let remove_existing = match installed {
        InstalledRuntime::Missing => false,
        InstalledRuntime::Unusable => true,
        InstalledRuntime::Reported(v) => {
            let reuse = match &full {
                None => match parse_version(v.as_str()) {
                    Ok((imm, _)) => crate::text::same_text(imm.as_str(), mm.as_str()),
                    Err(_) => false,
                },
                Some(f) => {
                    if crate::text::same_text(v.as_str(), f.as_str()) {
                        true
                    } else {
                        match get_latest_known_patch_for_major_minor(mm.as_str()) {
                            Ok(p) => crate::text::same_text(v.as_str(), p.as_str()),
                            Err(_) => false,
                        }
                    }
                },
            };
            if reuse {
                return Ok(RuntimePlan::Reuse { version: v.clone() });
            }
            true
        },
    };
    let version = match get_latest_known_patch_for_major_minor(mm.as_str()) {
        Ok(v) => v,
        Err(e) => return Err(e),
    };
    proof {
        let k = row_by_minor(mm@, 0);
        lemma_row_by_minor_bounds(mm@, 0);
        lemma_row_by_version_finds(known_patches()[k].1, k);
    }
    let (primary_url, backup_url) = match get_download_urls(version.as_str(), locale) {
        Ok(x) => x,
        Err(e) => return Err(e),
    };
    let archive_name = match crate::install::get_filename_from_url(primary_url.as_str()) {
        Ok(f) => f,
        Err(e) => return Err(e),
    };
    Ok(RuntimePlan::Install { remove_existing, version, primary_url, backup_url, archive_name })
}

proof fn lemma_row_by_minor_bounds(mm: Seq<char>, i: int)
    requires
        0 <= i <= 7,
    ensures
        i <= row_by_minor(mm, i) <= 7,
    decreases 7 - i,
{
    if i < 7 && known_patches()[i].0 != mm {
        lemma_row_by_minor_bounds(mm, i + 1);
    }
}

proof fn lemma_row_by_version_finds(v: Seq<char>, k: int)
    requires
        0 <= k < 7,
        known_patches()[k].1 == v,
    ensures
        row_by_version(v, 0) <= k,
{
    lemma_row_by_version_from(v, 0, k);
}

proof fn lemma_row_by_version_from(v: Seq<char>, i: int, k: int)
    requires
        0 <= i <= k < 7,
        known_patches()[k].1 == v,
    ensures
        row_by_version(v, i) <= k,
    decreases k - i,
{
    if i < k && !(known_patches()[i].0 == v || known_patches()[i].1 == v) {
        lemma_row_by_version_from(v, i + 1, k);
    }
}


/// The package-installer invocation for a profile's dependencies.
pub struct PipInstall {
    /// Arguments after the runtime executable.
    pub args: Vec<String>,
    /// A short description of the install for the log.
    pub description: String,
}

/// Extra arguments that name their own package index.
pub open spec fn overrides_index(extra: Seq<Seq<char>>) -> bool {
    exists|i: int| 0 <= i < extra.len() && (extra[i] == "--index-url"@ || extra[i] == "-i"@)
}

/// The installer arguments: `-m pip install --no-warn-script-location`, the
/// profile's extra arguments, `-r FILE` for a `.txt` spec (else the spec
/// itself), the cache directory, and the configured index unless the extra
/// arguments name one.
pub open spec fn pip_args_spec(
    requirements: Seq<char>,
    requirements_path: Seq<char>,
    pip_args: Seq<char>,
    cache_dir: Option<Seq<char>>,
    index_url: Option<Seq<char>>,
) -> Seq<Seq<char>> {
    let extra = words(pip_args);
    seq!["-m"@, "pip"@, "install"@, "--no-warn-script-location"@] + extra + (if has_suffix(
        requirements,
        ".txt"@,
    ) {
        seq!["-r"@, requirements_path]
    } else {
        seq![requirements]
    }) + (match cache_dir {
        Some(d) => seq!["--cache-dir"@, d],
        None => Seq::empty(),
    }) + (match index_url {
        Some(u) => if overrides_index(extra) {
            Seq::empty()
        } else {
            seq!["--index-url"@, u]
        },
        None => Seq::empty(),
    })
}

fn push_str(v: &mut Vec<String>, s: &str)
    ensures
        texts(final(v)@) == texts(old(v)@).push(s@),
{
    let x = s.to_owned();
    v.push(x);
    assert(texts(final(v)@) =~= texts(old(v)@).push(s@));
}

/// The package-installer invocation for `requirements` (a `.txt` file found
/// at `requirements_path`, or an inline spec), with the profile's extra
/// arguments, an optional cache directory and an optional package index.
pub fn install_requirements(
    requirements: &str,
    requirements_path: &str,
    pip_args: &str,
    cache_dir: Option<&str>,
    index_url: Option<&str>,
) -> (r: PipInstall)
    ensures
        texts(r.args@) == pip_args_spec(
            requirements@,
            requirements_path@,
            pip_args@,
            match cache_dir {
                Some(d) => Some(d@),
                None => None,
            },
            match index_url {
                Some(u) => Some(u@),
                None => None,
            },
        ),
        r.description@ == if has_suffix(requirements@, ".txt"@) {
            "pip install -r "@ + requirements_path@
        } else {
            "pip install "@ + requirements@
        },
{
    let mut args: Vec<String> = Vec::new();
    push_str(&mut args, "-m");
    push_str(&mut args, "pip");
    push_str(&mut args, "install");
    push_str(&mut args, "--no-warn-script-location");
    let ghost base = texts(args@);
    assert(base =~= seq!["-m"@, "pip"@, "install"@, "--no-warn-script-location"@]);
    let extra = crate::text::split_whitespace(pip_args);
    let ghost ex = texts(extra@);
    let mut overrides = false;
    let mut i: usize = 0;
    while i < extra.len()
        invariant
            ex == texts(extra@),
            ex.len() == extra@.len(),
            i <= extra@.len(),
            texts(args@) == base + ex.subrange(0, i as int),
            overrides == exists|j: int| 0 <= j < i && (ex[j] == "--index-url"@ || ex[j] == "-i"@),
        decreases extra@.len() - i,
    {
        let w = extra[i].as_str();
        assert(ex[i as int] == w@);
        if crate::text::same_text(w, "--index-url") || crate::text::same_text(w, "-i") {
            overrides = true;
        }
        push_str(&mut args, w);
        i = i + 1;
        assert(texts(args@) =~= base + ex.subrange(0, i as int));
    }
    assert(ex.subrange(0, ex.len() as int) =~= ex);
    let ghost after_extra = texts(args@);
    let is_txt = crate::text::ends_with(requirements, ".txt");
    let mut description = String::from_str("pip install ");
    if is_txt {
        push_str(&mut args, "-r");
        push_str(&mut args, requirements_path);
        description.append("-r ");
        description.append(requirements_path);
        proof {
            reveal_strlit("pip install ");
            reveal_strlit("-r ");
            reveal_strlit("pip install -r ");
            assert(description@ =~= "pip install -r "@ + requirements_path@);
        }
    } else {
        push_str(&mut args, requirements);
        description.append(requirements);
    }
    let ghost after_req = texts(args@);
    match cache_dir {
        Some(d) => {
            push_str(&mut args, "--cache-dir");
            push_str(&mut args, d);
        },
        None => {},
    }
    let ghost after_cache = texts(args@);
    match index_url {
        Some(u) => {
            if !overrides {
                push_str(&mut args, "--index-url");
                push_str(&mut args, u);
            }
        },
        None => {},
    }
    proof {
        let req_part = if has_suffix(requirements@, ".txt"@) {
            seq!["-r"@, requirements_path@]
        } else {
            seq![requirements@]
        };
        assert(after_req =~= after_extra + req_part);
        let cache_part = match cache_dir {
            Some(d) => seq!["--cache-dir"@, d@],
            None => Seq::<Seq<char>>::empty(),
        };
        assert(after_cache =~= after_req + cache_part);
        let idx_part = match index_url {
            Some(u) => if overrides_index(ex) {
                Seq::<Seq<char>>::empty()
            } else {
                seq!["--index-url"@, u@]
            },
            None => Seq::<Seq<char>>::empty(),
        };
        assert(texts(args@) =~= after_cache + idx_part);
    }
    PipInstall { args, description }
}

/// The file whose content decides whether dependencies are stale: none for
/// an empty spec, the spec itself for a `.txt` spec, else `pyproject.toml`.
pub fn get_relevant_content(spec: &str) -> (r: Option<String>)
    ensures
        opt_text(r) == if spec@.len() == 0 {
            None
        } else if has_suffix(spec@, ".txt"@) {
            Some(spec@)
        } else {
            Some("pyproject.toml"@)
        },
{
    if spec.unicode_len() == 0 {
        None
    } else if crate::text::ends_with(spec, ".txt") {
        Some(spec.to_owned())
    } else {
        Some("pyproject.toml".to_owned())
    }
}

pub open spec fn opt_str(o: Option<&str>) -> Option<Seq<char>> {
    match o {
        Some(s) => Some(s@),
        None => None,
    }
}

/// Dependencies are installed again when there is a spec and either the
/// spec string or the content of the file it refers to changed.
pub open spec fn dependency_sync_needed(
    old_spec: Seq<char>,
    new_spec: Seq<char>,
    old_content: Option<Seq<char>>,
    new_content: Option<Seq<char>>,
) -> bool {
    new_spec.len() > 0 && (old_spec != new_spec || old_content != new_content)
}

/// Whether an update installs dependencies again.
pub fn needs_dependency_sync(
    old_spec: &str,
    new_spec: &str,
    old_content: Option<&str>,
    new_content: Option<&str>,
) -> (r: bool)
    ensures
        r == dependency_sync_needed(old_spec@, new_spec@, opt_str(old_content), opt_str(new_content)),
{
    let spec_changed = !crate::text::same_text(old_spec, new_spec);
    let content_changed = match (old_content, new_content) {
        (Some(a), Some(b)) => !crate::text::same_text(a, b),
        (None, None) => false,
        _ => true,
    };
    new_spec.unicode_len() > 0 && (spec_changed || content_changed)
}

/// Two successive updates that see the same spec string and the same file
/// content skip the dependency install; a changed file content under the
/// same (non-empty) spec string does not.
pub proof fn lemma_dependency_sync(
    spec: Seq<char>,
    old_content: Option<Seq<char>>,
    new_content: Option<Seq<char>>,
)
    ensures
        !dependency_sync_needed(spec, spec, old_content, old_content),
        spec.len() > 0 && old_content != new_content ==> dependency_sync_needed(
            spec,
            spec,
            old_content,
            new_content,
        ),
{
}


/// An ASCII letter or digit.
pub open spec fn is_ascii_alnum(c: char) -> bool {
    ('a' <= c && c <= 'z') || ('A' <= c && c <= 'Z') || ('0' <= c && c <= '9')
}

/// Relies on rand: `rand::rng()` sampled with `rand::distr::Alphanumeric`
/// yields one of A-Z, a-z, 0-9 per sample; `len` samples are taken.
#[verifier::external_body]
fn random_alphanumeric(len: usize) -> (r: String)
    ensures
        r@.len() == len,
        forall|i: int| 0 <= i < len ==> is_ascii_alnum(#[trigger] r@[i]),
{
    rand::Rng::sample_iter(rand::rng(), rand::distr::Alphanumeric).take(len).map(char::from).collect()
}

/// The client identification sent to the mirror that asks for one.
pub open spec fn user_agent_text(session: Seq<char>) -> Seq<char> {
    "modelscope/1.26.0; python/3.12.3; session_id/"@ + session
        + "; platform/Windows-11-10.0.26100-SP0 AMD64 Family 25 Model 97 Stepping 2, AuthenticAMD; processor/AuthenticAMD; env/custom; user/unknown"@
}

/// The client identification for a given session id.
pub fn user_agent_for_session(session: &str) -> (r: String)
    ensures
        r@ == user_agent_text(session@),
{
    let mut s = String::from_str("modelscope/1.26.0; python/3.12.3; session_id/");
    s.append(session);
    s.append("; platform/Windows-11-10.0.26100-SP0 AMD64 Family 25 Model 97 Stepping 2, AuthenticAMD; processor/AuthenticAMD; env/custom; user/unknown");
    s
}

/// The client identification with a fresh random session id of 32 ASCII
/// letters and digits.
pub fn get_user_agent() -> (r: String)
    ensures
        exists|session: Seq<char>|
            session.len() == 32 && (forall|i: int| 0 <= i < 32 ==> is_ascii_alnum(#[trigger] session[i]))
                && r@ == user_agent_text(session),
{
    let session = random_alphanumeric(32);
    user_agent_for_session(session.as_str())
}

/// Downloads from this mirror are sent with a client identification.
pub fn needs_custom_user_agent(url: &str) -> (r: bool)
    ensures
        r == has_prefix(url@, "https://www.modelscope.cn"@),
{
    crate::text::starts_with(url, "https://www.modelscope.cn")
}

/// A progress notice for a download.
#[derive(Debug, PartialEq, Eq)]
pub enum DownloadProgress {
    /// Progress in tenths of a percent of the known total.
    Tenths(u128),
    /// Bytes received so far, where the total size is unknown.
    Received(u64),
}

/// Progress of a download in tenths of a percent (rounded down).
pub open spec fn download_tenths(downloaded: u64, total: u64) -> u128 {
    (1000 * downloaded as int / total as int) as u128
}

/// The notice for a download's progress: where the total is known (non-zero),
/// its progress in tenths of a percent once that passed the last reported
/// value; where it is unknown, the bytes received, every time.
pub fn download_progress(downloaded: u64, total: u64, last_reported: Option<u128>) -> (r: Option<DownloadProgress>)
    ensures
        total == 0 ==> r == Some(DownloadProgress::Received(downloaded)),
        total > 0 ==> r == {
            let t = download_tenths(downloaded, total);
            match last_reported {
                Some(l) => if t > l {
                    Some(DownloadProgress::Tenths(t))
                } else {
                    None
                },
                None => Some(DownloadProgress::Tenths(t)),
            }
        },
{
    if total == 0 {
        return Some(DownloadProgress::Received(downloaded));
    }
    let t: u128 = 1000u128 * (downloaded as u128) / (total as u128);
    match last_reported {
        Some(l) => if t > l {
            Some(DownloadProgress::Tenths(t))
        } else {
            None
        },
        None => Some(DownloadProgress::Tenths(t)),
    }
}

/// The archive formats a runtime release can come in.
pub enum ArchiveKind {
    Zip,
    TarGz,
}

/// The format an archive's file name gives: `.zip` or `.tar.gz`; any other
/// name is an unsupported format.
pub fn extract_archive(file_name: &str) -> (r: Result<ArchiveKind, RuntimeError>)
    ensures
        has_suffix(file_name@, ".zip"@) ==> r matches Ok(ArchiveKind::Zip),
        !has_suffix(file_name@, ".zip"@) && has_suffix(file_name@, ".tar.gz"@) ==> r matches Ok(
            ArchiveKind::TarGz,
        ),
        !has_suffix(file_name@, ".zip"@) && !has_suffix(file_name@, ".tar.gz"@) ==> r matches Err(
            RuntimeError::UnsupportedArchive,
        ),
{
    if crate::text::ends_with(file_name, ".zip") {
        Ok(ArchiveKind::Zip)
    } else if crate::text::ends_with(file_name, ".tar.gz") {
        Ok(ArchiveKind::TarGz)
    } else {
        Err(RuntimeError::UnsupportedArchive)
    }
}

/// Where a tar entry lands, relative to the install directory: entries under
/// the archive's top-level `python` directory lose that prefix; the
/// directory itself and entries outside it are skipped.
pub fn tar_entry_target(components: &Vec<String>) -> (r: Option<Vec<String>>)
    ensures
        match r {
            Some(rest) => components@.len() > 1 && components@[0]@ == "python"@ && texts(rest@)
                == texts(components@).subrange(1, components@.len() as int),
            None => !(components@.len() > 1 && components@[0]@ == "python"@),
        },
{
    if components.len() <= 1 || !crate::text::same_text(components[0].as_str(), "python") {
        return None;
    }
    let mut rest: Vec<String> = Vec::new();
    let mut i: usize = 1;
    while i < components.len()
        invariant
            1 <= i <= components@.len(),
            texts(rest@) == texts(components@).subrange(1, i as int),
        decreases components@.len() - i,
    {
        let ghost prev = rest@;
        let x = components[i].clone();
        rest.push(x);
        assert(texts(rest@) =~= texts(prev).push(x@));
        i = i + 1;
        assert(texts(rest@) =~= texts(components@).subrange(1, i as int));
    }
    Some(rest)
}


/// The stages of installing a runtime release.
#[derive(Debug, Clone, Copy, PartialEq, Eq)]
pub enum InstallStage {
    PrimaryDownload,
    BackupDownload,
    Extraction,
    ExecutableCheck,
}

/// What follows a stage of installing a runtime release.
#[derive(Debug)]
pub enum InstallAction {
    /// Discard any partial archive and download from the backup.
    TryBackup,
    /// Extract the downloaded archive into the install directory.
    Extract,
    /// Check that the runtime executable is present.
    CheckExecutable,
    /// Remove the archive; the runtime is installed.
    Installed,
    /// Remove the archive (and, where asked, the install directory) and
    /// fail with `error`.
    Fail { error: RuntimeError, remove_install_dir: bool },
}

/// The install sequence: the primary download, on its failure the backup,
/// then extraction, then a check that the executable is there; a failed
/// extraction or a missing executable leaves nothing installed.
pub fn next_install_action(stage: InstallStage, succeeded: bool) -> (r: InstallAction)
    ensures
        stage == InstallStage::PrimaryDownload ==> if succeeded {
            r is Extract
        } else {
            r is TryBackup
        },
        stage == InstallStage::BackupDownload ==> if succeeded {
            r is Extract
        } else {
            r matches InstallAction::Fail { error: RuntimeError::DownloadFailed, remove_install_dir: false }
        },
        stage == InstallStage::Extraction ==> if succeeded {
            r is CheckExecutable
        } else {
            r matches InstallAction::Fail { error: RuntimeError::ExtractionFailed, remove_install_dir: true }
        },
        stage == InstallStage::ExecutableCheck ==> if succeeded {
            r is Installed
        } else {
            r matches InstallAction::Fail { error: RuntimeError::CorruptInstall, remove_install_dir: true }
        },
{
    match stage {
        InstallStage::PrimaryDownload => if succeeded {
            InstallAction::Extract
        } else {
            InstallAction::TryBackup
        },
        InstallStage::BackupDownload => if succeeded {
            InstallAction::Extract
        } else {
            InstallAction::Fail { error: RuntimeError::DownloadFailed, remove_install_dir: false }
        },
        InstallStage::Extraction => if succeeded {
            InstallAction::CheckExecutable
        } else {
            InstallAction::Fail { error: RuntimeError::ExtractionFailed, remove_install_dir: true }
        },
        InstallStage::ExecutableCheck => if succeeded {
            InstallAction::Installed
        } else {
            InstallAction::Fail { error: RuntimeError::CorruptInstall, remove_install_dir: true }
        },
    }
}

} // verus!
