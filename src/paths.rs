//! The launcher's directory layout, as path components under its working
//! directory.

use vstd::prelude::*;
use crate::text::{has_prefix, texts};

verus! {

/// `base` with one more component.
pub fn joined(base: &Vec<String>, name: &str) -> (r: Vec<String>)
    ensures
        texts(r@) == texts(base@).push(name@),
{
    let mut r = crate::app::copy_texts(base);
    let ghost before = r@;
    r.push(name.to_owned());
    assert(texts(r@) =~= texts(before).push(name@));
    r
}

/// The log directory, relative to the working directory: `data/logs`.
pub fn get_log_dir() -> (r: Vec<String>)
    ensures
        texts(r@) == seq!["data"@, "logs"@],
{
    let mut r: Vec<String> = Vec::new();
    r.push("data".to_owned());
    r.push("logs".to_owned());
    assert(texts(r@) =~= seq!["data"@, "logs"@]);
    r
}

/// `<cwd>/data`.
pub fn get_base_dir(cwd: &Vec<String>) -> (r: Vec<String>)
    ensures
        texts(r@) == texts(cwd@).push("data"@),
{
    joined(cwd, "data")
}

/// `<cwd>/data/apps`.
pub fn get_apps_dir(cwd: &Vec<String>) -> (r: Vec<String>)
    ensures
        texts(r@) == texts(cwd@).push("data"@).push("apps"@),
{
    joined(&get_base_dir(cwd), "apps")
}

/// `<cwd>/data/apps/<app>`.
pub fn get_app_base_path(cwd: &Vec<String>, app_name: &str) -> (r: Vec<String>)
    ensures
        texts(r@) == texts(cwd@).push("data"@).push("apps"@).push(app_name@),
{
    joined(&get_apps_dir(cwd), app_name)
}

/// `<cwd>/data/apps/<app>/python`.
pub fn get_python_dir(cwd: &Vec<String>, app_name: &str) -> (r: Vec<String>)
    ensures
        texts(r@) == texts(cwd@).push("data"@).push("apps"@).push(app_name@).push("python"@),
{
    joined(&get_app_base_path(cwd, app_name), "python")
}

/// The runtime executable: `pythonw.exe` (no console) or `python.exe` in
/// the runtime directory.
pub fn get_python_exe(cwd: &Vec<String>, app_name: &str, use_pythonw: bool) -> (r: Vec<String>)
    ensures
        texts(r@) == texts(cwd@).push("data"@).push("apps"@).push(app_name@).push("python"@).push(
            if use_pythonw {
                "pythonw.exe"@
            } else {
                "python.exe"@
            },
        ),
{
    let dir = get_python_dir(cwd, app_name);
    if use_pythonw {
        joined(&dir, "pythonw.exe")
    } else {
        joined(&dir, "python.exe")
    }
}

/// `<cwd>/data/apps/<app>/repo`.
pub fn get_app_repo_path(cwd: &Vec<String>, app_name: &str) -> (r: Vec<String>)
    ensures
        texts(r@) == texts(cwd@).push("data"@).push("apps"@).push(app_name@).push("repo"@),
{
    joined(&get_app_base_path(cwd, app_name), "repo")
}

/// `<cwd>/data/apps/<app>/working`.
pub fn get_app_working_dir_path(cwd: &Vec<String>, app_name: &str) -> (r: Vec<String>)
    ensures
        texts(r@) == texts(cwd@).push("data"@).push("apps"@).push(app_name@).push("working"@),
{
    joined(&get_app_base_path(cwd, app_name), "working")
}

/// `<cwd>/data/apps/<app>/app.json`, where the record is kept.
pub fn get_app_config_json_path(cwd: &Vec<String>, app_name: &str) -> (r: Vec<String>)
    ensures
        texts(r@) == texts(cwd@).push("data"@).push("apps"@).push(app_name@).push("app.json"@),
{
    joined(&get_app_base_path(cwd, app_name), "app.json")
}

/// `<cwd>/cache/pip`.
pub fn get_pip_cache_dir(cwd: &Vec<String>) -> (r: Vec<String>)
    ensures
        texts(r@) == texts(cwd@).push("cache"@).push("pip"@),
{
    joined(&joined(cwd, "cache"), "pip")
}

/// `<cwd>/data/config`.
pub fn get_config_dir(cwd: &Vec<String>) -> (r: Vec<String>)
    ensures
        texts(r@) == texts(cwd@).push("data"@).push("config"@),
{
    joined(&get_base_dir(cwd), "config")
}

/// A path without Windows' extended-length prefix `\\?\`.
pub fn strip_extended_path_prefix(path_str: &str) -> (r: String)
    ensures
        r@ == if has_prefix(path_str@, "\\\\?\\"@) {
            path_str@.subrange(4, path_str@.len() as int)
        } else {
            path_str@
        },
{
    if crate::text::starts_with(path_str, "\\\\?\\") {
        proof {
            reveal_strlit("\\\\?\\");
        }
        let n = path_str.unicode_len();
        path_str.substring_char(4, n).to_owned()
    } else {
        path_str.to_owned()
    }
}

} // verus!
