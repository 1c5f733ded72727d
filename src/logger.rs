//! Settings for the launcher's log output.

use vstd::prelude::*;
use crate::text::texts;

verus! {

/// Where and how the launcher logs: a directory, a file-name prefix and a
/// default level.
pub struct LoggerBuilder {
    log_dir: Vec<String>,
    file_prefix: String,
    default_level: String,
}

impl LoggerBuilder {
    pub closed spec fn dir_view(&self) -> Seq<Seq<char>> {
        texts(self.log_dir@)
    }

    pub closed spec fn prefix_view(&self) -> Seq<char> {
        self.file_prefix@
    }

    pub closed spec fn level_view(&self) -> Seq<char> {
        self.default_level@
    }

    /// Logs under `data/logs`, in files prefixed `app.log`, at level `info`.
    pub fn new() -> (r: LoggerBuilder)
        ensures
            r.dir_view() == seq!["data"@, "logs"@],
            r.prefix_view() == "app.log"@,
            r.level_view() == "info"@,
    {
        LoggerBuilder {
            log_dir: crate::paths::get_log_dir(),
            file_prefix: "app.log".to_owned(),
            default_level: "info".to_owned(),
        }
    }

    pub fn log_dir(self, dir: Vec<String>) -> (r: LoggerBuilder)
        ensures
            r.dir_view() == texts(dir@),
            r.prefix_view() == self.prefix_view(),
            r.level_view() == self.level_view(),
    {
        LoggerBuilder { log_dir: dir, ..self }
    }

    pub fn file_prefix(self, prefix: String) -> (r: LoggerBuilder)
        ensures
            r.dir_view() == self.dir_view(),
            r.prefix_view() == prefix@,
            r.level_view() == self.level_view(),
    {
        LoggerBuilder { file_prefix: prefix, ..self }
    }

    pub fn default_level(self, level: String) -> (r: LoggerBuilder)
        ensures
            r.dir_view() == self.dir_view(),
            r.prefix_view() == self.prefix_view(),
            r.level_view() == level@,
    {
        LoggerBuilder { default_level: level, ..self }
    }

    pub fn dir(&self) -> (r: Vec<String>)
        ensures
            texts(r@) == self.dir_view(),
    {
        crate::app::copy_texts(&self.log_dir)
    }

    pub fn prefix(&self) -> (r: String)
        ensures
            r@ == self.prefix_view(),
    {
        self.file_prefix.clone()
    }

    pub fn level(&self) -> (r: String)
        ensures
            r@ == self.level_view(),
    {
        self.default_level.clone()
    }
}

} // verus!
