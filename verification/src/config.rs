//! The resolved configuration the core works from: global options and
//! the configured targets.

use vstd::prelude::*;
use vstd::string::StringExecFns;

use crate::target::Target;

verus! {

/// Global options: where failures are logged, whether the log is
/// truncated or appended, the header template written at the top of
/// a run, and the prefix put before each failure line.
#[derive(Clone, Debug, PartialEq, Eq)]
pub struct Options {
    pub log_file: Option<String>,
    pub overwrite_logs: bool,
    pub header: String,
    pub error_prefix: String,
}

impl Default for Options {
    /// No log file (failures go to standard error), logs appended,
    /// a timestamp header, and a tab-indented error prefix.
    fn default() -> (o: Options)
        ensures
            o.log_file is None,
            o.overwrite_logs == false,
            o.header@ == "---[%x %X]---"@,
            o.error_prefix@ == "\terror: "@,
    {
        Options {
            log_file: None,
            overwrite_logs: false,
            header: String::from_str("---[%x %X]---"),
            error_prefix: String::from_str("\terror: "),
        }
    }
}

/// A run's whole configuration: the options and the targets, kept in
/// configuration order and cleared strictly in that order.
#[derive(Clone, Debug, PartialEq, Eq)]
pub struct Config {
    pub options: Options,
    pub targets: Vec<Target>,
}

impl Config {
    /// Configuration maps each pattern to one rule: the patterns of
    /// a well-formed configuration are pairwise distinct.
    pub open spec fn wf(&self) -> bool {
        forall|i: int, j: int|
            0 <= i < j < self.targets@.len() ==> self.targets@[i].pattern@
                != self.targets@[j].pattern@
    }
}

} // verus!
