//! Local-output cleanup reports.
//!
//! Cleaning generated output first resolves, from the resolved sink
//! specification, which local file (if any) backs the output; the caller's
//! I/O layer then checks and removes the file and reports the outcome
//! through [`GenCleanReport`].  Every branch of the outcome — skipped,
//! no file target, configuration unreadable, file handled — is built here,
//! with its exact note.

use crate::params::{table_get, ValModel};
use crate::resolve::ResolvedSinkSpec;
use crate::strutil::str_eq;
use vstd::prelude::*;
use vstd::string::StringExecFns;

verus! {

/// Outcome of an attempted local-output cleanup.
#[derive(Debug, Clone)]
pub struct GenCleanReport {
    /// The resolved file path, when the output is file-backed.
    pub path: Option<String>,
    /// Whether the file existed before the attempt.
    pub existed: bool,
    /// Whether the attempt removed it.
    pub cleaned: bool,
    /// Why nothing was cleaned, when no file target applied.
    pub note: Option<String>,
}

impl Default for GenCleanReport {
    /// An empty report: no path, nothing existed, nothing cleaned, no note.
    fn default() -> (r: Self)
        ensures
            r.path is None,
            !r.existed,
            !r.cleaned,
            r.note is None,
    {
        GenCleanReport { path: None, existed: false, cleaned: false, note: None }
    }
}

/// The local file backing a resolved sink, if any: the `path` parameter of
/// a file-kind sink.
pub open spec fn spec_file_path(s: ResolvedSinkSpec) -> Option<Seq<char>> {
    if s.kind@ == "file"@ {
        match table_get(s.params.model(), "path"@) {
            Some(v) => match v {
                ValModel::Str(p) => Some(p),
                _ => None,
            },
            None => None,
        }
    } else {
        None
    }
}

impl ResolvedSinkSpec {
    /// The local file path this sink writes to, when it is a file sink with
    /// a string `path` parameter.
    pub fn resolve_file_path(&self) -> (r: Option<String>)
        ensures
            match r {
                Some(p) => spec_file_path(*self) == Some(p@),
                None => spec_file_path(*self) is None,
            },
    {
        if !str_eq(self.kind.as_str(), "file") {
            return None;
        }
        match self.params.get("path") {
            Some(v) => match v {
                crate::params::ParamValue::Str(p) => Some(p.clone()),
                _ => None,
            },
            None => None,
        }
    }
}

/// The report of a cleanup that was skipped because only remote cleaning
/// was requested.
pub fn clean_skip_report() -> (r: GenCleanReport)
    ensures
        r.path is None,
        !r.existed,
        !r.cleaned,
        r.note matches Some(n) && n@ == "local_only=false (skip)"@,
{
    GenCleanReport {
        path: None,
        existed: false,
        cleaned: false,
        note: Some(String::from_str("local_only=false (skip)")),
    }
}

/// The report of a cleanup whose resolved output is not a file sink.
pub fn clean_no_file_report() -> (r: GenCleanReport)
    ensures
        r.path is None,
        !r.existed,
        !r.cleaned,
        r.note matches Some(n) && n@ == "output target is not a file sink"@,
{
    GenCleanReport {
        path: None,
        existed: false,
        cleaned: false,
        note: Some(String::from_str("output target is not a file sink")),
    }
}

/// The report of a cleanup whose configuration could not be loaded or
/// resolved.
pub fn clean_failed_report(conf_name: &str) -> (r: GenCleanReport)
    ensures
        r.path is None,
        !r.existed,
        !r.cleaned,
        r.note matches Some(n) && n@ == "config '"@ + conf_name@ + "' not found or invalid"@,
{
    let mut note = String::new();
    note.append("config '");
    note.append(conf_name);
    note.append("' not found or invalid");
    proof {
        assert(note@ =~= "config '"@ + conf_name@ + "' not found or invalid"@);
    }
    GenCleanReport { path: None, existed: false, cleaned: false, note: Some(note) }
}

/// The report of a cleanup that reached the backing file: the path, whether
/// the file existed, and whether removing it succeeded.
pub fn clean_file_report(path: String, existed: bool, cleaned: bool) -> (r: GenCleanReport)
    ensures
        r.path matches Some(p) && p@ == path@,
        r.existed == existed,
        r.cleaned == cleaned,
        r.note is None,
{
    GenCleanReport { path: Some(path), existed, cleaned, note: None }
}

} // verus!
