//! Serialization format selection for a resolved sink.
//!
//! Format selection never fails a resolution: file-backed sinks read the
//! `fmt` parameter, defaulting to JSON when it is absent, not a string, or
//! not a recognized format name; every other connector kind always writes
//! JSON.

use crate::params::{table_get, ParamTable, ParamValue, TableModel, ValModel};
use crate::strutil::str_eq;
use vstd::prelude::*;

verus! {

/// A text serialization format.
#[derive(Clone, Copy, Debug, PartialEq, Eq, Structural)]
pub enum TextFmt {
    Json,
    Csv,
}

/// The format a name selects; unrecognized names select the JSON default.
pub open spec fn fmt_of_name(s: Seq<char>) -> TextFmt {
    if s == "csv"@ {
        TextFmt::Csv
    } else {
        TextFmt::Json
    }
}

/// The name of a format.
pub open spec fn fmt_name(f: TextFmt) -> Seq<char> {
    match f {
        TextFmt::Json => "json"@,
        TextFmt::Csv => "csv"@,
    }
}

/// The format selected for connector kind `kind` with merged parameters `m`.
pub open spec fn spec_select_fmt(kind: Seq<char>, m: TableModel) -> TextFmt {
    if kind == "file"@ {
        match table_get(m, "fmt"@) {
            Some(v) => match v {
                ValModel::Str(s) => fmt_of_name(s),
                _ => TextFmt::Json,
            },
            None => TextFmt::Json,
        }
    } else {
        TextFmt::Json
    }
}

/// Chooses the serialization format for a resolved sink.
pub fn select_text_fmt(kind: &str, merged: &ParamTable) -> (r: TextFmt)
    ensures
        r == spec_select_fmt(kind@, merged.model()),
{
    if !str_eq(kind, "file") {
        return TextFmt::Json;
    }
    match merged.get("fmt") {
        Some(v) => match v {
            ParamValue::Str(s) => {
                if str_eq(s.as_str(), "csv") {
                    TextFmt::Csv
                } else {
                    TextFmt::Json
                }
            },
            _ => TextFmt::Json,
        },
        None => TextFmt::Json,
    }
}

impl TextFmt {
    /// The format's name.
    pub fn name(&self) -> (r: &'static str)
        ensures
            r@ == fmt_name(*self),
    {
        match self {
            TextFmt::Json => "json",
            TextFmt::Csv => "csv",
        }
    }
}

} // verus!
