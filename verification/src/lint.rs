//! Connector lint reporting.
//!
//! An external collaborator evaluates every connector definition file under
//! a work root and hands the engine one row per file.  The engine keeps the
//! error-level rows, renders one diagnostic line for each, and aggregates
//! all of them into a single error, so a caller sees every violation in one
//! pass.

use crate::strutil;
use crate::strutil::{dec_str, join_lines, strip_prefix_spec, views};
use vstd::prelude::*;
use vstd::string::StringExecFns;

verus! {

/// Severity of one lint row.
#[derive(Clone, Copy, Debug, PartialEq, Eq, Structural)]
pub enum LintSeverity {
    Info,
    Warn,
    Error,
}

/// A specific identifier-convention violation; absent for a generic parse
/// failure.
#[derive(Clone, Copy, Debug, PartialEq, Eq, Structural)]
pub enum SilentErrKind {
    BadIdChars,
    SourcesIdMustEndSrc,
    SinksIdMustEndSink,
}

/// One evaluated connector definition.
#[derive(Debug)]
pub struct LintRow {
    /// The definition layer the row came from (sources or sinks).
    pub scope: String,
    /// The declared identifier.
    pub id: String,
    /// The originating definition path.
    pub file: String,
    /// Severity classification.
    pub sev: LintSeverity,
    /// The specific violation, or none for a parse failure.
    pub silent_err: Option<SilentErrKind>,
    /// Raw parse diagnostic; read only when `silent_err` is none.
    pub msg: String,
}

/// The one-line diagnostic a row renders to.
pub open spec fn lint_line(row: LintRow) -> Seq<char> {
    match row.silent_err {
        Some(SilentErrKind::BadIdChars) => {
            row.scope@ + ": bad id chars: "@ + row.id@ + " in "@ + row.file@
        },
        Some(SilentErrKind::SourcesIdMustEndSrc) => {
            row.scope@ + ": id must end with _src: "@ + row.id@ + " in "@ + row.file@
        },
        Some(SilentErrKind::SinksIdMustEndSink) => {
            row.scope@ + ": id must end with _sink: "@ + row.id@ + " in "@ + row.file@
        },
        None => {
            row.scope@ + ": parse failed for "@ + row.file@ + ": "@ + strip_prefix_spec(
                row.msg@,
                "parse failed: "@,
            )
        },
    }
}

/// The diagnostic lines of the error-level rows, in row order.
pub open spec fn error_lines(rows: Seq<LintRow>) -> Seq<Seq<char>>
    decreases rows.len(),
{
    if rows.len() == 0 {
        Seq::<Seq<char>>::empty()
    } else {
        let rest = error_lines(rows.subrange(1, rows.len() as int));
        if rows[0].sev is Error {
            seq![lint_line(rows[0])] + rest
        } else {
            rest
        }
    }
}

/// Appending a row extends the error lines by its line exactly when the row
/// is error-level.
pub proof fn lemma_error_lines_push(rows: Seq<LintRow>, row: LintRow)
    ensures
        row.sev is Error ==> error_lines(rows.push(row)) == error_lines(rows).push(
            lint_line(row),
        ),
        !(row.sev is Error) ==> error_lines(rows.push(row)) == error_lines(rows),
    decreases rows.len(),
{
    let all = rows.push(row);
    if rows.len() == 0 {
        assert(all.len() == 1);
        assert(all[0] == row);
        assert(all.subrange(1, all.len() as int) =~= Seq::<LintRow>::empty());
        assert(error_lines(all.subrange(1, all.len() as int)) == Seq::<Seq<char>>::empty());
        assert(error_lines(rows) == Seq::<Seq<char>>::empty());
        if row.sev is Error {
            assert(error_lines(all) == seq![lint_line(row)] + Seq::<Seq<char>>::empty());
            assert(error_lines(all) =~= error_lines(rows).push(lint_line(row)));
        } else {
            assert(error_lines(all) =~= error_lines(rows));
        }
    } else {
        assert(all[0] == rows[0]);
        assert(all.subrange(1, all.len() as int) =~= rows.subrange(1, rows.len() as int).push(
            row,
        ));
        let tail = rows.subrange(1, rows.len() as int);
        lemma_error_lines_push(tail, row);
        if row.sev is Error {
            if rows[0].sev is Error {
                assert(error_lines(all) == seq![lint_line(rows[0])] + error_lines(tail).push(
                    lint_line(row),
                ));
                assert(error_lines(rows) == seq![lint_line(rows[0])] + error_lines(tail));
                assert(error_lines(all) =~= error_lines(rows).push(lint_line(row)));
            } else {
                assert(error_lines(all) == error_lines(tail).push(lint_line(row)));
                assert(error_lines(rows) == error_lines(tail));
            }
        } else {
            assert(error_lines(all) =~= error_lines(rows));
        }
    }
}

/// Renders the one-line diagnostic of a row.
pub fn render_lint_line(row: &LintRow) -> (r: String)
    ensures
        r@ == lint_line(*row),
{
    let mut s = String::new();
    s.append(row.scope.as_str());
    match &row.silent_err {
        Some(SilentErrKind::BadIdChars) => {
            s.append(": bad id chars: ");
            s.append(row.id.as_str());
            s.append(" in ");
            s.append(row.file.as_str());
        },
        Some(SilentErrKind::SourcesIdMustEndSrc) => {
            s.append(": id must end with _src: ");
            s.append(row.id.as_str());
            s.append(" in ");
            s.append(row.file.as_str());
        },
        Some(SilentErrKind::SinksIdMustEndSink) => {
            s.append(": id must end with _sink: ");
            s.append(row.id.as_str());
            s.append(" in ");
            s.append(row.file.as_str());
        },
        None => {
            s.append(": parse failed for ");
            s.append(row.file.as_str());
            s.append(": ");
            let stripped = strutil::strip_prefix(row.msg.as_str(), "parse failed: ");
            s.append(stripped.as_str());
        },
    }
    proof {
        assert(s@ =~= lint_line(*row));
    }
    s
}

/// The aggregated result of a failed lint pass: every error-level line, and
/// their count.
#[derive(Debug)]
pub struct LintError {
    /// How many error-level rows there were.
    pub count: usize,
    /// One rendered diagnostic per error-level row, in row order.
    pub lines: Vec<String>,
}

impl LintError {
    /// The rendered aggregate text of the error.
    pub open spec fn message_view(self) -> Seq<char> {
        "connectors lint failed: "@ + dec_str(self.count as nat) + " error(s)\n"@ + join_lines(
            views(self.lines@),
        )
    }

    /// Renders the aggregate text: a headline with the count, then every
    /// line.
    pub fn message(&self) -> (r: String)
        ensures
            r@ == self.message_view(),
    {
        let mut s = String::new();
        s.append("connectors lint failed: ");
        strutil::append_dec(&mut s, self.count as u64);
        s.append(" error(s)\n");
        strutil::append_lines(&mut s, &self.lines);
        proof {
            assert(s@ =~= self.message_view());
        }
        s
    }
}

/// Keeps the error-level rows, renders one diagnostic line per row, and
/// fails with all of them aggregated when there is at least one; succeeds
/// silently otherwise.
pub fn lint_connectors_silent(rows: &Vec<LintRow>) -> (r: Result<(), LintError>)
    ensures
        match r {
            Ok(_) => error_lines(rows@).len() == 0,
            Err(e) => {
                &&& error_lines(rows@).len() > 0
                &&& e.count == error_lines(rows@).len()
                &&& views(e.lines@) == error_lines(rows@)
            },
        },
{
    let mut lines: Vec<String> = Vec::new();
    let mut i: usize = 0;
    proof {
        assert(rows@.subrange(0, 0) =~= Seq::<LintRow>::empty());
        assert(views(lines@) =~= error_lines(rows@.subrange(0, 0)));
    }
    while i < rows.len()
        invariant
            i <= rows@.len(),
            views(lines@) == error_lines(rows@.subrange(0, i as int)),
        decreases rows@.len() - i,
    {
        let ghost pre = rows@.subrange(0, i as int);
        let row = &rows[i];
        if row.sev == LintSeverity::Error {
            let line = render_lint_line(row);
            lines.push(line);
        }
        i += 1;
        proof {
            assert(rows@.subrange(0, i as int) =~= pre.push(rows@[i - 1]));
            lemma_error_lines_push(pre, rows@[i - 1]);
            if rows@[i - 1].sev is Error {
                assert(views(lines@) =~= error_lines(rows@.subrange(0, i as int)));
            }
        }
    }
    proof {
        assert(rows@.subrange(0, rows@.len() as int) =~= rows@);
    }
    if lines.len() == 0 {
        Ok(())
    } else {
        let count = lines.len();
        Err(LintError { count, lines })
    }
}

} // verus!
