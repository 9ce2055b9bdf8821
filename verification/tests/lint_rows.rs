use warp_parse::lint::{
    lint_connectors_silent, render_lint_line, LintRow, LintSeverity, SilentErrKind,
};

fn row(scope: &str, id: &str, file: &str, sev: LintSeverity, kind: Option<SilentErrKind>, msg: &str) -> LintRow {
    LintRow {
        scope: String::from(scope),
        id: String::from(id),
        file: String::from(file),
        sev,
        silent_err: kind,
        msg: String::from(msg),
    }
}

#[test]
fn lint_aggregates_only_error_rows() {
    let rows = vec![
        row("sinks", "bad id", "a.toml", LintSeverity::Error, Some(SilentErrKind::BadIdChars), ""),
        row("sources", "x", "b.toml", LintSeverity::Warn, Some(SilentErrKind::BadIdChars), ""),
        row(
            "sources",
            "x",
            "c.toml",
            LintSeverity::Error,
            Some(SilentErrKind::SourcesIdMustEndSrc),
            "",
        ),
        row("sinks", "y", "d.toml", LintSeverity::Info, None, "parse failed: oops"),
        row(
            "sinks",
            "y",
            "e.toml",
            LintSeverity::Error,
            Some(SilentErrKind::SinksIdMustEndSink),
            "",
        ),
    ];
    let err = lint_connectors_silent(&rows).unwrap_err();
    assert_eq!(err.count, 3);
    assert_eq!(err.lines.len(), 3);
    let message = err.message();
    assert_eq!(message.lines().count(), 4); // headline plus three diagnostics
    assert!(message.starts_with("connectors lint failed: 3 error(s)\n"));
}

#[test]
fn lint_passes_without_error_rows() {
    let rows = vec![
        row("sinks", "x", "a.toml", LintSeverity::Warn, None, "parse failed: minor"),
        row("sources", "y", "b.toml", LintSeverity::Info, None, ""),
    ];
    assert!(lint_connectors_silent(&rows).is_ok());
    assert!(lint_connectors_silent(&Vec::new()).is_ok());
}

#[test]
fn lint_lines_render_each_violation_kind() {
    assert_eq!(
        render_lint_line(&row(
            "sinks",
            "a b",
            "x.toml",
            LintSeverity::Error,
            Some(SilentErrKind::BadIdChars),
            ""
        )),
        "sinks: bad id chars: a b in x.toml"
    );
    assert_eq!(
        render_lint_line(&row(
            "sources",
            "reader",
            "y.toml",
            LintSeverity::Error,
            Some(SilentErrKind::SourcesIdMustEndSrc),
            ""
        )),
        "sources: id must end with _src: reader in y.toml"
    );
    assert_eq!(
        render_lint_line(&row(
            "sinks",
            "writer",
            "z.toml",
            LintSeverity::Error,
            Some(SilentErrKind::SinksIdMustEndSink),
            ""
        )),
        "sinks: id must end with _sink: writer in z.toml"
    );
}

#[test]
fn parse_failure_line_strips_the_diagnostic_prefix() {
    assert_eq!(
        render_lint_line(&row(
            "sinks",
            "x",
            "f.toml",
            LintSeverity::Error,
            None,
            "parse failed: missing key 'kind'"
        )),
        "sinks: parse failed for f.toml: missing key 'kind'"
    );
    assert_eq!(
        render_lint_line(&row("sinks", "x", "f.toml", LintSeverity::Error, None, "bare text")),
        "sinks: parse failed for f.toml: bare text"
    );
}

#[test]
fn lint_error_message_joins_all_lines() {
    let rows = vec![
        row("sinks", "p", "1.toml", LintSeverity::Error, Some(SilentErrKind::BadIdChars), ""),
        row("sinks", "q", "2.toml", LintSeverity::Error, None, "parse failed: broken"),
    ];
    let err = lint_connectors_silent(&rows).unwrap_err();
    assert_eq!(
        err.message(),
        "connectors lint failed: 2 error(s)\n\
         sinks: bad id chars: p in 1.toml\n\
         sinks: parse failed for 2.toml: broken"
    );
}
