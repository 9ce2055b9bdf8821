use warp_parse::clean::{
    clean_failed_report, clean_file_report, clean_no_file_report, clean_skip_report,
};
use warp_parse::params::{ParamTable, ParamValue};
use warp_parse::paths::{conf_path, conf_root, path_join, resolve_sinks_root, work_path};
use warp_parse::resolve::ResolvedSinkSpec;
use warp_parse::textfmt::TextFmt;

#[test]
fn path_helpers_join_under_the_work_root() {
    assert_eq!(conf_root("/w"), "/w/conf");
    assert_eq!(conf_path("/w", "wpgen.toml"), "/w/conf/wpgen.toml");
    assert_eq!(work_path("/w", "data"), "/w/data");
    assert_eq!(path_join("/w/", "x"), "/w/x");
    assert_eq!(path_join("", "x"), "x");
}

#[test]
fn sinks_root_keeps_absolute_configured_paths() {
    assert_eq!(resolve_sinks_root("/w", "/abs/sink.d"), "/abs/sink.d");
    assert_eq!(resolve_sinks_root("/w", "connectors/sink.d"), "/w/connectors/sink.d");
}

fn file_spec(kind: &str, with_path: bool) -> ResolvedSinkSpec {
    let mut params = ParamTable::new();
    if with_path {
        params.insert(String::from("path"), ParamValue::Str(String::from("./out/data.json")));
    }
    ResolvedSinkSpec {
        name: String::from("gen_out"),
        fmt: TextFmt::Json,
        kind: String::from(kind),
        params,
        connector_id: Some(String::from("file_sink")),
    }
}

#[test]
fn file_sinks_resolve_their_backing_path() {
    assert_eq!(file_spec("file", true).resolve_file_path().as_deref(), Some("./out/data.json"));
    assert_eq!(file_spec("file", false).resolve_file_path(), None);
    assert_eq!(file_spec("tcp", true).resolve_file_path(), None);
}

#[test]
fn clean_reports_carry_their_notes() {
    let skip = clean_skip_report();
    assert_eq!(skip.note.as_deref(), Some("local_only=false (skip)"));
    assert!(skip.path.is_none() && !skip.existed && !skip.cleaned);

    let no_file = clean_no_file_report();
    assert_eq!(no_file.note.as_deref(), Some("output target is not a file sink"));

    let failed = clean_failed_report("wpgen1.toml");
    assert_eq!(failed.note.as_deref(), Some("config 'wpgen1.toml' not found or invalid"));

    let done = clean_file_report(String::from("./out/data.json"), true, true);
    assert_eq!(done.path.as_deref(), Some("./out/data.json"));
    assert!(done.existed && done.cleaned && done.note.is_none());
}

#[test]
fn default_clean_report_is_empty() {
    let d = warp_parse::clean::GenCleanReport::default();
    assert!(d.path.is_none() && !d.existed && !d.cleaned && d.note.is_none());
}
