use warp_parse::params::{ParamTable, ParamValue};
use warp_parse::policy::apply_policy;
use warp_parse::textfmt::{select_text_fmt, TextFmt};

#[test]
fn tcp_unlimited_without_explicit_gets_backoff() {
    let mut params = ParamTable::new();
    apply_policy("tcp", 0, &mut params);
    assert_eq!(params.len(), 1);
    assert!(params.get("max_backoff").unwrap().deep_eq(&ParamValue::Bool(true)));
}

#[test]
fn tcp_unlimited_with_explicit_keeps_it() {
    let mut params = ParamTable::new();
    params.insert(String::from("max_backoff"), ParamValue::Bool(false));
    apply_policy("tcp", 0, &mut params);
    assert_eq!(params.len(), 1);
    assert!(params.get("max_backoff").unwrap().deep_eq(&ParamValue::Bool(false)));
}

#[test]
fn tcp_limited_with_explicit_forces_false() {
    let mut params = ParamTable::new();
    params.insert(String::from("max_backoff"), ParamValue::Bool(true));
    apply_policy("tcp", 10, &mut params);
    assert_eq!(params.len(), 1);
    assert!(params.get("max_backoff").unwrap().deep_eq(&ParamValue::Bool(false)));
}

#[test]
fn tcp_limited_without_explicit_adds_nothing() {
    let mut params = ParamTable::new();
    apply_policy("tcp", 10, &mut params);
    assert_eq!(params.len(), 0);
    assert!(params.get("max_backoff").is_none());
}

#[test]
fn policy_leaves_other_kinds_alone() {
    let mut params = ParamTable::new();
    apply_policy("file", 0, &mut params);
    assert_eq!(params.len(), 0);
}

#[test]
fn file_kind_defaults_to_json() {
    let params = ParamTable::new();
    assert_eq!(select_text_fmt("file", &params), TextFmt::Json);
}

#[test]
fn file_kind_reads_fmt_param() {
    let mut params = ParamTable::new();
    params.insert(String::from("fmt"), ParamValue::Str(String::from("csv")));
    assert_eq!(select_text_fmt("file", &params), TextFmt::Csv);
}

#[test]
fn non_file_kinds_ignore_fmt() {
    let mut params = ParamTable::new();
    params.insert(String::from("fmt"), ParamValue::Str(String::from("csv")));
    assert_eq!(select_text_fmt("kafka", &params), TextFmt::Json);
}

#[test]
fn non_string_fmt_falls_back_to_json() {
    let mut params = ParamTable::new();
    params.insert(String::from("fmt"), ParamValue::Int(3));
    assert_eq!(select_text_fmt("file", &params), TextFmt::Json);
}

#[test]
fn unrecognized_fmt_falls_back_to_json() {
    let mut params = ParamTable::new();
    params.insert(String::from("fmt"), ParamValue::Str(String::from("xml")));
    assert_eq!(select_text_fmt("file", &params), TextFmt::Json);
    assert_eq!(TextFmt::Json.name(), "json");
    assert_eq!(TextFmt::Csv.name(), "csv");
}
