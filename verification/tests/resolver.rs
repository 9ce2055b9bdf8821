use warp_parse::connector::ConnectorRecord;
use warp_parse::errors::ConfError;
use warp_parse::params::{ParamTable, ParamValue};
use warp_parse::resolve::{
    resolve_out_sink, Connectors, GeneratorConf, OutputConf, WpGenConfig,
};
use warp_parse::textfmt::TextFmt;

fn tcp_record() -> ConnectorRecord {
    let mut params = ParamTable::new();
    params.insert(String::from("host"), ParamValue::Str(String::from("a")));
    ConnectorRecord {
        kind: String::from("tcp"),
        params,
        allow_override: vec![String::from("host"), String::from("port")],
    }
}

fn config(name: Option<&str>, connect: Option<&str>, params: ParamTable, speed: usize) -> WpGenConfig {
    WpGenConfig {
        output: OutputConf {
            name: name.map(String::from),
            connect: connect.map(String::from),
            params,
        },
        generator: GeneratorConf { speed },
    }
}

#[test]
fn resolution_merges_applies_policy_and_picks_format() {
    let mut connectors = Connectors::new();
    connectors.add(String::from("tcp_sink"), tcp_record());
    let mut ov = ParamTable::new();
    ov.insert(String::from("port"), ParamValue::Int(9));
    let conf = config(None, Some("tcp_sink"), ov, 0);
    let spec = resolve_out_sink(&conf, &connectors, "/w/connectors/sink.d").unwrap();
    assert_eq!(spec.name, "gen_out");
    assert_eq!(spec.kind, "tcp");
    assert_eq!(spec.fmt, TextFmt::Json);
    assert_eq!(spec.connector_id.as_deref(), Some("tcp_sink"));
    assert_eq!(spec.params.len(), 3);
    assert!(spec.params.get("host").unwrap().deep_eq(&ParamValue::Str(String::from("a"))));
    assert!(spec.params.get("port").unwrap().deep_eq(&ParamValue::Int(9)));
    assert!(spec.params.get("max_backoff").unwrap().deep_eq(&ParamValue::Bool(true)));
}

#[test]
fn resolution_fails_on_disallowed_override() {
    let mut connectors = Connectors::new();
    connectors.add(String::from("tcp_sink"), tcp_record());
    let mut ov = ParamTable::new();
    ov.insert(String::from("timeout"), ParamValue::Int(30));
    let conf = config(None, Some("tcp_sink"), ov, 0);
    let err = resolve_out_sink(&conf, &connectors, "/w").unwrap_err();
    assert_eq!(
        err.message(),
        "override 'timeout' not allowed for connector 'tcp_sink'; whitelist: [host, port]"
    );
}

#[test]
fn resolution_requires_connector_id() {
    let conf = config(Some("out"), None, ParamTable::new(), 0);
    let err = resolve_out_sink(&conf, &Connectors::new(), "/w").unwrap_err();
    assert!(matches!(err, ConfError::MissingConnectorId));
    assert_eq!(err.message(), "wpgen.output.connect must be set (no default fallback)");
}

#[test]
fn resolution_keeps_explicit_output_name() {
    let mut connectors = Connectors::new();
    connectors.add(String::from("tcp_sink"), tcp_record());
    let conf = config(Some("audit_out"), Some("tcp_sink"), ParamTable::new(), 5);
    let spec = resolve_out_sink(&conf, &connectors, "/w").unwrap();
    assert_eq!(spec.name, "audit_out");
    assert_eq!(spec.params.len(), 1);
    assert!(spec.params.get("max_backoff").is_none());
}

#[test]
fn lookup_miss_quotes_at_most_eight_sorted_ids() {
    let mut connectors = Connectors::new();
    for id in ["j9", "c3", "a1", "h8", "b2", "f6", "d4", "e5", "g7", "i0"] {
        connectors.add(String::from(id), tcp_record());
    }
    let conf = config(None, Some("nope"), ParamTable::new(), 0);
    let err = resolve_out_sink(&conf, &connectors, "/w/sink.d").unwrap_err();
    match err {
        ConfError::ConnectorNotFound { conn_id, start_root, known_ids } => {
            assert_eq!(conn_id, "nope");
            assert_eq!(start_root, "/w/sink.d");
            assert_eq!(
                known_ids,
                vec!["a1", "b2", "c3", "d4", "e5", "f6", "g7", "h8"]
                    .into_iter()
                    .map(String::from)
                    .collect::<Vec<_>>()
            );
        }
        _ => panic!("expected a connector-not-found error"),
    }
}

#[test]
fn lookup_miss_with_few_ids_quotes_all_of_them() {
    let mut connectors = Connectors::new();
    connectors.add(String::from("b"), tcp_record());
    connectors.add(String::from("a"), tcp_record());
    let conf = config(None, Some("zzz"), ParamTable::new(), 0);
    let err = resolve_out_sink(&conf, &connectors, "/root").unwrap_err();
    assert_eq!(
        err.message(),
        "wpgen.output.connect='zzz' not found: searched 'connectors/sink.d' upward from \
         start='/root'; known ids: [a, b]"
    );
}

#[test]
fn connector_mapping_tracks_its_ids() {
    let mut connectors = Connectors::new();
    assert_eq!(connectors.len(), 0);
    assert!(!connectors.contains_id("a"));
    connectors.add(String::from("a"), tcp_record());
    assert_eq!(connectors.len(), 1);
    assert!(connectors.contains_id("a"));
}
