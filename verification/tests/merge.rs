use warp_parse::connector::{merge_params_with_whitelist, ConnectorRecord};
use warp_parse::errors::ConfError;
use warp_parse::params::{ParamTable, ParamValue};

fn record(kind: &str, base: Vec<(&str, ParamValue)>, allow: Vec<&str>) -> ConnectorRecord {
    let mut params = ParamTable::new();
    for (k, v) in base {
        params.insert(String::from(k), v);
    }
    ConnectorRecord {
        kind: String::from(kind),
        params,
        allow_override: allow.into_iter().map(String::from).collect(),
    }
}

#[test]
fn merge_applies_whitelisted_overrides() {
    let rec = record(
        "tcp",
        vec![("host", ParamValue::Str(String::from("a"))), ("port", ParamValue::Int(1))],
        vec!["host", "port"],
    );
    let mut ov = ParamTable::new();
    ov.insert(String::from("port"), ParamValue::Int(9));
    let merged = merge_params_with_whitelist(&rec, &ov, "c1").unwrap();
    assert_eq!(merged.len(), 2);
    assert!(merged.get("host").unwrap().deep_eq(&ParamValue::Str(String::from("a"))));
    assert!(merged.get("port").unwrap().deep_eq(&ParamValue::Int(9)));
}

#[test]
fn merge_empty_override_returns_base_params() {
    let rec = record(
        "file",
        vec![
            ("path", ParamValue::Str(String::from("out.json"))),
            ("append", ParamValue::Bool(true)),
        ],
        vec!["path"],
    );
    let ov = ParamTable::new();
    let merged = merge_params_with_whitelist(&rec, &ov, "c1").unwrap();
    assert!(merged.deep_eq(&rec.params));
}

#[test]
fn merge_rejects_structural_params_key() {
    let rec = record("tcp", vec![], vec!["host"]);
    let mut ov = ParamTable::new();
    ov.insert(String::from("params"), ParamValue::Bool(true));
    match merge_params_with_whitelist(&rec, &ov, "c1") {
        Err(ConfError::NestedOverride { key, whitelist }) => {
            assert_eq!(key, "params");
            assert_eq!(whitelist, vec![String::from("host")]);
        }
        other => panic!("expected a structural rejection, got {:?}", other.is_ok()),
    }
}

#[test]
fn merge_rejects_structural_key_even_when_whitelisted() {
    let rec = record("tcp", vec![], vec!["params_override"]);
    let mut ov = ParamTable::new();
    ov.insert(String::from("params_override"), ParamValue::Int(1));
    match merge_params_with_whitelist(&rec, &ov, "c1") {
        Err(ConfError::NestedOverride { key, .. }) => assert_eq!(key, "params_override"),
        _ => panic!("expected a structural rejection"),
    }
}

#[test]
fn merge_rejects_key_outside_whitelist() {
    let rec = record("tcp", vec![("host", ParamValue::Str(String::from("a")))], vec![
        "host", "port",
    ]);
    let mut ov = ParamTable::new();
    ov.insert(String::from("timeout"), ParamValue::Int(30));
    match merge_params_with_whitelist(&rec, &ov, "tcp_sink") {
        Err(e @ ConfError::WhitelistViolation { .. }) => {
            assert_eq!(
                e.message(),
                "override 'timeout' not allowed for connector 'tcp_sink'; whitelist: [host, port]"
            );
        }
        _ => panic!("expected a whitelist violation"),
    }
}

#[test]
fn merge_result_keys_stay_inside_base_and_whitelist() {
    let rec = record("tcp", vec![("host", ParamValue::Str(String::from("a")))], vec![
        "host", "port",
    ]);
    let mut ov = ParamTable::new();
    ov.insert(String::from("host"), ParamValue::Str(String::from("b")));
    ov.insert(String::from("port"), ParamValue::Int(7));
    let merged = merge_params_with_whitelist(&rec, &ov, "c1").unwrap();
    for i in 0..merged.len() {
        let key = merged.key_at(i).clone();
        let in_base = rec.params.get(&key).is_some();
        let in_whitelist = rec.allow_override.contains(&key);
        assert!(in_base || in_whitelist, "key {} escaped the whitelist", key);
    }
}

#[test]
fn nested_override_message_lists_whitelist() {
    let rec = record("tcp", vec![], vec!["host", "port"]);
    let mut ov = ParamTable::new();
    ov.insert(String::from("params"), ParamValue::Bool(true));
    let err = merge_params_with_whitelist(&rec, &ov, "c1").unwrap_err();
    assert_eq!(
        err.message(),
        "invalid nested table 'params' in output.params; set keys [host, port] directly"
    );
}

#[test]
fn merge_replaces_value_in_place() {
    let rec = record(
        "file",
        vec![
            ("path", ParamValue::Str(String::from("a.json"))),
            ("append", ParamValue::Bool(false)),
        ],
        vec!["path"],
    );
    let mut ov = ParamTable::new();
    ov.insert(String::from("path"), ParamValue::Str(String::from("b.json")));
    let merged = merge_params_with_whitelist(&rec, &ov, "c1").unwrap();
    assert_eq!(merged.len(), 2);
    assert_eq!(merged.key_at(0), "path");
    assert_eq!(merged.key_at(1), "append");
    assert!(merged.get("path").unwrap().deep_eq(&ParamValue::Str(String::from("b.json"))));
}

#[test]
fn value_deep_eq_distinguishes_shapes() {
    assert!(ParamValue::Int(3).deep_eq(&ParamValue::Int(3)));
    assert!(!ParamValue::Int(3).deep_eq(&ParamValue::Int(4)));
    assert!(!ParamValue::Int(1).deep_eq(&ParamValue::Bool(true)));
    let a = ParamValue::StrList(vec![String::from("x"), String::from("y")]);
    let b = ParamValue::StrList(vec![String::from("x"), String::from("y")]);
    let c = ParamValue::StrList(vec![String::from("x")]);
    assert!(a.deep_eq(&b));
    assert!(!a.deep_eq(&c));
}
