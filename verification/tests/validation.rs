use warp_parse::validate::{
    validate_groups, validate_with_stats, GroupExpect, Severity, SinkCount, SinkShare,
    ValidationItem, ValidationReport,
};

fn group(name: &str, shares: Vec<(&str, u64)>) -> GroupExpect {
    GroupExpect {
        name: String::from(name),
        sinks: shares
            .into_iter()
            .map(|(s, ratio)| SinkShare { sink: String::from(s), ratio })
            .collect(),
    }
}

fn count(g: &str, s: &str, lines: u64) -> SinkCount {
    SinkCount { group: String::from(g), sink: String::from(s), lines }
}

fn item(severity: Severity, g: &str, s: &str, msg: &str) -> ValidationItem {
    ValidationItem {
        severity,
        group: String::from(g),
        sink: String::from(s),
        msg: String::from(msg),
    }
}

#[test]
fn warn_only_report_does_not_fail() {
    let mut r = ValidationReport::new();
    r.push_item(item(Severity::Warn, "g", "s", "drift"));
    r.push_item(item(Severity::Warn, "g", "t", "drift"));
    assert!(!r.has_error_fail());
}

#[test]
fn one_error_fails_the_report() {
    let mut r = ValidationReport::new();
    r.push_item(item(Severity::Warn, "g", "s", "drift"));
    r.push_item(item(Severity::Error, "g", "t", "off"));
    r.push_item(item(Severity::Warn, "g", "u", "drift"));
    assert!(r.has_error_fail());
    let mut p = ValidationReport::new();
    p.push_item(item(Severity::Panic, "g", "s", "zero"));
    assert!(p.has_error_fail());
}

#[test]
fn structural_validation_accepts_full_ratios() {
    let groups = vec![group("g", vec![("a", 60), ("b", 40)])];
    let r = validate_groups(&groups, None);
    assert_eq!(r.items.len(), 0);
    assert!(!r.has_error_fail());
}

#[test]
fn structural_validation_flags_bad_ratio_sum() {
    let groups = vec![group("g", vec![("a", 60), ("b", 30)])];
    let r = validate_groups(&groups, None);
    assert_eq!(r.items.len(), 1);
    assert_eq!(r.items[0].severity, Severity::Error);
    assert_eq!(r.items[0].group, "g");
    assert_eq!(r.items[0].msg, "sink ratios do not sum to 100");
}

#[test]
fn structural_validation_panics_on_zero_total_share() {
    let groups = vec![group("g", vec![("a", 100)])];
    let r = validate_groups(&groups, Some(0));
    assert_eq!(r.items.len(), 1);
    assert_eq!(r.items[0].severity, Severity::Panic);
    assert_eq!(r.items[0].sink, "a");
    assert_eq!(r.items[0].msg, "nonzero expected share with zero total input");
    assert!(r.has_error_fail());
}

#[test]
fn stats_validation_accepts_exact_counts() {
    let groups = vec![group("g", vec![("a", 50), ("b", 50)])];
    let stats = vec![count("g", "a", 500), count("g", "b", 500)];
    let r = validate_with_stats(&groups, &stats, None);
    assert_eq!(r.items.len(), 0);
}

#[test]
fn stats_validation_warns_on_small_drift() {
    let groups = vec![group("g", vec![("a", 50), ("b", 50)])];
    let stats = vec![count("g", "a", 495), count("g", "b", 505)];
    let r = validate_with_stats(&groups, &stats, None);
    assert_eq!(r.items.len(), 2);
    assert_eq!(r.items[0].severity, Severity::Warn);
    assert_eq!(r.items[0].msg, "observed 495 lines, expected 500");
    assert_eq!(r.items[1].severity, Severity::Warn);
}

#[test]
fn stats_validation_errors_on_large_deviation() {
    let groups = vec![group("g", vec![("a", 50), ("b", 50)])];
    let stats = vec![count("g", "a", 100), count("g", "b", 900)];
    let r = validate_with_stats(&groups, &stats, None);
    assert_eq!(r.items.len(), 2);
    assert_eq!(r.items[0].severity, Severity::Error);
    assert_eq!(r.items[0].msg, "observed 100 lines, expected 500");
    assert!(r.has_error_fail());
}

#[test]
fn stats_validation_uses_the_input_override() {
    let groups = vec![group("g", vec![("a", 100)])];
    let stats = vec![count("g", "a", 50)];
    let r = validate_with_stats(&groups, &stats, Some(1000));
    assert_eq!(r.items.len(), 1);
    assert_eq!(r.items[0].severity, Severity::Error);
    assert_eq!(r.items[0].msg, "observed 50 lines, expected 1000");
}

#[test]
fn stats_validation_flags_orphan_counts() {
    let groups = vec![group("g", vec![("a", 100)])];
    let stats = vec![count("g", "a", 10), count("g", "ghost", 0)];
    let r = validate_with_stats(&groups, &stats, None);
    assert_eq!(r.items.len(), 1);
    assert_eq!(r.items[0].severity, Severity::Error);
    assert_eq!(r.items[0].sink, "ghost");
    assert_eq!(r.items[0].msg, "counted sink not declared in expectations");
}

#[test]
fn missing_count_reads_as_zero() {
    let groups = vec![group("g", vec![("a", 50), ("b", 50)])];
    let stats = vec![count("g", "a", 1000)];
    let r = validate_with_stats(&groups, &stats, None);
    assert_eq!(r.items.len(), 2);
    assert_eq!(r.items[0].msg, "observed 1000 lines, expected 500");
    assert_eq!(r.items[1].msg, "observed 0 lines, expected 500");
}

#[test]
fn report_renders_the_documented_json_shape() {
    let mut r = ValidationReport::new();
    r.push_item(item(Severity::Warn, "g1", "s1", "small \"drift\""));
    r.push_item(item(Severity::Error, "g2", "s2", "off"));
    assert_eq!(
        r.to_json(),
        "{\"pass\": false, \"issues\": [\
         {\"severity\": \"WARN\", \"group\": \"g1\", \"sink\": \"s1\", \"msg\": \"small \\\"drift\\\"\"}, \
         {\"severity\": \"ERROR\", \"group\": \"g2\", \"sink\": \"s2\", \"msg\": \"off\"}]}"
    );
    let empty = ValidationReport::new();
    assert_eq!(empty.to_json(), "{\"pass\": true, \"issues\": []}");
}

#[test]
fn oversized_ratios_flag_the_sum_check() {
    let groups = vec![group("g", vec![("a", 150)])];
    let r = validate_groups(&groups, None);
    assert_eq!(r.items.len(), 1);
    assert_eq!(r.items[0].msg, "sink ratios do not sum to 100");
}

#[test]
fn huge_counts_stay_in_range() {
    let groups = vec![group("g", vec![("a", 100)])];
    let stats = vec![count("g", "a", u64::MAX)];
    let r = validate_with_stats(&groups, &stats, None);
    assert_eq!(r.items.len(), 0); // the whole (capped) total goes to the one sink
}
