use snow_devil::diagnostics::{log_tail_start, record_count_query, COUNT_TABLES, MAX_LOG_TAIL_BYTES};
use snow_devil::update::UpdateSummary;

#[test]
fn diagnostic_contract_has_no_sensitive_fields() {
    let serialized = serde_json::to_string(&COUNT_TABLES).unwrap();
    for forbidden in [
        "token",
        "cookie",
        "body",
        "content",
        "repository_name",
        "email",
    ] {
        assert!(!serialized.to_lowercase().contains(forbidden));
    }
}

#[test]
fn log_tail_reads_at_most_the_ceiling() {
    assert_eq!(MAX_LOG_TAIL_BYTES, 262_144);
    assert_eq!(log_tail_start(0), 0);
    assert_eq!(log_tail_start(MAX_LOG_TAIL_BYTES), 0);
    assert_eq!(log_tail_start(MAX_LOG_TAIL_BYTES + 10), 10);
    assert_eq!(log_tail_start(1_000_000), 1_000_000 - 262_144);
}

#[test]
fn record_counts_query_each_table() {
    assert_eq!(record_count_query("accounts"), "SELECT COUNT(*) FROM accounts");
    assert_eq!(COUNT_TABLES.len(), 8);
}

#[test]
fn update_summary_keeps_versions_and_notes() {
    let summary = UpdateSummary::new("0.2.0".to_string(), "0.1.0".to_string(), Some("Fixes".to_string()));
    assert_eq!(summary.version, "0.2.0");
    assert_eq!(summary.current_version, "0.1.0");
    assert_eq!(summary.notes.as_deref(), Some("Fixes"));
}
