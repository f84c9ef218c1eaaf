use apple_health_mcp::export::ImportStats;
use apple_health_mcp::identity::compute_hash;

#[test]
fn compute_hash_deterministic() {
    let h1 = compute_hash(&["a", "b", "c"]);
    let h2 = compute_hash(&["a", "b", "c"]);
    assert_eq!(h1, h2);
}

#[test]
fn compute_hash_different_order() {
    let h1 = compute_hash(&["a", "b"]);
    let h2 = compute_hash(&["b", "a"]);
    assert_ne!(h1, h2);
}

#[test]
fn compute_hash_empty_input() {
    let h = compute_hash(&[]);
    assert!(!h.is_empty());
}

#[test]
fn compute_hash_empty_strings() {
    let h1 = compute_hash(&[""]);
    let h2 = compute_hash(&["", ""]);
    assert_ne!(h1, h2);
}

#[test]
fn compute_hash_hex_output() {
    let h = compute_hash(&["test"]);
    assert_eq!(h.len(), 64);
    assert!(h.chars().all(|c| c.is_ascii_hexdigit()));
}

#[test]
fn compute_hash_of_no_fields_is_digest_of_nothing() {
    // With no fields nothing is framed: the SHA-256 of the empty input.
    assert_eq!(
        compute_hash(&[]),
        "e3b0c44298fc1c149afbf4c8996fb92427ae41e4649b934ca495991b7852b855"
    );
}

#[test]
fn compute_hash_distinct_fields_differ() {
    let base = compute_hash(&["HeartRate", "Watch", "2024-01-01 08:00:00", "2024-01-01 08:01:00", "72", "count/min"]);
    let other = compute_hash(&["HeartRate", "Watch", "2024-01-01 08:00:00", "2024-01-01 08:01:00", "73", "count/min"]);
    assert_ne!(base, other);
}

#[test]
fn compute_hash_separator_inside_fields() {
    assert_ne!(compute_hash(&["a|", "b"]), compute_hash(&["a", "|b"]));
    assert_ne!(compute_hash(&["a|b"]), compute_hash(&["a", "b"]));
    assert_ne!(compute_hash(&["ab"]), compute_hash(&["a", "b"]));
}

#[test]
fn import_stats_default() {
    let stats = ImportStats::default();
    assert_eq!(stats.records, 0);
    assert_eq!(stats.workouts, 0);
    assert_eq!(stats.activity_summaries, 0);
    assert_eq!(stats.correlations, 0);
    assert_eq!(stats.ecg_readings, 0);
    assert_eq!(stats.route_points, 0);
    assert_eq!(stats.metadata_entries, 0);
    assert_eq!(stats.workout_events, 0);
    assert_eq!(stats.workout_statistics, 0);
}
