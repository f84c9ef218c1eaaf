use apple_health_mcp::files::select_files;
use apple_health_mcp::tools::{
    activity_summaries_sql, custom_query, ecg_readings_sql, is_read_only, list_workouts_sql,
    query_records_sql, record_statistics_sql, GetActivitySummariesParams,
    GetRecordStatisticsParams, ListEcgReadingsParams, ListWorkoutsParams, QueryRecordsParams,
};

#[test]
fn records_query_defaults() {
    let p = QueryRecordsParams {
        record_type: "HKQuantityTypeIdentifierHeartRate".to_string(),
        start_date: None,
        end_date: None,
        source_name: None,
        limit: None,
    };
    assert_eq!(
        query_records_sql(&p),
        "SELECT record_hash, record_type, value, unit, source_name, start_date, end_date FROM records WHERE record_type = ? ORDER BY start_date DESC LIMIT 100"
    );
}

#[test]
fn records_query_filters_are_quoted() {
    let p = QueryRecordsParams {
        record_type: "X".to_string(),
        start_date: Some("2024-01-01".to_string()),
        end_date: Some("2024-12-31".to_string()),
        source_name: Some("Bob's Watch".to_string()),
        limit: Some(5000),
    };
    assert_eq!(
        query_records_sql(&p),
        "SELECT record_hash, record_type, value, unit, source_name, start_date, end_date FROM records WHERE record_type = ? AND start_date >= '2024-01-01' AND end_date <= '2024-12-31' AND source_name = 'Bob''s Watch' ORDER BY start_date DESC LIMIT 1000"
    );
}

#[test]
fn statistics_query_periods() {
    let mut p = GetRecordStatisticsParams {
        record_type: "X".to_string(),
        start_date: None,
        end_date: None,
        period: Some("week".to_string()),
    };
    let week = record_statistics_sql(&p);
    assert!(week.starts_with("SELECT DATE_TRUNC('week', date) as period"));
    assert!(week.ends_with(" GROUP BY DATE_TRUNC('week', date) ORDER BY period"));
    p.period = Some("fortnight".to_string());
    let other = record_statistics_sql(&p);
    assert!(other.starts_with("SELECT date as period"));
    p.period = None;
    p.start_date = Some("2024-01-01".to_string());
    assert_eq!(
        record_statistics_sql(&p),
        "SELECT date as period, SUM(count) as count, SUM(sum_value)/SUM(count) as avg_value, MIN(min_value) as min_value, MAX(max_value) as max_value, SUM(sum_value) as sum_value FROM daily_record_stats WHERE record_type = ? AND date >= '2024-01-01' GROUP BY date ORDER BY period"
    );
}

#[test]
fn workouts_query_limit_and_filters() {
    let p = ListWorkoutsParams {
        activity_type: Some("HKWorkoutActivityTypeRunning".to_string()),
        start_date: None,
        end_date: None,
        limit: Some(7),
    };
    assert_eq!(
        list_workouts_sql(&p),
        "SELECT workout_hash, activity_type, duration, duration_unit, total_distance, total_distance_unit, total_energy_burned, total_energy_unit, source_name, start_date, end_date FROM workouts WHERE 1=1 AND activity_type = 'HKWorkoutActivityTypeRunning' ORDER BY start_date DESC LIMIT 7"
    );
}

#[test]
fn activity_and_ecg_queries() {
    let a = GetActivitySummariesParams { start_date: None, end_date: Some("2024-02-01".to_string()), limit: Some(400) };
    assert_eq!(
        activity_summaries_sql(&a),
        "SELECT * FROM activity_summaries WHERE 1=1 AND date_components <= '2024-02-01' ORDER BY date_components DESC LIMIT 365"
    );
    let e = ListEcgReadingsParams { start_date: Some("2024-01-01".to_string()), end_date: None };
    assert_eq!(
        ecg_readings_sql(&e),
        "SELECT ecg_hash, recorded_date, classification, device, sample_rate_hz FROM ecg_readings WHERE 1=1 AND recorded_date >= '2024-01-01' ORDER BY recorded_date DESC"
    );
}

#[test]
fn custom_query_must_read_only() {
    assert_eq!(custom_query("  select 1 ").as_deref(), Some("select 1"));
    assert_eq!(custom_query("WITH t AS (SELECT 1) SELECT * FROM t").is_some(), true);
    assert_eq!(custom_query("DROP TABLE records"), None);
    assert_eq!(custom_query("INSERT INTO records VALUES (1)"), None);
    assert!(is_read_only("SELECT"));
    assert!(!is_read_only("select"));
}

#[test]
fn files_filtered_by_extension_and_sorted() {
    let names = vec![
        "b.gpx".to_string(),
        "notes.txt".to_string(),
        ".gpx".to_string(),
        "a.gpx".to_string(),
        "c.tar.gpx".to_string(),
        "gpx".to_string(),
    ];
    assert_eq!(select_files(&names, "gpx"), vec!["a.gpx", "b.gpx", "c.tar.gpx"]);
    assert!(select_files(&Vec::new(), "csv").is_empty());
}

