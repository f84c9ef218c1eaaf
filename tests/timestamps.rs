use apple_health_mcp::timestamp::{clean_date, clean_date_opt, clean_timestamp};

#[test]
fn clean_timestamp_z_suffix() {
    assert_eq!(clean_timestamp("2020-06-20T16:56:44Z"), "2020-06-20 16:56:44");
}

#[test]
fn clean_timestamp_positive_offset() {
    assert_eq!(clean_timestamp("2020-06-20T16:56:44+00:00"), "2020-06-20 16:56:44");
}

#[test]
fn clean_timestamp_negative_offset() {
    assert_eq!(clean_timestamp("2020-06-20T16:56:44-05:00"), "2020-06-20 16:56:44");
}

#[test]
fn clean_timestamp_no_tz() {
    assert_eq!(clean_timestamp("2020-06-20T16:56:44"), "2020-06-20 16:56:44");
}

#[test]
fn clean_timestamp_short_string() {
    assert_eq!(clean_timestamp("12:00"), "12:00");
}

#[test]
fn clean_timestamp_trims_white_space() {
    assert_eq!(clean_timestamp("  2020-06-20T16:56:44Z\n"), "2020-06-20 16:56:44");
}

#[test]
fn clean_timestamp_fraction_and_space_separator() {
    assert_eq!(clean_timestamp(" 2020-06-20 16:56:44.123+02:00\t"), "2020-06-20 16:56:44.123");
    assert_eq!(clean_timestamp("2020-06-20 16:56:44.5"), "2020-06-20 16:56:44.5");
}

#[test]
fn clean_timestamp_keeps_canonical_form() {
    let canonical = "2020-06-20 16:56:44";
    assert_eq!(clean_timestamp(canonical), canonical);
    let once = clean_timestamp("2020-06-20T16:56:44+02:00");
    assert_eq!(clean_timestamp(&once), once);
}

#[test]
fn clean_date_strips_positive_offset() {
    assert_eq!(clean_date("2020-06-20 16:56:44 +0000"), "2020-06-20 16:56:44");
}

#[test]
fn clean_date_strips_negative_offset() {
    assert_eq!(clean_date("2020-06-20 16:56:44 -0500"), "2020-06-20 16:56:44");
}

#[test]
fn clean_date_no_offset() {
    assert_eq!(clean_date("2020-06-20 16:56:44"), "2020-06-20 16:56:44");
}

#[test]
fn clean_date_strips_zulu() {
    assert_eq!(clean_date("2020-06-20 16:56:44Z"), "2020-06-20 16:56:44");
}

#[test]
fn clean_date_cuts_only_a_trailing_offset() {
    assert_eq!(clean_date("a +b 2020"), "a +b 2020");
    assert_eq!(clean_date("2020-06-20 16:56:44 +00"), "2020-06-20 16:56:44 +00");
    assert_eq!(clean_date("2020-06-20 16:56:44 -0730"), "2020-06-20 16:56:44");
}

#[test]
fn clean_date_keeps_canonical_form() {
    let once = clean_date("2020-06-20 16:56:44 +0100");
    assert_eq!(clean_date(&once), once);
}

#[test]
fn clean_date_opt_some() {
    let s = Some("2020-06-20 16:56:44 +0000".to_string());
    assert_eq!(clean_date_opt(&s), Some("2020-06-20 16:56:44".to_string()));
}

#[test]
fn clean_date_opt_none() {
    assert_eq!(clean_date_opt(&None), None);
}
