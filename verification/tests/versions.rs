use judgeapp::versions::{is_newer, parse_legacy_month_date, valid_quick_reference, version_as_number};

#[test]
fn version_as_number_strips_dashes() {
    assert_eq!(version_as_number("2026-04-01"), 20260401);
    assert_eq!(version_as_number("2026-03-30"), 20260330);
    assert_eq!(version_as_number("20260401"), 20260401);
}

#[test]
fn april_is_newer_than_march() {
    assert!(is_newer("2026-04-01", Some("2026-03-30")));
    assert!(is_newer("20260401", Some("20260330")));
}

#[test]
fn same_version_is_not_newer() {
    assert!(!is_newer("2026-04-01", Some("2026-04-01")));
    assert!(!is_newer("20260401", Some("20260401")));
    assert!(!is_newer("2026-04-01", Some("20260401")));
    assert!(!is_newer("20260401", Some("2026-04-01")));
}

#[test]
fn newer_day_in_same_month() {
    assert!(is_newer("2026-04-15", Some("2026-04-01")));
    assert!(!is_newer("2026-04-01", Some("2026-04-15")));
}

#[test]
fn no_installed_version_is_always_newer() {
    assert!(is_newer("2026-04-01", None));
}

#[test]
fn legacy_string_same_date_not_flagged_as_update() {
    assert!(!is_newer("20260227", Some("February 27, 2026")));
    assert!(!is_newer("20240923", Some("September 23, 2024-r3")));
    assert!(!is_newer("20200925", Some("September 25, 2020")));
}

#[test]
fn legacy_string_older_version_shows_update() {
    assert!(is_newer("20240923", Some("September 25, 2020")));
    assert!(is_newer("20260619", Some("February 27, 2026")));
}

#[test]
fn quick_reference_requires_a_topic_heading() {
    assert!(valid_quick_reference("## Start of Turn\nDo the thing"));
    assert!(!valid_quick_reference("Start of Turn\nDo the thing"));
    assert!(!valid_quick_reference(""));
}

// ── Further cases ─────────────────────────────────────────────────────────

#[test]
fn legacy_dates_parse_exactly() {
    assert_eq!(parse_legacy_month_date("September 25, 2020"), Some(20200925));
    assert_eq!(parse_legacy_month_date("Smarch 25, 2020"), None);
    assert_eq!(parse_legacy_month_date("September 25 2020"), None);
    assert_eq!(parse_legacy_month_date("May  3 , 2021 "), Some(20210503));
    assert_eq!(parse_legacy_month_date(" May 3, 2021"), None);
}

#[test]
fn unrecognized_versions_are_zero() {
    assert_eq!(version_as_number("unknown"), 0);
    assert_eq!(version_as_number(""), 0);
    assert_eq!(version_as_number("+20260101"), 20260101);
}

#[test]
fn newer_is_transitive_on_examples() {
    assert!(is_newer("2026-05-01", Some("2026-04-01")));
    assert!(is_newer("2026-04-01", Some("March 1, 2026")));
    assert!(is_newer("2026-05-01", Some("March 1, 2026")));
}
