use judgeapp::models::RuleDetail;
use judgeapp::mtr_parser::{is_header_footer, parse_mtr, validate_mtr, ParsedMTR};
use judgeapp::sections::{clean_title, parent_of, starts_list_item};
use judgeapp::text::html_escape;

fn minimal_mtr(body: &str) -> String {
    format!("Magic Tournament Rules\nEffective as of April 1, 2025\n\n1. Tournament Basics\n\n{body}")
}

#[test]
fn test_section_parsed() {
    let input = minimal_mtr("1.1 Definitions\n\nSome text here.\n\n2. Tournament Mechanics\n\n");
    let mtr = parse_mtr(&input);
    assert!(mtr.rules.iter().any(|r| r.number == "1"), "missing section 1");
    assert!(mtr.rules.iter().any(|r| r.number == "1.1"), "missing subsection 1.1");
}

#[test]
fn mtr_parser_test_version_extracted() {
    let input = minimal_mtr("");
    let mtr = parse_mtr(&input);
    assert_eq!(mtr.version, "April 1, 2025");
}

#[test]
fn test_paragraph_body_accumulated() {
    let input = minimal_mtr("1.1 Definitions\n\nLine one.\nLine two.\n\n");
    let mtr = parse_mtr(&input);
    let rule = mtr.rules.iter().find(|r| r.number == "1.1").expect("missing 1.1");
    assert!(rule.body.contains("Line one."), "body missing line one: {}", rule.body);
    assert!(rule.body.contains("Line two."), "body missing line two: {}", rule.body);
}

#[test]
fn mtr_parser_test_html_escape() {
    assert_eq!(html_escape("a < b & c"), "a &lt; b &amp; c");
}

#[test]
fn test_clean_title_strips_dot_leaders() {
    assert_eq!(clean_title("Tournament Basics.........."), "Tournament Basics");
    assert_eq!(clean_title("No Dots"), "No Dots");
}

#[test]
fn test_parent_of() {
    assert_eq!(parent_of("1.2.3"), Some("1.2".to_string()));
    assert_eq!(parent_of("1.2"), Some("1".to_string()));
    assert_eq!(parent_of("1"), None);
}

#[test]
fn test_starts_list_item() {
    assert!(starts_list_item("A. Something"));
    assert!(starts_list_item("1. Something"));
    assert!(starts_list_item("• bullet"));
    assert!(!starts_list_item("No match here"));
    assert!(!starts_list_item(""));
}

#[test]
fn test_is_header_footer() {
    assert!(is_header_footer("Magic: The Gathering Tournament Rules 2025"));
    assert!(is_header_footer("Wizards of the Coast LLC"));
    assert!(is_header_footer("© 2025 Wizards"));
    assert!(!is_header_footer("Some normal text"));
}

#[test]
fn appendix_e_wrapped_rows_render_as_a_table_and_stop_at_appendix_f() {
    let input = minimal_mtr(
        "Appendix E—Recommended Number of Rounds in Swiss Tournaments\n\
         \n\
         The following number of Swiss rounds is required for Premier tournaments.\n\
         \n\
         Players (Teams)  Swiss Rounds  Playoff\n\
         \n\
         4 (Team/2HG Only)  2 Single-Elimination\n\
         Rounds (No Swiss)  None (Run Single Elimination)\n\
         \n\
         5-8  3 Single-Elimination\n\
         Rounds (No Swiss)  None (Run Single Elimination)\n\
         \n\
         9-16  4 (if Limited Format with\n\
         Booster Draft in Playoff)\n\
         5 (All Other Formats)\n\
         Top 8 (If Limited Format with\n\
         Booster Draft in Playoff)\n\
         Top 4 (All Other Formats)\n\
         \n\
         17-32  5  Top 8\n\
         \n\
         Team tournaments consider each team as a single player for this purpose.\n\
         \n\
         Appendix F—Rules Enforcement Levels of Programs\n\
         \n\
         Appendix F content must not appear in Appendix E.",
    );

    let parsed = parse_mtr(&input);
    let appendix_e = parsed
        .rules
        .iter()
        .find(|rule| rule.number == "Appendix E")
        .expect("missing Appendix E");
    assert!(appendix_e.body_html.contains("<table"));
    assert!(appendix_e
        .body_html
        .contains("<td>4 (Team/2HG Only)</td><td>2 Single-Elimination Rounds (No Swiss)</td>"));
    assert!(appendix_e.body_html.contains(
        "<td>9-16</td><td>4 (if Limited Format with Booster Draft in Playoff) 5 (All Other Formats)</td><td>Top 8"
    ));
    assert!(appendix_e.body_html.contains("Team tournaments consider"));
    assert!(!appendix_e.body_html.contains("Appendix F content"));
    validate_mtr(&parsed).expect("valid MTR should pass integrity checks");
}

#[test]
fn validation_rejects_a_missing_appendix_e_table() {
    let parsed = ParsedMTR {
        version: "February 27, 2026".to_string(),
        rules: vec![RuleDetail {
            id: 1,
            number: "Appendix E".to_string(),
            title: Some("Recommended Number of Rounds".to_string()),
            body: String::new(),
            body_html: "<p>PDF extraction unexpectedly changed.</p>".to_string(),
            parent: None,
        }],
    };

    let error = validate_mtr(&parsed).expect_err("broken table must be rejected");
    assert!(error.contains("table was not parsed correctly"));
}

#[test]
fn mtr_validation_reports_unknown_version_and_missing_appendix() {
    let no_version = ParsedMTR { version: "unknown".to_string(), rules: Vec::new() };
    assert_eq!(
        validate_mtr(&no_version),
        Err("the document effective date could not be read".to_string())
    );
    let no_appendix = ParsedMTR { version: "April 1, 2025".to_string(), rules: Vec::new() };
    assert_eq!(validate_mtr(&no_appendix), Err("Appendix E is missing".to_string()));
}

#[test]
fn mtr_validation_counts_data_rows() {
    let parsed = ParsedMTR {
        version: "April 1, 2025".to_string(),
        rules: vec![RuleDetail {
            id: 1,
            number: "Appendix E".to_string(),
            title: None,
            body: String::new(),
            body_html: "<table><tr><th>a</th></tr><tr><td>1</td></tr></table>".to_string(),
            parent: None,
        }],
    };
    assert_eq!(
        validate_mtr(&parsed),
        Err("Appendix E's recommended Swiss rounds table was not parsed correctly (found 1 data rows)"
            .to_string())
    );
}

#[test]
fn mtr_subsection_records_parent_and_exact_body() {
    let input = minimal_mtr("1.1 Definitions\n\nLine one.\nLine two.\n\n");
    let mtr = parse_mtr(&input);
    assert_eq!(mtr.rules.len(), 2);
    assert_eq!(mtr.rules[0].number, "1");
    assert_eq!(mtr.rules[0].title, Some("Tournament Basics".to_string()));
    assert_eq!(mtr.rules[0].id, 1);
    let sub = &mtr.rules[1];
    assert_eq!(sub.id, 2);
    assert_eq!(sub.parent, Some("1".to_string()));
    assert_eq!(sub.title, Some("Definitions".to_string()));
    assert_eq!(sub.body, "Definitions\nLine one. Line two.");
    assert_eq!(sub.body_html, "<p>Line one. Line two.</p>");
}

#[test]
fn mtr_without_sections_has_no_rules() {
    let mtr = parse_mtr("");
    assert_eq!(mtr.version, "unknown");
    assert!(mtr.rules.is_empty());
}
