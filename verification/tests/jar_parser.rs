use judgeapp::jar_parser::{is_header_footer, parse_jar};

fn minimal_jar(body: &str) -> String {
    format!("Judging at Regular Rules Enforcement Level\nUpdated September 25, 2020\n\n{body}")
}

#[test]
fn jar_parser_test_version_extracted() {
    let input = minimal_jar("Common Issues\n\n");
    let jar = parse_jar(&input);
    assert_eq!(jar.version, "September 25, 2020");
}

#[test]
fn test_sections_parsed() {
    let input = minimal_jar(
        "Common Issues\n\nGeneral Unwanted Behaviors\n\nSerious Problems\n\nResources\n\n",
    );
    let jar = parse_jar(&input);
    assert!(jar.rules.iter().any(|r| r.number == "1"), "missing section 1");
    assert!(jar.rules.iter().any(|r| r.number == "2"), "missing section 2");
    assert!(jar.rules.iter().any(|r| r.number == "3"), "missing section 3");
    assert!(jar.rules.iter().any(|r| r.number == "4"), "missing section 4");
}

#[test]
fn test_common_issue_subsection() {
    let input = minimal_jar(
        "Common Issues\n\nA player forgets a triggered ability\n\nThe trigger was not remembered.\n\n",
    );
    let jar = parse_jar(&input);
    assert!(jar.rules.iter().any(|r| r.number == "1.1"), "missing subsection 1.1");
    let sub = jar.rules.iter().find(|r| r.number == "1.1").unwrap();
    assert_eq!(sub.parent, Some("1".to_string()));
}

#[test]
fn test_intro_section_exists() {
    let input = minimal_jar("Intro text here.\n\nCommon Issues\n\n");
    let jar = parse_jar(&input);
    let intro = jar.rules.iter().find(|r| r.number == "0").unwrap();
    assert!(intro.body.contains("Intro text here."));
}

#[test]
fn jar_parser_test_html_escape() {
    let input = minimal_jar("Common Issues\n\nA player has a card with a < b & c\n\n");
    let jar = parse_jar(&input);
    let sub = jar.rules.iter().find(|r| r.number == "1.1").unwrap();
    assert!(sub.body_html.contains("&lt;"));
    assert!(sub.body_html.contains("&amp;"));
}

#[test]
fn jar_common_issue_gets_title_and_paragraph() {
    let input = minimal_jar(
        "Common Issues\n\nA player forgets a triggered ability.\n\nThe trigger was not remembered.\n\n",
    );
    let jar = parse_jar(&input);
    let sub = jar.rules.iter().find(|r| r.number == "1.1").unwrap();
    assert_eq!(sub.title, Some("A player forgets a triggered ability".to_string()));
    assert_eq!(
        sub.body,
        "A player forgets a triggered ability\nThe trigger was not remembered."
    );
    assert_eq!(
        sub.body_html,
        "<p><strong>A player forgets a triggered ability</strong></p><p>The trigger was not remembered.</p>"
    );
    let ids: Vec<i64> = jar.rules.iter().map(|r| r.id).collect();
    assert_eq!(ids, vec![1, 2, 3]);
}

#[test]
fn jar_header_footer_lines() {
    assert!(is_header_footer("Judging at Regular Rules Enforcement Level"));
    assert!(is_header_footer("Magic: The Gathering is a trademark"));
    assert!(is_header_footer("WPN 2020"));
    assert!(!is_header_footer("Some normal text"));
}
