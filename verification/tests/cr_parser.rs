use judgeapp::cr_parser::{linkify, parse_cr};
use judgeapp::text::html_escape;

#[test]
fn test_parse_rule_and_subrule() {
    let input = "Contents\n1. Game Concepts\nCredits\n\n1. Game Concepts\n\n100. General\n\n100.1. These are the rules.\n\n100.1a A subrule here.\n\nGlossary\n\nCredits\n";
    let cr = parse_cr(input);
    assert!(cr.rules.iter().any(|r| r.number == "100.1"), "missing 100.1");
    assert!(cr.rules.iter().any(|r| r.number == "100.1a"), "missing 100.1a");
}

#[test]
fn test_linkify_rule_ref() {
    let result = linkify("See rules 704.5k for details.");
    assert!(result.contains(r##"href="#R704.5k""##));
}

#[test]
fn test_glossary_parsed() {
    let input = "Contents\n1. Game Concepts\nCredits\n\n1. Game Concepts\n\nGlossary\n\nAbility\n  Text on an object.\n\nCredits\n";
    let cr = parse_cr(input);
    assert!(cr.glossary.iter().any(|g| g.term == "Ability"), "missing Ability");
}

#[test]
fn cr_parser_test_version_extracted() {
    let input = "Magic: The Gathering Comprehensive Rules\nThese rules are effective as of January 1, 2025\n\nContents\nCredits\n\nGlossary\n\nCredits\n";
    let cr = parse_cr(input);
    assert_eq!(cr.version, "January 1, 2025");
}

#[test]
fn test_toc_entries_parsed() {
    let input = "Contents\n1. Game Concepts\n100. General\n2. Parts of a Card\nCredits\n\n1. Game Concepts\n\nGlossary\n\nCredits\n";
    let cr = parse_cr(input);
    assert!(cr.toc.iter().any(|e| e.number == "1" && e.title == "Game Concepts"));
    assert!(cr.toc.iter().any(|e| e.number == "100" && e.title == "General"));
}

#[test]
fn test_continuation_line_appended() {
    let input = "Contents\n1. Game Concepts\nCredits\n\n1. Game Concepts\n\n100. General\n\n100.1. First sentence.\nSecond sentence.\n\nGlossary\n\nCredits\n";
    let cr = parse_cr(input);
    let rule = cr.rules.iter().find(|r| r.number == "100.1").expect("missing 100.1");
    assert!(rule.body.contains("Second sentence."), "continuation not appended: {}", rule.body);
}

#[test]
fn test_section_ref_linkified() {
    let result = linkify("See section 2 for details.");
    assert!(result.contains(r##"href="#R2""##), "section ref not linked: {result}");
}

#[test]
fn cr_parser_test_html_escape() {
    assert_eq!(html_escape("a < b & c > d"), "a &lt; b &amp; c &gt; d");
    assert_eq!(html_escape("no special chars"), "no special chars");
}

#[test]
fn test_bom_stripped() {
    let input = "\u{FEFF}Contents\n1. Game Concepts\nCredits\n\n1. Game Concepts\n\nGlossary\n\nCredits\n";
    let cr = parse_cr(input);
    assert!(cr.toc.iter().any(|e| e.number == "1"));
}

#[test]
fn test_glossary_multiline_definition() {
    let input = "Contents\n1. Game Concepts\nCredits\n\n1. Game Concepts\n\nGlossary\n\nAbsorb\n  Line one.\n  Line two.\n\nCredits\n";
    let cr = parse_cr(input);
    let entry = cr.glossary.iter().find(|g| g.term == "Absorb").expect("missing Absorb");
    assert!(entry.definition.contains("Line one."), "def missing line one: {}", entry.definition);
    assert!(entry.definition.contains("Line two."), "def missing line two: {}", entry.definition);
}

// ── Further cases ─────────────────────────────────────────────────────────

#[test]
fn rule_fields_are_exact() {
    let input = "Contents\nCredits\n\n1. Game Concepts\n\n100. General\n\n100.1. See rule 101.2b & section 3.\n\n100.1a A subrule.\n\nGlossary\n\nCredits\n";
    let cr = parse_cr(input);
    assert_eq!(cr.rules.len(), 4);
    let section = &cr.rules[0];
    assert_eq!(section.number, "1");
    assert_eq!(section.title.as_deref(), Some("Game Concepts"));
    assert_eq!(section.parent, None);
    let rule = &cr.rules[2];
    assert_eq!(rule.parent.as_deref(), Some("100"));
    assert_eq!(rule.title, None);
    assert_eq!(rule.body, "See rule 101.2b & section 3.");
    assert_eq!(
        rule.body_html,
        "See rules <a href=\"#R101.2b\" class=\"rule-ref\">101.2b</a> &amp; section <a href=\"#R3\" class=\"rule-ref\">3</a>."
    );
    let sub = &cr.rules[3];
    assert_eq!(sub.number, "100.1a");
    assert_eq!(sub.parent.as_deref(), Some("100.1"));
}

#[test]
fn ids_follow_non_empty_rule_lines() {
    let input = "Contents\nCredits\n1. A\n100.1. x\ncontinued\n100.2. y\nGlossary\n";
    let cr = parse_cr(input);
    let ids: Vec<i64> = cr.rules.iter().map(|r| r.id).collect();
    assert_eq!(ids, vec![1, 2, 4]);
    assert_eq!(cr.rules[1].body, "x continued");
}

#[test]
fn glossary_without_credits_drops_last_term() {
    let input = "Contents\nCredits\n1. A\nGlossary\nTerm\n  def\n";
    let cr = parse_cr(input);
    assert!(cr.glossary.is_empty());
}

#[test]
fn section_reference_needs_a_word_boundary() {
    assert_eq!(linkify("subsection 2"), "subsection 2");
    assert_eq!(linkify("section 23"), "section 23");
    assert_eq!(
        linkify("rule 100"),
        "rules <a href=\"#R100\" class=\"rule-ref\">100</a>"
    );
}

#[test]
fn crlf_input_is_normalized() {
    let input = "Contents\r\n1. Game Concepts\r\nCredits\r\n";
    let cr = parse_cr(input);
    assert_eq!(cr.toc.len(), 1);
    assert_eq!(cr.toc[0].title, "Game Concepts");
    assert_eq!(cr.version, "unknown");
}

#[test]
fn cr_leading_bom_changes_nothing() {
    let raw = "Contents\n1. Game Concepts\nCredits\n\n1. Game Concepts\n\n100. General\n\n100.1. Rule text.\n\nGlossary\n\nCredits\n";
    let a = parse_cr(raw);
    let b = parse_cr(&format!("\u{FEFF}{}", raw));
    assert_eq!(a.version, b.version);
    assert_eq!(a.toc.len(), b.toc.len());
    assert_eq!(a.rules.len(), b.rules.len());
    for (x, y) in a.rules.iter().zip(b.rules.iter()) {
        assert_eq!((&x.number, &x.body, &x.body_html), (&y.number, &y.body, &y.body_html));
    }
    assert_eq!(a.glossary.len(), b.glossary.len());
}
