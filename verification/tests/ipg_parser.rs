use judgeapp::ipg_parser::{is_header_footer, parse_ipg, title_case};
use judgeapp::penalty_table::penalty_css_class;

fn sample_ipg() -> String {
    "Magic Infraction Procedure Guide\n\
     Effective as of January 24, 2025\n\
     \n\
     1. General Philosophy ........ 4\n\
     \n\
     1. General Philosophy\n\
     \n\
     1.1 Definition Of Terms\n\
     \n\
     Definition\n\
     \n\
     See section 2.1 of the Magic Tournament Rules & more.\n\
     \n\
     Appendix A\u{2014}penalty quick reference\n\
     \n\
     Infraction Penalty\n\
     Game Play Errors\n\
     Missed Trigger Warning\n\
     Hidden Card Error\n\
     Game Loss\n"
        .to_string()
}

#[test]
fn ipg_version_and_sections() {
    let ipg = parse_ipg(&sample_ipg());
    assert_eq!(ipg.version, "January 24, 2025");
    let numbers: Vec<&str> = ipg.rules.iter().map(|r| r.number.as_str()).collect();
    assert_eq!(numbers, vec!["1", "1.1", "Appendix A"]);
    let ids: Vec<i64> = ipg.rules.iter().map(|r| r.id).collect();
    assert_eq!(ids, vec![1, 2, 3]);
}

#[test]
fn ipg_subheader_and_paragraph() {
    let ipg = parse_ipg(&sample_ipg());
    let sub = &ipg.rules[1];
    assert_eq!(sub.parent, Some("1".to_string()));
    assert_eq!(sub.title, Some("Definition Of Terms".to_string()));
    assert_eq!(
        sub.body,
        "Definition Of TermsDefinition\nSee section 2.1 of the Magic Tournament Rules & more."
    );
    assert_eq!(
        sub.body_html,
        "<strong>Definition</strong><p>See section <a href=\"#R2.1\" class=\"rule-ref\" data-doc=\"mtr\">2.1</a> of the Magic Tournament Rules &amp; more.</p>"
    );
}

#[test]
fn ipg_appendix_a_becomes_penalty_table() {
    let ipg = parse_ipg(&sample_ipg());
    let a = &ipg.rules[2];
    assert_eq!(a.title, Some("Penalty Quick Reference".to_string()));
    assert_eq!(
        a.body_html,
        "<table class=\"penalty-table\"><thead><tr><th>Infraction</th><th>Penalty</th></tr></thead><tbody>\
         <tr class=\"penalty-category\"><td colspan=\"2\">Game Play Errors</td></tr>\
         <tr><td>Missed Trigger</td><td class=\"penalty-cell penalty-warning\">Warning</td></tr>\
         <tr><td>Hidden Card Error</td><td class=\"penalty-cell penalty-game-loss\">Game Loss</td></tr>\
         </tbody></table>"
    );
}

#[test]
fn ipg_same_document_section_reference_is_linked() {
    let input = "1. General Philosophy\n\n1.1 Definition Of Terms\n\nFollow section 3.2 here.\n";
    let ipg = parse_ipg(input);
    assert_eq!(
        ipg.rules[1].body_html,
        "<p>Follow section <a href=\"#R3.2\" class=\"rule-ref\">3.2</a> here.</p>"
    );
}

#[test]
fn ipg_title_case_words() {
    assert_eq!(title_case("penalty  QUICK reference"), "Penalty Quick Reference");
    assert_eq!(title_case(""), "");
}

#[test]
fn ipg_header_footer_lines() {
    assert!(is_header_footer("Magic: The Gathering Infraction Procedure Guide"));
    assert!(is_header_footer("Wizards of the Coast LLC"));
    assert!(!is_header_footer("Missed Trigger"));
}

#[test]
fn penalty_classes() {
    assert_eq!(penalty_css_class("Disqualification"), "penalty-dq");
    assert_eq!(penalty_css_class("Match Loss"), "penalty-match-loss");
    assert_eq!(penalty_css_class("Game Loss"), "penalty-game-loss");
    assert_eq!(penalty_css_class("Warning"), "penalty-warning");
    assert_eq!(penalty_css_class("None"), "penalty-warning");
    assert_eq!(penalty_css_class("Other"), "");
}

#[test]
fn ipg_line_endings_do_not_matter() {
    let lf = sample_ipg();
    let base = parse_ipg(&lf);
    for other in [lf.replace('\n', "\r\n"), lf.replace('\n', "\r")] {
        let p = parse_ipg(&other);
        assert_eq!(p.version, base.version);
        assert_eq!(p.rules.len(), base.rules.len());
        for (a, b) in p.rules.iter().zip(base.rules.iter()) {
            assert_eq!((a.id, &a.number, &a.title, &a.body, &a.body_html, &a.parent),
                       (b.id, &b.number, &b.title, &b.body, &b.body_html, &b.parent));
        }
    }
}
