use judgeapp::riftbound::{domain_text, needs_riftbound_import, section_rows_of, RiftboundSection};

fn section(number: &str, text: &str, children: Vec<RiftboundSection>) -> RiftboundSection {
    RiftboundSection { section: number.to_string(), text: text.to_string(), children }
}

#[test]
fn sections_become_rows_parents_first() {
    let doc = vec![
        section("100", "Game Concepts:", vec![section("101", " Cards <1> ", vec![]), section("102", "Decks", vec![])]),
        section("200", "Setup", vec![]),
    ];
    let rows = section_rows_of(&doc);
    let numbers: Vec<&str> = rows.iter().map(|r| r.number.as_str()).collect();
    assert_eq!(numbers, vec!["100", "101", "102", "200"]);
    let orders: Vec<i32> = rows.iter().map(|r| r.sort_order).collect();
    assert_eq!(orders, vec![0, 1, 2, 3]);
    assert_eq!(rows[0].title, Some("Game Concepts".to_string()));
    assert_eq!(rows[0].body, "");
    assert_eq!(rows[0].parent, None);
    assert_eq!(rows[1].title, None);
    assert_eq!(rows[1].body, "Cards <1>");
    assert_eq!(rows[1].body_html, "Cards &lt;1&gt;");
    assert_eq!(rows[1].parent, Some("100".to_string()));
    assert_eq!(rows[3].parent, None);
}

#[test]
fn bundled_import_decision() {
    assert!(!needs_riftbound_import(&vec![true, true, true], Some("2026-07-17")));
    assert!(!needs_riftbound_import(&vec![true, true, true], Some("20270101")));
    assert!(needs_riftbound_import(&vec![true, true, true], Some("20260101")));
    assert!(needs_riftbound_import(&vec![true, false, true], Some("20270101")));
    assert!(needs_riftbound_import(&vec![true, true, true], None));
    assert!(needs_riftbound_import(&vec![true, true, true], Some("July 2026")));
}

#[test]
fn domains_joined() {
    assert_eq!(domain_text(&vec![]), None);
    assert_eq!(domain_text(&vec!["Fury".to_string()]), Some("Fury".to_string()));
    assert_eq!(
        domain_text(&vec!["Fury".to_string(), "Calm".to_string()]),
        Some("Fury, Calm".to_string())
    );
}
