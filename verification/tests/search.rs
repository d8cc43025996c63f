use judgeapp::card_search::plan_card_search;
use judgeapp::riftbound_search::{plan_riftbound_search, RiftboundCardFilters};
use judgeapp::rule_search::{plan_rule_search, rule_section_query, rules_like_query};
use judgeapp::search::{
    after_query, build_card_fts_query, build_fuzzy_query, make_like, SqlValue, Step,
};

fn text(v: &SqlValue) -> &str {
    match v {
        SqlValue::Text(s) => s.as_str(),
        _ => panic!("not text"),
    }
}

#[test]
fn test_make_like_plain() {
    assert_eq!(make_like("dragon"), "%dragon%");
}

#[test]
fn test_make_like_escapes_percent() {
    assert_eq!(make_like("100%"), "%100\\%%");
}

#[test]
fn test_make_like_escapes_underscore() {
    assert_eq!(make_like("a_b"), "%a\\_b%");
}

#[test]
fn test_make_like_empty() {
    assert_eq!(make_like(""), "%%");
}

#[test]
fn test_make_like_both_special_chars() {
    assert_eq!(make_like("50% off_sale"), "%50\\% off\\_sale%");
}

#[test]
fn fts_query_uses_safe_prefix_tokens() {
    assert_eq!(
        build_card_fts_query("lightning bolt"),
        Some("\"lightning\"* \"bolt\"*".to_string())
    );
    assert_eq!(build_card_fts_query("---"), None);
}

#[test]
fn fts_query_trims_punctuation_and_doubles_quotes() {
    assert_eq!(build_card_fts_query("  (a\"b)  x! "), Some("\"a\"\"b\"* \"x\"*".to_string()));
    assert_eq!(build_card_fts_query(""), None);
}

#[test]
fn fuzzy_query_prefixes_terms_or_quotes_the_phrase() {
    assert_eq!(build_fuzzy_query("first strike"), "first* strike*");
    assert_eq!(build_fuzzy_query("--"), "\"--\"");
    assert_eq!(build_fuzzy_query("\"\""), "\"\"\"\"\"\"");
}

#[test]
fn card_search_without_anything_runs_nothing() {
    assert!(plan_card_search("", &[], None, None, None).is_empty());
    assert!(plan_card_search("", &["X".to_string()], None, Some("gt"), Some("")).is_empty());
}

#[test]
fn card_search_browse_filters_colors_and_mana_value() {
    let plan = plan_card_search("", &["R".to_string(), "Q".to_string()], Some(-3), Some("lte"), Some("lea"));
    assert_eq!(plan.len(), 1);
    assert!(plan[0].sql.contains("WHERE 1=1 AND colors LIKE '%\"R\"%' AND cmc <= -3\n"));
    assert!(!plan[0].sql.contains("\"Q\""));
    assert_eq!(plan[0].params.len(), 1);
    assert_eq!(text(&plan[0].params[0]), "lea");
}

#[test]
fn card_search_text_runs_index_then_scan() {
    let plan = plan_card_search("bolt_1", &[], Some(2), Some("??"), None);
    assert_eq!(plan.len(), 2);
    assert!(plan[0].fallback_on_error);
    assert!(plan[0].sql.contains("MATCH ?1 AND cmc = 2\n"));
    assert_eq!(text(&plan[0].params[0]), "\"bolt_1\"*");
    assert_eq!(text(&plan[0].params[1]), "bolt_1");
    assert_eq!(text(&plan[0].params[2]), "bolt\\_1%");
    assert!(matches!(plan[0].params[3], SqlValue::Null));
    assert!(!plan[1].fallback_on_error);
    assert_eq!(text(&plan[1].params[0]), "%bolt\\_1%");
    let only_scan = plan_card_search("!!", &[], None, None, None);
    assert_eq!(only_scan.len(), 1);
    assert!(only_scan[0].sql.starts_with("SELECT name, oracle_text, mana_cost, type_line,\n                set_code"));
}

#[test]
fn riftbound_search_needs_a_filter() {
    let f = RiftboundCardFilters {
        query: "   ",
        card_type: None,
        card_set: None,
        rarity: None,
        domain: None,
        energy_min: None,
        energy_max: None,
        power_min: None,
        power_max: None,
        has_errata: None,
    };
    assert!(plan_riftbound_search(&f).is_none());
}

#[test]
fn riftbound_search_numbers_parameters_in_order() {
    let f = RiftboundCardFilters {
        query: " fury ",
        card_type: Some("Unit"),
        card_set: None,
        rarity: None,
        domain: Some("Fury"),
        energy_min: None,
        energy_max: Some(3),
        power_min: None,
        power_max: None,
        has_errata: Some(false),
    };
    let q = plan_riftbound_search(&f).unwrap();
    assert_eq!(
        q.sql,
        "SELECT id, name, card_type, card_set, rarity, domain, energy\n         FROM riftbound_cards\n         \
         WHERE (lower(name) LIKE lower(?1) ESCAPE '\\' OR lower(ability) LIKE lower(?1) ESCAPE '\\' OR lower(coalesce(tags,'')) LIKE lower(?1) ESCAPE '\\') \
         AND lower(card_type) = lower(?2) AND domain LIKE ?3 ESCAPE '\\' AND (energy IS NULL OR energy <= ?4) \
         AND (errata_text IS NULL OR errata_text = '')\n         \
         ORDER BY CASE WHEN lower(name) = lower(?5) THEN 0 WHEN lower(name) LIKE lower(?5) || '%' THEN 1 WHEN lower(name) LIKE '%' || lower(?5) || '%' THEN 2 ELSE 3 END, name\n         LIMIT 50"
    );
    assert_eq!(q.params.len(), 5);
    assert_eq!(text(&q.params[0]), "%fury%");
    assert_eq!(text(&q.params[1]), "Unit");
    assert_eq!(text(&q.params[2]), "%Fury%");
    assert!(matches!(q.params[3], SqlValue::Integer(3)));
    assert_eq!(text(&q.params[4]), "fury");
}

#[test]
fn riftbound_search_without_text_orders_by_name() {
    let f = RiftboundCardFilters {
        query: "",
        card_type: None,
        card_set: None,
        rarity: None,
        domain: None,
        energy_min: None,
        energy_max: None,
        power_min: Some(2),
        power_max: None,
        has_errata: Some(true),
    };
    let q = plan_riftbound_search(&f).unwrap();
    assert!(q.sql.contains("WHERE power >= ?1 AND errata_text IS NOT NULL AND errata_text != ''\n         ORDER BY name\n"));
    assert_eq!(q.params.len(), 1);
}

#[test]
fn rules_search_in_cr_falls_back_to_like() {
    let plan = plan_rule_search("first strike", Some("cr"));
    assert_eq!(plan.len(), 2);
    assert_eq!(text(&plan[0].params[0]), "first* strike*");
    assert_eq!(text(&plan[0].params[1]), "cr");
    assert_eq!(text(&plan[1].params[0]), "%first strike%");
    let mtr = plan_rule_search("a \"b\"", Some("mtr"));
    assert_eq!(mtr.len(), 1);
    assert_eq!(text(&mtr[0].params[0]), "\"a \"\"b\"\"\"");
    let all = plan_rule_search("x", None);
    assert_eq!(all.len(), 1);
    assert_eq!(all[0].params.len(), 1);
    let like = rules_like_query("5%", None);
    assert_eq!(text(&like.params[0]), "%5\\%%");
    assert!(!like.sql.contains("doc_type = ?2"));
}

#[test]
fn rule_section_pattern() {
    let q = rule_section_query("1", "mtr");
    assert_eq!(text(&q.params[0]), "1");
    assert_eq!(text(&q.params[1]), "1.%");
    assert_eq!(text(&q.params[2]), "mtr");
    assert!(q.sql.contains("r.number = ?1 OR r.number LIKE ?2"));
    let odd = rule_section_query("1_%", "ipg");
    assert_eq!(text(&odd.params[1]), "1\\_\\%.%");
}

#[test]
fn search_steps() {
    assert_eq!(after_query(false, true, None), Step::Next);
    assert_eq!(after_query(false, false, None), Step::Fail);
    assert_eq!(after_query(true, true, None), Step::Fail);
    assert_eq!(after_query(false, true, Some(0)), Step::Next);
    assert_eq!(after_query(false, false, Some(3)), Step::Answer);
    assert_eq!(after_query(true, false, Some(0)), Step::Answer);
}
