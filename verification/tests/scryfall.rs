use judgeapp::scryfall::{CardSummary, Json, ScryfallError, ScryfallObject};

fn s(x: &str) -> Json {
    Json::String(x.to_string())
}

#[test]
fn summary_reads_the_card_fields() {
    let card = Json::Object(vec![
        ("name".to_string(), s("Lightning Bolt")),
        ("mana_cost".to_string(), s("{R}")),
        ("cmc".to_string(), Json::Number("1.0".to_string())),
        ("colors".to_string(), Json::Array(vec![s("R"), Json::Null, s("G")])),
        ("image_uris".to_string(), Json::Object(vec![("normal".to_string(), s("http://img"))])),
        ("type_line".to_string(), Json::Bool(true)),
    ]);
    let sum = CardSummary::from_object(ScryfallObject::Raw(card)).unwrap();
    assert_eq!(sum.name, "Lightning Bolt");
    assert_eq!(sum.mana_cost, Some("{R}".to_string()));
    assert_eq!(sum.oracle_text, None);
    assert_eq!(sum.type_line, None);
    assert_eq!(sum.colors, vec!["R".to_string(), "G".to_string()]);
    assert_eq!(sum.image_url, Some("http://img".to_string()));
}

#[test]
fn summary_needs_a_name() {
    let card = Json::Object(vec![("name".to_string(), Json::Null)]);
    match CardSummary::from_object(ScryfallObject::Raw(card)) {
        Err(ScryfallError::MissingField(f)) => assert_eq!(f, "name"),
        _ => panic!("expected a missing name"),
    }
    assert!(CardSummary::from_object(ScryfallObject::Raw(Json::Array(vec![]))).is_err());
}
