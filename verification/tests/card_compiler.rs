use judgeapp::card_compiler::{Accumulator, CardFace, ImageUris, ScryfallCard};

fn card(oracle: Option<&str>, name: &str, set: &str, released: &str, image: Option<&str>) -> ScryfallCard {
    ScryfallCard {
        oracle_id: oracle.map(|s| s.to_string()),
        name: name.to_string(),
        lang: "en".to_string(),
        layout: "normal".to_string(),
        released_at: released.to_string(),
        oracle_text: Some(format!("{name} text")),
        mana_cost: Some("{1}".to_string()),
        cmc_bits: Some(1.0f64.to_bits()),
        type_line: Some("Instant".to_string()),
        colors: None,
        legalities: Some(vec![("modern".to_string(), "legal".to_string())]),
        image_uris: image.map(|u| ImageUris { normal: Some(u.to_string()) }),
        card_faces: None,
        set: set.to_string(),
        set_name: format!("{set} name"),
    }
}

#[test]
fn cards_are_grouped_by_oracle_id_and_sorted() {
    let mut acc = Accumulator::new();
    acc.process(card(Some("b"), "Shock", "m19", "2018-07-13", Some("shock-m19")));
    acc.process(card(Some("a"), "Lightning Bolt", "lea", "1993-08-05", Some("bolt-lea")));
    acc.process(card(Some("a"), "Lightning Bolt", "m10", "2009-07-17", Some("bolt-m10")));
    acc.process(card(Some("a"), "Lightning Bolt", "lea", "1993-08-04", Some("bolt-lea-old")));
    acc.process(card(Some("a"), "Lightning Bolt", "2ed", "1993-12-01", None));
    acc.process(card(None, "Token", "t", "2000-01-01", None));
    let mut token = card(Some("c"), "Goblin", "tm", "2000-01-01", None);
    token.layout = "token".to_string();
    acc.process(token);
    let mut french = card(Some("a"), "Foudre", "m10", "2020-01-01", None);
    french.lang = "fr".to_string();
    acc.process(french);
    assert_eq!(acc.total, 8);
    assert_eq!(acc.skipped, 3);
    let out = acc.finish();
    assert_eq!(out.len(), 2);
    assert_eq!(out[0].name, "Lightning Bolt");
    assert_eq!(out[1].name, "Shock");
    let bolt = &out[0];
    assert_eq!(bolt.oracle_text, Some("Lightning Bolt text".to_string()));
    assert_eq!(bolt.image_url, Some("bolt-m10".to_string()));
    let sets: Vec<&str> = bolt.printings.iter().map(|p| p.set_code.as_str()).collect();
    assert_eq!(sets, vec!["lea", "2ed", "m10"]);
    assert_eq!(bolt.printings[0].image_url, Some("bolt-lea".to_string()));
    assert_eq!(bolt.colors.len(), 0);
    assert_eq!(bolt.cmc_bits, Some(1.0f64.to_bits()));
}

#[test]
fn double_faced_cards_take_text_from_faces() {
    let mut c = card(Some("d"), "Delver of Secrets // Insectile Aberration", "isd", "2011-09-30", None);
    c.oracle_text = None;
    c.type_line = None;
    c.mana_cost = None;
    c.card_faces = Some(vec![
        CardFace {
            oracle_text: Some("Front".to_string()),
            mana_cost: Some("{U}".to_string()),
            type_line: Some("Creature".to_string()),
            image_uris: Some(ImageUris { normal: Some("front".to_string()) }),
        },
        CardFace {
            oracle_text: Some("Back".to_string()),
            mana_cost: None,
            type_line: Some("Creature".to_string()),
            image_uris: Some(ImageUris { normal: Some("back".to_string()) }),
        },
    ]);
    let mut acc = Accumulator::new();
    acc.process(c);
    let out = acc.finish();
    assert_eq!(out[0].oracle_text, Some("Front\n//\nBack".to_string()));
    assert_eq!(out[0].type_line, Some("Creature // Creature".to_string()));
    assert_eq!(out[0].mana_cost, Some("{U}".to_string()));
    assert_eq!(out[0].image_url, Some("front".to_string()));
    assert_eq!(out[0].back_image_url, Some("back".to_string()));
}
