use judgeapp::progress::{download_progress, import_percent, scaled_percent};
use judgeapp::updates::{
    build_update_list, check_rulings_loaded, classify_update, quick_reference_after_fetch,
    quick_reference_start, rulings_import_result, select_bulk_entry, size_request_indices,
    usable_cached, BulkEntry, Manifest, ManifestEntry, QuickRefStep, UpdateKind,
};

fn entry(v: &str) -> Option<ManifestEntry> {
    Some(ManifestEntry { version: v.to_string(), url: format!("https://example.org/{v}") })
}

fn manifest() -> Manifest {
    Manifest {
        cr: entry("2026-04-01"),
        mtr: None,
        ipg: entry("20250101"),
        jar: None,
        riftbound_cr: None,
        riftbound_tr: None,
        riftbound_ep: None,
        riftbound_quick_reference: None,
    }
}

#[test]
fn update_list_compares_installed_versions() {
    let installed = vec![
        ("cr".to_string(), "20260330".to_string()),
        ("ipg".to_string(), "20250101".to_string()),
        ("cards".to_string(), "2026-01-01".to_string()),
    ];
    let list = build_update_list(
        &manifest(),
        &installed,
        true,
        false,
        true,
        Ok(("http://api/cards".to_string(), "2026-01-01".to_string())),
        Err("timeout".to_string()),
        Ok(("http://scry/rulings".to_string(), "20260101".to_string(), Some(42))),
    );
    let types: Vec<&str> = list.iter().map(|u| u.doc_type.as_str()).collect();
    assert_eq!(types, vec!["cr", "ipg", "cards", "riftbound_cards", "rulings"]);
    assert!(list[0].update_available);
    assert_eq!(list[0].installed_version, Some("20260330".to_string()));
    assert_eq!(list[0].label, "Comprehensive Rules");
    assert!(!list[1].update_available);
    assert!(!list[2].update_available);
    assert_eq!(list[2].url, "http://api/cards");
    assert_eq!(list[3].available_version, "unavailable (timeout)");
    assert!(!list[3].update_available);
    assert_eq!(list[3].url, "");
    assert!(list[4].update_available);
    assert_eq!(list[4].size_bytes, Some(42));
    assert_eq!(size_request_indices(&list), vec![0]);
}

#[test]
fn later_installed_pair_wins() {
    let installed = vec![
        ("cr".to_string(), "20270101".to_string()),
        ("cr".to_string(), "20200101".to_string()),
    ];
    let list = build_update_list(
        &manifest(),
        &installed,
        true,
        true,
        true,
        Err("x".to_string()),
        Err("y".to_string()),
        Err("z".to_string()),
    );
    assert_eq!(list[0].installed_version, Some("20200101".to_string()));
    assert!(list[0].update_available);
}

#[test]
fn update_kinds() {
    assert_eq!(classify_update("rulings"), Ok(UpdateKind::Rulings));
    assert_eq!(classify_update("riftbound_tr"), Ok(UpdateKind::RiftboundRules));
    assert_eq!(classify_update("jar"), Ok(UpdateKind::JudgingAtRegular));
    assert_eq!(classify_update("pdf"), Err("Unknown doc_type: pdf".to_string()));
}

#[test]
fn rulings_results() {
    assert_eq!(
        check_rulings_loaded(0),
        Err("Rulings file was empty or could not be parsed".to_string())
    );
    assert_eq!(check_rulings_loaded(3), Ok(()));
    assert_eq!(
        rulings_import_result(0, 12, "v".to_string()),
        Err("Downloaded 12 rulings but none matched cards in the database. Try updating card data first."
            .to_string())
    );
    assert_eq!(rulings_import_result(5, 12, "v".to_string()), Ok("v".to_string()));
}

#[test]
fn quick_reference_steps() {
    let good = "## Start\nx".to_string();
    assert_eq!(usable_cached(Some("no heading".to_string())), None);
    assert_eq!(usable_cached(Some(good.clone())), Some(good.clone()));
    match quick_reference_start(None, None, None, "bundled") {
        QuickRefStep::Use(t) => assert_eq!(t, "bundled"),
        _ => panic!("expected the bundled copy"),
    }
    match quick_reference_start(Some(good.clone()), Some(" 20260101\n".to_string()), entry("20260101"), "b") {
        QuickRefStep::Use(t) => assert_eq!(t, good),
        _ => panic!("expected the kept copy"),
    }
    match quick_reference_start(Some(good.clone()), Some("20250101".to_string()), entry("20260101"), "b") {
        QuickRefStep::Fetch { url, version } => {
            assert_eq!(url, "https://example.org/20260101");
            assert_eq!(version, "20260101");
        }
        _ => panic!("expected a download"),
    }
    assert_eq!(quick_reference_after_fetch(Some("## A".to_string()), None, "b"), ("## A".to_string(), true));
    assert_eq!(quick_reference_after_fetch(Some("A".to_string()), None, "b"), ("b".to_string(), false));
    assert_eq!(quick_reference_after_fetch(None, Some(good.clone()), "b"), (good, false));
}

fn bulk(t: &str, updated: &str, jsonl: Option<&str>, plain: Option<&str>) -> BulkEntry {
    BulkEntry {
        bulk_type: t.to_string(),
        download_uri: plain.map(|s| s.to_string()),
        jsonl_download_uri: jsonl.map(|s| s.to_string()),
        updated_at: updated.to_string(),
        size: Some(10),
        compressed_size: None,
    }
}

#[test]
fn bulk_entry_selection() {
    let entries = vec![
        bulk("oracle_cards", "2026-05-01T10:00:00.000+00:00", None, Some("o")),
        bulk("rulings", "2026-05-02T10:00:00.000+00:00", Some("r.jsonl"), Some("r.json")),
    ];
    assert_eq!(
        select_bulk_entry(&entries, "rulings"),
        Ok(("r.jsonl".to_string(), "20260502".to_string(), Some(10)))
    );
    assert_eq!(
        select_bulk_entry(&entries, "all_cards"),
        Err("all_cards not found in Scryfall bulk-data response".to_string())
    );
    let short = vec![bulk("rulings", "2026-05", Some("r"), None)];
    assert_eq!(
        select_bulk_entry(&short, "rulings"),
        Err("Unexpected updated_at format from Scryfall".to_string())
    );
    let no_url = vec![bulk("rulings", "2026-05-02T", None, None)];
    assert_eq!(select_bulk_entry(&no_url, "rulings"), Err("rulings has no download URL".to_string()));
    let wide = vec![bulk("rulings", "2026-05-0é", Some("r"), None)];
    assert_eq!(
        select_bulk_entry(&wide, "rulings"),
        Err("Unexpected updated_at format from Scryfall".to_string())
    );
}

#[test]
fn progress_figures() {
    assert_eq!(scaled_percent(50, 100, 70), 35);
    assert_eq!(scaled_percent(100, 100, 70), 69);
    assert_eq!(download_progress(10, 100, 5), Some(10));
    assert_eq!(download_progress(10, 100, 10), None);
    assert_eq!(download_progress(100, 100, 0), Some(99));
    assert_eq!(import_percent(0, 0), 85);
    assert_eq!(import_percent(50, 100), 92);
    assert_eq!(import_percent(100, 100), 99);
}
