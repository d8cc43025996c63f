use judgeapp::gallery::SaveImageArgs;
use judgeapp::judge_api::{file_route, reported_version, DataFile, FileRoute};
use judgeapp::models::DocType;
use judgeapp::pdf_rules::{rules_from_pdf_text, PdfDoc};

#[test]
fn gallery_decodes_base64_images() {
    let args = SaveImageArgs { album: "Judge".to_string(), filename: "a.jpg".to_string(), data: "aGk=".to_string() };
    assert_eq!(args.image_bytes(), Ok(vec![104, 105]));
    let bad = SaveImageArgs { album: "Judge".to_string(), filename: "a.jpg".to_string(), data: "!!!!".to_string() };
    assert_eq!(bad.image_bytes(), Err("Invalid symbol 33, offset 0.".to_string()));
}

#[test]
fn card_file_routes() {
    assert!(matches!(file_route(DataFile::Cards, true, true), FileRoute::Serve));
    match file_route(DataFile::Cards, true, false) {
        FileRoute::Unavailable { status, message } => {
            assert_eq!(status, 503);
            assert_eq!(message, "cards file not found");
        }
        FileRoute::Serve => panic!("missing file served"),
    }
    match file_route(DataFile::RiftboundCards, false, false) {
        FileRoute::Unavailable { status, message } => {
            assert_eq!(status, 404);
            assert_eq!(message, "riftbound cards file not configured");
        }
        FileRoute::Serve => panic!("unconfigured file served"),
    }
    assert_eq!(reported_version(Some("test-1.2.3".to_string())), "test-1.2.3");
    assert_eq!(reported_version(None), "unknown");
}

#[test]
fn doc_type_names() {
    assert_eq!(DocType::ComprehensiveRules.as_str(), "cr");
    assert_eq!(DocType::TournamentRules.as_str(), "mtr");
    assert_eq!(DocType::InfractionProcedureGuide.as_str(), "ipg");
}

#[test]
fn pdf_errors_are_reported() {
    let extracted = pdf_extract::extract_text_from_mem(b"this is not a pdf").map_err(|e| e.to_string());
    assert!(extracted.is_err(), "garbage must not read as a PDF");
    match rules_from_pdf_text(PdfDoc::TournamentRules, extracted) {
        Err(e) => assert!(e.starts_with("PDF error: ")),
        Ok(_) => panic!("garbage must not parse as a PDF"),
    }
}

#[test]
fn pdf_text_goes_to_the_document_parser() {
    let text = "Judging at Regular\nUpdated September 25, 2020\n\nCommon Issues\n\n".to_string();
    let rules = rules_from_pdf_text(PdfDoc::JudgingAtRegular, Ok(text)).unwrap();
    let numbers: Vec<&str> = rules.iter().map(|r| r.number.as_str()).collect();
    assert_eq!(numbers, vec!["0", "1"]);
    assert_eq!(
        rules_from_pdf_text(PdfDoc::InfractionGuide, Err("bad xref".to_string())).unwrap_err(),
        "PDF error: bad xref"
    );
}

#[test]
fn tournament_rules_that_fail_validation_are_refused() {
    let no_date = "Magic Tournament Rules\n\n1. Tournament Basics\n\nText.\n".to_string();
    assert_eq!(
        rules_from_pdf_text(PdfDoc::TournamentRules, Ok(no_date)).unwrap_err(),
        "the document effective date could not be read"
    );
    let no_appendix =
        "Magic Tournament Rules\nEffective as of April 1, 2025\n\n1. Tournament Basics\n\nText.\n".to_string();
    assert_eq!(
        rules_from_pdf_text(PdfDoc::TournamentRules, Ok(no_appendix)).unwrap_err(),
        "Appendix E is missing"
    );
}

#[test]
fn valid_tournament_rules_are_accepted() {
    let text = "Magic Tournament Rules\nEffective as of April 1, 2025\n\n1. Tournament Basics\n\n\
        Appendix E—Recommended Number of Rounds in Swiss Tournaments\n\n\
        Players  Swiss Rounds  Playoff\n\n\
        5-8  3  Top 8\n\n\
        9-16  4  Top 8\n\n\
        17-32  5  Top 8\n\n"
        .to_string();
    let expected = judgeapp::mtr_parser::parse_mtr(&text);
    assert!(judgeapp::mtr_parser::validate_mtr(&expected).is_ok());
    let rules = rules_from_pdf_text(PdfDoc::TournamentRules, Ok(text)).unwrap();
    let numbers: Vec<&str> = rules.iter().map(|r| r.number.as_str()).collect();
    let expected_numbers: Vec<&str> = expected.rules.iter().map(|r| r.number.as_str()).collect();
    assert_eq!(numbers, expected_numbers);
    assert!(numbers.contains(&"Appendix E"));
}
