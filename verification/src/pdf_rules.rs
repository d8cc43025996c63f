//! Rules documents published as PDFs: the text extracted from them is parsed
//! by the parser of the document. Extraction itself runs outside the library,
//! where a malformed document that makes the extractor panic is caught.
use vstd::prelude::*;
use crate::ipg_parser::{ipg_parse, parse_ipg};
use crate::jar_parser::{jar_parse, parse_jar};
use crate::models::{rules_view, RuleDetail, RuleView};
use crate::mtr_parser::{mtr_parse, mtr_validation, parse_mtr, validate_mtr};
use crate::text::{append, chars_of, string_from_chars};

verus! {

/// The documents that come as PDFs.
#[derive(Debug, Clone, Copy, PartialEq, Eq, Structural)]
pub enum PdfDoc {
    TournamentRules,
    InfractionGuide,
    JudgingAtRegular,
}

/// The extracted text, or the extractor's error message, as plain values.
pub open spec fn text_result(r: Result<String, String>) -> Result<Seq<char>, Seq<char>> {
    match r {
        Ok(t) => Ok(t@),
        Err(e) => Err(e@),
    }
}

/// The rules a document's parser reads from a text.
pub open spec fn parsed_rules(kind: PdfDoc, t: Seq<char>) -> Seq<RuleView> {
    match kind {
        PdfDoc::TournamentRules => mtr_parse(t).rules,
        PdfDoc::InfractionGuide => ipg_parse(t).rules,
        PdfDoc::JudgingAtRegular => jar_parse(t).rules,
    }
}

pub open spec fn rules_result(r: Result<Vec<RuleDetail>, String>) -> Result<Seq<RuleView>, Seq<char>> {
    match r {
        Ok(v) => Ok(rules_view(v@)),
        Err(e) => Err(e@),
    }
}

/// The rules of a PDF document from its extracted text, or the extraction
/// error as "PDF error: ...". A tournament-rules parse that fails
/// `mtr_validation` is refused with the validation's message, so it never
/// replaces the stored document.
pub open spec fn pdf_rules(kind: PdfDoc, extracted: Result<Seq<char>, Seq<char>>) -> Result<Seq<RuleView>, Seq<char>> {
    match extracted {
        Ok(t) => match (kind, mtr_validation(mtr_parse(t))) {
            (PdfDoc::TournamentRules, Err(e)) => Err(e),
            _ => Ok(parsed_rules(kind, t)),
        },
        Err(e) => Err("PDF error: "@ + e),
    }
}

/// Parse the text extracted from a PDF document (see `pdf_rules`).
pub fn rules_from_pdf_text(kind: PdfDoc, extracted: Result<String, String>) -> (r: Result<Vec<RuleDetail>, String>)
    requires
        extracted matches Ok(t) ==> t@.len() < i64::MAX,
    ensures
        rules_result(r) == pdf_rules(kind, text_result(extracted)),
{
    match extracted {
        Ok(t) => match kind {
            PdfDoc::TournamentRules => {
                let parsed = parse_mtr(t.as_str());
                match validate_mtr(&parsed) {
                    Ok(()) => Ok(parsed.rules),
                    Err(e) => Err(e),
                }
            },
            PdfDoc::InfractionGuide => Ok(parse_ipg(t.as_str()).rules),
            PdfDoc::JudgingAtRegular => Ok(parse_jar(t.as_str()).rules),
        },
        Err(e) => {
            let mut m = chars_of("PDF error: ");
            append(&mut m, chars_of(e.as_str()).as_slice());
            Err(string_from_chars(&m))
        },
    }
}

} // verus!
