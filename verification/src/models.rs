//! The records the parsers, the search and the card data produce.
use vstd::prelude::*;

verus! {

/// An `Option<String>` by its view.
pub open spec fn opt_view(o: Option<String>) -> Option<Seq<char>> {
    match o {
        Some(s) => Some(s@),
        None => None,
    }
}

/// An `Option<Vec<char>>` by its view.
pub open spec fn opt_chars_view(o: Option<Vec<char>>) -> Option<Seq<char>> {
    match o {
        Some(s) => Some(s@),
        None => None,
    }
}

/// One rule, section or paragraph block of a rules document.
#[derive(Debug, Clone)]
pub struct RuleDetail {
    pub id: i64,
    pub number: String,
    pub title: Option<String>,
    pub body: String,
    pub body_html: String,
    pub parent: Option<String>,
}

/// A rule as plain values.
pub struct RuleView {
    pub id: int,
    pub number: Seq<char>,
    pub title: Option<Seq<char>>,
    pub body: Seq<char>,
    pub body_html: Seq<char>,
    pub parent: Option<Seq<char>>,
}

impl View for RuleDetail {
    type V = RuleView;

    open spec fn view(&self) -> RuleView {
        RuleView {
            id: self.id as int,
            number: self.number@,
            title: opt_view(self.title),
            body: self.body@,
            body_html: self.body_html@,
            parent: opt_view(self.parent),
        }
    }
}

/// A glossary term and its definition.
#[derive(Debug, Clone)]
pub struct GlossaryEntry {
    pub term: String,
    pub definition: String,
}

/// A rule while a parser is still appending to it.
pub struct Draft {
    pub id: i64,
    pub number: Vec<char>,
    pub title: Option<Vec<char>>,
    pub body: Vec<char>,
    pub body_html: Vec<char>,
    pub parent: Option<Vec<char>>,
}

impl View for Draft {
    type V = RuleView;

    open spec fn view(&self) -> RuleView {
        RuleView {
            id: self.id as int,
            number: self.number@,
            title: opt_chars_view(self.title),
            body: self.body@,
            body_html: self.body_html@,
            parent: opt_chars_view(self.parent),
        }
    }
}

pub open spec fn drafts_view(v: Seq<Draft>) -> Seq<RuleView> {
    v.map_values(|d: Draft| d@)
}

pub open spec fn rules_view(v: Seq<RuleDetail>) -> Seq<RuleView> {
    v.map_values(|d: RuleDetail| d@)
}

/// Pairs of character vectors by their views.
pub open spec fn pairs_view(v: Seq<(Vec<char>, Vec<char>)>) -> Seq<(Seq<char>, Seq<char>)> {
    v.map_values(|p: (Vec<char>, Vec<char>)| (p.0@, p.1@))
}

pub open spec fn glossary_view(v: Seq<GlossaryEntry>) -> Seq<(Seq<char>, Seq<char>)> {
    v.map_values(|g: GlossaryEntry| (g.term@, g.definition@))
}

fn opt_string(o: &Option<Vec<char>>) -> (r: Option<String>)
    ensures
        opt_view(r) == opt_chars_view(*o),
{
    match o {
        Some(v) => Some(crate::text::string_from_chars(v)),
        None => None,
    }
}

/// Turn finished drafts into rules.
pub fn finish_rules(v: &Vec<Draft>) -> (r: Vec<RuleDetail>)
    ensures
        rules_view(r@) == drafts_view(v@),
{
    let mut r: Vec<RuleDetail> = Vec::new();
    let mut i: usize = 0;
    while i < v.len()
        invariant
            0 <= i <= v@.len(),
            rules_view(r@) == drafts_view(v@.take(i as int)),
        decreases v.len() - i,
    {
        let d = &v[i];
        let rule = RuleDetail {
            id: d.id,
            number: crate::text::string_from_chars(&d.number),
            title: opt_string(&d.title),
            body: crate::text::string_from_chars(&d.body),
            body_html: crate::text::string_from_chars(&d.body_html),
            parent: opt_string(&d.parent),
        };
        assert(rule@ == v@[i as int]@);
        let ghost before = r@;
        r.push(rule);
        assert(r@ == before.push(rule));
        i = i + 1;
        assert(v@.take(i as int) =~= v@.take(i - 1).push(v@[i - 1]));
        assert(rules_view(before.push(rule)) =~= rules_view(before).push(rule@));
        assert(drafts_view(v@.take(i - 1).push(v@[i - 1])) =~= drafts_view(v@.take(i - 1)).push(v@[i - 1]@));
        assert(rules_view(r@) =~= drafts_view(v@.take(i as int)));
    }
    assert(v@.take(v@.len() as int) =~= v@);
    r
}

/// Turn (term, definition) pairs into glossary entries.
pub fn finish_glossary(v: &Vec<(Vec<char>, Vec<char>)>) -> (r: Vec<GlossaryEntry>)
    ensures
        glossary_view(r@) == pairs_view(v@),
{
    let mut r: Vec<GlossaryEntry> = Vec::new();
    let mut i: usize = 0;
    while i < v.len()
        invariant
            0 <= i <= v@.len(),
            glossary_view(r@) == pairs_view(v@.take(i as int)),
        decreases v.len() - i,
    {
        let p = &v[i];
        let g = GlossaryEntry {
            term: crate::text::string_from_chars(&p.0),
            definition: crate::text::string_from_chars(&p.1),
        };
        let ghost before = r@;
        r.push(g);
        assert(r@ == before.push(g));
        i = i + 1;
        assert(v@.take(i as int) =~= v@.take(i - 1).push(v@[i - 1]));
        assert(glossary_view(before.push(g)) =~= glossary_view(before).push((g.term@, g.definition@)));
        assert(pairs_view(v@.take(i - 1).push(v@[i - 1])) =~= pairs_view(v@.take(i - 1)).push((v@[i - 1].0@, v@[i - 1].1@)));
        assert(glossary_view(r@) =~= pairs_view(v@.take(i as int)));
    }
    assert(v@.take(v@.len() as int) =~= v@);
    r
}

// ── Card records ──────────────────────────────────────────────────────────

/// One printing of a card.
#[derive(Debug, Clone)]
pub struct Printing {
    pub set_code: String,
    pub set_name: String,
    pub image_url: Option<String>,
}

/// A card with its rulings and printings, for the detail view.
#[derive(Debug, Clone)]
pub struct CardDetail {
    pub name: String,
    pub oracle_text: Option<String>,
    pub mana_cost: Option<String>,
    pub type_line: Option<String>,
    pub set_code: Option<String>,
    pub set_name: Option<String>,
    pub colors: Option<String>,
    pub legalities: Option<String>,
    pub image_url: Option<String>,
    pub rulings: Vec<ScryfallRuling>,
    pub printings: Vec<Printing>,
}

/// A card as a search result.
#[derive(Debug, Clone)]
pub struct CardResult {
    pub name: String,
    pub oracle_text: Option<String>,
    pub mana_cost: Option<String>,
    pub type_line: Option<String>,
    pub set_code: Option<String>,
    pub set_name: Option<String>,
    pub colors: Option<String>,
    pub legalities: Option<String>,
    pub image_url: Option<String>,
}

/// A ruling on a card.
#[derive(Debug, Clone)]
pub struct ScryfallRuling {
    pub source: Option<String>,
    pub published_at: Option<String>,
    pub comment: String,
}

/// A ruling as Scryfall's bulk file lists it.
#[derive(Debug, Clone)]
pub struct RulingJson {
    pub oracle_id: String,
    pub source: String,
    pub published_at: String,
    pub comment: String,
}

/// The version the Judge API reports for a data file.
#[derive(Debug, Clone)]
pub struct VersionResponse {
    pub version: String,
}

/// A set code and its name.
#[derive(Debug, Clone)]
pub struct SetInfo {
    pub code: String,
    pub name: String,
}

// ── Documents ─────────────────────────────────────────────────────────────

/// An installed document.
#[derive(Debug, Clone)]
pub struct Document {
    pub id: i64,
    pub doc_type: DocType,
    pub version: String,
    pub fetched_at: String,
}

/// The kinds of rules document.
#[derive(Debug, Clone, Copy, PartialEq, Eq, Structural)]
pub enum DocType {
    ComprehensiveRules,
    TournamentRules,
    InfractionProcedureGuide,
}

pub open spec fn doc_type_name(d: DocType) -> Seq<char> {
    match d {
        DocType::ComprehensiveRules => "cr"@,
        DocType::TournamentRules => "mtr"@,
        DocType::InfractionProcedureGuide => "ipg"@,
    }
}

impl DocType {
    /// The short name stored in the database ("cr", "mtr", "ipg").
    pub fn as_str(&self) -> (r: &'static str)
        ensures
            r@ == doc_type_name(*self),
    {
        match self {
            DocType::ComprehensiveRules => "cr",
            DocType::TournamentRules => "mtr",
            DocType::InfractionProcedureGuide => "ipg",
        }
    }
}

// ── Riftbound cards ───────────────────────────────────────────────────────

/// A Riftbound card as the Judge API serves it.
#[derive(Debug)]
pub struct RiftboundCardRecord {
    pub id: String,
    pub name: String,
    pub collector_number: Option<i64>,
    pub energy: Option<i64>,
    pub might: Option<i64>,
    pub power: Option<i64>,
    pub domain: Vec<String>,
    pub card_type: Option<String>,
    pub rarity: Option<String>,
    pub card_set: Option<String>,
    pub image_url: Option<String>,
    pub ability: Option<String>,
    pub errata_text: Option<String>,
    pub errata_old_text: Option<String>,
}

/// A Riftbound card as a search result.
#[derive(Debug)]
pub struct RiftboundCardResult {
    pub id: String,
    pub name: String,
    pub card_type: Option<String>,
    pub card_set: Option<String>,
    pub rarity: Option<String>,
    pub domain: Option<String>,
    pub energy: Option<i64>,
}

/// A Riftbound card for the detail view.
#[derive(Debug)]
pub struct RiftboundCardDetail {
    pub id: String,
    pub name: String,
    pub energy: Option<i64>,
    pub might: Option<i64>,
    pub power: Option<i64>,
    pub domain: Option<String>,
    pub card_type: Option<String>,
    pub rarity: Option<String>,
    pub card_set: Option<String>,
    pub collector_number: Option<i64>,
    pub image_url: Option<String>,
    pub ability: Option<String>,
    pub errata_text: Option<String>,
    pub errata_old_text: Option<String>,
}

} // verus!
