//! Scryfall answers: a JSON value as plain data, and the summary of a card
//! read from one.
use vstd::prelude::*;
use vstd::std_specs::convert::FromSpecImpl;

verus! {

#[verifier::external_type_specification]
#[verifier::external_body]
pub struct ExUrlParseError(url::ParseError);

#[verifier::external_type_specification]
#[verifier::external_body]
pub struct ExReqwestError(reqwest::Error);

#[verifier::external_type_specification]
#[verifier::external_body]
pub struct ExJsonError(serde_json::Error);

/// A JSON value. Numbers keep their text: nothing here reads them.
#[derive(Debug)]
pub enum Json {
    Null,
    Bool(bool),
    Number(String),
    String(String),
    Array(Vec<Json>),
    Object(Vec<(String, Json)>),
}

/// What Scryfall answered.
#[derive(Debug)]
pub enum ScryfallObject {
    Raw(Json),
}

/// Why a Scryfall request gave no result.
#[derive(Debug)]
pub enum ScryfallError {
    Url(url::ParseError),
    Http(reqwest::Error),
    Parse(serde_json::Error),
    MissingField(&'static str),
}

impl From<reqwest::Error> for ScryfallError {
    fn from(err: reqwest::Error) -> (r: Self) {
        ScryfallError::Http(err)
    }
}

impl FromSpecImpl<reqwest::Error> for ScryfallError {
    open spec fn obeys_from_spec() -> bool {
        true
    }

    open spec fn from_spec(v: reqwest::Error) -> Self {
        ScryfallError::Http(v)
    }
}

impl From<serde_json::Error> for ScryfallError {
    fn from(err: serde_json::Error) -> (r: Self) {
        ScryfallError::Parse(err)
    }
}

impl FromSpecImpl<serde_json::Error> for ScryfallError {
    open spec fn obeys_from_spec() -> bool {
        true
    }

    open spec fn from_spec(v: serde_json::Error) -> Self {
        ScryfallError::Parse(v)
    }
}

impl From<url::ParseError> for ScryfallError {
    fn from(err: url::ParseError) -> (r: Self) {
        ScryfallError::Url(err)
    }
}

impl FromSpecImpl<url::ParseError> for ScryfallError {
    open spec fn obeys_from_spec() -> bool {
        true
    }

    open spec fn from_spec(v: url::ParseError) -> Self {
        ScryfallError::Url(v)
    }
}

/// The card fields the app shows.
#[derive(Debug, Clone)]
pub struct CardSummary {
    pub name: String,
    pub oracle_text: Option<String>,
    pub mana_cost: Option<String>,
    pub type_line: Option<String>,
    pub colors: Vec<String>,
    pub image_url: Option<String>,
}

pub struct SummaryView {
    pub name: Seq<char>,
    pub oracle_text: Option<Seq<char>>,
    pub mana_cost: Option<Seq<char>>,
    pub type_line: Option<Seq<char>>,
    pub colors: Seq<Seq<char>>,
    pub image_url: Option<Seq<char>>,
}

impl View for CardSummary {
    type V = SummaryView;

    open spec fn view(&self) -> SummaryView {
        SummaryView {
            name: self.name@,
            oracle_text: crate::models::opt_view(self.oracle_text),
            mana_cost: crate::models::opt_view(self.mana_cost),
            type_line: crate::models::opt_view(self.type_line),
            colors: self.colors@.map_values(|s: String| s@),
            image_url: crate::models::opt_view(self.image_url),
        }
    }
}

/// The value of the first entry named `k` from position `i` of an object.
pub open spec fn entry_from(es: Seq<(String, Json)>, k: Seq<char>, i: int) -> Option<Json>
    decreases es.len() - i,
{
    if i < 0 || i >= es.len() {
        None
    } else if es[i].0@ == k {
        Some(es[i].1)
    } else {
        entry_from(es, k, i + 1)
    }
}

/// A field of an object; nothing for any other value.
pub open spec fn field(v: Json, k: Seq<char>) -> Option<Json> {
    match v {
        Json::Object(es) => entry_from(es@, k, 0),
        _ => None,
    }
}

/// The text of a string value.
pub open spec fn text_of(v: Option<Json>) -> Option<Seq<char>> {
    match v {
        Some(Json::String(s)) => Some(s@),
        _ => None,
    }
}

/// The string items of an array, in order; the other items are skipped.
pub open spec fn strings_in(items: Seq<Json>) -> Seq<Seq<char>>
    decreases items.len(),
{
    if items.len() == 0 {
        seq![]
    } else {
        let init = strings_in(items.drop_last());
        match items.last() {
            Json::String(s) => init.push(s@),
            _ => init,
        }
    }
}

/// The summary of a card object: its name is required; the colours are the
/// strings of the `colors` array, none when it is absent; the image is the
/// `normal` entry of `image_uris`.
pub open spec fn summary_of(v: Json) -> Option<SummaryView> {
    match text_of(field(v, "name"@)) {
        None => None,
        Some(name) => Some(SummaryView {
            name,
            oracle_text: text_of(field(v, "oracle_text"@)),
            mana_cost: text_of(field(v, "mana_cost"@)),
            type_line: text_of(field(v, "type_line"@)),
            colors: match field(v, "colors"@) {
                Some(Json::Array(items)) => strings_in(items@),
                _ => seq![],
            },
            image_url: match field(v, "image_uris"@) {
                Some(Json::Object(es)) => text_of(entry_from(es@, "normal"@, 0)),
                _ => None,
            },
        }),
    }
}

fn entry_exec<'a>(es: &'a Vec<(String, Json)>, k: &str) -> (r: Option<&'a Json>)
    ensures
        match r {
            Some(j) => entry_from(es@, k@, 0) == Some(*j),
            None => entry_from(es@, k@, 0) is None,
        },
{
    let mut i: usize = 0;
    while i < es.len()
        invariant
            0 <= i <= es@.len(),
            entry_from(es@, k@, i as int) == entry_from(es@, k@, 0),
        decreases es.len() - i,
    {
        let name = crate::text::chars_of(es[i].0.as_str());
        if crate::text::eq_str(name.as_slice(), k) {
            return Some(&es[i].1);
        }
        i = i + 1;
    }
    None
}

fn field_exec<'a>(v: &'a Json, k: &str) -> (r: Option<&'a Json>)
    ensures
        match r {
            Some(j) => field(*v, k@) == Some(*j),
            None => field(*v, k@) is None,
        },
{
    match v {
        Json::Object(es) => entry_exec(es, k),
        _ => None,
    }
}

fn text_exec(v: Option<&Json>) -> (r: Option<String>)
    ensures
        crate::models::opt_view(r) == text_of(match v { Some(j) => Some(*j), None => None }),
{
    match v {
        Some(Json::String(s)) => Some(s.clone()),
        _ => None,
    }
}

fn strings_exec(items: &Vec<Json>) -> (r: Vec<String>)
    ensures
        r@.map_values(|s: String| s@) == strings_in(items@),
{
    let mut r: Vec<String> = Vec::new();
    let mut i: usize = 0;
    while i < items.len()
        invariant
            0 <= i <= items@.len(),
            r@.map_values(|s: String| s@) == strings_in(items@.take(i as int)),
        decreases items.len() - i,
    {
        assert(items@.take(i + 1).drop_last() =~= items@.take(i as int));
        assert(items@.take(i + 1).last() == items@[i as int]);
        match &items[i] {
            Json::String(s) => {
                let ghost r0 = r@.map_values(|s: String| s@);
                r.push(s.clone());
                assert(r@.map_values(|s: String| s@) =~= r0.push(s@));
            },
            _ => {},
        }
        i = i + 1;
    }
    assert(items@.take(items@.len() as int) =~= items@);
    r
}

impl CardSummary {
    /// Read the summary of a card from Scryfall's answer (see `summary_of`);
    /// an answer without a name is `MissingField("name")`.
    pub fn from_object(value: ScryfallObject) -> (r: Result<CardSummary, ScryfallError>)
        ensures
            match value {
                ScryfallObject::Raw(v) => match r {
                    Ok(s) => summary_of(v) == Some(s@),
                    Err(e) => summary_of(v) is None && e == ScryfallError::MissingField("name"),
                },
            },
    {
        let ScryfallObject::Raw(raw) = value;
        let name = match text_exec(field_exec(&raw, "name")) {
            Some(n) => n,
            None => return Err(ScryfallError::MissingField("name")),
        };
        let oracle_text = text_exec(field_exec(&raw, "oracle_text"));
        let mana_cost = text_exec(field_exec(&raw, "mana_cost"));
        let type_line = text_exec(field_exec(&raw, "type_line"));
        let colors = match field_exec(&raw, "colors") {
            Some(Json::Array(items)) => strings_exec(items),
            _ => Vec::new(),
        };
        let image_url = match field_exec(&raw, "image_uris") {
            Some(Json::Object(es)) => text_exec(entry_exec(es, "normal")),
            _ => None,
        };
        let s = CardSummary { name, oracle_text, mana_cost, type_line, colors, image_url };
        proof {
            if colors@.len() == 0 {
                assert(colors@.map_values(|s: String| s@) =~= Seq::<Seq<char>>::empty());
            }
        }
        Ok(s)
    }
}

} // verus!
