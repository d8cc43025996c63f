//! Pieces shared by the card and rule searches: LIKE patterns, full-text
//! queries built from the words of a search, and the parameterised SQL
//! statements a search runs one after another.
use vstd::prelude::*;
use crate::rounds_table::{join_space, join_space_exec};
use crate::text::{
    append, append_str, chars_of, is_alnum, is_alphanumeric, string_from_chars, subvec, views,
    words, words_exec,
};

verus! {

// ── LIKE patterns ──────────────────────────────────────────────────────────

/// One character of a LIKE pattern: `%` and `_` get a backslash before them.
pub open spec fn like_char(c: char) -> Seq<char> {
    if c == '%' || c == '_' { seq!['\\', c] } else { seq![c] }
}

/// The text with every `%` and `_` escaped for `LIKE ... ESCAPE '\'`.
pub open spec fn like_escaped(s: Seq<char>) -> Seq<char>
    decreases s.len(),
{
    if s.len() == 0 { seq![] } else { like_escaped(s.drop_last()) + like_char(s.last()) }
}

/// A LIKE pattern that finds the text anywhere.
pub open spec fn like_anywhere(s: Seq<char>) -> Seq<char> {
    "%"@ + like_escaped(s) + "%"@
}

/// A LIKE pattern that finds the text at the start.
pub open spec fn like_prefix(s: Seq<char>) -> Seq<char> {
    like_escaped(s) + "%"@
}

pub(crate) fn like_escaped_exec(s: &[char]) -> (r: Vec<char>)
    ensures
        r@ == like_escaped(s@),
{
    let mut r: Vec<char> = Vec::new();
    let mut i: usize = 0;
    while i < s.len()
        invariant
            0 <= i <= s@.len(),
            r@ == like_escaped(s@.take(i as int)),
        decreases s.len() - i,
    {
        let c = s[i];
        if c == '%' || c == '_' {
            r.push('\\');
        }
        r.push(c);
        assert(s@.take(i + 1).drop_last() =~= s@.take(i as int));
        assert(r@ =~= like_escaped(s@.take(i + 1)));
        i = i + 1;
    }
    assert(s@.take(s@.len() as int) =~= s@);
    r
}

/// `%text%` with the LIKE wildcards in the text escaped.
pub fn make_like(s: &str) -> (r: String)
    ensures
        r@ == like_anywhere(s@),
{
    let v = chars_of(s);
    let mut r = chars_of("%");
    append(&mut r, like_escaped_exec(v.as_slice()).as_slice());
    append_str(&mut r, "%");
    string_from_chars(&r)
}

pub fn like_anywhere_chars(s: &[char]) -> (r: Vec<char>)
    ensures
        r@ == like_anywhere(s@),
{
    let mut r = chars_of("%");
    append(&mut r, like_escaped_exec(s).as_slice());
    append_str(&mut r, "%");
    r
}

pub fn like_prefix_chars(s: &[char]) -> (r: Vec<char>)
    ensures
        r@ == like_prefix(s@),
{
    let mut r = like_escaped_exec(s);
    append_str(&mut r, "%");
    r
}

// ── Full-text queries ──────────────────────────────────────────────────────

/// A double quote doubled, as an FTS5 string wants it.
pub open spec fn quote_char(c: char) -> Seq<char> {
    if c == '"' { seq!['"', '"'] } else { seq![c] }
}

pub open spec fn quotes_doubled(s: Seq<char>) -> Seq<char>
    decreases s.len(),
{
    if s.len() == 0 { seq![] } else { quotes_doubled(s.drop_last()) + quote_char(s.last()) }
}

/// The whole search text as one FTS5 phrase.
pub open spec fn fts_phrase(q: Seq<char>) -> Seq<char> {
    "\""@ + quotes_doubled(q) + "\""@
}

fn quotes_doubled_exec(s: &[char]) -> (r: Vec<char>)
    ensures
        r@ == quotes_doubled(s@),
{
    let mut r: Vec<char> = Vec::new();
    let mut i: usize = 0;
    while i < s.len()
        invariant
            0 <= i <= s@.len(),
            r@ == quotes_doubled(s@.take(i as int)),
        decreases s.len() - i,
    {
        let c = s[i];
        if c == '"' {
            r.push('"');
        }
        r.push(c);
        assert(s@.take(i + 1).drop_last() =~= s@.take(i as int));
        assert(r@ =~= quotes_doubled(s@.take(i + 1)));
        i = i + 1;
    }
    assert(s@.take(s@.len() as int) =~= s@);
    r
}

pub fn fts_phrase_chars(q: &[char]) -> (r: Vec<char>)
    ensures
        r@ == fts_phrase(q@),
{
    let mut r = chars_of("\"");
    append(&mut r, quotes_doubled_exec(q).as_slice());
    append_str(&mut r, "\"");
    r
}

/// A word without the characters that are not letters or digits at either end.
pub open spec fn strip_front(w: Seq<char>) -> Seq<char>
    decreases w.len(),
{
    if w.len() > 0 && !is_alnum(w[0]) { strip_front(w.drop_first()) } else { w }
}

pub open spec fn strip_back(w: Seq<char>) -> Seq<char>
    decreases w.len(),
{
    if w.len() > 0 && !is_alnum(w.last()) { strip_back(w.drop_last()) } else { w }
}

pub open spec fn alnum_trimmed(w: Seq<char>) -> Seq<char> {
    strip_back(strip_front(w))
}

/// The search terms: each whitespace-separated word, trimmed to its letters
/// and digits, those left empty dropped.
pub open spec fn terms_of(ws: Seq<Seq<char>>) -> Seq<Seq<char>>
    decreases ws.len(),
{
    if ws.len() == 0 {
        seq![]
    } else {
        let t = alnum_trimmed(ws.last());
        if t.len() == 0 { terms_of(ws.drop_last()) } else { terms_of(ws.drop_last()).push(t) }
    }
}

pub open spec fn search_terms(q: Seq<char>) -> Seq<Seq<char>> {
    terms_of(words(q))
}

fn alnum_trimmed_exec(w: &[char]) -> (r: Vec<char>)
    ensures
        r@ == alnum_trimmed(w@),
{
    let n = w.len();
    let mut i: usize = 0;
    assert(w@.subrange(0, n as int) =~= w@);
    while i < n && !is_alphanumeric(w[i])
        invariant
            n == w@.len(),
            0 <= i <= n,
            strip_front(w@) == strip_front(w@.subrange(i as int, n as int)),
        decreases n - i,
    {
        assert(w@.subrange(i as int, n as int).drop_first() =~= w@.subrange(i + 1, n as int));
        i = i + 1;
    }
    let ghost f = w@.subrange(i as int, n as int);
    assert(strip_front(f) == f);
    let mut j: usize = n;
    while j > i && !is_alphanumeric(w[j - 1])
        invariant
            n == w@.len(),
            0 <= i <= j <= n,
            f == w@.subrange(i as int, n as int),
            strip_back(f) == strip_back(w@.subrange(i as int, j as int)),
        decreases j,
    {
        assert(w@.subrange(i as int, j as int).drop_last() =~= w@.subrange(i as int, j - 1));
        j = j - 1;
    }
    subvec(w, i, j)
}

fn terms_exec(q: &[char]) -> (r: Vec<Vec<char>>)
    ensures
        views(r@) == search_terms(q@),
{
    let ws = words_exec(q);
    let mut r: Vec<Vec<char>> = Vec::new();
    let mut i: usize = 0;
    while i < ws.len()
        invariant
            0 <= i <= ws@.len(),
            views(r@) == terms_of(views(ws@).take(i as int)),
        decreases ws.len() - i,
    {
        let t = alnum_trimmed_exec(ws[i].as_slice());
        assert(views(ws@).take(i + 1).drop_last() =~= views(ws@).take(i as int));
        assert(views(ws@).take(i + 1).last() == ws@[i as int]@);
        if t.len() > 0 {
            let ghost r0 = r@;
            r.push(t);
            assert(views(r@) =~= views(r0).push(t@));
        }
        i = i + 1;
    }
    assert(views(ws@).take(ws@.len() as int) =~= views(ws@));
    r
}

/// One card term: a quoted prefix query.
pub open spec fn card_term(t: Seq<char>) -> Seq<char> {
    "\""@ + quotes_doubled(t) + "\"*"@
}

/// The full-text query for a card search: each term as a quoted prefix,
/// joined by spaces; none when the search has no term.
pub open spec fn card_fts_query(q: Seq<char>) -> Option<Seq<char>> {
    let ts = search_terms(q);
    if ts.len() == 0 { None } else { Some(join_space(ts.map_values(|t: Seq<char>| card_term(t)))) }
}

/// One rule term: a bare prefix query.
pub open spec fn rule_term(t: Seq<char>) -> Seq<char> {
    t + "*"@
}

/// The full-text query for a rules search in the comprehensive rules: each
/// term as a prefix, or the whole text as one phrase when it has no term.
pub open spec fn fuzzy_query(q: Seq<char>) -> Seq<char> {
    let ts = search_terms(q);
    if ts.len() == 0 { fts_phrase(q) } else { join_space(ts.map_values(|t: Seq<char>| rule_term(t))) }
}

fn map_terms(ts: &Vec<Vec<char>>, card: bool) -> (r: Vec<Vec<char>>)
    ensures
        card ==> views(r@) == views(ts@).map_values(|t: Seq<char>| card_term(t)),
        !card ==> views(r@) == views(ts@).map_values(|t: Seq<char>| rule_term(t)),
{
    let mut r: Vec<Vec<char>> = Vec::new();
    let mut i: usize = 0;
    while i < ts.len()
        invariant
            0 <= i <= ts@.len(),
            card ==> views(r@) == views(ts@).take(i as int).map_values(|t: Seq<char>| card_term(t)),
            !card ==> views(r@) == views(ts@).take(i as int).map_values(|t: Seq<char>| rule_term(t)),
        decreases ts.len() - i,
    {
        let t = ts[i].as_slice();
        let mut f: Vec<char> = Vec::new();
        if card {
            append_str(&mut f, "\"");
            append(&mut f, quotes_doubled_exec(t).as_slice());
            append_str(&mut f, "\"*");
        } else {
            append(&mut f, t);
            append_str(&mut f, "*");
        }
        let ghost r0 = r@;
        r.push(f);
        assert(views(r@) =~= views(r0).push(f@));
        assert(views(ts@).take(i + 1) =~= views(ts@).take(i as int).push(ts@[i as int]@));
        assert(views(ts@).take(i + 1).map_values(|t: Seq<char>| card_term(t))
            =~= views(ts@).take(i as int).map_values(|t: Seq<char>| card_term(t)).push(card_term(ts@[i as int]@)));
        assert(views(ts@).take(i + 1).map_values(|t: Seq<char>| rule_term(t))
            =~= views(ts@).take(i as int).map_values(|t: Seq<char>| rule_term(t)).push(rule_term(ts@[i as int]@)));
        i = i + 1;
    }
    assert(views(ts@).take(ts@.len() as int) =~= views(ts@));
    r
}

/// The full-text query for a card search, or `None` when no word of the
/// search has a letter or digit.
pub fn build_card_fts_query(query: &str) -> (r: Option<String>)
    ensures
        match r {
            Some(s) => card_fts_query(query@) == Some(s@),
            None => card_fts_query(query@) is None,
        },
{
    let q = chars_of(query);
    let ts = terms_exec(q.as_slice());
    if ts.len() == 0 {
        return None;
    }
    let m = map_terms(&ts, true);
    Some(string_from_chars(&join_space_exec(&m)))
}

pub fn card_fts_query_chars(q: &[char]) -> (r: Option<Vec<char>>)
    ensures
        match r {
            Some(s) => card_fts_query(q@) == Some(s@),
            None => card_fts_query(q@) is None,
        },
{
    let ts = terms_exec(q);
    if ts.len() == 0 {
        return None;
    }
    let m = map_terms(&ts, true);
    Some(join_space_exec(&m))
}

/// The prefix query for a rules search, or the whole text as a phrase when no
/// word of it has a letter or digit.
pub fn build_fuzzy_query(query: &str) -> (r: String)
    ensures
        r@ == fuzzy_query(query@),
{
    let q = chars_of(query);
    string_from_chars(&fuzzy_query_chars(q.as_slice()))
}

pub fn fuzzy_query_chars(q: &[char]) -> (r: Vec<char>)
    ensures
        r@ == fuzzy_query(q@),
{
    let ts = terms_exec(q);
    if ts.len() == 0 {
        return fts_phrase_chars(q);
    }
    let m = map_terms(&ts, false);
    join_space_exec(&m)
}

// ── Statements ─────────────────────────────────────────────────────────────

/// A value bound to a statement parameter.
#[derive(Debug, Clone)]
pub enum SqlValue {
    Null,
    Integer(i64),
    Text(String),
}

/// A bound value as a plain value.
pub enum SqlArg {
    Null,
    Integer(int),
    Text(Seq<char>),
}

impl View for SqlValue {
    type V = SqlArg;

    open spec fn view(&self) -> SqlArg {
        match self {
            SqlValue::Null => SqlArg::Null,
            SqlValue::Integer(n) => SqlArg::Integer(*n as int),
            SqlValue::Text(t) => SqlArg::Text(t@),
        }
    }
}

/// One statement of a search, with its parameters in order (`?1`, `?2`, ...).
/// When `fallback_on_error` holds and another statement follows, a failure of
/// this one is not the answer: the next statement runs instead.
#[derive(Debug, Clone)]
pub struct SqlQuery {
    pub sql: String,
    pub params: Vec<SqlValue>,
    pub fallback_on_error: bool,
}

pub struct QueryView {
    pub sql: Seq<char>,
    pub params: Seq<SqlArg>,
    pub fallback_on_error: bool,
}

impl View for SqlQuery {
    type V = QueryView;

    open spec fn view(&self) -> QueryView {
        QueryView { sql: self.sql@, params: args_view(self.params@), fallback_on_error: self.fallback_on_error }
    }
}

pub open spec fn args_view(v: Seq<SqlValue>) -> Seq<SqlArg> {
    v.map_values(|x: SqlValue| x@)
}

pub open spec fn queries_view(v: Seq<SqlQuery>) -> Seq<QueryView> {
    v.map_values(|q: SqlQuery| q@)
}

/// What a search does with the outcome of one of its statements.
#[derive(Debug, Clone, Copy, PartialEq, Eq, Structural)]
pub enum Step {
    /// These rows are the answer.
    Answer,
    /// This error is the answer.
    Fail,
    /// Run the next statement.
    Next,
}

/// The rows of the last statement are the answer, and so are rows that are
/// not empty; an error ends the search unless the statement falls back.
pub open spec fn step_after(is_last: bool, fallback_on_error: bool, rows: Option<nat>) -> Step {
    match rows {
        Some(n) => if is_last || n > 0 { Step::Answer } else { Step::Next },
        None => if is_last || !fallback_on_error { Step::Fail } else { Step::Next },
    }
}

/// Decide what follows a statement's outcome: `rows` is the number of rows it
/// returned, or `None` when it failed.
pub fn after_query(is_last: bool, fallback_on_error: bool, rows: Option<usize>) -> (r: Step)
    ensures
        r == step_after(is_last, fallback_on_error, match rows { Some(n) => Some(n as nat), None => None }),
{
    match rows {
        Some(n) => if is_last || n > 0 { Step::Answer } else { Step::Next },
        None => if is_last || !fallback_on_error { Step::Fail } else { Step::Next },
    }
}

} // verus!
