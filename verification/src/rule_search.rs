//! The statements behind a rules search and a section lookup. A search in
//! the comprehensive rules matches word prefixes and, when that finds
//! nothing, falls back to a LIKE scan; other documents match the whole text
//! as one phrase.
use vstd::prelude::*;
use crate::search::{
    args_view, fts_phrase, fts_phrase_chars, fuzzy_query, fuzzy_query_chars, like_anywhere,
    like_anywhere_chars, like_escaped, like_escaped_exec, queries_view, QueryView, SqlArg, SqlQuery, SqlValue,
};
use crate::text::{append_str, chars_of, eq_str, string_from_chars};

verus! {

pub const RULES_FTS_DOC: &'static str = "SELECT r.number, r.title, snippet(rules_fts, 2, '<b>', '</b>', '...', 32), d.doc_type\n             FROM rules_fts\n             JOIN rules r ON r.id = rules_fts.rowid\n             JOIN documents d ON d.id = r.doc_id\n             WHERE rules_fts MATCH ?1 AND d.doc_type = ?2\n             ORDER BY rank\n             LIMIT 50";
pub const RULES_FTS_ALL: &'static str = "SELECT r.number, r.title, snippet(rules_fts, 2, '<b>', '</b>', '...', 32), d.doc_type\n             FROM rules_fts\n             JOIN rules r ON r.id = rules_fts.rowid\n             JOIN documents d ON d.id = r.doc_id\n             WHERE rules_fts MATCH ?1\n             ORDER BY rank\n             LIMIT 50";
pub const RULES_LIKE_DOC: &'static str = "SELECT r.number, r.title, substr(r.body, 1, 160), d.doc_type\n         FROM rules r\n         JOIN documents d ON d.id = r.doc_id\n         WHERE (r.body LIKE ?1 ESCAPE '\\' OR r.title LIKE ?1 ESCAPE '\\')\n           AND d.doc_type = ?2\n         ORDER BY r.sort_order\n         LIMIT 50";
pub const RULES_LIKE_ALL: &'static str = "SELECT r.number, r.title, substr(r.body, 1, 160), d.doc_type\n         FROM rules r\n         JOIN documents d ON d.id = r.doc_id\n         WHERE (r.body LIKE ?1 ESCAPE '\\' OR r.title LIKE ?1 ESCAPE '\\')\n         ORDER BY r.sort_order\n         LIMIT 50";
pub const RULES_SECTION: &'static str = "SELECT r.id, r.number, r.title, r.body, r.body_html, r.parent\n         FROM rules r\n         JOIN documents d ON d.id = r.doc_id\n         WHERE (r.number = ?1 OR r.number LIKE ?2 ESCAPE '\\')\n           AND d.doc_type = ?3\n         ORDER BY r.sort_order";

/// The LIKE scan over rule bodies and titles, within one document when given.
pub open spec fn rules_like(q: Seq<char>, dt: Option<Seq<char>>) -> QueryView {
    match dt {
        Some(d) => QueryView {
            sql: RULES_LIKE_DOC@,
            params: seq![SqlArg::Text(like_anywhere(q)), SqlArg::Text(d)],
            fallback_on_error: false,
        },
        None => QueryView { sql: RULES_LIKE_ALL@, params: seq![SqlArg::Text(like_anywhere(q))], fallback_on_error: false },
    }
}

/// The statements of a rules search, in the order they run.
pub open spec fn rule_plan(q: Seq<char>, dt: Option<Seq<char>>) -> Seq<QueryView> {
    match dt {
        Some(d) => {
            let m = if d == "cr"@ { fuzzy_query(q) } else { fts_phrase(q) };
            let first = QueryView {
                sql: RULES_FTS_DOC@,
                params: seq![SqlArg::Text(m), SqlArg::Text(d)],
                fallback_on_error: false,
            };
            if d == "cr"@ { seq![first, rules_like(q, dt)] } else { seq![first] }
        },
        None => seq![QueryView { sql: RULES_FTS_ALL@, params: seq![SqlArg::Text(fts_phrase(q))], fallback_on_error: false }],
    }
}

pub open spec fn doc_opt(o: Option<&str>) -> Option<Seq<char>> {
    match o {
        Some(s) => Some(s@),
        None => None,
    }
}

fn text_value(v: &Vec<char>) -> (r: SqlValue)
    ensures
        r@ == SqlArg::Text(v@),
{
    SqlValue::Text(string_from_chars(v))
}

/// The LIKE scan a rules search falls back to.
pub fn rules_like_query(query: &str, doc_type: Option<&str>) -> (r: SqlQuery)
    ensures
        r@ == rules_like(query@, doc_opt(doc_type)),
{
    let q = chars_of(query);
    let like = text_value(&like_anywhere_chars(q.as_slice()));
    match doc_type {
        Some(d) => {
            let params = vec![like, text_value(&chars_of(d))];
            assert(args_view(params@) =~= seq![SqlArg::Text(like_anywhere(q@)), SqlArg::Text(d@)]);
            SqlQuery { sql: string_from_chars(&chars_of(RULES_LIKE_DOC)), params, fallback_on_error: false }
        },
        None => {
            let params = vec![like];
            assert(args_view(params@) =~= seq![SqlArg::Text(like_anywhere(q@))]);
            SqlQuery { sql: string_from_chars(&chars_of(RULES_LIKE_ALL)), params, fallback_on_error: false }
        },
    }
}

/// The statements a rules search runs, in order (see `rule_plan`).
pub fn plan_rule_search(query: &str, doc_type: Option<&str>) -> (r: Vec<SqlQuery>)
    ensures
        queries_view(r@) == rule_plan(query@, doc_opt(doc_type)),
{
    let q = chars_of(query);
    let mut r: Vec<SqlQuery> = Vec::new();
    match doc_type {
        Some(d) => {
            let dv = chars_of(d);
            let is_cr = eq_str(dv.as_slice(), "cr");
            let m = if is_cr { fuzzy_query_chars(q.as_slice()) } else { fts_phrase_chars(q.as_slice()) };
            let params = vec![text_value(&m), text_value(&dv)];
            assert(args_view(params@) =~= seq![SqlArg::Text(m@), SqlArg::Text(d@)]);
            r.push(SqlQuery { sql: string_from_chars(&chars_of(RULES_FTS_DOC)), params, fallback_on_error: false });
            if is_cr {
                r.push(rules_like_query(query, doc_type));
                assert(queries_view(r@) =~= seq![r@[0]@, r@[1]@]);
            } else {
                assert(queries_view(r@) =~= seq![r@[0]@]);
            }
        },
        None => {
            let params = vec![text_value(&fts_phrase_chars(q.as_slice()))];
            assert(args_view(params@) =~= seq![SqlArg::Text(fts_phrase(q@))]);
            r.push(SqlQuery { sql: string_from_chars(&chars_of(RULES_FTS_ALL)), params, fallback_on_error: false });
            assert(queries_view(r@) =~= seq![r@[0]@]);
        },
    }
    r
}

/// The LIKE pattern of the subsections of `prefix`: the prefix, its
/// wildcards escaped, then `.` and anything.
pub open spec fn subsection_pattern(prefix: Seq<char>) -> Seq<char> {
    like_escaped(prefix) + ".%"@
}

/// The lookup of a whole section of one document: the rule numbered `prefix`
/// and every rule whose number starts with `prefix` and a dot, in document
/// order. Section "1" holds "1" and "1.1" but not "10".
pub fn rule_section_query(prefix: &str, doc_type: &str) -> (r: SqlQuery)
    ensures
        r@ == (QueryView {
            sql: RULES_SECTION@,
            params: seq![SqlArg::Text(prefix@), SqlArg::Text(subsection_pattern(prefix@)), SqlArg::Text(doc_type@)],
            fallback_on_error: false,
        }),
{
    let p = chars_of(prefix);
    let mut pattern = like_escaped_exec(p.as_slice());
    append_str(&mut pattern, ".%");
    let params = vec![text_value(&p), text_value(&pattern), text_value(&chars_of(doc_type))];
    assert(args_view(params@) =~= seq![SqlArg::Text(prefix@), SqlArg::Text(subsection_pattern(prefix@)), SqlArg::Text(doc_type@)]);
    SqlQuery { sql: string_from_chars(&chars_of(RULES_SECTION)), params, fallback_on_error: false }
}

} // verus!
