//! The statements behind a card search: the colour and mana value filters
//! that are written into the SQL, the full-text lookup, and the LIKE scan
//! that runs when the lookup finds nothing.
use vstd::prelude::*;
use crate::search::{
    args_view, card_fts_query, card_fts_query_chars, like_anywhere, like_anywhere_chars,
    like_prefix, like_prefix_chars, queries_view, QueryView, SqlArg, SqlQuery, SqlValue,
};
use crate::text::{append, append_str, chars_of, contains, eq_str, format_i64, int_decimal, occurs_at, string_from_chars};

verus! {

pub const BROWSE_HEAD: &'static str = "SELECT name, oracle_text, mana_cost, type_line,\n                    set_code, set_name, colors, legalities, image_url, back_image_url\n             FROM cards\n             WHERE 1=1";
pub const BROWSE_TAIL: &'static str = "\n               AND (?1 IS NULL OR lower(set_code) = lower(?1) OR lower(set_name) = lower(?1))\n             ORDER BY name\n             LIMIT 50";
pub const FTS_HEAD: &'static str = "SELECT c.name, c.oracle_text, c.mana_cost, c.type_line,\n                    c.set_code, c.set_name, c.colors, c.legalities,\n                    c.image_url, c.back_image_url\n             FROM cards_fts\n             JOIN cards c ON c.rowid = cards_fts.rowid\n             WHERE cards_fts MATCH ?1";
pub const FTS_TAIL: &'static str = "\n               AND (?4 IS NULL OR lower(c.set_code) = lower(?4) OR lower(c.set_name) = lower(?4))\n             ORDER BY CASE\n                        WHEN lower(c.name) = lower(?2) THEN 0\n                        WHEN c.name LIKE ?3 ESCAPE '\\' THEN 1\n                        ELSE 2\n                      END,\n                      bm25(cards_fts), c.name\n             LIMIT 50";
pub const LIKE_HEAD: &'static str = "SELECT name, oracle_text, mana_cost, type_line,\n                set_code, set_name, colors, legalities, image_url\n         FROM (\n             SELECT c.name, c.oracle_text, c.mana_cost, c.type_line,\n                    c.set_code, c.set_name, c.colors, c.legalities, c.image_url, c.back_image_url,\n                    CASE\n                        WHEN lower(c.name) = lower(?2) THEN 0\n                        WHEN c.name LIKE ?3 ESCAPE '\\' THEN 1\n                        WHEN c.name LIKE ?1 ESCAPE '\\' THEN 2\n                        ELSE 3\n                    END AS sort_rank\n             FROM cards c\n             WHERE c.name LIKE ?1 ESCAPE '\\'\n                OR c.oracle_text LIKE ?1 ESCAPE '\\'\n                OR c.type_line LIKE ?1 ESCAPE '\\'\n                OR c.set_code LIKE ?1 ESCAPE '\\'\n                OR c.set_name LIKE ?1 ESCAPE '\\'\n         )\n         WHERE 1=1";
pub const LIKE_TAIL: &'static str = "\n           AND (?4 IS NULL OR lower(set_code) = lower(?4) OR lower(set_name) = lower(?4))\n         ORDER BY sort_rank, name\n         LIMIT 50";

/// The colours a search may filter on.
pub open spec fn is_color(c: Seq<char>) -> bool {
    c == "W"@ || c == "U"@ || c == "B"@ || c == "R"@ || c == "G"@
}

pub open spec fn color_clause(c: Seq<char>) -> Seq<char> {
    " AND colors LIKE '%\""@ + c + "\"%'"@
}

/// One clause for each colour of the list that is one of the five, in order;
/// any other entry is ignored.
pub open spec fn color_filter(cs: Seq<Seq<char>>) -> Seq<char>
    decreases cs.len(),
{
    if cs.len() == 0 {
        seq![]
    } else {
        color_filter(cs.drop_last()) + (if is_color(cs.last()) { color_clause(cs.last()) } else { seq![] })
    }
}

/// The comparison a mana value filter names; anything unknown is `=`.
pub open spec fn sql_op(op: Seq<char>) -> Seq<char> {
    if op == "lt"@ {
        "<"@
    } else if op == "gt"@ {
        ">"@
    } else if op == "lte"@ {
        "<="@
    } else if op == "gte"@ {
        ">="@
    } else {
        "="@
    }
}

/// The mana value clause, present only when both the value and the
/// comparison are given.
pub open spec fn cmc_filter(mv: Option<int>, op: Option<Seq<char>>) -> Seq<char> {
    match (mv, op) {
        (Some(m), Some(o)) => " AND cmc "@ + sql_op(o) + " "@ + int_decimal(m),
        _ => seq![],
    }
}

pub open spec fn strings_view(v: Seq<String>) -> Seq<Seq<char>> {
    v.map_values(|s: String| s@)
}

pub open spec fn opt_str_view(o: Option<&str>) -> Option<Seq<char>> {
    match o {
        Some(s) => Some(s@),
        None => None,
    }
}

/// The statements of a card search, in the order they run. None when the
/// search has no text, no colour, no mana value filter and no set: nothing is
/// looked up then. Without text, one statement lists the cards that pass the
/// filters. With text, the full-text lookup runs first when the text has a
/// term, its failure falling through; the LIKE scan over the card's text
/// fields comes last.
pub open spec fn card_plan(
    q: Seq<char>,
    colors: Seq<Seq<char>>,
    mv: Option<int>,
    op: Option<Seq<char>>,
    set: Option<Seq<char>>,
) -> Seq<QueryView> {
    let cf = color_filter(colors);
    let mf = cmc_filter(mv, op);
    let has_set = match set { Some(s) => s.len() > 0, None => false };
    let set_arg = if has_set { SqlArg::Text(set->0) } else { SqlArg::Null };
    if q.len() == 0 && cf.len() == 0 && mf.len() == 0 && !has_set {
        seq![]
    } else if q.len() == 0 {
        seq![QueryView { sql: BROWSE_HEAD@ + cf + mf + BROWSE_TAIL@, params: seq![set_arg], fallback_on_error: false }]
    } else {
        let like = QueryView {
            sql: LIKE_HEAD@ + cf + mf + LIKE_TAIL@,
            params: seq![SqlArg::Text(like_anywhere(q)), SqlArg::Text(q), SqlArg::Text(like_prefix(q)), set_arg],
            fallback_on_error: false,
        };
        match card_fts_query(q) {
            Some(f) => seq![
                QueryView {
                    sql: FTS_HEAD@ + cf + mf + FTS_TAIL@,
                    params: seq![SqlArg::Text(f), SqlArg::Text(q), SqlArg::Text(like_prefix(q)), set_arg],
                    fallback_on_error: true,
                },
                like,
            ],
            None => seq![like],
        }
    }
}

fn is_color_exec(c: &[char]) -> (r: bool)
    ensures
        r == is_color(c@),
{
    eq_str(c, "W") || eq_str(c, "U") || eq_str(c, "B") || eq_str(c, "R") || eq_str(c, "G")
}

fn color_filter_exec(colors: &[String]) -> (r: Vec<char>)
    ensures
        r@ == color_filter(strings_view(colors@)),
{
    let mut r: Vec<char> = Vec::new();
    let mut i: usize = 0;
    while i < colors.len()
        invariant
            0 <= i <= colors@.len(),
            r@ == color_filter(strings_view(colors@).take(i as int)),
        decreases colors.len() - i,
    {
        let c = chars_of(colors[i].as_str());
        let ghost r0 = r@;
        if is_color_exec(c.as_slice()) {
            append_str(&mut r, " AND colors LIKE '%\"");
            append(&mut r, c.as_slice());
            append_str(&mut r, "\"%'");
        }
        assert(strings_view(colors@).take(i + 1).drop_last() =~= strings_view(colors@).take(i as int));
        assert(strings_view(colors@).take(i + 1).last() == colors@[i as int]@);
        assert(r@ =~= color_filter(strings_view(colors@).take(i + 1)));
        i = i + 1;
    }
    assert(strings_view(colors@).take(colors@.len() as int) =~= strings_view(colors@));
    r
}

fn sql_op_exec(op: &[char]) -> (r: &'static str)
    ensures
        r@ == sql_op(op@),
{
    if eq_str(op, "lt") {
        "<"
    } else if eq_str(op, "gt") {
        ">"
    } else if eq_str(op, "lte") {
        "<="
    } else if eq_str(op, "gte") {
        ">="
    } else {
        "="
    }
}

fn cmc_filter_exec(mv: Option<i64>, op: Option<&str>) -> (r: Vec<char>)
    ensures
        r@ == cmc_filter(match mv { Some(m) => Some(m as int), None => None }, opt_str_view(op)),
{
    match (mv, op) {
        (Some(m), Some(o)) => {
            let mut r = chars_of(" AND cmc ");
            let ov = chars_of(o);
            append_str(&mut r, sql_op_exec(ov.as_slice()));
            append_str(&mut r, " ");
            append(&mut r, format_i64(m).as_slice());
            r
        },
        _ => Vec::new(),
    }
}

/// The set as a parameter: NULL when absent or empty, so that every set passes.
fn set_param(set: Option<&str>) -> (r: SqlValue)
    ensures
        r@ == (match opt_str_view(set) {
            Some(s) => if s.len() > 0 { SqlArg::Text(s) } else { SqlArg::Null },
            None => SqlArg::Null,
        }),
{
    match set {
        Some(s) => {
            let v = chars_of(s);
            if v.len() > 0 { SqlValue::Text(string_from_chars(&v)) } else { SqlValue::Null }
        },
        None => SqlValue::Null,
    }
}

fn statement(head: &str, cf: &[char], mf: &[char], tail: &str) -> (r: String)
    ensures
        r@ == head@ + cf@ + mf@ + tail@,
{
    let mut v = chars_of(head);
    append(&mut v, cf);
    append(&mut v, mf);
    append_str(&mut v, tail);
    string_from_chars(&v)
}

/// The statements a card search runs, in order (see `card_plan`); an empty
/// list means that there is nothing to look up and the answer is no card.
pub fn plan_card_search(
    query: &str,
    colors: &[String],
    mana_value: Option<i64>,
    mana_op: Option<&str>,
    set: Option<&str>,
) -> (r: Vec<SqlQuery>)
    ensures
        queries_view(r@) == card_plan(
            query@,
            strings_view(colors@),
            match mana_value { Some(m) => Some(m as int), None => None },
            opt_str_view(mana_op),
            opt_str_view(set),
        ),
{
    let q = chars_of(query);
    let cf = color_filter_exec(colors);
    let mf = cmc_filter_exec(mana_value, mana_op);
    let has_set = match set { Some(s) => chars_of(s).len() > 0, None => false };
    let set_arg = set_param(set);
    let ghost set_v = set_arg@;
    let mut r: Vec<SqlQuery> = Vec::new();
    if q.len() == 0 && cf.len() == 0 && mf.len() == 0 && !has_set {
        assert(queries_view(r@) =~= Seq::<QueryView>::empty());
        return r;
    }
    if q.len() == 0 {
        let params = vec![set_arg];
        assert(args_view(params@) =~= seq![set_v]);
        r.push(SqlQuery {
            sql: statement(BROWSE_HEAD, cf.as_slice(), mf.as_slice(), BROWSE_TAIL),
            params,
            fallback_on_error: false,
        });
        assert(queries_view(r@) =~= seq![r@[0]@]);
        return r;
    }
    let prefix = like_prefix_chars(q.as_slice());
    if let Some(f) = card_fts_query_chars(q.as_slice()) {
        let params = vec![
            SqlValue::Text(string_from_chars(&f)),
            SqlValue::Text(string_from_chars(&q)),
            SqlValue::Text(string_from_chars(&prefix)),
            set_param(set),
        ];
        assert(args_view(params@) =~= seq![SqlArg::Text(f@), SqlArg::Text(q@), SqlArg::Text(prefix@), set_v]);
        r.push(SqlQuery {
            sql: statement(FTS_HEAD, cf.as_slice(), mf.as_slice(), FTS_TAIL),
            params,
            fallback_on_error: true,
        });
    }
    let ghost r0 = r@;
    let params = vec![
        SqlValue::Text(string_from_chars(&like_anywhere_chars(q.as_slice()))),
        SqlValue::Text(string_from_chars(&q)),
        SqlValue::Text(string_from_chars(&prefix)),
        set_arg,
    ];
    assert(args_view(params@) =~= seq![SqlArg::Text(like_anywhere(q@)), SqlArg::Text(q@), SqlArg::Text(prefix@), set_v]);
    r.push(SqlQuery {
        sql: statement(LIKE_HEAD, cf.as_slice(), mf.as_slice(), LIKE_TAIL),
        params,
        fallback_on_error: false,
    });
    assert(queries_view(r@) =~= queries_view(r0).push(r@[r0.len() as int]@));
    r
}

// ── Laws ──────────────────────────────────────────────────────────────────

/// The search text and the set never become part of the SQL: two searches
/// with the same filters run the same statements, whatever they look for.
pub proof fn law_card_sql_ignores_text_and_set(
    q1: Seq<char>,
    q2: Seq<char>,
    colors: Seq<Seq<char>>,
    mv: Option<int>,
    op: Option<Seq<char>>,
    set1: Option<Seq<char>>,
    set2: Option<Seq<char>>,
)
    requires
        q1.len() > 0,
        q2.len() > 0,
        (card_fts_query(q1) is Some) == (card_fts_query(q2) is Some),
    ensures
        card_plan(q1, colors, mv, op, set1).len() == card_plan(q2, colors, mv, op, set2).len(),
        forall|i: int| 0 <= i < card_plan(q1, colors, mv, op, set1).len()
            ==> (#[trigger] card_plan(q1, colors, mv, op, set1)[i]).sql == card_plan(q2, colors, mv, op, set2)[i].sql,
{
}

/// Only the five colours reach the SQL: other entries of the colour list
/// leave the statements unchanged.
pub proof fn law_unknown_colors_ignored(colors: Seq<Seq<char>>, c: Seq<char>)
    requires
        !is_color(c),
    ensures
        color_filter(colors.push(c)) == color_filter(colors),
{
    assert(colors.push(c).drop_last() =~= colors);
}

/// Every statement of a card search with a mana value filter carries the
/// filter's clause, between the statement's head and its tail.
proof fn lemma_plan_has_mana_clause(q: Seq<char>, colors: Seq<Seq<char>>, m: int, op: Seq<char>, set: Option<Seq<char>>)
    ensures
        card_plan(q, colors, Some(m), Some(op), set).len() >= 1,
        forall|i: int| 0 <= i < card_plan(q, colors, Some(m), Some(op), set).len()
            ==> contains((#[trigger] card_plan(q, colors, Some(m), Some(op), set)[i]).sql, cmc_filter(Some(m), Some(op))),
{
    let cf = color_filter(colors);
    let mf = cmc_filter(Some(m), Some(op));
    let p = card_plan(q, colors, Some(m), Some(op), set);
    assert(mf.len() > 0);
    assert forall|i: int| 0 <= i < p.len() implies contains((#[trigger] p[i]).sql, mf) by {
        let head = if q.len() == 0 { BROWSE_HEAD@ } else if i == 0 && card_fts_query(q) is Some { FTS_HEAD@ } else { LIKE_HEAD@ };
        let tail = if q.len() == 0 { BROWSE_TAIL@ } else if i == 0 && card_fts_query(q) is Some { FTS_TAIL@ } else { LIKE_TAIL@ };
        assert(p[i].sql == head + cf + mf + tail);
        let k: int = (head.len() + cf.len()) as int;
        assert((head + cf + mf + tail).subrange(k, k + mf.len() as int) =~= mf);
        assert(occurs_at(p[i].sql, mf, k));
    }
}

/// A mana value filter compares the card's mana value with the given value
/// by the operator it names: "lt" is `<`, "lte" is `<=`, "gt" is `>`, "gte"
/// is `>=` (so "gte 3" keeps cards of mana value 3), and any other name is
/// `=`. Every statement the search runs carries that comparison.
pub proof fn law_mana_value_comparisons(q: Seq<char>, colors: Seq<Seq<char>>, m: int, set: Option<Seq<char>>, other: Seq<char>)
    requires
        other != "lt"@ && other != "lte"@ && other != "gt"@ && other != "gte"@,
    ensures
        card_plan(q, colors, Some(m), Some("gte"@), set).len() >= 1,
        forall|i: int| 0 <= i < card_plan(q, colors, Some(m), Some("gte"@), set).len()
            ==> contains((#[trigger] card_plan(q, colors, Some(m), Some("gte"@), set)[i]).sql, " AND cmc >= "@ + int_decimal(m)),
        forall|i: int| 0 <= i < card_plan(q, colors, Some(m), Some("gt"@), set).len()
            ==> contains((#[trigger] card_plan(q, colors, Some(m), Some("gt"@), set)[i]).sql, " AND cmc > "@ + int_decimal(m)),
        forall|i: int| 0 <= i < card_plan(q, colors, Some(m), Some("lte"@), set).len()
            ==> contains((#[trigger] card_plan(q, colors, Some(m), Some("lte"@), set)[i]).sql, " AND cmc <= "@ + int_decimal(m)),
        forall|i: int| 0 <= i < card_plan(q, colors, Some(m), Some("lt"@), set).len()
            ==> contains((#[trigger] card_plan(q, colors, Some(m), Some("lt"@), set)[i]).sql, " AND cmc < "@ + int_decimal(m)),
        forall|i: int| 0 <= i < card_plan(q, colors, Some(m), Some(other), set).len()
            ==> contains((#[trigger] card_plan(q, colors, Some(m), Some(other), set)[i]).sql, " AND cmc = "@ + int_decimal(m)),
{
    reveal_strlit(" AND cmc ");
    reveal_strlit(" ");
    reveal_strlit(">=");
    reveal_strlit(">");
    reveal_strlit("<=");
    reveal_strlit("<");
    reveal_strlit("=");
    reveal_strlit(" AND cmc >= ");
    reveal_strlit(" AND cmc > ");
    reveal_strlit(" AND cmc <= ");
    reveal_strlit(" AND cmc < ");
    reveal_strlit(" AND cmc = ");
    reveal_strlit("gte");
    reveal_strlit("gt");
    reveal_strlit("lte");
    reveal_strlit("lt");
    lemma_plan_has_mana_clause(q, colors, m, "gte"@, set);
    lemma_plan_has_mana_clause(q, colors, m, "gt"@, set);
    lemma_plan_has_mana_clause(q, colors, m, "lte"@, set);
    lemma_plan_has_mana_clause(q, colors, m, "lt"@, set);
    lemma_plan_has_mana_clause(q, colors, m, other, set);
    assert(" AND cmc "@ + ">="@ + " "@ + int_decimal(m) =~= " AND cmc >= "@ + int_decimal(m));
    assert(" AND cmc "@ + ">"@ + " "@ + int_decimal(m) =~= " AND cmc > "@ + int_decimal(m));
    assert(" AND cmc "@ + "<="@ + " "@ + int_decimal(m) =~= " AND cmc <= "@ + int_decimal(m));
    assert(" AND cmc "@ + "<"@ + " "@ + int_decimal(m) =~= " AND cmc < "@ + int_decimal(m));
    assert(" AND cmc "@ + "="@ + " "@ + int_decimal(m) =~= " AND cmc = "@ + int_decimal(m));
    assert("gt"@[0] != "lt"@[0]);
    assert("lte"@.len() != "lt"@.len() && "lte"@[0] != "gt"@[0]);
    assert("gte"@[0] != "lt"@[0] && "gte"@.len() != "gt"@.len() && "gte"@[0] != "lte"@[0]);
}

} // verus!
