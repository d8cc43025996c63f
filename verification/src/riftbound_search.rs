//! The statement behind a Riftbound card search: one condition for each
//! filter that is given, numbered parameters in the order they are bound,
//! and an ordering that puts exact and prefix name matches first.
use vstd::prelude::*;
use crate::search::{args_view, like_anywhere, like_anywhere_chars, QueryView, SqlArg, SqlQuery, SqlValue};
use crate::text::{append, append_str, chars_of, decimal, format_u64, string_from_chars, trim, trim_chars, views};

verus! {

/// The filters of a Riftbound card search; `None` leaves a field unfiltered.
pub struct RiftboundCardFilters<'a> {
    pub query: &'a str,
    pub card_type: Option<&'a str>,
    pub card_set: Option<&'a str>,
    pub rarity: Option<&'a str>,
    pub domain: Option<&'a str>,
    pub energy_min: Option<i64>,
    pub energy_max: Option<i64>,
    pub power_min: Option<i64>,
    pub power_max: Option<i64>,
    pub has_errata: Option<bool>,
}

/// The filters as plain values.
pub struct FiltersView {
    pub query: Seq<char>,
    pub card_type: Option<Seq<char>>,
    pub card_set: Option<Seq<char>>,
    pub rarity: Option<Seq<char>>,
    pub domain: Option<Seq<char>>,
    pub energy_min: Option<int>,
    pub energy_max: Option<int>,
    pub power_min: Option<int>,
    pub power_max: Option<int>,
    pub has_errata: Option<bool>,
}

pub open spec fn str_opt(o: Option<&str>) -> Option<Seq<char>> {
    match o {
        Some(s) => Some(s@),
        None => None,
    }
}

pub open spec fn int_opt(o: Option<i64>) -> Option<int> {
    match o {
        Some(n) => Some(n as int),
        None => None,
    }
}

impl<'a> View for RiftboundCardFilters<'a> {
    type V = FiltersView;

    open spec fn view(&self) -> FiltersView {
        FiltersView {
            query: self.query@,
            card_type: str_opt(self.card_type),
            card_set: str_opt(self.card_set),
            rarity: str_opt(self.rarity),
            domain: str_opt(self.domain),
            energy_min: int_opt(self.energy_min),
            energy_max: int_opt(self.energy_max),
            power_min: int_opt(self.power_min),
            power_max: int_opt(self.power_max),
            has_errata: self.has_errata,
        }
    }
}

/// Conditions and the parameters bound so far.
pub struct Conds {
    pub conds: Seq<Seq<char>>,
    pub params: Seq<SqlArg>,
}

/// `?n` for the next parameter.
pub open spec fn next_slot(a: Conds) -> Seq<char> {
    "?"@ + decimal(a.params.len() + 1)
}

pub open spec fn bind(a: Conds, v: SqlArg, c: Seq<char>) -> Conds {
    Conds { conds: a.conds.push(c), params: a.params.push(v) }
}

/// The text condition: name, ability or tags contain the text.
pub open spec fn text_cond(s: Seq<char>) -> Seq<char> {
    "(lower(name) LIKE lower("@ + s + ") ESCAPE '\\' OR lower(ability) LIKE lower("@ + s
        + ") ESCAPE '\\' OR lower(coalesce(tags,'')) LIKE lower("@ + s + ") ESCAPE '\\')"@
}

pub open spec fn eq_cond(col: Seq<char>, s: Seq<char>) -> Seq<char> {
    "lower("@ + col + ") = lower("@ + s + ")"@
}

pub open spec fn domain_cond(s: Seq<char>) -> Seq<char> {
    "domain LIKE "@ + s + " ESCAPE '\\'"@
}

pub open spec fn min_cond(col: Seq<char>, s: Seq<char>) -> Seq<char> {
    col + " >= "@ + s
}

/// An upper bound also lets cards without the value through.
pub open spec fn max_cond(col: Seq<char>, s: Seq<char>) -> Seq<char> {
    "("@ + col + " IS NULL OR "@ + col + " <= "@ + s + ")"@
}

pub open spec fn errata_cond(b: bool) -> Seq<char> {
    if b { "errata_text IS NOT NULL AND errata_text != ''"@ } else { "(errata_text IS NULL OR errata_text = '')"@ }
}

pub open spec fn with_eq(a: Conds, o: Option<Seq<char>>, col: Seq<char>) -> Conds {
    match o {
        Some(v) => bind(a, SqlArg::Text(v), eq_cond(col, next_slot(a))),
        None => a,
    }
}

pub open spec fn with_min(a: Conds, o: Option<int>, col: Seq<char>) -> Conds {
    match o {
        Some(v) => bind(a, SqlArg::Integer(v), min_cond(col, next_slot(a))),
        None => a,
    }
}

pub open spec fn with_max(a: Conds, o: Option<int>, col: Seq<char>) -> Conds {
    match o {
        Some(v) => bind(a, SqlArg::Integer(v), max_cond(col, next_slot(a))),
        None => a,
    }
}

/// The conditions and parameters of every filter that is given, in the
/// order: text, type, set, rarity, domain, energy, power, errata.
pub open spec fn rb_conds(f: FiltersView) -> Conds {
    let t = trim(f.query);
    let a0 = Conds { conds: seq![], params: seq![] };
    let a1 = if t.len() > 0 { bind(a0, SqlArg::Text(like_anywhere(t)), text_cond(next_slot(a0))) } else { a0 };
    let a2 = with_eq(a1, f.card_type, "card_type"@);
    let a3 = with_eq(a2, f.card_set, "card_set"@);
    let a4 = with_eq(a3, f.rarity, "rarity"@);
    let a5 = match f.domain {
        Some(v) => bind(a4, SqlArg::Text(like_anywhere(v)), domain_cond(next_slot(a4))),
        None => a4,
    };
    let a6 = with_min(a5, f.energy_min, "energy"@);
    let a7 = with_max(a6, f.energy_max, "energy"@);
    let a8 = with_min(a7, f.power_min, "power"@);
    let a9 = with_max(a8, f.power_max, "power"@);
    match f.has_errata {
        Some(b) => Conds { conds: a9.conds.push(errata_cond(b)), params: a9.params },
        None => a9,
    }
}

/// Words joined by " AND ".
pub open spec fn join_and(cs: Seq<Seq<char>>) -> Seq<char>
    decreases cs.len(),
{
    if cs.len() == 0 {
        seq![]
    } else if cs.len() == 1 {
        cs[0]
    } else {
        join_and(cs.drop_last()) + " AND "@ + cs.last()
    }
}

pub open spec fn where_clause(cs: Seq<Seq<char>>) -> Seq<char> {
    if cs.len() == 0 { seq![] } else { "WHERE "@ + join_and(cs) }
}

/// Exact name matches first, then names that start with the text, then names
/// that contain it, then the rest; by name within each.
pub open spec fn rank_order(s: Seq<char>) -> Seq<char> {
    "ORDER BY CASE WHEN lower(name) = lower("@ + s + ") THEN 0 WHEN lower(name) LIKE lower("@ + s
        + ") || '%' THEN 1 WHEN lower(name) LIKE '%' || lower("@ + s + ") || '%' THEN 2 ELSE 3 END, name"@
}

pub open spec fn rb_sql(where_part: Seq<char>, order_part: Seq<char>) -> Seq<char> {
    "SELECT id, name, card_type, card_set, rarity, domain, energy\n         FROM riftbound_cards\n         "@
        + where_part + "\n         "@ + order_part + "\n         LIMIT 50"@
}

/// Whether any filter is given (text counts once trimmed).
pub open spec fn rb_has_any(f: FiltersView) -> bool {
    trim(f.query).len() > 0 || f.card_type is Some || f.card_set is Some || f.rarity is Some
        || f.domain is Some || f.energy_min is Some || f.energy_max is Some || f.power_min is Some
        || f.power_max is Some || f.has_errata is Some
}

/// The statement of a Riftbound search; none when no filter is given, and the
/// answer is then no card. With text, the text is bound once more for the
/// ordering.
pub open spec fn rb_plan(f: FiltersView) -> Option<QueryView> {
    if !rb_has_any(f) {
        None
    } else {
        let a = rb_conds(f);
        let t = trim(f.query);
        if t.len() > 0 {
            let slot = "?"@ + decimal(a.params.len() + 1);
            Some(QueryView {
                sql: rb_sql(where_clause(a.conds), rank_order(slot)),
                params: a.params.push(SqlArg::Text(t)),
                fallback_on_error: false,
            })
        } else {
            Some(QueryView { sql: rb_sql(where_clause(a.conds), "ORDER BY name"@), params: a.params, fallback_on_error: false })
        }
    }
}

// ── Executable ────────────────────────────────────────────────────────────

struct CondsExec {
    conds: Vec<Vec<char>>,
    params: Vec<SqlValue>,
}

impl View for CondsExec {
    type V = Conds;

    closed spec fn view(&self) -> Conds {
        Conds { conds: views(self.conds@), params: args_view(self.params@) }
    }
}

fn slot_exec(a: &CondsExec) -> (r: Vec<char>)
    requires
        a.params@.len() < 100,
    ensures
        r@ == next_slot(a@),
{
    let mut r = chars_of("?");
    append(&mut r, format_u64((a.params.len() + 1) as u64).as_slice());
    r
}

fn bind_exec(a: &mut CondsExec, v: SqlValue, c: Vec<char>)
    ensures
        final(a)@ == bind(old(a)@, v@, c@),
        final(a).params@.len() == old(a).params@.len() + 1,
{
    let ghost a0 = a@;
    a.conds.push(c);
    a.params.push(v);
    assert(a@.conds =~= a0.conds.push(c@));
    assert(a@.params =~= a0.params.push(v@));
}

fn with_eq_exec(a: &mut CondsExec, o: Option<&str>, col: &str)
    requires
        old(a).params@.len() < 99,
    ensures
        final(a)@ == with_eq(old(a)@, str_opt(o), col@),
        final(a).params@.len() <= old(a).params@.len() + 1,
{
    if let Some(v) = o {
        let s = slot_exec(a);
        let mut c = chars_of("lower(");
        append_str(&mut c, col);
        append_str(&mut c, ") = lower(");
        append(&mut c, s.as_slice());
        append_str(&mut c, ")");
        bind_exec(a, SqlValue::Text(string_from_chars(&chars_of(v))), c);
    }
}

fn with_bound_exec(a: &mut CondsExec, o: Option<i64>, col: &str, upper: bool)
    requires
        old(a).params@.len() < 99,
    ensures
        upper ==> final(a)@ == with_max(old(a)@, int_opt(o), col@),
        !upper ==> final(a)@ == with_min(old(a)@, int_opt(o), col@),
        final(a).params@.len() <= old(a).params@.len() + 1,
{
    if let Some(v) = o {
        let s = slot_exec(a);
        let mut c: Vec<char> = Vec::new();
        if upper {
            append_str(&mut c, "(");
            append_str(&mut c, col);
            append_str(&mut c, " IS NULL OR ");
            append_str(&mut c, col);
            append_str(&mut c, " <= ");
            append(&mut c, s.as_slice());
            append_str(&mut c, ")");
        } else {
            append_str(&mut c, col);
            append_str(&mut c, " >= ");
            append(&mut c, s.as_slice());
        }
        bind_exec(a, SqlValue::Integer(v), c);
    }
}

fn join_and_exec(cs: &Vec<Vec<char>>) -> (r: Vec<char>)
    ensures
        r@ == join_and(views(cs@)),
{
    let mut r: Vec<char> = Vec::new();
    let mut i: usize = 0;
    while i < cs.len()
        invariant
            0 <= i <= cs@.len(),
            r@ == join_and(views(cs@).take(i as int)),
        decreases cs.len() - i,
    {
        let ghost prev = r@;
        if i > 0 {
            append_str(&mut r, " AND ");
        }
        append(&mut r, cs[i].as_slice());
        assert(views(cs@).take(i + 1).drop_last() =~= views(cs@).take(i as int));
        assert(views(cs@).take(i + 1).last() == cs@[i as int]@);
        if i == 0 {
            assert(r@ =~= views(cs@).take(1)[0]);
        } else {
            assert(r@ =~= prev + " AND "@ + cs@[i as int]@);
        }
        i = i + 1;
    }
    assert(views(cs@).take(cs@.len() as int) =~= views(cs@));
    r
}

fn some_str(o: Option<&str>) -> (r: bool)
    ensures
        r == (o is Some),
{
    match o {
        Some(_) => true,
        None => false,
    }
}

fn some_int(o: Option<i64>) -> (r: bool)
    ensures
        r == (o is Some),
{
    match o {
        Some(_) => true,
        None => false,
    }
}

/// The statement a Riftbound search runs (see `rb_plan`), or `None` when no
/// filter is given.
pub fn plan_riftbound_search(filters: &RiftboundCardFilters) -> (r: Option<SqlQuery>)
    ensures
        match r {
            Some(q) => rb_plan(filters@) == Some(q@),
            None => rb_plan(filters@) is None,
        },
{
    let qv = chars_of(filters.query);
    let t = trim_chars(qv.as_slice());
    let has_any = t.len() > 0 || some_str(filters.card_type) || some_str(filters.card_set)
        || some_str(filters.rarity) || some_str(filters.domain) || some_int(filters.energy_min)
        || some_int(filters.energy_max) || some_int(filters.power_min) || some_int(filters.power_max)
        || match filters.has_errata { Some(_) => true, None => false };
    if !has_any {
        return None;
    }
    let mut a = CondsExec { conds: Vec::new(), params: Vec::new() };
    assert(a@.conds =~= Seq::<Seq<char>>::empty());
    assert(a@.params =~= Seq::<SqlArg>::empty());
    let ghost f = filters@;
    if t.len() > 0 {
        let s = slot_exec(&a);
        let mut c = chars_of("(lower(name) LIKE lower(");
        append(&mut c, s.as_slice());
        append_str(&mut c, ") ESCAPE '\\' OR lower(ability) LIKE lower(");
        append(&mut c, s.as_slice());
        append_str(&mut c, ") ESCAPE '\\' OR lower(coalesce(tags,'')) LIKE lower(");
        append(&mut c, s.as_slice());
        append_str(&mut c, ") ESCAPE '\\')");
        bind_exec(&mut a, SqlValue::Text(string_from_chars(&like_anywhere_chars(t.as_slice()))), c);
    }
    with_eq_exec(&mut a, filters.card_type, "card_type");
    with_eq_exec(&mut a, filters.card_set, "card_set");
    with_eq_exec(&mut a, filters.rarity, "rarity");
    if let Some(v) = filters.domain {
        let s = slot_exec(&a);
        let mut c = chars_of("domain LIKE ");
        append(&mut c, s.as_slice());
        append_str(&mut c, " ESCAPE '\\'");
        let vv = chars_of(v);
        bind_exec(&mut a, SqlValue::Text(string_from_chars(&like_anywhere_chars(vv.as_slice()))), c);
    }
    with_bound_exec(&mut a, filters.energy_min, "energy", false);
    with_bound_exec(&mut a, filters.energy_max, "energy", true);
    with_bound_exec(&mut a, filters.power_min, "power", false);
    with_bound_exec(&mut a, filters.power_max, "power", true);
    if let Some(b) = filters.has_errata {
        let ghost a0 = a@;
        if b {
            a.conds.push(chars_of("errata_text IS NOT NULL AND errata_text != ''"));
        } else {
            a.conds.push(chars_of("(errata_text IS NULL OR errata_text = '')"));
        }
        assert(a@.conds =~= a0.conds.push(errata_cond(b)));
    }
    assert(a@ == rb_conds(f));
    let mut where_part: Vec<char> = Vec::new();
    if a.conds.len() > 0 {
        append_str(&mut where_part, "WHERE ");
        append(&mut where_part, join_and_exec(&a.conds).as_slice());
    }
    let mut order: Vec<char> = Vec::new();
    let ghost p0 = a@.params;
    if t.len() > 0 {
        let s = slot_exec(&a);
        append_str(&mut order, "ORDER BY CASE WHEN lower(name) = lower(");
        append(&mut order, s.as_slice());
        append_str(&mut order, ") THEN 0 WHEN lower(name) LIKE lower(");
        append(&mut order, s.as_slice());
        append_str(&mut order, ") || '%' THEN 1 WHEN lower(name) LIKE '%' || lower(");
        append(&mut order, s.as_slice());
        append_str(&mut order, ") || '%' THEN 2 ELSE 3 END, name");
        a.params.push(SqlValue::Text(string_from_chars(&t)));
        assert(args_view(a.params@) =~= p0.push(SqlArg::Text(t@)));
    } else {
        append_str(&mut order, "ORDER BY name");
    }
    let mut sql = chars_of("SELECT id, name, card_type, card_set, rarity, domain, energy\n         FROM riftbound_cards\n         ");
    append(&mut sql, where_part.as_slice());
    append_str(&mut sql, "\n         ");
    append(&mut sql, order.as_slice());
    append_str(&mut sql, "\n         LIMIT 50");
    Some(SqlQuery { sql: string_from_chars(&sql), params: a.params, fallback_on_error: false })
}

// ── Laws ──────────────────────────────────────────────────────────────────

/// Two filter sets that give the same fields (and text or none) but with other
/// values.
pub open spec fn same_shape(f: FiltersView, g: FiltersView) -> bool {
    &&& (trim(f.query).len() > 0) == (trim(g.query).len() > 0)
    &&& (f.card_type is Some) == (g.card_type is Some)
    &&& (f.card_set is Some) == (g.card_set is Some)
    &&& (f.rarity is Some) == (g.rarity is Some)
    &&& (f.domain is Some) == (g.domain is Some)
    &&& (f.energy_min is Some) == (g.energy_min is Some)
    &&& (f.energy_max is Some) == (g.energy_max is Some)
    &&& (f.power_min is Some) == (g.power_min is Some)
    &&& (f.power_max is Some) == (g.power_max is Some)
    &&& f.has_errata == g.has_errata
}

/// What the user typed never becomes part of the SQL: searches that give the
/// same filters run the same statement, with as many parameters.
pub proof fn law_rb_sql_ignores_values(f: FiltersView, g: FiltersView)
    requires
        same_shape(f, g),
    ensures
        match (rb_plan(f), rb_plan(g)) {
            (Some(a), Some(b)) => a.sql == b.sql && a.params.len() == b.params.len(),
            (None, None) => true,
            _ => false,
        },
{
    let a = rb_conds(f);
    let b = rb_conds(g);
    assert(a.conds == b.conds && a.params.len() == b.params.len());
}

} // verus!
