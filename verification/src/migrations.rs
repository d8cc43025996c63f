//! Schema migrations: which ones still have to run, how a migration's SQL is
//! cut into statements, and what a failure means. A best-effort migration
//! that fails is left unrecorded so that the next start tries it again.
use vstd::prelude::*;
use crate::text::{ascii_lower, ascii_lower_exec, chars_of, contains, contains_str, eq_str, string_from_chars, trim, trim_chars};

verus! {

/// One migration: its id and whether a failure may be tolerated.
#[derive(Debug, Clone, Copy)]
pub struct MigrationInfo {
    pub id: &'static str,
    pub best_effort: bool,
}

// ── Which migrations run ───────────────────────────────────────────────────

pub open spec fn strs_view(v: Seq<String>) -> Seq<Seq<char>> {
    v.map_values(|s: String| s@)
}

/// The positions of the migrations not yet applied, in order.
pub open spec fn pending(ids: Seq<Seq<char>>, applied: Seq<Seq<char>>) -> Seq<int>
    decreases ids.len(),
{
    if ids.len() == 0 {
        seq![]
    } else if applied.contains(ids.last()) {
        pending(ids.drop_last(), applied)
    } else {
        pending(ids.drop_last(), applied).push(ids.len() - 1)
    }
}

pub open spec fn usizes(v: Seq<usize>) -> Seq<int> {
    v.map_values(|i: usize| i as int)
}

/// Whether the first migration is to be recorded without running: the
/// database has the documents table and no record of any migration.
pub fn needs_baseline(applied: &Vec<String>, documents_exists: bool) -> (r: bool)
    ensures
        r == (applied@.len() == 0 && documents_exists),
{
    applied.len() == 0 && documents_exists
}

fn contains_id(applied: &Vec<String>, id: &str) -> (r: bool)
    ensures
        r == strs_view(applied@).contains(id@),
{
    let mut i: usize = 0;
    while i < applied.len()
        invariant
            0 <= i <= applied@.len(),
            forall|k: int| 0 <= k < i ==> strs_view(applied@)[k] != id@,
        decreases applied.len() - i,
    {
        if eq_str(chars_of(applied[i].as_str()).as_slice(), id) {
            assert(strs_view(applied@)[i as int] == id@);
            return true;
        }
        i = i + 1;
    }
    false
}

/// The positions in `migrations` of those still to run, given the ids
/// recorded as applied (already including the baseline).
pub fn pending_migrations(migrations: &Vec<MigrationInfo>, applied: &Vec<String>) -> (r: Vec<usize>)
    ensures
        usizes(r@) == pending(migrations@.map_values(|m: MigrationInfo| m.id@), strs_view(applied@)),
{
    let ghost ids = migrations@.map_values(|m: MigrationInfo| m.id@);
    let mut r: Vec<usize> = Vec::new();
    let mut i: usize = 0;
    while i < migrations.len()
        invariant
            0 <= i <= migrations@.len(),
            ids == migrations@.map_values(|m: MigrationInfo| m.id@),
            usizes(r@) == pending(ids.take(i as int), strs_view(applied@)),
        decreases migrations.len() - i,
    {
        assert(ids.take(i + 1).drop_last() =~= ids.take(i as int));
        assert(ids.take(i + 1).last() == migrations@[i as int].id@);
        if !contains_id(applied, migrations[i].id) {
            let ghost r0 = usizes(r@);
            r.push(i);
            assert(usizes(r@) =~= r0.push(i as int));
        }
        i = i + 1;
    }
    assert(ids.take(ids.len() as int) =~= ids);
    r
}

// ── Statements ─────────────────────────────────────────────────────────────

/// The pieces of a text between semicolons.
pub open spec fn split_semicolons(s: Seq<char>) -> Seq<Seq<char>>
    decreases s.len(),
{
    if s.len() == 0 {
        seq![seq![]]
    } else {
        let init = split_semicolons(s.drop_last());
        if s.last() == ';' {
            init.push(seq![])
        } else {
            init.drop_last().push(init.last().push(s.last()))
        }
    }
}

proof fn lemma_split_nonempty(s: Seq<char>)
    ensures
        split_semicolons(s).len() > 0,
    decreases s.len(),
{
    if s.len() > 0 {
        lemma_split_nonempty(s.drop_last());
    }
}

/// The statements of a migration: the pieces between semicolons, trimmed,
/// the empty ones dropped.
pub open spec fn statements_of(pieces: Seq<Seq<char>>) -> Seq<Seq<char>>
    decreases pieces.len(),
{
    if pieces.len() == 0 {
        seq![]
    } else {
        let t = trim(pieces.last());
        if t.len() == 0 { statements_of(pieces.drop_last()) } else { statements_of(pieces.drop_last()).push(t) }
    }
}

pub open spec fn sql_statements(sql: Seq<char>) -> Seq<Seq<char>> {
    statements_of(split_semicolons(sql))
}

pub open spec fn chars_views(v: Seq<Vec<char>>) -> Seq<Seq<char>> {
    v.map_values(|x: Vec<char>| x@)
}

fn split_semicolons_exec(s: &[char]) -> (r: Vec<Vec<char>>)
    ensures
        chars_views(r@) == split_semicolons(s@),
{
    let mut r: Vec<Vec<char>> = Vec::new();
    let mut cur: Vec<char> = Vec::new();
    let mut i: usize = 0;
    assert(s@.take(0) =~= Seq::<char>::empty());
    while i < s.len()
        invariant
            0 <= i <= s@.len(),
            chars_views(r@).push(cur@) == split_semicolons(s@.take(i as int)),
        decreases s.len() - i,
    {
        let ghost t = s@.take(i + 1);
        assert(t.drop_last() =~= s@.take(i as int));
        let ghost before = chars_views(r@).push(cur@);
        proof { lemma_split_nonempty(s@.take(i as int)); }
        if s[i] == ';' {
            let ghost rv = chars_views(r@);
            r.push(cur);
            cur = Vec::new();
            assert(chars_views(r@) =~= rv.push(before.last()));
            assert(chars_views(r@).push(cur@) =~= before.push(seq![]));
        } else {
            let ghost rv = chars_views(r@);
            cur.push(s[i]);
            assert(before.drop_last() =~= rv);
            assert(chars_views(r@).push(cur@) =~= before.drop_last().push(before.last().push(s@[i as int])));
        }
        i = i + 1;
    }
    assert(s@.take(s@.len() as int) =~= s@);
    let ghost rv = chars_views(r@);
    r.push(cur);
    assert(chars_views(r@) =~= rv.push(cur@));
    r
}

/// The statements of a migration's SQL (see `sql_statements`).
pub fn split_statements(sql: &str) -> (r: Vec<String>)
    ensures
        strs_view(r@) == sql_statements(sql@),
{
    let c = chars_of(sql);
    let pieces = split_semicolons_exec(c.as_slice());
    let mut r: Vec<String> = Vec::new();
    let mut i: usize = 0;
    while i < pieces.len()
        invariant
            0 <= i <= pieces@.len(),
            chars_views(pieces@) == split_semicolons(sql@),
            strs_view(r@) == statements_of(chars_views(pieces@).take(i as int)),
        decreases pieces.len() - i,
    {
        assert(chars_views(pieces@).take(i + 1).drop_last() =~= chars_views(pieces@).take(i as int));
        assert(chars_views(pieces@).take(i + 1).last() == pieces@[i as int]@);
        let t = trim_chars(pieces[i].as_slice());
        if t.len() > 0 {
            let ghost r0 = strs_view(r@);
            let st = string_from_chars(&t);
            r.push(st);
            assert(strs_view(r@) =~= r0.push(t@));
        }
        i = i + 1;
    }
    assert(chars_views(pieces@).take(pieces@.len() as int) =~= chars_views(pieces@));
    r
}

// ── Failures ───────────────────────────────────────────────────────────────

/// A statement that fails only because the column it adds exists already is
/// skipped: SQLite says "duplicate column name" in any case of letters.
pub open spec fn duplicate_column(message: Option<Seq<char>>) -> bool {
    match message {
        Some(m) => contains(ascii_lower(m), "duplicate column name"@),
        None => false,
    }
}

/// Whether a failed statement only added a column that exists already;
/// `message` is SQLite's message when the failure came from SQLite with one.
pub fn is_duplicate_column(message: Option<&str>) -> (r: bool)
    ensures
        r == duplicate_column(match message { Some(m) => Some(m@), None => None }),
{
    match message {
        Some(m) => {
            let c = chars_of(m);
            let l = ascii_lower_exec(c.as_slice());
            contains_str(l.as_slice(), "duplicate column name")
        },
        None => false,
    }
}

/// What a migration's outcome leads to.
#[derive(Debug, Clone, Copy, PartialEq, Eq, Structural)]
pub enum MigrationOutcome {
    /// It ran: record it as applied.
    Record,
    /// It failed but may: go on without recording it, so it runs again later.
    Retry,
    /// It failed: stop with its error.
    Abort,
}

pub open spec fn outcome_of(succeeded: bool, best_effort: bool) -> MigrationOutcome {
    if succeeded {
        MigrationOutcome::Record
    } else if best_effort {
        MigrationOutcome::Retry
    } else {
        MigrationOutcome::Abort
    }
}

pub fn migration_outcome(succeeded: bool, best_effort: bool) -> (r: MigrationOutcome)
    ensures
        r == outcome_of(succeeded, best_effort),
{
    if succeeded {
        MigrationOutcome::Record
    } else if best_effort {
        MigrationOutcome::Retry
    } else {
        MigrationOutcome::Abort
    }
}

// ── Laws ──────────────────────────────────────────────────────────────────

/// A migration runs exactly when its id is not recorded, and the ones that
/// run keep the table's order.
pub proof fn law_pending_exact(ids: Seq<Seq<char>>, applied: Seq<Seq<char>>)
    ensures
        forall|k: int| pending(ids, applied).contains(k) <==> 0 <= k < ids.len() && !applied.contains(ids[k]),
        forall|a: int, b: int| 0 <= a < b < pending(ids, applied).len()
            ==> #[trigger] pending(ids, applied)[a] < #[trigger] pending(ids, applied)[b],
    decreases ids.len(),
{
    if ids.len() > 0 {
        law_pending_exact(ids.drop_last(), applied);
        let p0 = pending(ids.drop_last(), applied);
        assert forall|k: int| pending(ids, applied).contains(k) <==> 0 <= k < ids.len() && !applied.contains(ids[k]) by {
            if k < ids.len() - 1 && 0 <= k {
                assert(ids.drop_last()[k] == ids[k]);
            }
            if !applied.contains(ids.last()) {
                if pending(ids, applied).contains(k) && k != ids.len() - 1 {
                    let j = choose|j: int| 0 <= j < pending(ids, applied).len() && pending(ids, applied)[j] == k;
                    assert(p0[j] == k);
                }
                if p0.contains(k) {
                    let j = choose|j: int| 0 <= j < p0.len() && p0[j] == k;
                    assert(pending(ids, applied)[j] == k);
                }
                assert(pending(ids, applied)[p0.len() as int] == ids.len() - 1);
            }
        }
        assert forall|a: int, b: int| 0 <= a < b < pending(ids, applied).len()
            implies #[trigger] pending(ids, applied)[a] < #[trigger] pending(ids, applied)[b] by {
            if !applied.contains(ids.last()) && b == p0.len() {
                assert(p0.contains(p0[a]));
            }
        }
    }
}

proof fn lemma_split_pieces(s: Seq<char>)
    ensures
        forall|i: int, k: int| 0 <= i < split_semicolons(s).len() && 0 <= k < split_semicolons(s)[i].len()
            ==> #[trigger] split_semicolons(s)[i][k] != ';',
    decreases s.len(),
{
    if s.len() > 0 {
        lemma_split_pieces(s.drop_last());
        lemma_split_nonempty(s.drop_last());
    }
}

proof fn lemma_statements_from(pieces: Seq<Seq<char>>)
    requires
        forall|i: int, k: int| 0 <= i < pieces.len() && 0 <= k < pieces[i].len() ==> #[trigger] pieces[i][k] != ';',
    ensures
        forall|i: int| 0 <= i < statements_of(pieces).len() ==> (#[trigger] statements_of(pieces)[i]).len() > 0,
        forall|i: int, k: int| 0 <= i < statements_of(pieces).len() && 0 <= k < statements_of(pieces)[i].len()
            ==> #[trigger] statements_of(pieces)[i][k] != ';',
    decreases pieces.len(),
{
    if pieces.len() > 0 {
        lemma_statements_from(pieces.drop_last());
        let t = trim(pieces.last());
        let l = pieces.last();
        let a = crate::text::skip_ws(l, 0);
        crate::text::lemma_skip_ws_bounds(l, 0);
        crate::text::lemma_back_ws_bounds(l, a, l.len() as int);
        assert forall|k: int| 0 <= k < t.len() implies t[k] != ';' by {
            assert(t[k] == l[a + k]);
            assert(pieces[pieces.len() - 1][a + k] != ';');
        }
        let prev = statements_of(pieces.drop_last());
        let all = statements_of(pieces);
        assert forall|i: int| 0 <= i < all.len() implies (#[trigger] all[i]).len() > 0 by {
            if i < prev.len() {
                assert(all[i] == prev[i]);
            }
        }
        assert forall|i: int, k: int| 0 <= i < all.len() && 0 <= k < all[i].len() implies #[trigger] all[i][k] != ';' by {
            if i < prev.len() {
                assert(all[i] == prev[i]);
                assert(prev[i][k] != ';');
            } else {
                assert(all[i] == t);
            }
        }
    }
}

/// The statements of a migration are never empty and hold no semicolon.
pub proof fn law_statements_clean(sql: Seq<char>)
    ensures
        forall|i: int| 0 <= i < sql_statements(sql).len() ==> (#[trigger] sql_statements(sql)[i]).len() > 0,
        forall|i: int, k: int| 0 <= i < sql_statements(sql).len() && 0 <= k < sql_statements(sql)[i].len()
            ==> #[trigger] sql_statements(sql)[i][k] != ';',
{
    lemma_split_pieces(sql);
    lemma_statements_from(split_semicolons(sql));
}

} // verus!
