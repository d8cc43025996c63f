//! Comparison of document versions: numeric dates ("20260401", "2026-04-01")
//! and legacy "Month Day, Year" strings.
use vstd::prelude::*;
use vstd::wrapping::u64_specs;
use crate::text::{
    all_ascii_digits, before_char, decimal, is_ascii_alpha, is_ws, lemma_decimal_digits,
    lemma_parse_decimal, occurs_at,
    chars_of, copy_chars, eq_str, find, find_from_exec, lemma_find_from, lines, parse_unsigned,
    parse_unsigned_chars, split_lines, starts_with, starts_with_str, subvec, trim, trim_chars, views,
};

verus! {

/// `s` with every `c` removed (`str::replace(c, "")`).
pub open spec fn remove_char(s: Seq<char>, c: char) -> Seq<char>
    decreases s.len(),
{
    if s.len() == 0 {
        seq![]
    } else if s.last() == c {
        remove_char(s.drop_last(), c)
    } else {
        remove_char(s.drop_last(), c).push(s.last())
    }
}


pub open spec fn month_number(name: Seq<char>) -> Option<nat> {
    if name == "January"@ { Some(1) }
    else if name == "February"@ { Some(2) }
    else if name == "March"@ { Some(3) }
    else if name == "April"@ { Some(4) }
    else if name == "May"@ { Some(5) }
    else if name == "June"@ { Some(6) }
    else if name == "July"@ { Some(7) }
    else if name == "August"@ { Some(8) }
    else if name == "September"@ { Some(9) }
    else if name == "October"@ { Some(10) }
    else if name == "November"@ { Some(11) }
    else if name == "December"@ { Some(12) }
    else { None }
}

/// "September 25, 2020" read as 20200925. The arithmetic wraps at 2^64 as a
/// release build of `year * 10000 + month * 100 + day` does.
pub open spec fn legacy_month_date(s: Seq<char>) -> Option<u64> {
    match find(s, ", "@) {
        None => None,
        Some(k) => {
            let month_day = s.take(k);
            let year_str = s.skip(k + 2);
            match parse_unsigned(trim(year_str), u64::MAX as nat) {
                None => None,
                Some(year) => match find(month_day, seq![' ']) {
                    None => None,
                    Some(m) => match parse_unsigned(trim(month_day.skip(m + 1)), u64::MAX as nat) {
                        None => None,
                        Some(day) => match month_number(trim(month_day.take(m))) {
                            None => None,
                            Some(month) => Some(u64_specs::wrapping_add(
                                u64_specs::wrapping_add(
                                    u64_specs::wrapping_mul(year as u64, 10000),
                                    (month * 100) as u64,
                                ),
                                day as u64,
                            )),
                        },
                    },
                },
            }
        },
    }
}

/// A version as a comparable number: the digits once dashes are dropped, else
/// the legacy date before any "-suffix", else 0.
pub open spec fn version_number(v: Seq<char>) -> u64 {
    match parse_unsigned(remove_char(v, '-'), u64::MAX as nat) {
        Some(n) => n as u64,
        None => match legacy_month_date(trim(before_char(v, '-'))) {
            Some(n) => n,
            None => 0,
        },
    }
}

/// `available` is strictly newer than `installed`; anything beats no version.
pub open spec fn newer(available: Seq<char>, installed: Option<Seq<char>>) -> bool {
    match installed {
        None => true,
        Some(inst) => version_number(available) > version_number(inst),
    }
}

/// A quick reference is usable when at least one line opens a "## " topic.
pub open spec fn quick_reference_ok(text: Seq<char>) -> bool {
    exists|i: int| 0 <= i < lines(text).len() && starts_with(#[trigger] lines(text)[i], "## "@)
}

fn remove_dashes(s: &[char]) -> (r: Vec<char>)
    ensures
        r@ == remove_char(s@, '-'),
{
    let mut r: Vec<char> = Vec::new();
    let mut i: usize = 0;
    while i < s.len()
        invariant
            0 <= i <= s@.len(),
            r@ == remove_char(s@.take(i as int), '-'),
        decreases s.len() - i,
    {
        assert(s@.take(i + 1).drop_last() =~= s@.take(i as int));
        if s[i] != '-' {
            r.push(s[i]);
        }
        i = i + 1;
    }
    assert(s@.take(s@.len() as int) =~= s@);
    r
}

fn month_from_name(name: &[char]) -> (r: Option<u64>)
    ensures
        match r {
            Some(m) => month_number(name@) == Some(m as nat),
            None => month_number(name@) is None,
        },
{
    if eq_str(name, "January") { Some(1) }
    else if eq_str(name, "February") { Some(2) }
    else if eq_str(name, "March") { Some(3) }
    else if eq_str(name, "April") { Some(4) }
    else if eq_str(name, "May") { Some(5) }
    else if eq_str(name, "June") { Some(6) }
    else if eq_str(name, "July") { Some(7) }
    else if eq_str(name, "August") { Some(8) }
    else if eq_str(name, "September") { Some(9) }
    else if eq_str(name, "October") { Some(10) }
    else if eq_str(name, "November") { Some(11) }
    else if eq_str(name, "December") { Some(12) }
    else { None }
}

fn legacy_date_chars(s: &[char]) -> (r: Option<u64>)
    ensures
        r == legacy_month_date(s@),
{
    let sep = chars_of(", ");
    proof {
        reveal_strlit(", ");
        lemma_find_from(s@, ", "@, 0);
    }
    let k = match find_from_exec(s, sep.as_slice(), 0) {
        Some(k) => k,
        None => return None,
    };
    let n = s.len();
    assert(k + 2 <= n);
    let month_day = subvec(s, 0, k);
    let year_str = subvec(s, k + 2, n);
    assert(month_day@ =~= s@.take(k as int));
    assert(year_str@ =~= s@.skip(k + 2));
    let year_t = trim_chars(year_str.as_slice());
    let year = match parse_unsigned_chars(year_t.as_slice(), u64::MAX) {
        Some(y) => y,
        None => return None,
    };
    let space = chars_of(" ");
    proof {
        reveal_strlit(" ");
        assert(space@ =~= seq![' ']);
        lemma_find_from(month_day@, seq![' '], 0);
    }
    let m = match find_from_exec(month_day.as_slice(), space.as_slice(), 0) {
        Some(m) => m,
        None => return None,
    };
    proof { lemma_find_from(month_day@, seq![' '], 0); }
    let day_part = subvec(month_day.as_slice(), m + 1, month_day.len());
    assert(day_part@ =~= month_day@.skip(m + 1));
    let day_t = trim_chars(day_part.as_slice());
    let day = match parse_unsigned_chars(day_t.as_slice(), u64::MAX) {
        Some(d) => d,
        None => return None,
    };
    let name_part = subvec(month_day.as_slice(), 0, m);
    assert(name_part@ =~= month_day@.take(m as int));
    let name_t = trim_chars(name_part.as_slice());
    let month = match month_from_name(name_t.as_slice()) {
        Some(mo) => mo,
        None => return None,
    };
    Some(year.wrapping_mul(10000).wrapping_add(month * 100).wrapping_add(day))
}

/// Parse "September 25, 2020" as 20200925.
pub fn parse_legacy_month_date(s: &str) -> (r: Option<u64>)
    ensures
        r == legacy_month_date(s@),
{
    let v = chars_of(s);
    legacy_date_chars(v.as_slice())
}

fn version_number_chars(v: &[char]) -> (r: u64)
    ensures
        r == version_number(v@),
{
    let stripped = remove_dashes(v);
    if let Some(n) = parse_unsigned_chars(stripped.as_slice(), u64::MAX) {
        return n;
    }
    let dash = chars_of("-");
    proof {
        reveal_strlit("-");
        assert(dash@ =~= seq!['-']);
        lemma_find_from(v@, seq!['-'], 0);
    }
    let base = match find_from_exec(v, dash.as_slice(), 0) {
        Some(k) => subvec(v, 0, k),
        None => copy_chars(v),
    };
    proof {
        lemma_find_from(v@, seq!['-'], 0);
        if let Some(k) = find(v@, seq!['-']) {
            assert(base@ =~= v@.take(k));
        }
    }
    let base_t = trim_chars(base.as_slice());
    match legacy_date_chars(base_t.as_slice()) {
        Some(n) => n,
        None => 0,
    }
}

/// Convert a version string to a comparable number (0 when unrecognized).
pub fn version_as_number(v: &str) -> (r: u64)
    ensures
        r == version_number(v@),
{
    let c = chars_of(v);
    version_number_chars(c.as_slice())
}

/// Whether `available` is strictly newer than `installed`.
pub fn is_newer(available: &str, installed: Option<&str>) -> (r: bool)
    ensures
        r == newer(available@, match installed { Some(s) => Some(s@), None => None }),
{
    match installed {
        None => true,
        Some(inst) => version_as_number(available) > version_as_number(inst),
    }
}

/// Whether a downloaded quick reference has at least one "## " topic heading.
pub fn valid_quick_reference(text: &str) -> (r: bool)
    ensures
        r == quick_reference_ok(text@),
{
    let c = chars_of(text);
    let ls = split_lines(c.as_slice());
    let mut i: usize = 0;
    while i < ls.len()
        invariant
            0 <= i <= ls@.len(),
            views(ls@) == lines(text@),
            forall|k: int| 0 <= k < i ==> !starts_with(#[trigger] lines(text@)[k], "## "@),
        decreases ls.len() - i,
    {
        assert(ls@[i as int]@ == lines(text@)[i as int]);
        if starts_with_str(ls[i].as_slice(), "## ") {
            return true;
        }
        i = i + 1;
    }
    false
}

// ── Laws ──────────────────────────────────────────────────────────────────

/// No version is newer than itself.
pub proof fn law_not_newer_than_itself(v: Seq<char>)
    ensures
        !newer(v, Some(v)),
{
}

/// Anything is an update when nothing is installed.
pub proof fn law_newer_than_nothing(v: Seq<char>)
    ensures
        newer(v, None),
{
}

/// Newer is asymmetric: two versions are never each newer than the other.
pub proof fn law_newer_asymmetric(a: Seq<char>, b: Seq<char>)
    ensures
        !(newer(a, Some(b)) && newer(b, Some(a))),
{
}

/// Newer is transitive.
pub proof fn law_newer_transitive(a: Seq<char>, b: Seq<char>, c: Seq<char>)
    requires
        newer(a, Some(b)),
        newer(b, Some(c)),
    ensures
        newer(a, Some(c)),
{
}

// ── Legacy dates ───────────────────────────────────────────────────────────

/// The English name of month `m` of the calendar (1 is January).
pub open spec fn month_name(m: int) -> Seq<char> {
    if m == 1 { "January"@ }
    else if m == 2 { "February"@ }
    else if m == 3 { "March"@ }
    else if m == 4 { "April"@ }
    else if m == 5 { "May"@ }
    else if m == 6 { "June"@ }
    else if m == 7 { "July"@ }
    else if m == 8 { "August"@ }
    else if m == 9 { "September"@ }
    else if m == 10 { "October"@ }
    else if m == 11 { "November"@ }
    else { "December"@ }
}

/// "Month D, Y" as the documents write a date.
pub open spec fn legacy_date_text(m: int, d: nat, y: nat) -> Seq<char> {
    month_name(m) + seq![' '] + decimal(d) + ", "@ + decimal(y)
}

pub open spec fn all_letters(s: Seq<char>) -> bool {
    forall|i: int| 0 <= i < s.len() ==> is_ascii_alpha(#[trigger] s[i])
}

/// The first occurrence is the one with no earlier occurrence.
proof fn lemma_find_first(s: Seq<char>, p: Seq<char>, k: int)
    requires
        occurs_at(s, p, k),
        forall|m: int| 0 <= m < k ==> !occurs_at(s, p, m),
    ensures
        find(s, p) == Some(k),
{
    lemma_find_from(s, p, 0);
    match find(s, p) {
        Some(j) => {
            if j < k {
                assert(!occurs_at(s, p, j));
            }
            if j > k {
                assert(!occurs_at(s, p, k));
            }
        },
        None => {
            assert(!occurs_at(s, p, k));
        },
    }
}

/// Text with no white space at either end is its own trim.
proof fn lemma_trim_unchanged(s: Seq<char>)
    requires
        s.len() > 0,
        !is_ws(s[0]),
        !is_ws(s[s.len() - 1]),
    ensures
        trim(s) == s,
{
    assert(crate::text::skip_ws(s, 0) == 0);
    assert(crate::text::back_ws(s, 0, s.len() as int) == s.len());
    assert(s.subrange(0, s.len() as int) =~= s);
}

proof fn lemma_digits_not_ws(n: nat)
    ensures
        decimal(n).len() > 0,
        all_ascii_digits(decimal(n)),
        trim(decimal(n)) == decimal(n),
        forall|i: int| 0 <= i < decimal(n).len() ==> #[trigger] decimal(n)[i] != ',' && decimal(n)[i] != ' ',
{
    lemma_decimal_digits(n);
    let t = decimal(n);
    assert(crate::text::is_ascii_digit(t[0]));
    assert(crate::text::is_ascii_digit(t[t.len() - 1]));
    lemma_trim_unchanged(t);
    assert forall|i: int| 0 <= i < t.len() implies #[trigger] t[i] != ',' && t[i] != ' ' by {
        assert(crate::text::is_ascii_digit(t[i]));
    }
}

proof fn lemma_month_name(m: int)
    requires
        1 <= m <= 12,
    ensures
        month_name(m).len() > 0,
        all_letters(month_name(m)),
        month_number(month_name(m)) == Some(m as nat),
{
    reveal_strlit("January");
    reveal_strlit("February");
    reveal_strlit("March");
    reveal_strlit("April");
    reveal_strlit("May");
    reveal_strlit("June");
    reveal_strlit("July");
    reveal_strlit("August");
    reveal_strlit("September");
    reveal_strlit("October");
    reveal_strlit("November");
    reveal_strlit("December");
    let n = month_name(m);
    assert(all_letters(n));
    assert(n.len() > 0);
    if m == 1 {
    } else if m == 2 {
        assert(n[0] != "January"@[0]);
    } else if m == 3 {
        assert(n[0] != "January"@[0] && n[0] != "February"@[0]);
    } else if m == 4 {
        assert(n[0] != "January"@[0] && n[0] != "February"@[0] && n[1] != "March"@[1]);
    } else if m == 5 {
        assert(n[0] != "January"@[0] && n[0] != "February"@[0] && n.len() != "March"@.len() && n[0] != "April"@[0]);
    } else if m == 6 {
        assert(n.len() != "January"@.len() && n[0] != "February"@[0] && n[0] != "March"@[0] && n[0] != "April"@[0] && n[0] != "May"@[0]);
    } else if m == 7 {
        assert(n.len() != "January"@.len() && n[0] != "February"@[0] && n[0] != "March"@[0] && n[0] != "April"@[0] && n[0] != "May"@[0] && n[2] != "June"@[2]);
    } else if m == 8 {
        assert(n[0] != "January"@[0] && n[0] != "February"@[0] && n[0] != "March"@[0] && n[1] != "April"@[1] && n[0] != "May"@[0] && n[0] != "June"@[0] && n[0] != "July"@[0]);
    } else if m == 9 {
        assert(n[0] != "January"@[0] && n[0] != "February"@[0] && n[0] != "March"@[0] && n[0] != "April"@[0] && n[0] != "May"@[0] && n[0] != "June"@[0] && n[0] != "July"@[0] && n[0] != "August"@[0]);
    } else if m == 10 {
        assert(n[0] != "January"@[0] && n[0] != "February"@[0] && n[0] != "March"@[0] && n[0] != "April"@[0] && n[0] != "May"@[0] && n[0] != "June"@[0] && n[0] != "July"@[0] && n[0] != "August"@[0] && n[0] != "September"@[0]);
    } else if m == 11 {
        assert(n[0] != "January"@[0] && n[0] != "February"@[0] && n[0] != "March"@[0] && n[0] != "April"@[0] && n[0] != "May"@[0] && n[0] != "June"@[0] && n[0] != "July"@[0] && n[0] != "August"@[0] && n[0] != "September"@[0] && n[0] != "October"@[0]);
    } else {
        assert(n[0] != "January"@[0] && n[0] != "February"@[0] && n[0] != "March"@[0] && n[0] != "April"@[0] && n[0] != "May"@[0] && n[0] != "June"@[0] && n[0] != "July"@[0] && n[0] != "August"@[0] && n[0] != "September"@[0] && n[0] != "October"@[0] && n[0] != "November"@[0]);
    }
}

/// Reading "N D, Y" for a name `N` of letters.
proof fn lemma_legacy_parts(name: Seq<char>, d: nat, y: nat, mo: nat)
    requires
        name.len() > 0,
        all_letters(name),
        month_number(name) == Some(mo),
        mo <= 12,
        y * 10000 + mo * 100 + d <= u64::MAX,
    ensures
        legacy_month_date(name + seq![' '] + decimal(d) + ", "@ + decimal(y)) == Some((y * 10000 + mo * 100 + d) as u64),
{
    reveal_strlit(", ");
    let dd = decimal(d);
    let yy = decimal(y);
    let s = name + seq![' '] + dd + ", "@ + yy;
    lemma_digits_not_ws(d);
    lemma_digits_not_ws(y);
    let nl = name.len() as int;
    let k: int = nl + 1 + dd.len();
    assert(s.subrange(k, k + 2) =~= ", "@);
    assert(occurs_at(s, ", "@, k));
    assert forall|m: int| 0 <= m < k implies !occurs_at(s, ", "@, m) by {
        if occurs_at(s, ", "@, m) {
            assert(s.subrange(m, m + 2)[0] == ',');
            assert(s[m] == ',');
            if m < nl {
                assert(s[m] == name[m]);
                assert(is_ascii_alpha(name[m]));
            } else if m == nl {
            } else {
                assert(s[m] == dd[m - nl - 1]);
            }
        }
    }
    lemma_find_first(s, ", "@, k);
    let md = s.take(k);
    assert(md =~= name + seq![' '] + dd);
    assert(s.skip(k + 2) =~= yy);
    lemma_parse_decimal(y, u64::MAX as nat);
    assert(md.subrange(nl, nl + 1) =~= seq![' ']);
    assert forall|m: int| 0 <= m < nl implies !occurs_at(md, seq![' '], m) by {
        if occurs_at(md, seq![' '], m) {
            assert(md.subrange(m, m + 1)[0] == ' ');
            assert(md[m] == name[m]);
            assert(is_ascii_alpha(name[m]));
        }
    }
    lemma_find_first(md, seq![' '], nl);
    assert(md.skip(nl + 1) =~= dd);
    lemma_parse_decimal(d, u64::MAX as nat);
    assert(md.take(nl) =~= name);
    assert(is_ascii_alpha(name[0]));
    assert(is_ascii_alpha(name[nl - 1]));
    lemma_trim_unchanged(name);
    assert(y * 10000 < 0x1_0000_0000_0000_0000) by (nonlinear_arith)
        requires y * 10000 + mo * 100 + d <= u64::MAX;
    vstd::arithmetic::div_mod::lemma_small_mod(y * 10000, 0x1_0000_0000_0000_0000);
    assert(u64_specs::wrapping_mul(y as u64, 10000) == y * 10000);
}

/// A legacy date reads as its year, month and day in one number: "Month D,
/// Y" is `Y * 10000 + M * 100 + D` with January as 1 and December as 12
/// ("June 20, 2024" is 20240620), for every day and year whose number fits.
pub proof fn law_legacy_date_value(m: int, d: nat, y: nat)
    requires
        1 <= m <= 12,
        y * 10000 + m * 100 + d <= u64::MAX,
    ensures
        legacy_month_date(legacy_date_text(m, d, y)) == Some((y * 10000 + m * 100 + d) as u64),
{
    lemma_month_name(m);
    lemma_legacy_parts(month_name(m), d, y, m as nat);
}

/// Text without `c` loses nothing when `c` is removed.
proof fn lemma_remove_absent(s: Seq<char>, c: char)
    requires
        forall|i: int| 0 <= i < s.len() ==> #[trigger] s[i] != c,
    ensures
        remove_char(s, c) == s,
    decreases s.len(),
{
    if s.len() > 0 {
        let t = s.drop_last();
        assert forall|i: int| 0 <= i < t.len() implies #[trigger] t[i] != c by {
            assert(t[i] == s[i]);
        }
        lemma_remove_absent(t, c);
        assert(t.push(s.last()) =~= s);
    }
}

/// A legacy date is compared by its date: its version number is the value
/// of `law_legacy_date_value`.
pub proof fn law_legacy_version_number(m: int, d: nat, y: nat)
    requires
        1 <= m <= 12,
        y * 10000 + m * 100 + d <= u64::MAX,
    ensures
        version_number(legacy_date_text(m, d, y)) == (y * 10000 + m * 100 + d) as u64,
{
    let s = legacy_date_text(m, d, y);
    let n = month_name(m);
    lemma_month_name(m);
    lemma_digits_not_ws(d);
    lemma_digits_not_ws(y);
    law_legacy_date_value(m, d, y);
    let dd = decimal(d);
    let yy = decimal(y);
    reveal_strlit(", ");
    assert(s =~= n + seq![' '] + dd + ", "@ + yy);
    assert forall|i: int| 0 <= i < s.len() implies #[trigger] s[i] != '-' by {
        let nl = n.len() as int;
        if i < nl {
            assert(s[i] == n[i]);
            assert(is_ascii_alpha(n[i]));
        } else if i == nl {
        } else if i < nl + 1 + dd.len() {
            assert(s[i] == dd[i - nl - 1]);
            assert(crate::text::is_ascii_digit(dd[i - nl - 1]));
        } else if i < nl + 3 + dd.len() {
        } else {
            assert(s[i] == yy[i - nl - 3 - dd.len()]);
            assert(crate::text::is_ascii_digit(yy[i - nl - 3 - dd.len()]));
        }
    }
    lemma_remove_absent(s, '-');
    assert(s[0] == n[0]);
    assert(is_ascii_alpha(n[0]));
    assert(!crate::text::is_ascii_digit(s[0]));
    assert(parse_unsigned(s, u64::MAX as nat) is None);
    lemma_find_from(s, seq!['-'], 0);
    if let Some(k) = find(s, seq!['-']) {
        assert(s.subrange(k, k + 1)[0] == s[k]);
    }
    assert(before_char(s, '-') == s);
    assert(s[s.len() - 1] == yy[yy.len() - 1]);
    assert(crate::text::is_ascii_digit(yy[yy.len() - 1]));
    lemma_trim_unchanged(s);
}

/// Between two legacy dates, the later date is the newer version: a later
/// year, else a later month, else a later day.
pub proof fn law_legacy_dates_ordered(m1: int, d1: nat, y1: nat, m2: int, d2: nat, y2: nat)
    requires
        1 <= m1 <= 12,
        1 <= m2 <= 12,
        d1 <= 99,
        d2 <= 99,
        y1 <= 1_000_000_000_000,
        y2 <= 1_000_000_000_000,
    ensures
        newer(legacy_date_text(m1, d1, y1), Some(legacy_date_text(m2, d2, y2)))
            <==> (y1 > y2 || (y1 == y2 && (m1 > m2 || (m1 == m2 && d1 > d2)))),
{
    assert(y1 * 10000 + m1 * 100 + d1 <= u64::MAX) by (nonlinear_arith)
        requires y1 <= 1_000_000_000_000, m1 <= 12, d1 <= 99;
    assert(y2 * 10000 + m2 * 100 + d2 <= u64::MAX) by (nonlinear_arith)
        requires y2 <= 1_000_000_000_000, m2 <= 12, d2 <= 99;
    law_legacy_version_number(m1, d1, y1);
    law_legacy_version_number(m2, d2, y2);
    assert((y1 * 10000 + m1 * 100 + d1 > y2 * 10000 + m2 * 100 + d2)
        <==> (y1 > y2 || (y1 == y2 && (m1 > m2 || (m1 == m2 && d1 > d2))))) by (nonlinear_arith)
        requires 1 <= m1 <= 12, 1 <= m2 <= 12, d1 <= 99, d2 <= 99;
}

} // verus!
