//! The line grammars of the rules documents: the anchored line shapes
//! (rule numbers, section headers, appendix headers), the version phrases,
//! and the cross-reference rewrites. Each is a spec function stating what a
//! Unicode-aware regular expression of that shape matches, with an exec
//! function proved to compute it.
use vstd::prelude::*;
use crate::text::{
    chars_of, is_ascii_lower, is_digit, is_digit_class, is_word,
    is_word_class, occurs_at, occurs_at_exec, skip_ws,
    skip_ws_from, subvec, ascii_lower_char, to_ascii_lower, append, append_str,
};

verus! {

// ── Runs ──────────────────────────────────────────────────────────────────

/// End of the run of `\d` characters starting at `i`.
pub open spec fn digit_run(s: Seq<char>, i: int) -> int
    decreases s.len() - i,
{
    if 0 <= i < s.len() && is_digit_class(s[i]) { digit_run(s, i + 1) } else { i }
}

/// End of the run of `\w` characters starting at `i`.
pub open spec fn word_run(s: Seq<char>, i: int) -> int
    decreases s.len() - i,
{
    if 0 <= i < s.len() && is_word_class(s[i]) { word_run(s, i + 1) } else { i }
}

/// A letter of `[A-Za-z]` under case-insensitive matching: the ASCII letters,
/// LATIN SMALL LETTER LONG S (folds to `s`) and KELVIN SIGN (folds to `k`).
pub open spec fn is_ci_letter(c: char) -> bool {
    ('a' <= ascii_lower_char(c) && ascii_lower_char(c) <= 'z') || c == '\u{17F}' || c == '\u{212A}'
}

/// End of the run of case-insensitive `[A-Za-z]` letters starting at `i`.
pub open spec fn ci_letter_run(s: Seq<char>, i: int) -> int
    decreases s.len() - i,
{
    if 0 <= i < s.len() && is_ci_letter(s[i]) { ci_letter_run(s, i + 1) } else { i }
}

/// `c` matches the ASCII letter `l` under simple case folding.
pub open spec fn ci_eq(c: char, l: char) -> bool {
    ascii_lower_char(c) == ascii_lower_char(l)
        || (ascii_lower_char(l) == 's' && c == '\u{17F}')
        || (ascii_lower_char(l) == 'k' && c == '\u{212A}')
}

/// The ASCII word `p` occurs at `i` under case-insensitive matching.
pub open spec fn ci_occurs_at(s: Seq<char>, p: Seq<char>, i: int) -> bool {
    0 <= i && i + p.len() <= s.len() && forall|k: int| 0 <= k < p.len() ==> ci_eq(#[trigger] s[i + k], p[k])
}

pub open spec fn char_at(s: Seq<char>, i: int, c: char) -> bool {
    0 <= i < s.len() && s[i] == c
}

/// `n` characters of `\d` start at `i`.
pub open spec fn digits_at(s: Seq<char>, i: int, n: int) -> bool {
    0 <= i && i + n <= s.len() && forall|k: int| i <= k < i + n ==> is_digit_class(#[trigger] s[k])
}

pub open spec fn no_newline_from(s: Seq<char>, j: int) -> bool {
    forall|k: int| j <= k < s.len() ==> #[trigger] s[k] != '\n'
}

/// Where `(.+)$` begins after `\s{min,}` at `i`: the greedy white-space run is
/// given back one character when nothing else is left.
pub open spec fn rest_after_ws(s: Seq<char>, i: int, min: int) -> Option<int> {
    let j = skip_ws(s, i);
    if j - i < min {
        None
    } else if j < s.len() {
        if no_newline_from(s, j) { Some(j) } else { None }
    } else if j - i >= min + 1 && s.len() > 0 && s[s.len() - 1] != '\n' {
        Some(s.len() - 1)
    } else {
        None
    }
}

/// `\b` before index `i`, where `s[i]` is a word character.
pub open spec fn boundary_before(s: Seq<char>, i: int) -> bool {
    i == 0 || !is_word_class(s[i - 1])
}

/// `\b` after index `j - 1`, where `s[j - 1]` is a word character.
pub open spec fn boundary_after(s: Seq<char>, j: int) -> bool {
    j == s.len() || !is_word_class(s[j])
}

/// End of `(?:\.\d+)*` starting at `k`.
pub open spec fn dotted_end(s: Seq<char>, k: int) -> int
    decreases s.len() - k,
    via dotted_end_decreases
{
    if 0 <= k && char_at(s, k, '.') && digit_run(s, k + 1) > k + 1 {
        dotted_end(s, digit_run(s, k + 1))
    } else {
        k
    }
}

#[via_fn]
proof fn dotted_end_decreases(s: Seq<char>, k: int) {
    if 0 <= k && char_at(s, k, '.') {
        lemma_digit_run(s, k + 1);
    }
}

pub proof fn lemma_digit_run(s: Seq<char>, i: int)
    requires
        0 <= i <= s.len(),
    ensures
        i <= digit_run(s, i) <= s.len(),
        forall|k: int| i <= k < digit_run(s, i) ==> is_digit_class(#[trigger] s[k]),
        digit_run(s, i) < s.len() ==> !is_digit_class(s[digit_run(s, i)]),
    decreases s.len() - i,
{
    if i < s.len() && is_digit_class(s[i]) {
        lemma_digit_run(s, i + 1);
    }
}

pub proof fn lemma_word_run(s: Seq<char>, i: int)
    requires
        0 <= i <= s.len(),
    ensures
        i <= word_run(s, i) <= s.len(),
    decreases s.len() - i,
{
    if i < s.len() && is_word_class(s[i]) {
        lemma_word_run(s, i + 1);
    }
}

pub proof fn lemma_ci_letter_run(s: Seq<char>, i: int)
    requires
        0 <= i <= s.len(),
    ensures
        i <= ci_letter_run(s, i) <= s.len(),
    decreases s.len() - i,
{
    if i < s.len() && is_ci_letter(s[i]) {
        lemma_ci_letter_run(s, i + 1);
    }
}

pub proof fn lemma_dotted_end(s: Seq<char>, k: int)
    requires
        0 <= k <= s.len(),
    ensures
        k <= dotted_end(s, k) <= s.len(),
    decreases s.len() - k,
{
    if char_at(s, k, '.') && digit_run(s, k + 1) > k + 1 {
        lemma_digit_run(s, k + 1);
        lemma_dotted_end(s, digit_run(s, k + 1));
    }
}

pub fn digit_run_exec(s: &[char], i: usize) -> (r: usize)
    requires
        i <= s@.len(),
    ensures
        r == digit_run(s@, i as int),
        i <= r <= s@.len(),
{
    proof { lemma_digit_run(s@, i as int); }
    let mut k = i;
    while k < s.len() && is_digit(s[k])
        invariant
            i <= k <= s@.len(),
            digit_run(s@, k as int) == digit_run(s@, i as int),
        decreases s.len() - k,
    {
        k = k + 1;
    }
    k
}

pub fn word_run_exec(s: &[char], i: usize) -> (r: usize)
    requires
        i <= s@.len(),
    ensures
        r == word_run(s@, i as int),
        i <= r <= s@.len(),
{
    proof { lemma_word_run(s@, i as int); }
    let mut k = i;
    while k < s.len() && is_word(s[k])
        invariant
            i <= k <= s@.len(),
            word_run(s@, k as int) == word_run(s@, i as int),
        decreases s.len() - k,
    {
        k = k + 1;
    }
    k
}

pub fn is_ci_letter_exec(c: char) -> (r: bool)
    ensures
        r == is_ci_letter(c),
{
    let l = to_ascii_lower(c);
    ('a' <= l && l <= 'z') || c == '\u{17F}' || c == '\u{212A}'
}

pub fn ci_letter_run_exec(s: &[char], i: usize) -> (r: usize)
    requires
        i <= s@.len(),
    ensures
        r == ci_letter_run(s@, i as int),
        i <= r <= s@.len(),
{
    proof { lemma_ci_letter_run(s@, i as int); }
    let mut k = i;
    while k < s.len() && is_ci_letter_exec(s[k])
        invariant
            i <= k <= s@.len(),
            ci_letter_run(s@, k as int) == ci_letter_run(s@, i as int),
        decreases s.len() - k,
    {
        k = k + 1;
    }
    k
}

fn ci_eq_exec(c: char, l: char) -> (r: bool)
    ensures
        r == ci_eq(c, l),
{
    let lc = to_ascii_lower(c);
    let ll = to_ascii_lower(l);
    lc == ll || (ll == 's' && c == '\u{17F}') || (ll == 'k' && c == '\u{212A}')
}

pub fn ci_occurs_at_exec(s: &[char], p: &[char], i: usize) -> (r: bool)
    ensures
        r == ci_occurs_at(s@, p@, i as int),
{
    let n = s.len();
    if i > n || p.len() > n - i {
        return false;
    }
    let mut k: usize = 0;
    while k < p.len()
        invariant
            n == s@.len(),
            i + p@.len() <= n,
            0 <= k <= p@.len(),
            forall|m: int| 0 <= m < k ==> ci_eq(#[trigger] s@[i + m], p@[m]),
        decreases p.len() - k,
    {
        assert(i + k < n);
        if !ci_eq_exec(s[i + k], p[k]) {
            return false;
        }
        k = k + 1;
    }
    true
}

pub fn char_at_exec(s: &[char], i: usize, c: char) -> (r: bool)
    ensures
        r == char_at(s@, i as int, c),
{
    i < s.len() && s[i] == c
}

pub fn digits_at_exec(s: &[char], i: usize, n: usize) -> (r: bool)
    ensures
        r == digits_at(s@, i as int, n as int),
{
    let len = s.len();
    if i > len || n > len - i {
        return false;
    }
    let mut k: usize = 0;
    while k < n
        invariant
            len == s@.len(),
            i + n <= len,
            0 <= k <= n,
            forall|m: int| i <= m < i + k ==> is_digit_class(#[trigger] s@[m]),
        decreases n - k,
    {
        if !is_digit(s[i + k]) {
            return false;
        }
        k = k + 1;
    }
    true
}

fn no_newline_from_exec(s: &[char], j: usize) -> (r: bool)
    requires
        j <= s@.len(),
    ensures
        r == no_newline_from(s@, j as int),
{
    let mut k = j;
    while k < s.len()
        invariant
            j <= k <= s@.len(),
            forall|m: int| j <= m < k ==> #[trigger] s@[m] != '\n',
        decreases s.len() - k,
    {
        if s[k] == '\n' {
            return false;
        }
        k = k + 1;
    }
    true
}

pub fn rest_after_ws_exec(s: &[char], i: usize, min: usize) -> (r: Option<usize>)
    requires
        i <= s@.len(),
        min <= 1,
    ensures
        match r {
            Some(t) => rest_after_ws(s@, i as int, min as int) == Some(t as int) && t < s@.len(),
            None => rest_after_ws(s@, i as int, min as int) is None,
        },
{
    let j = skip_ws_from(s, i);
    if j - i < min {
        None
    } else if j < s.len() {
        if no_newline_from_exec(s, j) { Some(j) } else { None }
    } else if j - i >= min + 1 && s.len() > 0 && s[s.len() - 1] != '\n' {
        Some(s.len() - 1)
    } else {
        None
    }
}

pub fn boundary_before_exec(s: &[char], i: usize) -> (r: bool)
    requires
        i <= s@.len(),
    ensures
        r == boundary_before(s@, i as int),
{
    i == 0 || !is_word(s[i - 1])
}

pub fn boundary_after_exec(s: &[char], j: usize) -> (r: bool)
    requires
        j <= s@.len(),
    ensures
        r == boundary_after(s@, j as int),
{
    j == s.len() || !is_word(s[j])
}

pub fn dotted_end_exec(s: &[char], k: usize) -> (r: usize)
    requires
        k <= s@.len(),
    ensures
        r == dotted_end(s@, k as int),
        k <= r <= s@.len(),
{
    proof { lemma_dotted_end(s@, k as int); }
    let mut e = k;
    loop
        invariant
            k <= e <= s@.len(),
            dotted_end(s@, e as int) == dotted_end(s@, k as int),
        decreases s.len() - e,
    {
        if char_at_exec(s, e, '.') {
            let d = digit_run_exec(s, e + 1);
            if d > e + 1 {
                e = d;
                continue;
            }
        }
        return e;
    }
}

// ── Anchored line shapes ──────────────────────────────────────────────────

/// The two captures of a match, as views.
pub open spec fn caps_view(r: Option<(Vec<char>, Vec<char>)>) -> Option<(Seq<char>, Seq<char>)> {
    match r {
        Some((a, b)) => Some((a@, b@)),
        None => None,
    }
}

/// `^(\d{3}\.\d+)\.\s+(.+)$` — a numbered rule, "100.1. Text".
pub open spec fn cr_rule_match(s: Seq<char>) -> Option<(Seq<char>, Seq<char>)> {
    if digits_at(s, 0, 3) && char_at(s, 3, '.') && digit_run(s, 4) > 4 && char_at(s, digit_run(s, 4), '.') {
        match rest_after_ws(s, digit_run(s, 4) + 1, 1) {
            Some(t) => Some((s.take(digit_run(s, 4)), s.skip(t))),
            None => None,
        }
    } else {
        None
    }
}

/// `^(\d{3}\.\d+[a-z])\s+(.+)$` — a lettered subrule, "100.1a Text".
pub open spec fn cr_subrule_match(s: Seq<char>) -> Option<(Seq<char>, Seq<char>)> {
    let k = digit_run(s, 4);
    if digits_at(s, 0, 3) && char_at(s, 3, '.') && k > 4 && k < s.len() && is_ascii_lower(s[k]) {
        match rest_after_ws(s, k + 1, 1) {
            Some(t) => Some((s.take(k + 1), s.skip(t))),
            None => None,
        }
    } else {
        None
    }
}

/// `^(\d{3})\.\s+(.+)$` — a subsection header, "100. General".
pub open spec fn cr_subsection_match(s: Seq<char>) -> Option<(Seq<char>, Seq<char>)> {
    if digits_at(s, 0, 3) && char_at(s, 3, '.') {
        match rest_after_ws(s, 4, 1) {
            Some(t) => Some((s.take(3), s.skip(t))),
            None => None,
        }
    } else {
        None
    }
}

/// `^(\d)\.\s+(.+)$` — a one-digit section header, "1. Game Concepts".
pub open spec fn cr_section_match(s: Seq<char>) -> Option<(Seq<char>, Seq<char>)> {
    if digits_at(s, 0, 1) && char_at(s, 1, '.') {
        match rest_after_ws(s, 2, 1) {
            Some(t) => Some((s.take(1), s.skip(t))),
            None => None,
        }
    } else {
        None
    }
}

/// `^(\d{3}\.\d+)` — the rule a subrule number belongs to.
pub open spec fn cr_parent_match(s: Seq<char>) -> Option<Seq<char>> {
    if digits_at(s, 0, 3) && char_at(s, 3, '.') && digit_run(s, 4) > 4 {
        Some(s.take(digit_run(s, 4)))
    } else {
        None
    }
}

/// `^\d+$` — a bare page number.
pub open spec fn only_digits(s: Seq<char>) -> bool {
    s.len() > 0 && digit_run(s, 0) == s.len()
}

/// `^(\d+)\.\s+(.+)$` — a numbered section header, "1. Tournament Basics".
pub open spec fn numbered_section_match(s: Seq<char>) -> Option<(Seq<char>, Seq<char>)> {
    let k = digit_run(s, 0);
    if k > 0 && char_at(s, k, '.') {
        match rest_after_ws(s, k + 1, 1) {
            Some(t) => Some((s.take(k), s.skip(t))),
            None => None,
        }
    } else {
        None
    }
}

/// End of a dotted number `\d+\.\d+(?:\.\d+)*` at the start of `s`, if any.
pub open spec fn dotted_number_end(s: Seq<char>) -> Option<int> {
    let k1 = digit_run(s, 0);
    if k1 > 0 && char_at(s, k1, '.') && digit_run(s, k1 + 1) > k1 + 1 {
        Some(dotted_end(s, digit_run(s, k1 + 1)))
    } else {
        None
    }
}

/// `^(\d+\.\d+(?:\.\d+)*)\s+(.+)$` — a tournament-rules subsection, "1.1 Definitions".
pub open spec fn mtr_subsection_match(s: Seq<char>) -> Option<(Seq<char>, Seq<char>)> {
    match dotted_number_end(s) {
        Some(e) => match rest_after_ws(s, e, 1) {
            Some(t) => Some((s.take(e), s.skip(t))),
            None => None,
        },
        None => None,
    }
}

/// `^(\d+\.\d+(?:\.\d+)*)\.?\s+(.+)$` — an infraction-guide subsection, "2.1. Title".
pub open spec fn ipg_subsection_match(s: Seq<char>) -> Option<(Seq<char>, Seq<char>)> {
    match dotted_number_end(s) {
        Some(e) => match rest_after_ws(s, if char_at(s, e, '.') { e + 1 } else { e }, 1) {
            Some(t) => Some((s.take(e), s.skip(t))),
            None => None,
        },
        None => None,
    }
}

pub open spec fn appendix_letter(c: char, ci: bool) -> bool {
    if ci { is_ci_letter(c) } else { 'A' <= c && c <= 'Z' }
}

/// `^(Appendix\s+[A-Z])\s*\u{2014}\s*(.+)$`, case-insensitively when `ci`.
pub open spec fn appendix_match(s: Seq<char>, ci: bool) -> Option<(Seq<char>, Seq<char>)> {
    let j = skip_ws(s, 8);
    let m = skip_ws(s, j + 1);
    if (if ci { ci_occurs_at(s, "Appendix"@, 0) } else { occurs_at(s, "Appendix"@, 0) })
        && j > 8 && j < s.len() && appendix_letter(s[j], ci) && char_at(s, m, '\u{2014}') {
        match rest_after_ws(s, m + 1, 0) {
            Some(t) => Some((s.take(j + 1), s.skip(t))),
            None => None,
        }
    } else {
        None
    }
}

pub open spec fn is_range_char(c: char) -> bool {
    is_digit_class(c) || c == '\u{2013}' || c == '-' || c == '+'
}

/// End of the run of `[\d\u{2013}\-+]` characters starting at `i`.
pub open spec fn range_run(s: Seq<char>, i: int) -> int
    decreases s.len() - i,
{
    if 0 <= i < s.len() && is_range_char(s[i]) { range_run(s, i + 1) } else { i }
}

/// `^(\d+[\d\u{2013}\-+]*(?:\s*\([^)]*\))?)\s+(.+)$` — a row of the recommended
/// rounds table: the player count (with an optional parenthesised note), then the rest.
pub open spec fn rounds_row_match(s: Seq<char>) -> Option<(Seq<char>, Seq<char>)> {
    let k = digit_run(s, 0);
    let c = range_run(s, k);
    let g = skip_ws(s, c);
    let with_note: Option<(Seq<char>, Seq<char>)> =
        if k > 0 && char_at(s, g, '(') {
            match find_char_from(s, ')', g + 1) {
                Some(p) => match rest_after_ws(s, p + 1, 1) {
                    Some(t) => Some((s.take(p + 1), s.skip(t))),
                    None => None,
                },
                None => None,
            }
        } else {
            None
        };
    if k == 0 {
        None
    } else if with_note is Some {
        with_note
    } else {
        match rest_after_ws(s, c, 1) {
            Some(t) => Some((s.take(c), s.skip(t))),
            None => None,
        }
    }
}

/// The first index at or after `i` holding `c`.
pub open spec fn find_char_from(s: Seq<char>, c: char, i: int) -> Option<int>
    decreases s.len() - i,
{
    if i < 0 || i >= s.len() {
        None
    } else if s[i] == c {
        Some(i)
    } else {
        find_char_from(s, c, i + 1)
    }
}

pub proof fn lemma_range_run(s: Seq<char>, i: int)
    requires
        0 <= i <= s.len(),
    ensures
        i <= range_run(s, i) <= s.len(),
    decreases s.len() - i,
{
    if i < s.len() && is_range_char(s[i]) {
        lemma_range_run(s, i + 1);
    }
}

pub proof fn lemma_find_char_from(s: Seq<char>, c: char, i: int)
    requires
        0 <= i,
    ensures
        find_char_from(s, c, i) matches Some(p) ==> i <= p < s.len() && s[p] == c,
    decreases s.len() - i,
{
    if i < s.len() && s[i] != c {
        lemma_find_char_from(s, c, i + 1);
    }
}

pub fn find_char_from_exec(s: &[char], c: char, i: usize) -> (r: Option<usize>)
    ensures
        match r {
            Some(p) => find_char_from(s@, c, i as int) == Some(p as int) && i <= p < s@.len(),
            None => find_char_from(s@, c, i as int) is None,
        },
{
    proof { lemma_find_char_from(s@, c, i as int); }
    let mut k = i;
    while k < s.len()
        invariant
            i <= k,
            find_char_from(s@, c, k as int) == find_char_from(s@, c, i as int),
        decreases s.len() - k,
    {
        if s[k] == c {
            return Some(k);
        }
        k = k + 1;
    }
    None
}

fn range_run_exec(s: &[char], i: usize) -> (r: usize)
    requires
        i <= s@.len(),
    ensures
        r == range_run(s@, i as int),
        i <= r <= s@.len(),
{
    proof { lemma_range_run(s@, i as int); }
    let mut k = i;
    while k < s.len() && (is_digit(s[k]) || s[k] == '\u{2013}' || s[k] == '-' || s[k] == '+')
        invariant
            i <= k <= s@.len(),
            range_run(s@, k as int) == range_run(s@, i as int),
        decreases s.len() - k,
    {
        k = k + 1;
    }
    k
}

fn split_caps(s: &[char], a: usize, t: usize) -> (r: Option<(Vec<char>, Vec<char>)>)
    requires
        a <= s@.len(),
        t <= s@.len(),
    ensures
        caps_view(r) == Some((s@.take(a as int), s@.skip(t as int))),
{
    let x = subvec(s, 0, a);
    let y = subvec(s, t, s.len());
    assert(x@ =~= s@.take(a as int));
    assert(y@ =~= s@.skip(t as int));
    Some((x, y))
}

pub fn cr_rule_exec(s: &[char]) -> (r: Option<(Vec<char>, Vec<char>)>)
    ensures
        caps_view(r) == cr_rule_match(s@),
{
    let len = s.len();
    if digits_at_exec(s, 0, 3) && char_at_exec(s, 3, '.') {
        let k = digit_run_exec(s, 4);
        if k > 4 && char_at_exec(s, k, '.') {
            if let Some(t) = rest_after_ws_exec(s, k + 1, 1) {
                return split_caps(s, k, t);
            }
        }
    }
    None
}

pub fn cr_subrule_exec(s: &[char]) -> (r: Option<(Vec<char>, Vec<char>)>)
    ensures
        caps_view(r) == cr_subrule_match(s@),
{
    let len = s.len();
    if digits_at_exec(s, 0, 3) && char_at_exec(s, 3, '.') {
        let k = digit_run_exec(s, 4);
        if k > 4 && k < s.len() && 'a' <= s[k] && s[k] <= 'z' {
            if let Some(t) = rest_after_ws_exec(s, k + 1, 1) {
                return split_caps(s, k + 1, t);
            }
        }
    }
    None
}

pub fn cr_subsection_exec(s: &[char]) -> (r: Option<(Vec<char>, Vec<char>)>)
    ensures
        caps_view(r) == cr_subsection_match(s@),
{
    if digits_at_exec(s, 0, 3) && char_at_exec(s, 3, '.') {
        if let Some(t) = rest_after_ws_exec(s, 4, 1) {
            return split_caps(s, 3, t);
        }
    }
    None
}

pub fn cr_section_exec(s: &[char]) -> (r: Option<(Vec<char>, Vec<char>)>)
    ensures
        caps_view(r) == cr_section_match(s@),
{
    if digits_at_exec(s, 0, 1) && char_at_exec(s, 1, '.') {
        if let Some(t) = rest_after_ws_exec(s, 2, 1) {
            return split_caps(s, 1, t);
        }
    }
    None
}

pub fn cr_parent_exec(s: &[char]) -> (r: Option<Vec<char>>)
    ensures
        match r {
            Some(p) => cr_parent_match(s@) == Some(p@),
            None => cr_parent_match(s@) is None,
        },
{
    let len = s.len();
    if digits_at_exec(s, 0, 3) && char_at_exec(s, 3, '.') {
        let k = digit_run_exec(s, 4);
        if k > 4 {
            let p = subvec(s, 0, k);
            assert(p@ =~= s@.take(k as int));
            return Some(p);
        }
    }
    None
}

pub fn only_digits_exec(s: &[char]) -> (r: bool)
    ensures
        r == only_digits(s@),
{
    s.len() > 0 && digit_run_exec(s, 0) == s.len()
}

pub fn numbered_section_exec(s: &[char]) -> (r: Option<(Vec<char>, Vec<char>)>)
    ensures
        caps_view(r) == numbered_section_match(s@),
{
    let len = s.len();
    let k = digit_run_exec(s, 0);
    if k > 0 && char_at_exec(s, k, '.') {
        if let Some(t) = rest_after_ws_exec(s, k + 1, 1) {
            return split_caps(s, k, t);
        }
    }
    None
}

fn dotted_number_end_exec(s: &[char]) -> (r: Option<usize>)
    ensures
        match r {
            Some(e) => dotted_number_end(s@) == Some(e as int) && e <= s@.len(),
            None => dotted_number_end(s@) is None,
        },
{
    let len = s.len();
    let k1 = digit_run_exec(s, 0);
    if k1 > 0 && char_at_exec(s, k1, '.') {
        let k2 = digit_run_exec(s, k1 + 1);
        if k2 > k1 + 1 {
            return Some(dotted_end_exec(s, k2));
        }
    }
    None
}

pub fn mtr_subsection_exec(s: &[char]) -> (r: Option<(Vec<char>, Vec<char>)>)
    ensures
        caps_view(r) == mtr_subsection_match(s@),
{
    if let Some(e) = dotted_number_end_exec(s) {
        if let Some(t) = rest_after_ws_exec(s, e, 1) {
            return split_caps(s, e, t);
        }
    }
    None
}

pub fn ipg_subsection_exec(s: &[char]) -> (r: Option<(Vec<char>, Vec<char>)>)
    ensures
        caps_view(r) == ipg_subsection_match(s@),
{
    let len = s.len();
    if let Some(e) = dotted_number_end_exec(s) {
        let from = if char_at_exec(s, e, '.') { e + 1 } else { e };
        if let Some(t) = rest_after_ws_exec(s, from, 1) {
            return split_caps(s, e, t);
        }
    }
    None
}

pub fn appendix_exec(s: &[char], ci: bool) -> (r: Option<(Vec<char>, Vec<char>)>)
    ensures
        caps_view(r) == appendix_match(s@, ci),
{
    let len = s.len();
    let word = chars_of("Appendix");
    proof { reveal_strlit("Appendix"); }
    let head = if ci { ci_occurs_at_exec(s, word.as_slice(), 0) } else { occurs_at_exec(s, word.as_slice(), 0) };
    if !head {
        return None;
    }
    let j = skip_ws_from(s, 8);
    if j > 8 && j < s.len() {
        let c = s[j];
        let letter = if ci { is_ci_letter_exec(c) } else { 'A' <= c && c <= 'Z' };
        if letter {
            let m = skip_ws_from(s, j + 1);
            if char_at_exec(s, m, '\u{2014}') {
                if let Some(t) = rest_after_ws_exec(s, m + 1, 0) {
                    return split_caps(s, j + 1, t);
                }
            }
        }
    }
    None
}

pub fn rounds_row_exec(s: &[char]) -> (r: Option<(Vec<char>, Vec<char>)>)
    ensures
        caps_view(r) == rounds_row_match(s@),
{
    let len = s.len();
    let k = digit_run_exec(s, 0);
    if k == 0 {
        return None;
    }
    let c = range_run_exec(s, k);
    let g = skip_ws_from(s, c);
    if char_at_exec(s, g, '(') {
        if let Some(p) = find_char_from_exec(s, ')', g + 1) {
            if let Some(t) = rest_after_ws_exec(s, p + 1, 1) {
                return split_caps(s, p + 1, t);
            }
        }
    }
    match rest_after_ws_exec(s, c, 1) {
        Some(t) => split_caps(s, c, t),
        None => None,
    }
}

// ── Version phrases ───────────────────────────────────────────────────────

/// Which phrase introduces a document's date.
pub enum VersionPhrase {
    /// `effective as of (\w+ \d+, \d{4})` (the Comprehensive Rules).
    EffectiveAsOf,
    /// `(?i)effective\s+(?:as\s+of\s+)?([A-Za-z]+\s+\d+,?\s+\d{4})`.
    Effective,
    /// `(?i)updated\s+([A-Za-z]+\s+\d+,?\s+\d{4})`.
    Updated,
}

/// `([A-Za-z]+\s+\d+,?\s+\d{4})` at `p`, case-insensitively.
pub open spec fn date_at(s: Seq<char>, p: int) -> Option<Seq<char>> {
    let a = ci_letter_run(s, p);
    let b = skip_ws(s, a);
    let d = digit_run(s, b);
    let c = if char_at(s, d, ',') { d + 1 } else { d };
    let e = skip_ws(s, c);
    if 0 <= p && a > p && b > a && d > b && e > c && digits_at(s, e, 4) {
        Some(s.subrange(p, e + 4))
    } else {
        None
    }
}

pub open spec fn version_at(style: VersionPhrase, s: Seq<char>, i: int) -> Option<Seq<char>> {
    match style {
        VersionPhrase::EffectiveAsOf => {
            let w = word_run(s, i + 16);
            let d = digit_run(s, w + 1);
            if occurs_at(s, "effective as of "@, i) && w > i + 16 && char_at(s, w, ' ') && d > w + 1
                && occurs_at(s, ", "@, d) && digits_at(s, d + 2, 4) {
                Some(s.subrange(i + 16, d + 6))
            } else {
                None
            }
        },
        VersionPhrase::Effective => {
            let j = skip_ws(s, i + 9);
            let k = skip_ws(s, j + 2);
            let m = skip_ws(s, k + 2);
            if ci_occurs_at(s, "effective"@, i) && j > i + 9 {
                if ci_occurs_at(s, "as"@, j) && k > j + 2 && ci_occurs_at(s, "of"@, k) && m > k + 2
                    && date_at(s, m) is Some {
                    date_at(s, m)
                } else {
                    date_at(s, j)
                }
            } else {
                None
            }
        },
        VersionPhrase::Updated => {
            let j = skip_ws(s, i + 7);
            if ci_occurs_at(s, "updated"@, i) && j > i + 7 { date_at(s, j) } else { None }
        },
    }
}

/// The date captured by the leftmost match of the phrase at or after `i`.
pub open spec fn version_search(style: VersionPhrase, s: Seq<char>, i: int) -> Option<Seq<char>>
    decreases s.len() - i,
{
    if i < 0 || i >= s.len() {
        None
    } else if version_at(style, s, i) is Some {
        version_at(style, s, i)
    } else {
        version_search(style, s, i + 1)
    }
}

fn lit(s: &str) -> (r: Vec<char>)
    ensures
        r@ == s@,
{
    chars_of(s)
}

fn date_at_exec(s: &[char], p: usize) -> (r: Option<Vec<char>>)
    requires
        p <= s@.len(),
    ensures
        match r {
            Some(v) => date_at(s@, p as int) == Some(v@),
            None => date_at(s@, p as int) is None,
        },
{
    let len = s.len();
    let a = ci_letter_run_exec(s, p);
    if a == p {
        return None;
    }
    let b = skip_ws_from(s, a);
    if b == a {
        return None;
    }
    let d = digit_run_exec(s, b);
    if d == b {
        return None;
    }
    let c = if char_at_exec(s, d, ',') { d + 1 } else { d };
    let e = skip_ws_from(s, c);
    if e > c && digits_at_exec(s, e, 4) {
        Some(subvec(s, p, e + 4))
    } else {
        None
    }
}

fn version_at_exec(style: &VersionPhrase, s: &[char], i: usize) -> (r: Option<Vec<char>>)
    requires
        i < s@.len(),
    ensures
        match r {
            Some(v) => version_at(*style, s@, i as int) == Some(v@),
            None => version_at(*style, s@, i as int) is None,
        },
{
    let len = s.len();
    match style {
        VersionPhrase::EffectiveAsOf => {
            let head = lit("effective as of ");
            proof { reveal_strlit("effective as of "); }
            if !occurs_at_exec(s, head.as_slice(), i) {
                return None;
            }
            let w = word_run_exec(s, i + 16);
            if w > i + 16 && char_at_exec(s, w, ' ') {
                let d = digit_run_exec(s, w + 1);
                let sep = lit(", ");
                proof { reveal_strlit(", "); }
                if d > w + 1 && occurs_at_exec(s, sep.as_slice(), d) && digits_at_exec(s, d + 2, 4) {
                    return Some(subvec(s, i + 16, d + 6));
                }
            }
            None
        },
        VersionPhrase::Effective => {
            let head = lit("effective");
            proof { reveal_strlit("effective"); }
            if !ci_occurs_at_exec(s, head.as_slice(), i) {
                return None;
            }
            let j = skip_ws_from(s, i + 9);
            if j == i + 9 {
                return None;
            }
            let as_w = lit("as");
            let of_w = lit("of");
            proof { reveal_strlit("as"); reveal_strlit("of"); }
            if ci_occurs_at_exec(s, as_w.as_slice(), j) {
                let k = skip_ws_from(s, j + 2);
                if k > j + 2 && ci_occurs_at_exec(s, of_w.as_slice(), k) {
                    let m = skip_ws_from(s, k + 2);
                    if m > k + 2 {
                        if let Some(v) = date_at_exec(s, m) {
                            return Some(v);
                        }
                    }
                }
            }
            date_at_exec(s, j)
        },
        VersionPhrase::Updated => {
            let head = lit("updated");
            proof { reveal_strlit("updated"); }
            if !ci_occurs_at_exec(s, head.as_slice(), i) {
                return None;
            }
            let j = skip_ws_from(s, i + 7);
            if j == i + 7 {
                return None;
            }
            date_at_exec(s, j)
        },
    }
}

/// The date of the leftmost version phrase in `s`.
pub fn find_version(style: &VersionPhrase, s: &[char]) -> (r: Option<Vec<char>>)
    ensures
        match r {
            Some(v) => version_search(*style, s@, 0) == Some(v@),
            None => version_search(*style, s@, 0) is None,
        },
{
    let mut i: usize = 0;
    while i < s.len()
        invariant
            version_search(*style, s@, i as int) == version_search(*style, s@, 0),
        decreases s.len() - i,
    {
        if let Some(v) = version_at_exec(style, s, i) {
            return Some(v);
        }
        i = i + 1;
    }
    None
}

// ── Cross-reference rewrites ──────────────────────────────────────────────

/// A replace-all rewrite of the document text.
#[derive(PartialEq, Eq, Structural)]
pub enum Rewrite {
    /// `\brules?\s+(\d{3}(?:\.\d+[a-z]?)?)` → a "rules" link to that rule.
    RuleRefs,
    /// `\bsection\s+(\d)\b` → a "section" link to that section.
    SectionDigitRefs,
    /// `\bsection\s+(\d+(?:\.\d+)*)` → a "section" link.
    SectionRefs,
    /// `\bsection\s+(\d+(?:\.\d+)*)\s+of\s+the\s+Magic\s+Tournament\s+Rules`
    /// → a link into the tournament rules.
    TournamentRulesRefs,
    /// `\bUpgrade:` → bold.
    BoldUpgrade,
    /// `\bDowngrade:` → bold.
    BoldDowngrade,
    /// `(?m)^(Upgrade|Downgrade)\n: ?` → the label and ": " on one line.
    JoinLabel,
}

/// A link to rule or section `num`, introduced by `word`.
pub open spec fn ref_link(word: Seq<char>, num: Seq<char>) -> Seq<char> {
    word + " <a href=\"#R"@ + num + "\" class=\"rule-ref\">"@ + num + "</a>"@
}

/// A link into the tournament rules.
pub open spec fn mtr_link(num: Seq<char>) -> Seq<char> {
    "section <a href=\"#R"@ + num + "\" class=\"rule-ref\" data-doc=\"mtr\">"@ + num
        + "</a> of the Magic Tournament Rules"@
}

pub open spec fn bold(label: Seq<char>) -> Seq<char> {
    "<strong>"@ + label + "</strong>"@
}

/// End of `\s+of\s+the\s+Magic\s+Tournament\s+Rules` starting at `e`.
pub open spec fn mtr_tail_end(s: Seq<char>, e: int) -> Option<int> {
    let a = skip_ws(s, e);
    let b = skip_ws(s, a + 2);
    let c = skip_ws(s, b + 3);
    let d = skip_ws(s, c + 5);
    let f = skip_ws(s, d + 10);
    if a > e && occurs_at(s, "of"@, a) && b > a + 2 && occurs_at(s, "the"@, b) && c > b + 3
        && occurs_at(s, "Magic"@, c) && d > c + 5 && occurs_at(s, "Tournament"@, d) && f > d + 10
        && occurs_at(s, "Rules"@, f) {
        Some(f + 5)
    } else {
        None
    }
}

/// The match of `kind` starting at `i`, as (end, replacement).
pub open spec fn rewrite_at(kind: Rewrite, s: Seq<char>, i: int) -> Option<(int, Seq<char>)> {
    match kind {
        Rewrite::RuleRefs => {
            let p = if char_at(s, i + 4, 's') { i + 5 } else { i + 4 };
            let q = skip_ws(s, p);
            let e1 = digit_run(s, q + 4);
            let end = if char_at(s, q + 3, '.') && e1 > q + 4 {
                if e1 < s.len() && is_ascii_lower(s[e1]) { e1 + 1 } else { e1 }
            } else {
                q + 3
            };
            if occurs_at(s, "rule"@, i) && boundary_before(s, i) && q > p && digits_at(s, q, 3) {
                Some((end, ref_link("rules"@, s.subrange(q, end))))
            } else {
                None
            }
        },
        Rewrite::SectionDigitRefs => {
            let q = skip_ws(s, i + 7);
            if occurs_at(s, "section"@, i) && boundary_before(s, i) && q > i + 7 && digits_at(s, q, 1)
                && boundary_after(s, q + 1) {
                Some((q + 1, ref_link("section"@, s.subrange(q, q + 1))))
            } else {
                None
            }
        },
        Rewrite::SectionRefs => {
            let q = skip_ws(s, i + 7);
            let e = dotted_end(s, digit_run(s, q));
            if occurs_at(s, "section"@, i) && boundary_before(s, i) && q > i + 7 && digit_run(s, q) > q {
                Some((e, ref_link("section"@, s.subrange(q, e))))
            } else {
                None
            }
        },
        Rewrite::TournamentRulesRefs => {
            let q = skip_ws(s, i + 7);
            let e = dotted_end(s, digit_run(s, q));
            if occurs_at(s, "section"@, i) && boundary_before(s, i) && q > i + 7 && digit_run(s, q) > q
                && mtr_tail_end(s, e) is Some {
                Some((mtr_tail_end(s, e)->0, mtr_link(s.subrange(q, e))))
            } else {
                None
            }
        },
        Rewrite::BoldUpgrade => {
            if occurs_at(s, "Upgrade:"@, i) && boundary_before(s, i) {
                Some((i + 8, bold("Upgrade:"@)))
            } else {
                None
            }
        },
        Rewrite::BoldDowngrade => {
            if occurs_at(s, "Downgrade:"@, i) && boundary_before(s, i) {
                Some((i + 10, bold("Downgrade:"@)))
            } else {
                None
            }
        },
        Rewrite::JoinLabel => {
            if i == 0 || (i > 0 && s[i - 1] == '\n') {
                if occurs_at(s, "Upgrade\n:"@, i) {
                    Some((if char_at(s, i + 9, ' ') { i + 10 } else { i + 9 }, "Upgrade: "@))
                } else if occurs_at(s, "Downgrade\n:"@, i) {
                    Some((if char_at(s, i + 11, ' ') { i + 12 } else { i + 11 }, "Downgrade: "@))
                } else {
                    None
                }
            } else {
                None
            }
        },
    }
}

/// The text from `i` on with every non-overlapping leftmost match of `kind`
/// replaced, as `Regex::replace_all` does.
pub open spec fn rewrite_from(kind: Rewrite, s: Seq<char>, i: int) -> Seq<char>
    decreases s.len() - i,
{
    if i < 0 || i >= s.len() {
        seq![]
    } else {
        match rewrite_at(kind, s, i) {
            Some((e, rep)) => if i < e <= s.len() {
                rep + rewrite_from(kind, s, e)
            } else {
                seq![s[i]] + rewrite_from(kind, s, i + 1)
            },
            None => seq![s[i]] + rewrite_from(kind, s, i + 1),
        }
    }
}

pub open spec fn rewrite(kind: Rewrite, s: Seq<char>) -> Seq<char> {
    rewrite_from(kind, s, 0)
}

fn link_exec(word: &str, num: &[char]) -> (r: Vec<char>)
    ensures
        r@ == ref_link(word@, num@),
{
    let mut r = lit(word);
    append_str(&mut r, " <a href=\"#R");
    append(&mut r, num);
    append_str(&mut r, "\" class=\"rule-ref\">");
    append(&mut r, num);
    append_str(&mut r, "</a>");
    r
}

fn mtr_tail_end_exec(s: &[char], e: usize) -> (r: Option<usize>)
    requires
        e <= s@.len(),
    ensures
        match r {
            Some(x) => mtr_tail_end(s@, e as int) == Some(x as int) && x <= s@.len(),
            None => mtr_tail_end(s@, e as int) is None,
        },
{
    let len = s.len();
    proof {
        reveal_strlit("of"); reveal_strlit("the"); reveal_strlit("Magic");
        reveal_strlit("Tournament"); reveal_strlit("Rules");
    }
    let a = skip_ws_from(s, e);
    if a == e || !occurs_at_exec(s, lit("of").as_slice(), a) {
        return None;
    }
    let b = skip_ws_from(s, a + 2);
    if b == a + 2 || !occurs_at_exec(s, lit("the").as_slice(), b) {
        return None;
    }
    let c = skip_ws_from(s, b + 3);
    if c == b + 3 || !occurs_at_exec(s, lit("Magic").as_slice(), c) {
        return None;
    }
    let d = skip_ws_from(s, c + 5);
    if d == c + 5 || !occurs_at_exec(s, lit("Tournament").as_slice(), d) {
        return None;
    }
    let f = skip_ws_from(s, d + 10);
    if f == d + 10 || !occurs_at_exec(s, lit("Rules").as_slice(), f) {
        return None;
    }
    Some(f + 5)
}

fn rewrite_at_exec(kind: &Rewrite, s: &[char], i: usize) -> (r: Option<(usize, Vec<char>)>)
    requires
        i < s@.len(),
    ensures
        match r {
            Some((e, rep)) => rewrite_at(*kind, s@, i as int) == Some((e as int, rep@)) && i < e <= s@.len(),
            None => rewrite_at(*kind, s@, i as int) is None,
        },
{
    let len = s.len();
    proof {
        reveal_strlit("rule"); reveal_strlit("section"); reveal_strlit("Upgrade:");
        reveal_strlit("Downgrade:"); reveal_strlit("Upgrade\n:"); reveal_strlit("Downgrade\n:");
    }
    match kind {
        Rewrite::RuleRefs => {
            if !occurs_at_exec(s, lit("rule").as_slice(), i) || !boundary_before_exec(s, i) {
                return None;
            }
            let p = if char_at_exec(s, i + 4, 's') { i + 5 } else { i + 4 };
            let q = skip_ws_from(s, p);
            if q == p || !digits_at_exec(s, q, 3) {
                return None;
            }
            let mut end = q + 3;
            if char_at_exec(s, q + 3, '.') {
                let e1 = digit_run_exec(s, q + 4);
                if e1 > q + 4 {
                    end = if e1 < len && 'a' <= s[e1] && s[e1] <= 'z' { e1 + 1 } else { e1 };
                }
            }
            let num = subvec(s, q, end);
            Some((end, link_exec("rules", num.as_slice())))
        },
        Rewrite::SectionDigitRefs => {
            if !occurs_at_exec(s, lit("section").as_slice(), i) || !boundary_before_exec(s, i) {
                return None;
            }
            let q = skip_ws_from(s, i + 7);
            if q == i + 7 || !digits_at_exec(s, q, 1) || !boundary_after_exec(s, q + 1) {
                return None;
            }
            let num = subvec(s, q, q + 1);
            Some((q + 1, link_exec("section", num.as_slice())))
        },
        Rewrite::SectionRefs => {
            if !occurs_at_exec(s, lit("section").as_slice(), i) || !boundary_before_exec(s, i) {
                return None;
            }
            let q = skip_ws_from(s, i + 7);
            let d = digit_run_exec(s, q);
            if q == i + 7 || d == q {
                return None;
            }
            let e = dotted_end_exec(s, d);
            let num = subvec(s, q, e);
            Some((e, link_exec("section", num.as_slice())))
        },
        Rewrite::TournamentRulesRefs => {
            if !occurs_at_exec(s, lit("section").as_slice(), i) || !boundary_before_exec(s, i) {
                return None;
            }
            let q = skip_ws_from(s, i + 7);
            let d = digit_run_exec(s, q);
            if q == i + 7 || d == q {
                return None;
            }
            let e = dotted_end_exec(s, d);
            let end = match mtr_tail_end_exec(s, e) {
                Some(x) => x,
                None => return None,
            };
            let num = subvec(s, q, e);
            let mut r = lit("section <a href=\"#R");
            append(&mut r, num.as_slice());
            append_str(&mut r, "\" class=\"rule-ref\" data-doc=\"mtr\">");
            append(&mut r, num.as_slice());
            append_str(&mut r, "</a> of the Magic Tournament Rules");
            Some((end, r))
        },
        Rewrite::BoldUpgrade => {
            if occurs_at_exec(s, lit("Upgrade:").as_slice(), i) && boundary_before_exec(s, i) {
                let mut r = lit("<strong>");
                append_str(&mut r, "Upgrade:");
                append_str(&mut r, "</strong>");
                Some((i + 8, r))
            } else {
                None
            }
        },
        Rewrite::BoldDowngrade => {
            if occurs_at_exec(s, lit("Downgrade:").as_slice(), i) && boundary_before_exec(s, i) {
                let mut r = lit("<strong>");
                append_str(&mut r, "Downgrade:");
                append_str(&mut r, "</strong>");
                Some((i + 10, r))
            } else {
                None
            }
        },
        Rewrite::JoinLabel => {
            if !(i == 0 || s[i - 1] == '\n') {
                return None;
            }
            if occurs_at_exec(s, lit("Upgrade\n:").as_slice(), i) {
                let e = if char_at_exec(s, i + 9, ' ') { i + 10 } else { i + 9 };
                Some((e, lit("Upgrade: ")))
            } else if occurs_at_exec(s, lit("Downgrade\n:").as_slice(), i) {
                let e = if char_at_exec(s, i + 11, ' ') { i + 12 } else { i + 11 };
                Some((e, lit("Downgrade: ")))
            } else {
                None
            }
        },
    }
}

/// Joining a label with its colon never lengthens the text.
pub proof fn lemma_rewrite_len(kind: Rewrite, s: Seq<char>, i: int)
    requires
        kind == Rewrite::JoinLabel,
        0 <= i <= s.len(),
    ensures
        rewrite_from(kind, s, i).len() <= s.len() - i,
    decreases s.len() - i,
{
    reveal_strlit("Upgrade\n:");
    reveal_strlit("Downgrade\n:");
    reveal_strlit("Upgrade: ");
    reveal_strlit("Downgrade: ");
    if i < s.len() {
        match rewrite_at(kind, s, i) {
            Some((e, rep)) => {
                if i < e <= s.len() {
                    lemma_rewrite_len(kind, s, e);
                } else {
                    lemma_rewrite_len(kind, s, i + 1);
                }
            },
            None => {
                lemma_rewrite_len(kind, s, i + 1);
            },
        }
    }
}

/// Replace every match of `kind` in `s`.
pub fn rewrite_exec(kind: &Rewrite, s: &[char]) -> (r: Vec<char>)
    ensures
        r@ == rewrite(*kind, s@),
{
    let mut out: Vec<char> = Vec::new();
    let mut i: usize = 0;
    while i < s.len()
        invariant
            0 <= i <= s@.len(),
            out@ + rewrite_from(*kind, s@, i as int) == rewrite(*kind, s@),
        decreases s.len() - i,
    {
        let ghost old_out = out@;
        match rewrite_at_exec(kind, s, i) {
            Some((e, rep)) => {
                append(&mut out, rep.as_slice());
                assert(old_out + rewrite_from(*kind, s@, i as int) =~= out@ + rewrite_from(*kind, s@, e as int));
                i = e;
            },
            None => {
                out.push(s[i]);
                assert(old_out + rewrite_from(*kind, s@, i as int) =~= out@ + rewrite_from(*kind, s@, i + 1));
                i = i + 1;
            },
        }
    }
    assert(out@ + rewrite_from(*kind, s@, i as int) =~= out@);
    out
}

} // verus!
