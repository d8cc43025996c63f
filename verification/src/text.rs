//! Character-sequence utilities shared by the document parsers and the
//! query builders. Every function works on `Vec<char>` / `Seq<char>`, the
//! view that vstd gives to `str` and `String`.
use vstd::prelude::*;

verus! {

// ── Character classes ─────────────────────────────────────────────────────

/// What `char::is_alphabetic` answers (the Unicode `Alphabetic` property).
pub uninterp spec fn unicode_alphabetic(c: char) -> bool;

/// What `char::is_alphanumeric` answers (`Alphabetic` or a numeric category).
pub uninterp spec fn unicode_alphanumeric(c: char) -> bool;

/// What `char::is_uppercase` answers (the Unicode `Uppercase` property).
pub uninterp spec fn unicode_uppercase(c: char) -> bool;

/// What `str::to_lowercase` returns for a whole string.
pub uninterp spec fn unicode_lowercase(s: Seq<char>) -> Seq<char>;

/// What `char::to_uppercase` yields, collected into a string.
pub uninterp spec fn unicode_uppercase_of(c: char) -> Seq<char>;

/// Whether the `regex` crate's `\d` class (Unicode `Nd`) contains `c`.
pub uninterp spec fn regex_digit_class(c: char) -> bool;

/// Whether the `regex` crate's `\w` class (Unicode word characters) contains `c`.
pub uninterp spec fn regex_word_class(c: char) -> bool;

pub open spec fn is_ascii_char(c: char) -> bool {
    (c as u32) < 128
}

pub open spec fn is_ascii_digit(c: char) -> bool {
    '0' <= c && c <= '9'
}

pub open spec fn is_ascii_upper(c: char) -> bool {
    'A' <= c && c <= 'Z'
}

pub open spec fn is_ascii_lower(c: char) -> bool {
    'a' <= c && c <= 'z'
}

pub open spec fn is_ascii_alpha(c: char) -> bool {
    is_ascii_upper(c) || is_ascii_lower(c)
}

/// Unicode white space (the `White_Space` property, as `char::is_whitespace`
/// answers): the five C0 blanks from tab to carriage return, the space, next
/// line, no-break space, ogham space mark, the eleven spaces from en quad to
/// hair space, the line and paragraph separators, narrow no-break space,
/// medium mathematical space and ideographic space.
pub open spec fn is_ws(c: char) -> bool {
    if is_ascii_char(c) {
        c == ' ' || c == '\t' || c == '\n' || c == '\x0B' || c == '\x0C' || c == '\r'
    } else {
        c == '\u{85}' || c == '\u{A0}' || c == '\u{1680}' || ('\u{2000}' <= c && c <= '\u{200A}')
            || c == '\u{2028}' || c == '\u{2029}' || c == '\u{202F}' || c == '\u{205F}'
            || c == '\u{3000}'
    }
}

pub open spec fn is_alpha(c: char) -> bool {
    if is_ascii_char(c) { is_ascii_alpha(c) } else { unicode_alphabetic(c) }
}

pub open spec fn is_alnum(c: char) -> bool {
    if is_ascii_char(c) { is_ascii_alpha(c) || is_ascii_digit(c) } else { unicode_alphanumeric(c) }
}

pub open spec fn is_upper(c: char) -> bool {
    if is_ascii_char(c) { is_ascii_upper(c) } else { unicode_uppercase(c) }
}

/// The `\d` class of a Unicode-aware regular expression.
pub open spec fn is_digit_class(c: char) -> bool {
    if is_ascii_char(c) { is_ascii_digit(c) } else { regex_digit_class(c) }
}

/// The `\w` class of a Unicode-aware regular expression.
pub open spec fn is_word_class(c: char) -> bool {
    if is_ascii_char(c) {
        is_ascii_alpha(c) || is_ascii_digit(c) || c == '_'
    } else {
        regex_word_class(c)
    }
}

pub open spec fn ascii_lower_char(c: char) -> char {
    if is_ascii_upper(c) { ((c as u32) + 32) as char } else { c }
}

pub open spec fn ascii_upper_char(c: char) -> char {
    if is_ascii_lower(c) { ((c as u32) - 32) as char } else { c }
}

pub open spec fn all_ascii(s: Seq<char>) -> bool {
    forall|i: int| 0 <= i < s.len() ==> is_ascii_char(#[trigger] s[i])
}

pub open spec fn ascii_lower(s: Seq<char>) -> Seq<char> {
    s.map_values(|c: char| ascii_lower_char(c))
}

/// `str::to_lowercase`: plain ASCII folding for ASCII text, Unicode otherwise.
pub open spec fn lowercase(s: Seq<char>) -> Seq<char> {
    if all_ascii(s) { ascii_lower(s) } else { unicode_lowercase(s) }
}

/// `char::to_uppercase`, collected.
pub open spec fn uppercase_of(c: char) -> Seq<char> {
    if is_ascii_char(c) { seq![ascii_upper_char(c)] } else { unicode_uppercase_of(c) }
}

#[verifier::external_body]
fn std_is_alphabetic(c: char) -> (r: bool)
    ensures
        r == unicode_alphabetic(c),
{
    c.is_alphabetic()
}

#[verifier::external_body]
fn std_is_alphanumeric(c: char) -> (r: bool)
    ensures
        r == unicode_alphanumeric(c),
{
    c.is_alphanumeric()
}

#[verifier::external_body]
fn std_is_uppercase(c: char) -> (r: bool)
    ensures
        r == unicode_uppercase(c),
{
    c.is_uppercase()
}

/// Calls `str::to_lowercase`; the result is named, not described.
#[verifier::external_body]
fn std_to_lowercase(s: &str) -> (r: String)
    ensures
        r@ == unicode_lowercase(s@),
{
    s.to_lowercase()
}

/// Calls `char::to_uppercase` and collects the characters it yields.
#[verifier::external_body]
fn std_char_to_uppercase(c: char) -> (r: String)
    ensures
        r@ == unicode_uppercase_of(c),
{
    c.to_uppercase().collect()
}

/// Asks the `regex` crate whether `c` is in its `\d` class.
#[verifier::external_body]
fn regex_is_digit(c: char) -> (r: bool)
    ensures
        r == regex_digit_class(c),
{
    regex::Regex::new(r"^\d$").unwrap().is_match(&c.to_string())
}

/// Asks the `regex` crate whether `c` is in its `\w` class.
#[verifier::external_body]
fn regex_is_word(c: char) -> (r: bool)
    ensures
        r == regex_word_class(c),
{
    regex::Regex::new(r"^\w$").unwrap().is_match(&c.to_string())
}

/// Collects characters into a `String` (`FromIterator<char>`).
#[verifier::external_body]
pub(crate) fn string_from_chars(v: &Vec<char>) -> (r: String)
    ensures
        r@ == v@,
{
    v.iter().collect()
}

pub fn ascii_char(c: char) -> (r: bool)
    ensures
        r == is_ascii_char(c),
{
    (c as u32) < 128
}

pub fn is_whitespace(c: char) -> (r: bool)
    ensures
        r == is_ws(c),
{
    if (c as u32) < 128 {
        c == ' ' || c == '\t' || c == '\n' || c == '\x0B' || c == '\x0C' || c == '\r'
    } else {
        c == '\u{85}' || c == '\u{A0}' || c == '\u{1680}' || ('\u{2000}' <= c && c <= '\u{200A}')
            || c == '\u{2028}' || c == '\u{2029}' || c == '\u{202F}' || c == '\u{205F}'
            || c == '\u{3000}'
    }
}

pub fn is_alphabetic(c: char) -> (r: bool)
    ensures
        r == is_alpha(c),
{
    if (c as u32) < 128 {
        ('A' <= c && c <= 'Z') || ('a' <= c && c <= 'z')
    } else {
        std_is_alphabetic(c)
    }
}

pub fn is_alphanumeric(c: char) -> (r: bool)
    ensures
        r == is_alnum(c),
{
    if (c as u32) < 128 {
        ('A' <= c && c <= 'Z') || ('a' <= c && c <= 'z') || ('0' <= c && c <= '9')
    } else {
        std_is_alphanumeric(c)
    }
}

pub fn is_uppercase(c: char) -> (r: bool)
    ensures
        r == is_upper(c),
{
    if (c as u32) < 128 {
        'A' <= c && c <= 'Z'
    } else {
        std_is_uppercase(c)
    }
}

pub fn is_digit(c: char) -> (r: bool)
    ensures
        r == is_digit_class(c),
{
    if (c as u32) < 128 {
        '0' <= c && c <= '9'
    } else {
        regex_is_digit(c)
    }
}

pub fn is_word(c: char) -> (r: bool)
    ensures
        r == is_word_class(c),
{
    if (c as u32) < 128 {
        ('A' <= c && c <= 'Z') || ('a' <= c && c <= 'z') || ('0' <= c && c <= '9') || c == '_'
    } else {
        regex_is_word(c)
    }
}

pub fn to_ascii_lower(c: char) -> (r: char)
    ensures
        r == ascii_lower_char(c),
{
    if 'A' <= c && c <= 'Z' {
        let u: u32 = (c as u32) + 32;
        assert(u < 0xD800);
        char_from_ascii(u)
    } else {
        c
    }
}

pub fn to_ascii_upper(c: char) -> (r: char)
    ensures
        r == ascii_upper_char(c),
{
    if 'a' <= c && c <= 'z' {
        let u: u32 = (c as u32) - 32;
        char_from_ascii(u)
    } else {
        c
    }
}

fn char_from_ascii(u: u32) -> (r: char)
    requires
        u < 128,
    ensures
        r == u as char,
{
    (u as u8) as char
}


// ── Sequence helpers ──────────────────────────────────────────────────────

/// The characters of a string slice, in order.
pub fn chars_of(s: &str) -> (r: Vec<char>)
    ensures
        r@ == s@,
{
    let mut r: Vec<char> = Vec::new();
    for c in it: s.chars()
        invariant
            r@ == it.seq().take(it.index() as int),
    {
        r.push(c);
    }
    r
}

pub fn eq_chars(a: &[char], b: &[char]) -> (r: bool)
    ensures
        r == (a@ == b@),
{
    if a.len() != b.len() {
        return false;
    }
    let mut i: usize = 0;
    while i < a.len()
        invariant
            a@.len() == b@.len(),
            0 <= i <= a@.len(),
            forall|k: int| 0 <= k < i ==> a@[k] == b@[k],
        decreases a.len() - i,
    {
        if a[i] != b[i] {
            return false;
        }
        i = i + 1;
    }
    assert(a@ =~= b@);
    true
}

pub fn append(dst: &mut Vec<char>, src: &[char])
    ensures
        final(dst)@ == old(dst)@ + src@,
{
    let mut i: usize = 0;
    while i < src.len()
        invariant
            0 <= i <= src@.len(),
            dst@ == old(dst)@ + src@.take(i as int),
        decreases src.len() - i,
    {
        dst.push(src[i]);
        i = i + 1;
        assert(dst@ =~= old(dst)@ + src@.take(i as int));
    }
    assert(src@.take(src@.len() as int) =~= src@);
}

pub fn append_str(dst: &mut Vec<char>, s: &str)
    ensures
        final(dst)@ == old(dst)@ + s@,
{
    let v = chars_of(s);
    append(dst, v.as_slice());
}

pub fn concat(a: &[char], b: &[char]) -> (r: Vec<char>)
    ensures
        r@ == a@ + b@,
{
    let mut r: Vec<char> = Vec::new();
    append(&mut r, a);
    append(&mut r, b);
    assert(r@ =~= a@ + b@);
    r
}

pub fn subvec(s: &[char], i: usize, j: usize) -> (r: Vec<char>)
    requires
        i <= j <= s@.len(),
    ensures
        r@ == s@.subrange(i as int, j as int),
{
    let mut r: Vec<char> = Vec::new();
    let mut k: usize = i;
    while k < j
        invariant
            i <= k <= j <= s@.len(),
            r@ == s@.subrange(i as int, k as int),
        decreases j - k,
    {
        r.push(s[k]);
        k = k + 1;
        assert(r@ =~= s@.subrange(i as int, k as int));
    }
    r
}

pub fn copy_chars(s: &[char]) -> (r: Vec<char>)
    ensures
        r@ == s@,
{
    let r = subvec(s, 0, s.len());
    assert(s@.subrange(0, s@.len() as int) =~= s@);
    r
}

// ── Trimming ──────────────────────────────────────────────────────────────

/// Index of the first non-white-space character at or after `i`.
pub open spec fn skip_ws(s: Seq<char>, i: int) -> int
    decreases s.len() - i,
{
    if 0 <= i < s.len() && is_ws(s[i]) { skip_ws(s, i + 1) } else { i }
}

/// One past the last non-white-space character before `j`, not below `lo`.
pub open spec fn back_ws(s: Seq<char>, lo: int, j: int) -> int
    decreases j - lo,
{
    if lo < j && j <= s.len() && is_ws(s[j - 1]) { back_ws(s, lo, j - 1) } else { j }
}

/// `str::trim_start`.
pub open spec fn trim_start(s: Seq<char>) -> Seq<char> {
    s.subrange(skip_ws(s, 0), s.len() as int)
}

/// `str::trim_end`.
pub open spec fn trim_end(s: Seq<char>) -> Seq<char> {
    s.subrange(0, back_ws(s, 0, s.len() as int))
}

/// `str::trim`: white space removed from both ends.
pub open spec fn trim(s: Seq<char>) -> Seq<char> {
    s.subrange(skip_ws(s, 0), back_ws(s, skip_ws(s, 0), s.len() as int))
}

pub proof fn lemma_skip_ws_bounds(s: Seq<char>, i: int)
    requires
        0 <= i <= s.len(),
    ensures
        i <= skip_ws(s, i) <= s.len(),
        skip_ws(s, i) < s.len() ==> !is_ws(s[skip_ws(s, i)]),
        forall|k: int| i <= k < skip_ws(s, i) ==> is_ws(#[trigger] s[k]),
    decreases s.len() - i,
{
    if i < s.len() && is_ws(s[i]) {
        lemma_skip_ws_bounds(s, i + 1);
    }
}

pub proof fn lemma_back_ws_bounds(s: Seq<char>, lo: int, j: int)
    requires
        0 <= lo <= j <= s.len(),
    ensures
        lo <= back_ws(s, lo, j) <= j,
        back_ws(s, lo, j) > lo ==> !is_ws(s[back_ws(s, lo, j) - 1]),
        forall|k: int| back_ws(s, lo, j) <= k < j ==> is_ws(#[trigger] s[k]),
    decreases j - lo,
{
    if lo < j && is_ws(s[j - 1]) {
        lemma_back_ws_bounds(s, lo, j - 1);
    }
}

pub fn skip_ws_from(s: &[char], i: usize) -> (r: usize)
    requires
        i <= s@.len(),
    ensures
        r == skip_ws(s@, i as int),
        i <= r <= s@.len(),
{
    proof { lemma_skip_ws_bounds(s@, i as int); }
    let mut k = i;
    while k < s.len() && is_whitespace(s[k])
        invariant
            i <= k <= s@.len(),
            skip_ws(s@, k as int) == skip_ws(s@, i as int),
        decreases s.len() - k,
    {
        k = k + 1;
    }
    k
}

pub fn back_ws_from(s: &[char], lo: usize, j: usize) -> (r: usize)
    requires
        lo <= j <= s@.len(),
    ensures
        r == back_ws(s@, lo as int, j as int),
        lo <= r <= j,
{
    proof { lemma_back_ws_bounds(s@, lo as int, j as int); }
    let mut k = j;
    while k > lo && is_whitespace(s[k - 1])
        invariant
            lo <= k <= j <= s@.len(),
            back_ws(s@, lo as int, k as int) == back_ws(s@, lo as int, j as int),
        decreases k - lo,
    {
        k = k - 1;
    }
    k
}

pub fn trim_chars(s: &[char]) -> (r: Vec<char>)
    ensures
        r@ == trim(s@),
{
    let a = skip_ws_from(s, 0);
    let b = back_ws_from(s, a, s.len());
    subvec(s, a, b)
}

pub fn trim_end_chars(s: &[char]) -> (r: Vec<char>)
    ensures
        r@ == trim_end(s@),
{
    let b = back_ws_from(s, 0, s.len());
    subvec(s, 0, b)
}

// ── Lines ─────────────────────────────────────────────────────────────────

/// Index of the first `'\n'` at or after `i`, or the length.
pub open spec fn next_newline(s: Seq<char>, i: int) -> int
    decreases s.len() - i,
{
    if i < 0 || i >= s.len() { s.len() as int }
    else if s[i] == '\n' { i }
    else { next_newline(s, i + 1) }
}

/// The line that starts at `i`: up to the next `'\n'`, with a `'\r'` before that
/// `'\n'` removed.
pub open spec fn line_at(s: Seq<char>, i: int) -> Seq<char> {
    let j = next_newline(s, i);
    let raw = s.subrange(i, j);
    if j < s.len() && raw.len() > 0 && raw.last() == '\r' { raw.drop_last() } else { raw }
}

/// `str::lines` applied to the suffix starting at `i`.
pub open spec fn lines_from(s: Seq<char>, i: int) -> Seq<Seq<char>>
    decreases s.len() - i,
    via lines_from_decreases
{
    if i < 0 || i >= s.len() {
        seq![]
    } else {
        let j = next_newline(s, i);
        if j >= s.len() {
            seq![line_at(s, i)]
        } else {
            seq![line_at(s, i)] + lines_from(s, j + 1)
        }
    }
}

/// `str::lines`: split on `'\n'` and on `"\r\n"`; a final line ending yields no
/// extra empty line.
pub open spec fn lines(s: Seq<char>) -> Seq<Seq<char>> {
    lines_from(s, 0)
}

#[via_fn]
proof fn lines_from_decreases(s: Seq<char>, i: int) {
    if !(i < 0 || i >= s.len()) {
        lemma_next_newline(s, i);
    }
}

pub proof fn lemma_next_newline(s: Seq<char>, i: int)
    requires
        0 <= i <= s.len(),
    ensures
        i <= next_newline(s, i) <= s.len(),
        next_newline(s, i) < s.len() ==> s[next_newline(s, i)] == '\n',
        forall|k: int| i <= k < next_newline(s, i) ==> #[trigger] s[k] != '\n',
    decreases s.len() - i,
{
    if i < s.len() && s[i] != '\n' {
        lemma_next_newline(s, i + 1);
    }
}

pub fn find_newline(s: &[char], i: usize) -> (r: usize)
    requires
        i <= s@.len(),
    ensures
        r == next_newline(s@, i as int),
        i <= r <= s@.len(),
{
    proof { lemma_next_newline(s@, i as int); }
    let mut k = i;
    while k < s.len() && s[k] != '\n'
        invariant
            i <= k <= s@.len(),
            next_newline(s@, k as int) == next_newline(s@, i as int),
        decreases s.len() - k,
    {
        k = k + 1;
    }
    k
}

/// The views of a sequence of character vectors.
pub open spec fn views(v: Seq<Vec<char>>) -> Seq<Seq<char>> {
    v.map_values(|x: Vec<char>| x@)
}

pub fn split_lines(s: &[char]) -> (r: Vec<Vec<char>>)
    ensures
        views(r@) == lines(s@),
{
    let mut r: Vec<Vec<char>> = Vec::new();
    let mut i: usize = 0;
    while i < s.len()
        invariant
            0 <= i <= s@.len(),
            views(r@) + lines_from(s@, i as int) == lines(s@),
        decreases s.len() - i,
    {
        let j = find_newline(s, i);
        let mut end = j;
        if j < s.len() && j > i && s[j - 1] == '\r' {
            end = j - 1;
        }
        let line = subvec(s, i, end);
        assert(line@ == line_at(s@, i as int)) by {
            let raw = s@.subrange(i as int, j as int);
            if j < s@.len() && j > i && s@[j - 1] == '\r' {
                assert(raw.drop_last() =~= s@.subrange(i as int, end as int));
            } else {
                assert(raw =~= s@.subrange(i as int, end as int));
            }
        }
        let ghost before = views(r@);
        r.push(line);
        assert(views(r@) =~= before.push(line@));
        if j >= s.len() {
            assert(lines_from(s@, i as int) == seq![line_at(s@, i as int)]);
            assert(lines_from(s@, s@.len() as int) =~= Seq::<Seq<char>>::empty());
            assert(before + lines_from(s@, i as int) =~= views(r@) + lines_from(s@, s@.len() as int));
            i = s.len();
        } else {
            assert(lines_from(s@, i as int) == seq![line_at(s@, i as int)] + lines_from(s@, j + 1));
            assert(before + lines_from(s@, i as int) =~= views(r@) + lines_from(s@, j + 1));
            i = j + 1;
        }
    }
    assert(lines_from(s@, i as int) =~= Seq::<Seq<char>>::empty());
    assert(views(r@) + Seq::<Seq<char>>::empty() =~= views(r@));
    r
}

// ── Searching ─────────────────────────────────────────────────────────────

/// `p` occurs in `s` starting at index `i`.
pub open spec fn occurs_at(s: Seq<char>, p: Seq<char>, i: int) -> bool {
    0 <= i && i + p.len() <= s.len() && s.subrange(i, i + p.len()) == p
}

pub open spec fn starts_with(s: Seq<char>, p: Seq<char>) -> bool {
    occurs_at(s, p, 0)
}

pub open spec fn ends_with(s: Seq<char>, p: Seq<char>) -> bool {
    occurs_at(s, p, s.len() - p.len())
}

/// `str::contains` with a string pattern.
pub open spec fn contains(s: Seq<char>, p: Seq<char>) -> bool {
    exists|i: int| occurs_at(s, p, i)
}

/// Index of the first occurrence of `p` at or after `i`, if any.
pub open spec fn find_from(s: Seq<char>, p: Seq<char>, i: int) -> Option<int>
    decreases s.len() + 1 - i,
{
    if i < 0 || i + p.len() > s.len() {
        None
    } else if occurs_at(s, p, i) {
        Some(i)
    } else {
        find_from(s, p, i + 1)
    }
}

/// `str::find`: the first occurrence of `p`.
pub open spec fn find(s: Seq<char>, p: Seq<char>) -> Option<int> {
    find_from(s, p, 0)
}

pub proof fn lemma_find_from(s: Seq<char>, p: Seq<char>, i: int)
    requires
        0 <= i,
    ensures
        find_from(s, p, i) matches Some(k) ==> i <= k && occurs_at(s, p, k)
            && forall|m: int| i <= m < k ==> !occurs_at(s, p, m),
        find_from(s, p, i) is None ==> forall|m: int| i <= m ==> !occurs_at(s, p, m),
    decreases s.len() + 1 - i,
{
    if i + p.len() > s.len() {
    } else if occurs_at(s, p, i) {
    } else {
        lemma_find_from(s, p, i + 1);
        assert forall|m: int| i <= m implies !occurs_at(s, p, m) || find_from(s, p, i) is Some by {
            if m == i {
            }
        }
    }
}

pub proof fn lemma_find_contains(s: Seq<char>, p: Seq<char>)
    ensures
        contains(s, p) <==> find(s, p) is Some,
{
    lemma_find_from(s, p, 0);
    if let Some(k) = find(s, p) {
        assert(occurs_at(s, p, k));
    }
}

pub fn occurs_at_exec(s: &[char], p: &[char], i: usize) -> (r: bool)
    ensures
        r == occurs_at(s@, p@, i as int),
{
    if i > s.len() || p.len() > s.len() - i {
        return false;
    }
    let n = s.len();
    let mut k: usize = 0;
    while k < p.len()
        invariant
            n == s@.len(),
            i + p@.len() <= s@.len(),
            0 <= k <= p@.len(),
            forall|m: int| 0 <= m < k ==> s@[i + m] == p@[m],
        decreases p.len() - k,
    {
        assert(i + k < n);
        let ik: usize = i + k;
        if s[ik] != p[k] {
            assert(s@.subrange(i as int, i + p@.len())[k as int] != p@[k as int]);
            return false;
        }
        k = k + 1;
    }
    assert(s@.subrange(i as int, i + p@.len()) =~= p@);
    true
}

pub fn starts_with_exec(s: &[char], p: &[char]) -> (r: bool)
    ensures
        r == starts_with(s@, p@),
{
    occurs_at_exec(s, p, 0)
}

pub fn ends_with_exec(s: &[char], p: &[char]) -> (r: bool)
    ensures
        r == ends_with(s@, p@),
{
    if p.len() > s.len() {
        return false;
    }
    occurs_at_exec(s, p, s.len() - p.len())
}

pub fn find_from_exec(s: &[char], p: &[char], i: usize) -> (r: Option<usize>)
    ensures
        match r {
            Some(k) => find_from(s@, p@, i as int) == Some(k as int),
            None => find_from(s@, p@, i as int) is None,
        },
{
    if p.len() > s.len() || i > s.len() - p.len() {
        return None;
    }
    let last = s.len() - p.len();
    let mut k = i;
    loop
        invariant
            i <= k <= last,
            last + p@.len() == s@.len(),
            find_from(s@, p@, k as int) == find_from(s@, p@, i as int),
        decreases last - k,
    {
        if occurs_at_exec(s, p, k) {
            return Some(k);
        }
        if k == last {
            assert(find_from(s@, p@, k + 1) is None);
            return None;
        }
        k = k + 1;
    }
}

pub fn contains_exec(s: &[char], p: &[char]) -> (r: bool)
    ensures
        r == contains(s@, p@),
{
    proof { lemma_find_contains(s@, p@); }
    find_from_exec(s, p, 0).is_some()
}

pub fn contains_str(s: &[char], p: &str) -> (r: bool)
    ensures
        r == contains(s@, p@),
{
    let pv = chars_of(p);
    contains_exec(s, pv.as_slice())
}

pub fn starts_with_str(s: &[char], p: &str) -> (r: bool)
    ensures
        r == starts_with(s@, p@),
{
    let pv = chars_of(p);
    starts_with_exec(s, pv.as_slice())
}

pub fn eq_str(s: &[char], p: &str) -> (r: bool)
    ensures
        r == (s@ == p@),
{
    let pv = chars_of(p);
    eq_chars(s, pv.as_slice())
}

/// The part of `s` before its first `c` (`s.splitn(2, c).next()`).
pub open spec fn before_char(s: Seq<char>, c: char) -> Seq<char> {
    match find(s, seq![c]) {
        Some(k) => s.take(k),
        None => s,
    }
}

/// `s.split(c).next()`: the text before the first `c`.
pub fn before_char_exec(s: &[char], c: char) -> (r: Vec<char>)
    ensures
        r@ == before_char(s@, c),
{
    let pat = vec![c];
    assert(pat@ =~= seq![c]);
    proof { lemma_find_from(s@, seq![c], 0); }
    match find_from_exec(s, pat.as_slice(), 0) {
        Some(k) => subvec(s, 0, k),
        None => copy_chars(s),
    }
}

// ── HTML escaping ─────────────────────────────────────────────────────────

pub open spec fn escape_char(c: char) -> Seq<char> {
    if c == '&' {
        seq!['&', 'a', 'm', 'p', ';']
    } else if c == '<' {
        seq!['&', 'l', 't', ';']
    } else if c == '>' {
        seq!['&', 'g', 't', ';']
    } else {
        seq![c]
    }
}

/// `s.replace('&', "&amp;").replace('<', "&lt;").replace('>', "&gt;")`: each of
/// the three characters is replaced by its entity, everything else is kept.
pub open spec fn escape_html(s: Seq<char>) -> Seq<char>
    decreases s.len(),
{
    if s.len() == 0 {
        seq![]
    } else {
        escape_html(s.drop_last()) + escape_char(s.last())
    }
}

/// Escaping a text piece by piece gives the escape of the whole.
pub proof fn law_escape_html_append(a: Seq<char>, b: Seq<char>)
    ensures
        escape_html(a + b) == escape_html(a) + escape_html(b),
    decreases b.len(),
{
    if b.len() == 0 {
        assert(a + b =~= a);
        assert(escape_html(a) + escape_html(b) =~= escape_html(a));
    } else {
        law_escape_html_append(a, b.drop_last());
        assert((a + b).drop_last() =~= a + b.drop_last());
        assert(escape_html(a) + escape_html(b) =~= escape_html(a) + escape_html(b.drop_last()) + escape_char(b.last()));
    }
}

/// Escaped text holds no raw angle bracket.
pub proof fn law_escape_html_no_brackets(s: Seq<char>)
    ensures
        forall|i: int| 0 <= i < escape_html(s).len() ==> #[trigger] escape_html(s)[i] != '<' && escape_html(s)[i] != '>',
    decreases s.len(),
{
    if s.len() > 0 {
        law_escape_html_no_brackets(s.drop_last());
        let a = escape_html(s.drop_last());
        let b = escape_char(s.last());
        assert(escape_html(s) == a + b);
        assert forall|i: int| 0 <= i < escape_html(s).len() implies #[trigger] escape_html(s)[i] != '<' && escape_html(s)[i] != '>' by {
            if i < a.len() {
                assert(escape_html(s)[i] == a[i]);
            } else {
                assert(escape_html(s)[i] == b[i - a.len()]);
            }
        }
    }
}

fn push_escaped(out: &mut Vec<char>, c: char)
    ensures
        final(out)@ == old(out)@ + escape_char(c),
{
    if c == '&' {
        out.push('&'); out.push('a'); out.push('m'); out.push('p'); out.push(';');
    } else if c == '<' {
        out.push('&'); out.push('l'); out.push('t'); out.push(';');
    } else if c == '>' {
        out.push('&'); out.push('g'); out.push('t'); out.push(';');
    } else {
        out.push(c);
    }
    assert(out@ =~= old(out)@ + escape_char(c));
}

pub fn escape_html_chars(s: &[char]) -> (r: Vec<char>)
    ensures
        r@ == escape_html(s@),
{
    let mut out: Vec<char> = Vec::new();
    let mut i: usize = 0;
    while i < s.len()
        invariant
            0 <= i <= s@.len(),
            out@ == escape_html(s@.take(i as int)),
        decreases s.len() - i,
    {
        push_escaped(&mut out, s[i]);
        assert(s@.take(i + 1).drop_last() =~= s@.take(i as int));
        i = i + 1;
    }
    assert(s@.take(s@.len() as int) =~= s@);
    out
}

/// Escape `&`, `<` and `>` for HTML.
pub fn html_escape(s: &str) -> (r: String)
    ensures
        r@ == escape_html(s@),
{
    let v = chars_of(s);
    let e = escape_html_chars(v.as_slice());
    string_from_chars(&e)
}

// ── Decimal numbers ───────────────────────────────────────────────────────

pub open spec fn digit_value(c: char) -> nat {
    ((c as u32) - ('0' as u32)) as nat
}

pub open spec fn all_ascii_digits(s: Seq<char>) -> bool {
    forall|i: int| 0 <= i < s.len() ==> is_ascii_digit(#[trigger] s[i])
}

/// The value of a string of ASCII digits.
pub open spec fn digits_value(s: Seq<char>) -> nat
    decreases s.len(),
{
    if s.len() == 0 { 0 } else { digits_value(s.drop_last()) * 10 + digit_value(s.last()) }
}

/// The digits of an unsigned integer after an optional `'+'`, as accepted by
/// `u64::from_str` and friends.
pub open spec fn unsigned_digits(s: Seq<char>) -> Option<Seq<char>> {
    let d = if s.len() > 0 && s[0] == '+' { s.drop_first() } else { s };
    if d.len() > 0 && all_ascii_digits(d) { Some(d) } else { None }
}

/// `str::parse` for an unsigned integer type whose largest value is `max`.
pub open spec fn parse_unsigned(s: Seq<char>, max: nat) -> Option<nat> {
    match unsigned_digits(s) {
        Some(d) => if digits_value(d) <= max { Some(digits_value(d)) } else { None },
        None => None,
    }
}

pub proof fn lemma_digits_value_monotone(s: Seq<char>, k: int)
    requires
        0 <= k <= s.len(),
    ensures
        digits_value(s.take(k)) <= digits_value(s),
    decreases s.len() - k,
{
    if k < s.len() {
        lemma_digits_value_monotone(s, k + 1);
        assert(s.take(k + 1).drop_last() =~= s.take(k));
    } else {
        assert(s.take(k) =~= s);
    }
}

/// Parse the ASCII digits `s[start..]` into a value not above `max`.
fn parse_digits_bounded(s: &[char], start: usize, max: u64) -> (r: Option<u64>)
    requires
        start <= s@.len(),
    ensures
        match r {
            Some(v) => all_ascii_digits(s@.skip(start as int))
                && digits_value(s@.skip(start as int)) == v && v <= max,
            None => !all_ascii_digits(s@.skip(start as int))
                || digits_value(s@.skip(start as int)) > max,
        },
{
    let ghost d = s@.skip(start as int);
    let mut v: u64 = 0;
    let mut i = start;
    while i < s.len()
        invariant
            start <= i <= s@.len(),
            d == s@.skip(start as int),
            all_ascii_digits(d.take(i - start)),
            digits_value(d.take(i - start)) == v,
            v <= max,
        decreases s.len() - i,
    {
        let c = s[i];
        if !('0' <= c && c <= '9') {
            assert(d[i - start] == c);
            return None;
        }
        let dv: u64 = (c as u32 - '0' as u32) as u64;
        assert(d.take(i + 1 - start).drop_last() =~= d.take(i - start));
        assert(d.take(i + 1 - start).last() == c);
        if dv > max || v > (max - dv) / 10 {
            proof {
                assert(digits_value(d.take(i + 1 - start)) == v * 10 + dv);
                assert(v * 10 + dv > max) by (nonlinear_arith)
                    requires dv > max || (dv <= max && v > (max - dv) / 10), v >= 0;
                if all_ascii_digits(d) {
                    lemma_digits_value_monotone(d, i + 1 - start);
                }
            }
            return None;
        }
        proof {
            assert(v * 10 + dv <= max) by (nonlinear_arith)
                requires v <= (max - dv) / 10, dv <= max;
        }
        v = v * 10 + dv;
        i = i + 1;
        assert forall|m: int| 0 <= m < d.take(i - start).len() implies is_ascii_digit(#[trigger] d.take(i - start)[m]) by {
            if m < i - 1 - start {
                assert(d.take(i - start)[m] == d.take(i - 1 - start)[m]);
            }
        }
    }
    assert(d.take(i - start) =~= d);
    Some(v)
}

/// `str::parse::<u64>` (and narrower unsigned types through `max`).
pub fn parse_unsigned_chars(s: &[char], max: u64) -> (r: Option<u64>)
    ensures
        match r {
            Some(v) => parse_unsigned(s@, max as nat) == Some(v as nat),
            None => parse_unsigned(s@, max as nat) is None,
        },
{
    let start: usize = if s.len() > 0 && s[0] == '+' { 1 } else { 0 };
    proof {
        if s@.len() > 0 && s@[0] == '+' {
            assert(s@.drop_first() =~= s@.skip(1));
        } else {
            assert(s@ =~= s@.skip(0));
        }
    }
    if start >= s.len() {
        return None;
    }
    parse_digits_bounded(s, start, max)
}

/// Decimal digits of a natural number, as `Display` writes them.
pub open spec fn decimal(n: nat) -> Seq<char>
    decreases n,
{
    if n < 10 {
        seq![((n + ('0' as u32)) as u32) as char]
    } else {
        decimal(n / 10) + seq![(((n % 10) + ('0' as u32)) as u32) as char]
    }
}

fn digit_char(d: u64) -> (r: char)
    requires
        d < 10,
    ensures
        r == ((d + ('0' as u32)) as u32) as char,
{
    char_from_ascii((d as u32) + 48)
}

/// The decimal representation of `n`.
pub fn format_u64(n: u64) -> (r: Vec<char>)
    ensures
        r@ == decimal(n as nat),
    decreases n,
{
    if n < 10 {
        let mut v: Vec<char> = Vec::new();
        v.push(digit_char(n));
        assert(v@ =~= decimal(n as nat));
        v
    } else {
        let mut v = format_u64(n / 10);
        v.push(digit_char(n % 10));
        assert(v@ =~= decimal(n as nat));
        v
    }
}

/// An integer in decimal, with a minus sign when negative.
pub open spec fn int_decimal(n: int) -> Seq<char> {
    if n < 0 { "-"@ + decimal((-n) as nat) } else { decimal(n as nat) }
}

/// An `i64` in decimal.
pub fn format_i64(n: i64) -> (r: Vec<char>)
    ensures
        r@ == int_decimal(n as int),
{
    if n < 0 {
        let m: i128 = 0i128 - (n as i128);
        let mut r = chars_of("-");
        append(&mut r, format_u64(m as u64).as_slice());
        r
    } else {
        format_u64(n as u64)
    }
}

/// `str::parse::<i64>`: an optional sign, then at least one ASCII digit, the
/// value within range.
pub open spec fn parse_signed(s: Seq<char>) -> Option<int> {
    if s.len() > 0 && s[0] == '-' {
        let d = s.drop_first();
        if d.len() > 0 && all_ascii_digits(d) && digits_value(d) <= 0x8000_0000_0000_0000 {
            Some(-(digits_value(d) as int))
        } else {
            None
        }
    } else {
        match parse_unsigned(s, i64::MAX as nat) {
            Some(n) => Some(n as int),
            None => None,
        }
    }
}

pub fn parse_signed_chars(s: &[char]) -> (r: Option<i64>)
    ensures
        match r {
            Some(v) => parse_signed(s@) == Some(v as int),
            None => parse_signed(s@) is None,
        },
{
    if s.len() > 0 && s[0] == '-' {
        if s.len() == 1 {
            return None;
        }
        assert(s@.drop_first() =~= s@.skip(1));
        match parse_digits_bounded(s, 1, 0x8000_0000_0000_0000u64) {
            Some(v) => {
                if v == 0x8000_0000_0000_0000u64 {
                    Some(i64::MIN)
                } else {
                    let w: i64 = v as i64;
                    Some(0 - w)
                }
            },
            None => None,
        }
    } else {
        match parse_unsigned_chars(s, i64::MAX as u64) {
            Some(v) => Some(v as i64),
            None => None,
        }
    }
}

/// `bool::from_str`: exactly "true" or "false".
pub open spec fn parse_bool(s: Seq<char>) -> Option<bool> {
    if s == "true"@ { Some(true) } else if s == "false"@ { Some(false) } else { None }
}

pub fn parse_bool_chars(s: &[char]) -> (r: Option<bool>)
    ensures
        r == parse_bool(s@),
{
    if eq_str(s, "true") {
        Some(true)
    } else if eq_str(s, "false") {
        Some(false)
    } else {
        None
    }
}

/// `true` or `false`, as `Display` writes a `bool`.
pub open spec fn bool_text(b: bool) -> Seq<char> {
    if b { "true"@ } else { "false"@ }
}

pub proof fn lemma_decimal_digits(n: nat)
    ensures
        decimal(n).len() > 0,
        all_ascii_digits(decimal(n)),
        digits_value(decimal(n)) == n,
    decreases n,
{
    if n < 10 {
        let c = decimal(n)[0];
        assert(c as u32 == n + 48);
        assert(digits_value(decimal(n)) == digits_value(decimal(n).drop_last()) * 10 + digit_value(c));
        assert(decimal(n).drop_last().len() == 0);
    } else {
        lemma_decimal_digits(n / 10);
        let d = decimal(n);
        assert(d.drop_last() =~= decimal(n / 10));
        let c = d.last();
        assert(c as u32 == (n % 10) + 48);
        assert(digit_value(c) == n % 10);
        assert(n == (n / 10) * 10 + n % 10);
        assert forall|i: int| 0 <= i < d.len() implies is_ascii_digit(#[trigger] d[i]) by {
            if i < d.len() - 1 {
                assert(d[i] == decimal(n / 10)[i]);
            }
        }
    }
}

/// Parsing what `Display` wrote for an unsigned number gives the number back.
pub proof fn lemma_parse_decimal(n: nat, max: nat)
    requires
        n <= max,
    ensures
        parse_unsigned(decimal(n), max) == Some(n),
{
    lemma_decimal_digits(n);
    assert(decimal(n)[0] != '+') by {
        assert(is_ascii_digit(decimal(n)[0]));
    }
}

/// Parsing what `Display` wrote for an `i64` gives the number back.
pub proof fn lemma_parse_int_decimal(n: int)
    requires
        i64::MIN <= n <= i64::MAX,
    ensures
        parse_signed(int_decimal(n)) == Some(n),
{
    if n < 0 {
        lemma_decimal_digits((-n) as nat);
        reveal_strlit("-");
        let s = int_decimal(n);
        assert(s.drop_first() =~= decimal((-n) as nat));
    } else {
        lemma_parse_decimal(n as nat, i64::MAX as nat);
        lemma_decimal_digits(n as nat);
        assert(is_ascii_digit(decimal(n as nat)[0]));
    }
}

/// Lines are what the text holds between line feeds, wherever the text sits.
proof fn lemma_next_newline_shift(a: Seq<char>, b: Seq<char>, i: int)
    requires
        0 <= i <= b.len(),
    ensures
        next_newline(a + b, a.len() + i) == a.len() + next_newline(b, i),
    decreases b.len() - i,
{
    if i < b.len() {
        assert((a + b)[a.len() + i] == b[i]);
        if b[i] != '\n' {
            lemma_next_newline_shift(a, b, i + 1);
        }
    }
}

proof fn lemma_lines_shift(a: Seq<char>, b: Seq<char>, i: int)
    requires
        0 <= i <= b.len(),
    ensures
        lines_from(a + b, a.len() + i) == lines_from(b, i),
    decreases b.len() - i,
{
    if i < b.len() {
        lemma_next_newline_shift(a, b, i);
        lemma_next_newline(b, i);
        let j = next_newline(b, i);
        assert((a + b).subrange(a.len() + i, a.len() + j) =~= b.subrange(i, j));
        assert(line_at(a + b, a.len() + i) == line_at(b, i));
        if j < b.len() {
            lemma_lines_shift(a, b, j + 1);
        }
    }
}

/// A line without line feed that does not end in a carriage return, then a
/// line feed: the first line, then the lines of what follows.
pub proof fn lemma_lines_cons(x: Seq<char>, rest: Seq<char>)
    requires
        forall|k: int| 0 <= k < x.len() ==> #[trigger] x[k] != '\n',
        x.len() > 0 ==> x.last() != '\r',
    ensures
        lines(x + seq!['\n'] + rest) == seq![x] + lines(rest),
{
    let s = x + seq!['\n'] + rest;
    let p = x + seq!['\n'];
    assert(s =~= p + rest);
    lemma_next_newline(s, 0);
    assert(s[x.len() as int] == '\n');
    assert(next_newline(s, 0) == x.len()) by {
        assert forall|k: int| 0 <= k < x.len() implies #[trigger] s[k] != '\n' by {
            assert(s[k] == x[k]);
        }
        lemma_next_newline_exact(s, 0, x.len() as int);
    }
    assert(s.subrange(0, x.len() as int) =~= x);
    assert(line_at(s, 0) == x);
    lemma_lines_shift(p, rest, 0);
    assert(lines_from(s, x.len() + 1int) == lines_from(rest, 0));
}

proof fn lemma_next_newline_exact(s: Seq<char>, i: int, j: int)
    requires
        0 <= i <= j < s.len(),
        s[j] == '\n',
        forall|k: int| i <= k < j ==> #[trigger] s[k] != '\n',
    ensures
        next_newline(s, i) == j,
    decreases j - i,
{
    if i < j {
        lemma_next_newline_exact(s, i + 1, j);
    }
}

// ── Line-ending normalisation ─────────────────────────────────────────────

/// Index of the first character at or after `i` that is not `c`.
pub open spec fn skip_char(s: Seq<char>, c: char, i: int) -> int
    decreases s.len() - i,
{
    if 0 <= i < s.len() && s[i] == c { skip_char(s, c, i + 1) } else { i }
}

/// `str::trim_start_matches(c)`.
pub open spec fn trim_start_char(s: Seq<char>, c: char) -> Seq<char> {
    s.skip(skip_char(s, c, 0))
}

/// `str::replace("\r\n", "\n")` on the suffix from `i`.
pub open spec fn crlf_to_lf_from(s: Seq<char>, i: int) -> Seq<char>
    decreases s.len() - i,
{
    if i < 0 || i >= s.len() {
        seq![]
    } else if s[i] == '\r' && i + 1 < s.len() && s[i + 1] == '\n' {
        seq!['\n'] + crlf_to_lf_from(s, i + 2)
    } else {
        seq![s[i]] + crlf_to_lf_from(s, i + 1)
    }
}

pub open spec fn crlf_to_lf(s: Seq<char>) -> Seq<char> {
    crlf_to_lf_from(s, 0)
}

/// `str::replace('\r', "\n")`.
pub open spec fn cr_to_lf(s: Seq<char>) -> Seq<char> {
    s.map_values(|c: char| if c == '\r' { '\n' } else { c })
}

/// `raw.replace("\r\n", "\n").replace('\r', "\n")`: every line ending becomes `'\n'`.
pub open spec fn normalize_newlines(s: Seq<char>) -> Seq<char> {
    cr_to_lf(crlf_to_lf(s))
}

pub proof fn lemma_skip_char(s: Seq<char>, c: char, i: int)
    requires
        0 <= i <= s.len(),
    ensures
        i <= skip_char(s, c, i) <= s.len(),
    decreases s.len() - i,
{
    if i < s.len() && s[i] == c {
        lemma_skip_char(s, c, i + 1);
    }
}

/// Every `'\n'` written as `"\r\n"` (Windows line endings).
pub open spec fn lf_to_crlf(s: Seq<char>) -> Seq<char>
    decreases s.len(),
{
    if s.len() == 0 {
        seq![]
    } else {
        (if s[0] == '\n' { seq!['\r', '\n'] } else { seq![s[0]] }) + lf_to_crlf(s.drop_first())
    }
}

/// Every `'\n'` written as `'\r'` (old Mac line endings).
pub open spec fn lf_to_cr(s: Seq<char>) -> Seq<char> {
    s.map_values(|c: char| if c == '\n' { '\r' } else { c })
}

pub open spec fn has_no_cr(s: Seq<char>) -> bool {
    forall|i: int| 0 <= i < s.len() ==> #[trigger] s[i] != '\r'
}

/// Converting from an index is converting the suffix that starts there.
pub proof fn lemma_crlf_to_lf_suffix(s: Seq<char>, i: int)
    requires
        0 <= i <= s.len(),
    ensures
        crlf_to_lf_from(s, i) == crlf_to_lf(s.skip(i)),
    decreases s.len() - i,
{
    let t = s.skip(i);
    if i < s.len() {
        if s[i] == '\r' && i + 1 < s.len() && s[i + 1] == '\n' {
            lemma_crlf_to_lf_suffix(s, i + 2);
            lemma_crlf_to_lf_suffix(t, 2);
            assert(t.skip(2) =~= s.skip(i + 2));
        } else {
            lemma_crlf_to_lf_suffix(s, i + 1);
            lemma_crlf_to_lf_suffix(t, 1);
            assert(t.skip(1) =~= s.skip(i + 1));
        }
    }
}

/// A text without `"\r\n"` is left as it is.
pub proof fn lemma_crlf_to_lf_plain(s: Seq<char>, i: int)
    requires
        0 <= i <= s.len(),
        forall|j: int| 0 <= j < s.len() - 1 ==> !(s[j] == '\r' && #[trigger] s[j + 1] == '\n'),
    ensures
        crlf_to_lf_from(s, i) == s.skip(i),
    decreases s.len() - i,
{
    if i < s.len() {
        lemma_crlf_to_lf_plain(s, i + 1);
        if i + 1 < s.len() {
            assert(!(s[i] == '\r' && s[i + 1] == '\n'));
        }
        assert(s.skip(i) =~= seq![s[i]] + s.skip(i + 1));
    } else {
        assert(s.skip(i) =~= Seq::<char>::empty());
    }
}

/// A text without `'\r'` is its own normal form.
pub proof fn lemma_normalize_plain(s: Seq<char>)
    requires
        has_no_cr(s),
    ensures
        normalize_newlines(s) == s,
{
    assert forall|j: int| 0 <= j < s.len() - 1 implies !(s[j] == '\r' && #[trigger] s[j + 1] == '\n') by {
        assert(s[j] != '\r');
    }
    lemma_crlf_to_lf_plain(s, 0);
    assert(s.skip(0) =~= s);
    assert(cr_to_lf(s) =~= s);
}

/// Windows line endings normalise to the text written with `'\n'`.
pub proof fn lemma_normalize_crlf(s: Seq<char>)
    requires
        has_no_cr(s),
    ensures
        crlf_to_lf(lf_to_crlf(s)) == s,
        normalize_newlines(lf_to_crlf(s)) == s,
    decreases s.len(),
{
    if s.len() > 0 {
        let rest = s.drop_first();
        assert(has_no_cr(rest)) by {
            assert forall|i: int| 0 <= i < rest.len() implies #[trigger] rest[i] != '\r' by {
                assert(rest[i] == s[i + 1]);
            }
        }
        lemma_normalize_crlf(rest);
        let t = lf_to_crlf(s);
        if s[0] == '\n' {
            assert(t =~= seq!['\r', '\n'] + lf_to_crlf(rest));
            lemma_crlf_to_lf_suffix(t, 2);
            assert(t.skip(2) =~= lf_to_crlf(rest));
            assert(crlf_to_lf(t) =~= seq!['\n'] + rest);
        } else {
            assert(t =~= seq![s[0]] + lf_to_crlf(rest));
            assert(s[0] != '\r');
            lemma_crlf_to_lf_suffix(t, 1);
            assert(t.skip(1) =~= lf_to_crlf(rest));
            assert(crlf_to_lf(t) =~= seq![s[0]] + rest);
        }
        assert(s =~= seq![s[0]] + rest);
    } else {
        assert(lf_to_crlf(s) =~= Seq::<char>::empty());
        assert(crlf_to_lf(lf_to_crlf(s)) =~= s);
    }
    assert(has_no_cr(crlf_to_lf(lf_to_crlf(s))));
    assert(cr_to_lf(s) =~= s);
}

/// Old Mac line endings normalise to the text written with `'\n'`.
pub proof fn lemma_normalize_cr(s: Seq<char>)
    requires
        has_no_cr(s),
    ensures
        normalize_newlines(lf_to_cr(s)) == s,
{
    let t = lf_to_cr(s);
    assert forall|j: int| 0 <= j < t.len() - 1 implies !(t[j] == '\r' && #[trigger] t[j + 1] == '\n') by {
        assert(t[j + 1] != '\n');
    }
    lemma_crlf_to_lf_plain(t, 0);
    assert(t.skip(0) =~= t);
    assert(cr_to_lf(t) =~= s);
}

/// Skipping `c` from an offset into `p + s` skips it in `s`.
pub proof fn lemma_skip_char_shift(p: Seq<char>, s: Seq<char>, c: char, i: int)
    requires
        0 <= i <= s.len(),
    ensures
        skip_char(p + s, c, i + p.len()) == p.len() + skip_char(s, c, i),
    decreases s.len() - i,
{
    if i < s.len() {
        assert((p + s)[i + p.len()] == s[i]);
        lemma_skip_char_shift(p, s, c, i + 1);
    }
}

/// Leading byte-order marks are dropped, however many precede the text.
pub proof fn lemma_trim_bom(raw: Seq<char>)
    ensures
        trim_start_char(seq!['\u{FEFF}'] + raw, '\u{FEFF}') == trim_start_char(raw, '\u{FEFF}'),
{
    let p = seq!['\u{FEFF}'];
    lemma_skip_char_shift(p, raw, '\u{FEFF}', 0);
    lemma_skip_char(raw, '\u{FEFF}', 0);
    assert((p + raw)[0] == '\u{FEFF}');
    let k = skip_char(raw, '\u{FEFF}', 0);
    assert((p + raw).skip(1 + k) =~= raw.skip(k));
}

/// The pieces joined with one space between each two (`[..].join(" ")`).
pub open spec fn join_spaced(ws: Seq<Seq<char>>) -> Seq<char>
    decreases ws.len(),
{
    if ws.len() == 0 {
        seq![]
    } else if ws.len() == 1 {
        ws[0]
    } else {
        join_spaced(ws.drop_last()) + seq![' '] + ws.last()
    }
}

/// Each line trimmed.
pub open spec fn trimmed_all(ls: Seq<Seq<char>>) -> Seq<Seq<char>> {
    ls.map_values(|l: Seq<char>| trim(l))
}

/// What is left of a text after trimming starts and ends with a character
/// that is not white space.
pub proof fn lemma_trim_ends(s: Seq<char>)
    ensures
        trim(s).len() > 0 ==> !is_ws(trim(s)[0]) && !is_ws(trim(s)[trim(s).len() - 1]),
{
    lemma_skip_ws_bounds(s, 0);
    let a = skip_ws(s, 0);
    lemma_back_ws_bounds(s, a, s.len() as int);
    let b = back_ws(s, a, s.len() as int);
    if b > a {
        assert(trim(s)[0] == s[a]);
        assert(trim(s)[trim(s).len() - 1] == s[b - 1]);
    }
}

/// Joining non-empty pieces starts with the first piece and ends with the
/// last.
pub proof fn lemma_join_spaced_ends(ws: Seq<Seq<char>>)
    requires
        ws.len() > 0,
        forall|i: int| 0 <= i < ws.len() ==> (#[trigger] ws[i]).len() > 0,
    ensures
        join_spaced(ws).len() > 0,
        join_spaced(ws)[0] == ws[0][0],
        join_spaced(ws)[join_spaced(ws).len() - 1] == ws.last()[ws.last().len() - 1],
    decreases ws.len(),
{
    if ws.len() > 1 {
        let p = ws.drop_last();
        assert forall|i: int| 0 <= i < p.len() implies (#[trigger] p[i]).len() > 0 by {
            assert(p[i] == ws[i]);
        }
        lemma_join_spaced_ends(p);
        assert(ws.last().len() > 0);
    }
}

/// Text that starts and ends with a character that is not white space is
/// its own trim.
pub proof fn lemma_trim_of_trimmed(s: Seq<char>)
    requires
        s.len() > 0,
        !is_ws(s[0]),
        !is_ws(s[s.len() - 1]),
    ensures
        trim(s) == s,
{
    assert(skip_ws(s, 0) == 0);
    assert(back_ws(s, 0, s.len() as int) == s.len());
    assert(s.subrange(0, s.len() as int) =~= s);
}

pub proof fn lemma_crlf_to_lf_len(s: Seq<char>, i: int)
    requires
        0 <= i <= s.len(),
    ensures
        crlf_to_lf_from(s, i).len() <= s.len() - i,
    decreases s.len() - i,
{
    if i < s.len() {
        if s[i] == '\r' && i + 1 < s.len() && s[i + 1] == '\n' {
            lemma_crlf_to_lf_len(s, i + 2);
        } else {
            lemma_crlf_to_lf_len(s, i + 1);
        }
    }
}

pub proof fn lemma_lines_len(s: Seq<char>, i: int)
    requires
        0 <= i <= s.len(),
    ensures
        lines_from(s, i).len() <= s.len() - i,
    decreases s.len() - i,
{
    if i < s.len() {
        lemma_next_newline(s, i);
        let j = next_newline(s, i);
        if j < s.len() {
            lemma_lines_len(s, j + 1);
        }
    }
}

pub proof fn lemma_normalize_len(s: Seq<char>)
    ensures
        normalize_newlines(s).len() <= s.len(),
{
    lemma_crlf_to_lf_len(s, 0);
}

pub fn trim_start_char_exec(s: &[char], c: char) -> (r: Vec<char>)
    ensures
        r@ == trim_start_char(s@, c),
{
    proof { lemma_skip_char(s@, c, 0); }
    let mut k: usize = 0;
    while k < s.len() && s[k] == c
        invariant
            0 <= k <= s@.len(),
            skip_char(s@, c, k as int) == skip_char(s@, c, 0),
        decreases s.len() - k,
    {
        k = k + 1;
    }
    let r = subvec(s, k, s.len());
    assert(r@ =~= s@.skip(k as int));
    r
}

pub fn crlf_to_lf_exec(s: &[char]) -> (r: Vec<char>)
    ensures
        r@ == crlf_to_lf(s@),
{
    let mut out: Vec<char> = Vec::new();
    let mut i: usize = 0;
    let n = s.len();
    while i < n
        invariant
            n == s@.len(),
            0 <= i <= n,
            out@ + crlf_to_lf_from(s@, i as int) == crlf_to_lf(s@),
        decreases n - i,
    {
        let ghost before = out@;
        if s[i] == '\r' && i + 1 < n && s[i + 1] == '\n' {
            out.push('\n');
            assert(before + crlf_to_lf_from(s@, i as int) =~= out@ + crlf_to_lf_from(s@, i + 2));
            i = i + 2;
        } else {
            out.push(s[i]);
            assert(before + crlf_to_lf_from(s@, i as int) =~= out@ + crlf_to_lf_from(s@, i + 1));
            i = i + 1;
        }
    }
    assert(out@ + crlf_to_lf_from(s@, i as int) =~= out@);
    out
}

pub fn normalize_newlines_exec(s: &[char]) -> (r: Vec<char>)
    ensures
        r@ == normalize_newlines(s@),
{
    let a = crlf_to_lf_exec(s);
    let mut out: Vec<char> = Vec::new();
    let mut i: usize = 0;
    while i < a.len()
        invariant
            0 <= i <= a@.len(),
            out@ == cr_to_lf(a@.take(i as int)),
        decreases a.len() - i,
    {
        let c = a[i];
        out.push(if c == '\r' { '\n' } else { c });
        i = i + 1;
        assert(out@ =~= cr_to_lf(a@.take(i as int)));
    }
    assert(a@.take(a@.len() as int) =~= a@);
    out
}

// ── Case ──────────────────────────────────────────────────────────────────

pub fn all_ascii_exec(s: &[char]) -> (r: bool)
    ensures
        r == all_ascii(s@),
{
    let mut i: usize = 0;
    while i < s.len()
        invariant
            0 <= i <= s@.len(),
            forall|k: int| 0 <= k < i ==> is_ascii_char(#[trigger] s@[k]),
        decreases s.len() - i,
    {
        if !ascii_char(s[i]) {
            return false;
        }
        i = i + 1;
    }
    true
}

pub fn ascii_lower_exec(s: &[char]) -> (r: Vec<char>)
    ensures
        r@ == ascii_lower(s@),
{
    let mut r: Vec<char> = Vec::new();
    let mut i: usize = 0;
    while i < s.len()
        invariant
            0 <= i <= s@.len(),
            r@ == ascii_lower(s@.take(i as int)),
        decreases s.len() - i,
    {
        r.push(to_ascii_lower(s[i]));
        i = i + 1;
        assert(r@ =~= ascii_lower(s@.take(i as int)));
    }
    assert(s@.take(s@.len() as int) =~= s@);
    r
}

/// `str::to_lowercase`.
pub fn lowercase_exec(s: &[char]) -> (r: Vec<char>)
    ensures
        r@ == lowercase(s@),
{
    if all_ascii_exec(s) {
        ascii_lower_exec(s)
    } else {
        let v = copy_chars(s);
        let st = string_from_chars(&v);
        let low = std_to_lowercase(st.as_str());
        chars_of(low.as_str())
    }
}

/// `char::to_uppercase`, collected.
pub fn uppercase_of_exec(c: char) -> (r: Vec<char>)
    ensures
        r@ == uppercase_of(c),
{
    if ascii_char(c) {
        let mut v: Vec<char> = Vec::new();
        v.push(to_ascii_upper(c));
        assert(v@ =~= seq![ascii_upper_char(c)]);
        v
    } else {
        let u = std_char_to_uppercase(c);
        chars_of(u.as_str())
    }
}

/// `str::eq_ignore_ascii_case`.
pub open spec fn eq_ignore_ascii_case(a: Seq<char>, b: Seq<char>) -> bool {
    ascii_lower(a) == ascii_lower(b)
}

pub fn eq_ignore_ascii_case_exec(a: &[char], b: &[char]) -> (r: bool)
    ensures
        r == eq_ignore_ascii_case(a@, b@),
{
    let la = ascii_lower_exec(a);
    let lb = ascii_lower_exec(b);
    eq_chars(la.as_slice(), lb.as_slice())
}

// ── Words ─────────────────────────────────────────────────────────────────

/// End of the run of non-white-space characters starting at `i`.
pub open spec fn word_end(s: Seq<char>, i: int) -> int
    decreases s.len() - i,
{
    if 0 <= i < s.len() && !is_ws(s[i]) { word_end(s, i + 1) } else { i }
}

/// `str::split_whitespace` on the suffix from `i`.
pub open spec fn words_from(s: Seq<char>, i: int) -> Seq<Seq<char>>
    decreases s.len() - i,
    via words_from_decreases
{
    let a = skip_ws(s, i);
    if i < 0 || a >= s.len() {
        seq![]
    } else {
        seq![s.subrange(a, word_end(s, a))] + words_from(s, word_end(s, a))
    }
}

pub proof fn lemma_word_end(s: Seq<char>, i: int)
    requires
        0 <= i <= s.len(),
    ensures
        i <= word_end(s, i) <= s.len(),
    decreases s.len() - i,
{
    if i < s.len() && !is_ws(s[i]) {
        lemma_word_end(s, i + 1);
    }
}

#[via_fn]
proof fn words_from_decreases(s: Seq<char>, i: int) {
    if 0 <= i && i <= s.len() {
        lemma_skip_ws_bounds(s, i);
        let a = skip_ws(s, i);
        if a < s.len() {
            assert(!is_ws(s[a]));
            lemma_word_end(s, a + 1);
            assert(word_end(s, a) == word_end(s, a + 1));
        }
    } else if 0 <= i {
        assert(skip_ws(s, i) == i);
    }
}

/// `str::split_whitespace`.
pub open spec fn words(s: Seq<char>) -> Seq<Seq<char>> {
    words_from(s, 0)
}

pub fn words_exec(s: &[char]) -> (r: Vec<Vec<char>>)
    ensures
        views(r@) == words(s@),
{
    let mut r: Vec<Vec<char>> = Vec::new();
    let mut i: usize = 0;
    while i < s.len()
        invariant
            0 <= i <= s@.len(),
            views(r@) + words_from(s@, i as int) == words(s@),
        decreases s.len() - i,
    {
        let a = skip_ws_from(s, i);
        if a >= s.len() {
            assert(words_from(s@, i as int) =~= Seq::<Seq<char>>::empty());
            assert(words_from(s@, s@.len() as int) =~= Seq::<Seq<char>>::empty());
            i = s.len();
            continue;
        }
        proof {
            lemma_word_end(s@, a as int);
            lemma_skip_ws_bounds(s@, i as int);
        }
        let mut b = a;
        while b < s.len() && !is_whitespace(s[b])
            invariant
                a <= b <= s@.len(),
                word_end(s@, b as int) == word_end(s@, a as int),
            decreases s.len() - b,
        {
            b = b + 1;
        }
        let w = subvec(s, a, b);
        let ghost before = views(r@);
        r.push(w);
        assert(views(r@) =~= before.push(w@));
        assert(before + words_from(s@, i as int) =~= views(r@) + words_from(s@, b as int));
        i = b;
    }
    assert(words_from(s@, i as int) =~= Seq::<Seq<char>>::empty());
    assert(views(r@) + Seq::<Seq<char>>::empty() =~= views(r@));
    r
}

/// `str::trim_end_matches(c)`.
pub open spec fn trim_end_char(s: Seq<char>, c: char) -> Seq<char>
    decreases s.len(),
{
    if s.len() > 0 && s.last() == c { trim_end_char(s.drop_last(), c) } else { s }
}

pub fn trim_end_char_exec(s: &[char], c: char) -> (r: Vec<char>)
    ensures
        r@ == trim_end_char(s@, c),
{
    let mut k = s.len();
    assert(s@.take(k as int) =~= s@);
    while k > 0 && s[k - 1] == c
        invariant
            0 <= k <= s@.len(),
            trim_end_char(s@.take(k as int), c) == trim_end_char(s@, c),
        decreases k,
    {
        assert(s@.take(k as int).drop_last() =~= s@.take(k - 1));
        k = k - 1;
    }
    assert(s@.take(s@.len() as int) =~= s@);
    let r = subvec(s, 0, k);
    assert(r@ =~= s@.take(k as int));
    r
}

} // verus!
