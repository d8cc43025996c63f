//! Helpers shared by the parsers of the PDF-extracted documents (tournament
//! rules, infraction guide): section titles, parent numbers, list items.
use vstd::prelude::*;
use crate::text::{
    chars_of, eq_str, is_alpha, is_alphabetic, is_ascii_alpha, is_ascii_digit, is_upper,
    is_uppercase, lowercase, lowercase_exec, string_from_chars, trim, trim_chars, trim_end_char,
    trim_end_char_exec, views, words, words_exec, subvec,
};

verus! {

/// The small words a title may keep in lower case.
pub open spec fn small_word(w: Seq<char>) -> bool {
    w == "a"@ || w == "an"@ || w == "the"@ || w == "of"@ || w == "in"@ || w == "on"@ || w == "at"@
        || w == "to"@ || w == "for"@ || w == "and"@ || w == "or"@ || w == "by"@ || w == "with"@
}

/// The alphabetic characters of `w`.
pub open spec fn alpha_only(w: Seq<char>) -> Seq<char> {
    w.filter(|c: char| is_alpha(c))
}

/// A title word: a small connector word, a word of at most three
/// characters, or capitalised.
pub open spec fn title_word(w: Seq<char>) -> bool {
    small_word(lowercase(alpha_only(w))) || w.len() <= 3 || is_upper(w[0])
}

/// One to five words, each a title word (every word longer than three
/// characters capitalised, small connector words aside): a section title,
/// not a list item.
pub open spec fn section_title(t: Seq<char>) -> bool {
    let ws = words(t);
    1 <= ws.len() <= 5 && forall|i: int| 0 <= i < ws.len() ==> title_word(#[trigger] ws[i])
}

/// Trailing dot leaders removed, then white space.
pub open spec fn cleaned_title(s: Seq<char>) -> Seq<char> {
    trim(trim_end_char(s, '.'))
}

/// The number before the last `'.'`, if there is one.
pub open spec fn parent_number(n: Seq<char>) -> Option<Seq<char>> {
    match last_dot(n, n.len() as int) {
        Some(p) => Some(n.take(p)),
        None => None,
    }
}

/// The last index below `j` holding `'.'`.
pub open spec fn last_dot(n: Seq<char>, j: int) -> Option<int>
    decreases j,
{
    if j <= 0 || j > n.len() {
        None
    } else if n[j - 1] == '.' {
        Some(j - 1)
    } else {
        last_dot(n, j - 1)
    }
}

/// A bullet, or "X. " with X an ASCII letter or digit.
pub open spec fn list_item(l: Seq<char>) -> bool {
    (l.len() > 0 && l[0] == '\u{2022}')
        || (l.len() >= 3 && l[1] == '.' && l[2] == ' ' && (is_ascii_alpha(l[0]) || is_ascii_digit(l[0])))
}

fn small_word_exec(w: &[char]) -> (r: bool)
    ensures
        r == small_word(w@),
{
    eq_str(w, "a") || eq_str(w, "an") || eq_str(w, "the") || eq_str(w, "of") || eq_str(w, "in")
        || eq_str(w, "on") || eq_str(w, "at") || eq_str(w, "to") || eq_str(w, "for")
        || eq_str(w, "and") || eq_str(w, "or") || eq_str(w, "by") || eq_str(w, "with")
}

fn alpha_only_exec(w: &[char]) -> (r: Vec<char>)
    ensures
        r@ == alpha_only(w@),
{
    let mut r: Vec<char> = Vec::new();
    let mut i: usize = 0;
    while i < w.len()
        invariant
            0 <= i <= w@.len(),
            r@ == alpha_only(w@.take(i as int)),
        decreases w.len() - i,
    {
        let ghost before = w@.take(i as int);
        assert(w@.take(i + 1) =~= before.push(w@[i as int]));
        proof { before.lemma_filter_push(w@[i as int], |c: char| is_alpha(c)); }
        if is_alphabetic(w[i]) {
            r.push(w[i]);
        }
        i = i + 1;
    }
    assert(w@.take(w@.len() as int) =~= w@);
    r
}

fn title_word_exec(w: &[char]) -> (r: bool)
    ensures
        r == title_word(w@),
{
    let a = alpha_only_exec(w);
    let l = lowercase_exec(a.as_slice());
    small_word_exec(l.as_slice()) || w.len() <= 3 || is_uppercase(w[0])
}

fn section_title_chars(t: &[char]) -> (r: bool)
    ensures
        r == section_title(t@),
{
    let ws = words_exec(t);
    if ws.len() < 1 || ws.len() > 5 {
        return false;
    }
    let mut i: usize = 0;
    while i < ws.len()
        invariant
            0 <= i <= ws@.len(),
            views(ws@) == words(t@),
            forall|k: int| 0 <= k < i ==> title_word(#[trigger] words(t@)[k]),
        decreases ws.len() - i,
    {
        assert(views(ws@)[i as int] == ws@[i as int]@);
        if !title_word_exec(ws[i].as_slice()) {
            return false;
        }
        i = i + 1;
    }
    true
}

/// Whether `title` looks like a section title rather than a numbered list item.
pub fn looks_like_section_title(title: &str) -> (r: bool)
    ensures
        r == section_title(title@),
{
    let v = chars_of(title);
    section_title_chars(v.as_slice())
}

pub fn cleaned_title_exec(s: &[char]) -> (r: Vec<char>)
    ensures
        r@ == cleaned_title(s@),
{
    let a = trim_end_char_exec(s, '.');
    trim_chars(a.as_slice())
}

/// Strip the dot leaders text extraction leaves after a title.
pub fn clean_title(s: &str) -> (r: String)
    ensures
        r@ == cleaned_title(s@),
{
    let v = chars_of(s);
    let c = cleaned_title_exec(v.as_slice());
    string_from_chars(&c)
}

pub proof fn lemma_last_dot(n: Seq<char>, j: int)
    requires
        0 <= j <= n.len(),
    ensures
        last_dot(n, j) matches Some(p) ==> 0 <= p < j && n[p] == '.',
    decreases j,
{
    if j > 0 && n[j - 1] != '.' {
        lemma_last_dot(n, j - 1);
    }
}

pub fn parent_number_exec(n: &[char]) -> (r: Option<Vec<char>>)
    ensures
        match r {
            Some(p) => parent_number(n@) == Some(p@),
            None => parent_number(n@) is None,
        },
{
    let mut j = n.len();
    proof { lemma_last_dot(n@, j as int); }
    while j > 0 && n[j - 1] != '.'
        invariant
            0 <= j <= n@.len(),
            last_dot(n@, j as int) == last_dot(n@, n@.len() as int),
        decreases j,
    {
        j = j - 1;
    }
    if j == 0 {
        None
    } else {
        let p = subvec(n, 0, j - 1);
        assert(p@ =~= n@.take(j - 1));
        Some(p)
    }
}

/// The number before the last '.', e.g. "1.2" for "1.2.3".
pub fn parent_of(number: &str) -> (r: Option<String>)
    ensures
        match r {
            Some(p) => parent_number(number@) == Some(p@),
            None => parent_number(number@) is None,
        },
{
    let v = chars_of(number);
    match parent_number_exec(v.as_slice()) {
        Some(p) => Some(string_from_chars(&p)),
        None => None,
    }
}

pub fn list_item_exec(l: &[char]) -> (r: bool)
    ensures
        r == list_item(l@),
{
    if l.len() > 0 && l[0] == '\u{2022}' {
        return true;
    }
    if l.len() >= 3 && l[1] == '.' && l[2] == ' ' {
        let f = l[0];
        return ('A' <= f && f <= 'Z') || ('a' <= f && f <= 'z') || ('0' <= f && f <= '9');
    }
    false
}

/// Whether a line opens a list item ("A. ", "1. " or a bullet).
pub fn starts_list_item(line: &str) -> (r: bool)
    ensures
        r == list_item(line@),
{
    let v = chars_of(line);
    list_item_exec(v.as_slice())
}

} // verus!
