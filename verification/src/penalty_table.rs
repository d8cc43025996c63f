//! Appendix A of the infraction procedure guide: the penalty quick reference,
//! rebuilt as an HTML table from the lines text extraction produces.
use vstd::prelude::*;
use crate::text::{
    append, append_str, chars_of, eq_chars, eq_str, escape_html, escape_html_chars, lowercase,
    lowercase_exec, occurs_at, occurs_at_exec, subvec, trim, trim_chars, trim_end_char,
    trim_end_char_exec, views,
};

verus! {

/// The penalty keywords, in the order they are tried.
pub open spec fn keyword(k: int) -> Seq<char> {
    if k == 0 { "Disqualification"@ }
    else if k == 1 { "Match Loss"@ }
    else if k == 2 { "Game Loss"@ }
    else if k == 3 { "Warning"@ }
    else { "None"@ }
}

/// The CSS class of a penalty cell.
pub open spec fn penalty_class(k: int) -> Seq<char> {
    if k == 0 { "penalty-dq"@ }
    else if k == 1 { "penalty-match-loss"@ }
    else if k == 2 { "penalty-game-loss"@ }
    else { "penalty-warning"@ }
}

pub open spec fn is_keyword(t: Seq<char>) -> bool {
    exists|k: int| 0 <= k < 5 && t == #[trigger] keyword(k)
}

/// The PDF's own column headers.
pub open spec fn pdf_header(line: Seq<char>) -> bool {
    lowercase("Infraction"@) == lowercase(line) || lowercase("Penalty"@) == lowercase(line)
        || lowercase("Infraction Penalty"@) == lowercase(line)
}

/// The last index at or below `j` where `p` occurs (`str::rfind`).
pub open spec fn rfind_at_most(s: Seq<char>, p: Seq<char>, j: int) -> Option<int>
    decreases j + 1,
{
    if j < 0 {
        None
    } else if occurs_at(s, p, j) {
        Some(j)
    } else {
        rfind_at_most(s, p, j - 1)
    }
}

pub open spec fn rfind(s: Seq<char>, p: Seq<char>) -> Option<int> {
    rfind_at_most(s, p, s.len() - p.len())
}

/// The rightmost keyword, among keywords `0..k`, whose last occurrence
/// follows a space: (position, keyword index).
pub open spec fn best_keyword(t: Seq<char>, k: int) -> Option<(int, int)>
    decreases k,
{
    if k <= 0 {
        None
    } else {
        let prev = best_keyword(t, k - 1);
        match rfind(t, keyword(k - 1)) {
            Some(pos) => if pos > 0 && t[pos - 1] == ' ' && (match prev { Some((p, _)) => pos > p, None => true }) {
                Some((pos, k - 1))
            } else {
                prev
            },
            None => prev,
        }
    }
}

pub open spec fn penalty_row(infraction: Seq<char>, k: int, penalty: Seq<char>) -> Seq<char> {
    "<tr><td>"@ + escape_html(infraction) + "</td><td class=\"penalty-cell "@ + penalty_class(k)
        + "\">"@ + escape_html(penalty) + "</td></tr>"@
}

pub open spec fn category_row(line: Seq<char>) -> Seq<char> {
    "<tr class=\"penalty-category\"><td colspan=\"2\">"@ + escape_html(line) + "</td></tr>"@
}

/// The rows for the lines from `i` on.
pub open spec fn penalty_rows(ls: Seq<Seq<char>>, i: int) -> Seq<char>
    decreases ls.len() - i,
{
    if i < 0 || i >= ls.len() {
        seq![]
    } else {
        let line = trim(ls[i]);
        let bare = i + 1 < ls.len() && is_keyword(trim(ls[i + 1]));
        let test = if bare { line + seq![' '] + trim(ls[i + 1]) } else { line };
        if pdf_header(line) {
            penalty_rows(ls, i + 1)
        } else {
            match best_keyword(test, 5) {
                Some((pos, k)) => {
                    let infraction = trim(trim_end_char(test.take(pos), '/'));
                    if infraction.len() > 0 {
                        penalty_row(infraction, k, trim(test.skip(pos)))
                            + penalty_rows(ls, if bare { i + 2 } else { i + 1 })
                    } else {
                        category_row(line) + penalty_rows(ls, i + 1)
                    }
                },
                None => category_row(line) + penalty_rows(ls, i + 1),
            }
        }
    }
}

/// The HTML for Appendix A's collected lines.
pub open spec fn penalty_table(ls: Seq<Seq<char>>) -> Seq<char> {
    "<table class=\"penalty-table\"><thead><tr><th>Infraction</th><th>Penalty</th></tr></thead><tbody>"@
        + penalty_rows(ls, 0) + "</tbody></table>"@
}

// ── Executable ────────────────────────────────────────────────────────────

fn keyword_exec(k: usize) -> (r: Vec<char>)
    requires
        k < 5,
    ensures
        r@ == keyword(k as int),
{
    if k == 0 { chars_of("Disqualification") }
    else if k == 1 { chars_of("Match Loss") }
    else if k == 2 { chars_of("Game Loss") }
    else if k == 3 { chars_of("Warning") }
    else { chars_of("None") }
}

/// The CSS class of a penalty keyword, empty for any other text.
pub open spec fn css_for(kw: Seq<char>) -> Seq<char> {
    if kw == "Disqualification"@ { "penalty-dq"@ }
    else if kw == "Match Loss"@ { "penalty-match-loss"@ }
    else if kw == "Game Loss"@ { "penalty-game-loss"@ }
    else if kw == "Warning"@ { "penalty-warning"@ }
    else if kw == "None"@ { "penalty-warning"@ }
    else { ""@ }
}

/// The CSS class for a penalty keyword.
pub fn penalty_css_class(kw: &str) -> (r: &'static str)
    ensures
        r@ == css_for(kw@),
{
    let v = chars_of(kw);
    if eq_str(v.as_slice(), "Disqualification") { "penalty-dq" }
    else if eq_str(v.as_slice(), "Match Loss") { "penalty-match-loss" }
    else if eq_str(v.as_slice(), "Game Loss") { "penalty-game-loss" }
    else if eq_str(v.as_slice(), "Warning") { "penalty-warning" }
    else if eq_str(v.as_slice(), "None") { "penalty-warning" }
    else { "" }
}

fn class_exec(k: usize) -> (r: Vec<char>)
    requires
        k < 5,
    ensures
        r@ == penalty_class(k as int),
{
    if k == 0 { chars_of("penalty-dq") }
    else if k == 1 { chars_of("penalty-match-loss") }
    else if k == 2 { chars_of("penalty-game-loss") }
    else { chars_of("penalty-warning") }
}

fn is_keyword_exec(t: &[char]) -> (r: bool)
    ensures
        r == is_keyword(t@),
{
    let mut k: usize = 0;
    while k < 5
        invariant
            0 <= k <= 5,
            forall|m: int| 0 <= m < k ==> t@ != #[trigger] keyword(m),
        decreases 5 - k,
    {
        let kw = keyword_exec(k);
        if eq_chars(t, kw.as_slice()) {
            return true;
        }
        k = k + 1;
    }
    false
}

fn pdf_header_exec(line: &[char]) -> (r: bool)
    ensures
        r == pdf_header(line@),
{
    let l = lowercase_exec(line);
    let a = lowercase_exec(chars_of("Infraction").as_slice());
    let b = lowercase_exec(chars_of("Penalty").as_slice());
    let c = lowercase_exec(chars_of("Infraction Penalty").as_slice());
    eq_chars(a.as_slice(), l.as_slice()) || eq_chars(b.as_slice(), l.as_slice())
        || eq_chars(c.as_slice(), l.as_slice())
}

fn rfind_exec(s: &[char], p: &[char]) -> (r: Option<usize>)
    ensures
        match r {
            Some(i) => rfind(s@, p@) == Some(i as int) && i + p@.len() <= s@.len(),
            None => rfind(s@, p@) is None,
        },
{
    if p.len() > s.len() {
        return None;
    }
    let mut j = s.len() - p.len();
    loop
        invariant
            j + p@.len() <= s@.len(),
            rfind_at_most(s@, p@, j as int) == rfind(s@, p@),
        decreases j,
    {
        if occurs_at_exec(s, p, j) {
            return Some(j);
        }
        if j == 0 {
            assert(rfind_at_most(s@, p@, -1) is None);
            return None;
        }
        j = j - 1;
    }
}

fn best_keyword_exec(t: &[char]) -> (r: Option<(usize, usize)>)
    ensures
        match r {
            Some((pos, k)) => best_keyword(t@, 5) == Some((pos as int, k as int)) && pos <= t@.len() && k < 5,
            None => best_keyword(t@, 5) is None,
        },
{
    let mut best: Option<(usize, usize)> = None;
    let mut k: usize = 0;
    while k < 5
        invariant
            0 <= k <= 5,
            match best {
                Some((pos, kk)) => best_keyword(t@, k as int) == Some((pos as int, kk as int)) && pos <= t@.len() && kk < 5,
                None => best_keyword(t@, k as int) is None,
            },
        decreases 5 - k,
    {
        let kw = keyword_exec(k);
        match rfind_exec(t, kw.as_slice()) {
            Some(pos) => {
                let better = match best {
                    Some((p, _)) => pos > p,
                    None => true,
                };
                if pos > 0 && t[pos - 1] == ' ' && better {
                    best = Some((pos, k));
                }
            },
            None => {},
        }
        k = k + 1;
    }
    best
}

/// Build the HTML for Appendix A from its collected lines.
pub fn build_penalty_table_html(ls: &Vec<Vec<char>>) -> (r: Vec<char>)
    ensures
        r@ == penalty_table(views(ls@)),
{
    let mut out = chars_of("<table class=\"penalty-table\"><thead><tr><th>Infraction</th><th>Penalty</th></tr></thead><tbody>");
    let ghost head = out@;
    let n = ls.len();
    let mut i: usize = 0;
    while i < n
        invariant
            n == ls@.len(),
            0 <= i <= n,
            out@ + penalty_rows(views(ls@), i as int) == head + penalty_rows(views(ls@), 0),
        decreases n - i,
    {
        let ghost before = out@;
        let ghost v = views(ls@);
        assert(v[i as int] == ls@[i as int]@);
        let line = trim_chars(ls[i].as_slice());
        let bare = if i + 1 < n {
            assert(v[i + 1] == ls@[i + 1]@);
            let nt = trim_chars(ls[i + 1].as_slice());
            is_keyword_exec(nt.as_slice())
        } else {
            false
        };
        if pdf_header_exec(line.as_slice()) {
            i = i + 1;
            continue;
        }
        let mut test = crate::text::copy_chars(line.as_slice());
        if bare {
            test.push(' ');
            let nt = trim_chars(ls[i + 1].as_slice());
            append(&mut test, nt.as_slice());
        }
        assert(test@ =~= if bare { line@ + seq![' '] + trim(v[i + 1]) } else { line@ });
        if let Some((pos, k)) = best_keyword_exec(test.as_slice()) {
            let head_part = subvec(test.as_slice(), 0, pos);
            assert(head_part@ =~= test@.take(pos as int));
            let inf = trim_chars(trim_end_char_exec(head_part.as_slice(), '/').as_slice());
            if inf.len() > 0 {
                let tail_part = subvec(test.as_slice(), pos, test.len());
                assert(tail_part@ =~= test@.skip(pos as int));
                let pen = trim_chars(tail_part.as_slice());
                append_str(&mut out, "<tr><td>");
                append(&mut out, escape_html_chars(inf.as_slice()).as_slice());
                append_str(&mut out, "</td><td class=\"penalty-cell ");
                append(&mut out, class_exec(k).as_slice());
                append_str(&mut out, "\">");
                append(&mut out, escape_html_chars(pen.as_slice()).as_slice());
                append_str(&mut out, "</td></tr>");
                assert(out@ =~= before + penalty_row(inf@, k as int, pen@));
                i = if bare { i + 2 } else { i + 1 };
                continue;
            }
        }
        append_str(&mut out, "<tr class=\"penalty-category\"><td colspan=\"2\">");
        append(&mut out, escape_html_chars(line.as_slice()).as_slice());
        append_str(&mut out, "</td></tr>");
        assert(out@ =~= before + category_row(line@));
        i = i + 1;
    }
    append_str(&mut out, "</tbody></table>");
    assert(penalty_rows(views(ls@), i as int) =~= Seq::<char>::empty());
    out
}

} // verus!
