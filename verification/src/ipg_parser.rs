//! Parser for the Infraction Procedure Guide as text extracted from the PDF:
//! numbered sections and subsections, the Definition/Philosophy/Penalty
//! sub-headers, paragraphs, appendices, and the penalty table of Appendix A.
use vstd::prelude::*;
use crate::models::{drafts_view, finish_rules, opt_chars_view, rules_view, Draft, RuleDetail, RuleView};
use crate::patterns::{
    appendix_exec, appendix_match, find_version, ipg_subsection_exec, ipg_subsection_match,
    numbered_section_exec, numbered_section_match, only_digits, only_digits_exec, rewrite,
    rewrite_exec, version_search, Rewrite, VersionPhrase,
};
use crate::penalty_table::{build_penalty_table_html, penalty_table};
use crate::rounds_table::join_space;
use crate::sections::{
    cleaned_title, cleaned_title_exec, list_item, list_item_exec, parent_number,
    parent_number_exec, section_title,
};
use crate::text::{
    has_no_cr, lemma_normalize_cr, lemma_normalize_crlf, lemma_normalize_plain, lf_to_cr, lf_to_crlf,
    lowercase, lowercase_exec, uppercase_of, uppercase_of_exec, words, words_exec,
    append, append_str, ascii_upper_char, chars_of, contains, contains_str, eq_chars, eq_str,
    escape_html, escape_html_chars, is_ascii_digit, lemma_lines_len, lines,
    normalize_newlines, normalize_newlines_exec, parse_unsigned, parse_unsigned_chars,
    split_lines, starts_with, starts_with_str, string_from_chars, to_ascii_upper, trim,
    trim_chars, views,
};

verus! {

/// The parsed infraction procedure guide.
pub struct ParsedIPG {
    pub version: String,
    pub rules: Vec<RuleDetail>,
}

/// The parsed document as plain values.
pub struct IpgDoc {
    pub version: Seq<char>,
    pub rules: Seq<RuleView>,
}

impl View for ParsedIPG {
    type V = IpgDoc;

    open spec fn view(&self) -> IpgDoc {
        IpgDoc { version: self.version@, rules: rules_view(self.rules@) }
    }
}

/// Page headers and footers repeated by the PDF.
pub open spec fn ipg_header_footer(l: Seq<char>) -> bool {
    contains(l, "Magic: The Gathering Infraction Procedure Guide"@)
        || (contains(l, "Infraction Procedure Guide"@)
            && (starts_with(l, "Wizards"@) || starts_with(l, "\u{a9}"@) || starts_with(l, "WPN "@)))
        || starts_with(l, "Wizards of the Coast"@) || starts_with(l, "\u{a9}"@) || starts_with(l, "WPN "@)
}

/// A paragraph's HTML: escaped, references into the tournament rules linked,
/// then the guide's own section references.
pub open spec fn ipg_para_html(p: Seq<char>) -> Seq<char> {
    "<p>"@ + rewrite(Rewrite::SectionRefs, rewrite(Rewrite::TournamentRulesRefs, escape_html(p))) + "</p>"@
}

/// The guide's sub-headers, matched case-insensitively.
pub open spec fn subheader_word(k: int) -> Seq<char> {
    if k == 0 { "Definition"@ }
    else if k == 1 { "Philosophy"@ }
    else if k == 2 { "Penalty"@ }
    else if k == 3 { "Penalties"@ }
    else if k == 4 { "Additional Remedy"@ }
    else if k == 5 { "Upgrade"@ }
    else { "Downgrade"@ }
}

pub open spec fn is_subheader(t: Seq<char>) -> bool {
    exists|k: int| 0 <= k < 7 && lowercase(#[trigger] subheader_word(k)) == lowercase(t)
}

/// One word with its first letter upper-cased and the rest lower-cased.
pub open spec fn capitalized(w: Seq<char>) -> Seq<char> {
    if w.len() == 0 { seq![] } else { uppercase_of(w[0]) + lowercase(w.drop_first()) }
}

/// Every word capitalised, joined by single spaces.
pub open spec fn title_cased(s: Seq<char>) -> Seq<char> {
    join_space(words(s).map_values(|w: Seq<char>| capitalized(w)))
}

/// A sub-header appended to the last rule.
pub open spec fn append_subheader(rules: Seq<RuleView>, t: Seq<char>) -> Seq<RuleView> {
    if rules.len() == 0 {
        rules
    } else {
        let last = rules.last();
        rules.drop_last().push(RuleView {
            body: last.body + t,
            body_html: last.body_html + "<strong>"@ + escape_html(t) + "</strong>"@,
            ..last
        })
    }
}

/// A paragraph appended to the last rule.
pub open spec fn append_para(rules: Seq<RuleView>, p: Seq<char>) -> Seq<RuleView> {
    if rules.len() == 0 {
        rules
    } else {
        let last = rules.last();
        rules.drop_last().push(RuleView {
            body: (if last.body.len() > 0 { last.body.push('\n') } else { last.body }) + p,
            body_html: last.body_html + ipg_para_html(p),
            ..last
        })
    }
}

/// The index of the first rule numbered `n`.
pub open spec fn first_numbered(rules: Seq<RuleView>, n: Seq<char>, i: int) -> Option<int>
    decreases rules.len() - i,
{
    if i < 0 || i >= rules.len() {
        None
    } else if rules[i].number == n {
        Some(i)
    } else {
        first_numbered(rules, n, i + 1)
    }
}

/// The section number a header line carries (0 when it does not parse as `u32`).
pub open spec fn section_number(num: Seq<char>) -> int {
    match parse_unsigned(num, u32::MAX as nat) {
        Some(n) => n as int,
        None => 0,
    }
}

/// The section expected after `last`, wrapping at 2^32 as a release build does.
pub open spec fn next_section(last: int) -> int {
    (last + 1) % 0x1_0000_0000
}

pub struct IpgAcc {
    pub version: Seq<char>,
    pub rules: Seq<RuleView>,
    pub sort_order: int,
    pub past_toc: bool,
    pub last_section: int,
    pub seen: Seq<Seq<char>>,
    pub para: Seq<char>,
    pub in_a: bool,
    pub a_lines: Seq<Seq<char>>,
}

pub open spec fn ipg_init() -> IpgAcc {
    IpgAcc {
        version: "unknown"@,
        rules: seq![],
        sort_order: 0,
        past_toc: false,
        last_section: 0,
        seen: seq![],
        para: seq![],
        in_a: false,
        a_lines: seq![],
    }
}

pub open spec fn ipg_flush(a: IpgAcc) -> IpgAcc {
    if a.para.len() > 0 { IpgAcc { rules: append_para(a.rules, a.para), para: seq![], ..a } } else { a }
}

pub open spec fn ipg_finalize(a: IpgAcc) -> IpgAcc {
    if a.in_a {
        let rules = match first_numbered(a.rules, "Appendix A"@, 0) {
            Some(i) => a.rules.update(i, RuleView { body_html: penalty_table(a.a_lines), ..a.rules[i] }),
            None => a.rules,
        };
        IpgAcc { rules, a_lines: seq![], ..a }
    } else {
        a
    }
}

pub open spec fn heading(a: IpgAcc, num: Seq<char>, title: Seq<char>, parent: Option<Seq<char>>) -> IpgAcc {
    let id = a.sort_order + 1;
    IpgAcc {
        sort_order: id,
        rules: a.rules.push(RuleView { id, number: num, title: Some(title), body: title, body_html: seq![], parent }),
        ..a
    }
}

pub open spec fn add_text(a: IpgAcc, t: Seq<char>) -> IpgAcc {
    if list_item(t) {
        let f = ipg_flush(a);
        IpgAcc { para: f.para + t, ..f }
    } else {
        IpgAcc { para: (if a.para.len() > 0 { a.para.push(' ') } else { a.para }) + t, ..a }
    }
}

pub open spec fn ends_in_digit(t: Seq<char>) -> bool {
    t.len() > 0 && is_ascii_digit(t.last())
}

pub open spec fn is_next_section(a: IpgAcc, t: Seq<char>) -> bool {
    match numbered_section_match(t) {
        Some((num, ttl)) => section_number(num) == next_section(a.last_section) && section_title(trim(ttl)),
        None => false,
    }
}

pub open spec fn appendix_letter_of(c1: Seq<char>) -> char {
    let tc = trim(c1);
    ascii_upper_char(if tc.len() > 0 { tc.last() } else { 'A' })
}

pub open spec fn ipg_step(a0: IpgAcc, line: Seq<char>) -> IpgAcc {
    let t = trim(line);
    let a = if a0.version == "unknown"@ && version_search(VersionPhrase::Effective, t, 0) is Some {
        IpgAcc { version: version_search(VersionPhrase::Effective, t, 0)->0, ..a0 }
    } else {
        a0
    };
    if only_digits(t) || ipg_header_footer(t) {
        a0
    } else if !a.past_toc {
        match numbered_section_match(t) {
            Some((num, tp0)) => {
                let tp = trim(tp0);
                if !ends_in_digit(tp) && section_title(tp) {
                    let h = heading(a, num, cleaned_title(tp), None);
                    IpgAcc { past_toc: true, last_section: section_number(num), ..h }
                } else {
                    a
                }
            },
            None => a,
        }
    } else if t.len() == 0 {
        if a.in_a { a } else { ipg_flush(a) }
    } else if appendix_match(t, true) is Some {
        let (c1, c2) = appendix_match(t, true)->0;
        let f = ipg_finalize(ipg_flush(a));
        let letter = appendix_letter_of(c1);
        let h = heading(f, "Appendix "@.push(letter), cleaned_title(title_cased(trim(c2))), None);
        if letter == 'A' { IpgAcc { in_a: true, ..h } } else { h }
    } else if a.in_a {
        IpgAcc { a_lines: a.a_lines.push(t), ..a }
    } else if is_subheader(t) {
        let f = ipg_flush(a);
        IpgAcc { rules: append_subheader(f.rules, t), ..f }
    } else if is_next_section(a, t) {
        let (num, ttl) = numbered_section_match(t)->0;
        let f = ipg_flush(a);
        let last = match parse_unsigned(num, u32::MAX as nat) { Some(n) => n as int, None => f.last_section };
        heading(IpgAcc { last_section: last, ..f }, num, cleaned_title(trim(ttl)), None)
    } else if ipg_subsection_match(t) is Some {
        let (num, ttl) = ipg_subsection_match(t)->0;
        if !a.seen.contains(num) {
            let f = ipg_flush(a);
            heading(IpgAcc { seen: f.seen.push(num), ..f }, num, cleaned_title(trim(ttl)), parent_number(num))
        } else {
            add_text(a, t)
        }
    } else {
        add_text(a, t)
    }
}

pub open spec fn ipg_run(ls: Seq<Seq<char>>) -> IpgAcc
    decreases ls.len(),
{
    if ls.len() == 0 { ipg_init() } else { ipg_step(ipg_run(ls.drop_last()), ls.last()) }
}

/// The text the parser reads: line endings normalised.
pub open spec fn ipg_text(raw: Seq<char>) -> Seq<char> {
    normalize_newlines(raw)
}

pub open spec fn ipg_parse(raw: Seq<char>) -> IpgDoc {
    let a = ipg_finalize(ipg_flush(ipg_run(lines(ipg_text(raw)))));
    IpgDoc { version: a.version, rules: a.rules }
}

// ── Executable parser ─────────────────────────────────────────────────────

struct IpgExec {
    version: Vec<char>,
    rules: Vec<Draft>,
    sort_order: i64,
    past_toc: bool,
    last_section: u32,
    seen: Vec<Vec<char>>,
    para: Vec<char>,
    in_a: bool,
    a_lines: Vec<Vec<char>>,
}

impl View for IpgExec {
    type V = IpgAcc;

    closed spec fn view(&self) -> IpgAcc {
        IpgAcc {
            version: self.version@,
            rules: drafts_view(self.rules@),
            sort_order: self.sort_order as int,
            past_toc: self.past_toc,
            last_section: self.last_section as int,
            seen: views(self.seen@),
            para: self.para@,
            in_a: self.in_a,
            a_lines: views(self.a_lines@),
        }
    }
}

fn header_footer_exec(l: &[char]) -> (r: bool)
    ensures
        r == ipg_header_footer(l@),
{
    contains_str(l, "Magic: The Gathering Infraction Procedure Guide")
        || (contains_str(l, "Infraction Procedure Guide")
            && (starts_with_str(l, "Wizards") || starts_with_str(l, "\u{a9}") || starts_with_str(l, "WPN ")))
        || starts_with_str(l, "Wizards of the Coast") || starts_with_str(l, "\u{a9}") || starts_with_str(l, "WPN ")
}

/// Whether a line is a repeated page header or footer.
pub fn is_header_footer(line: &str) -> (r: bool)
    ensures
        r == ipg_header_footer(line@),
{
    let v = chars_of(line);
    header_footer_exec(v.as_slice())
}

fn para_html_exec(p: &[char]) -> (r: Vec<char>)
    ensures
        r@ == ipg_para_html(p@),
{
    let e = escape_html_chars(p);
    let b1 = rewrite_exec(&Rewrite::TournamentRulesRefs, e.as_slice());
    let l = rewrite_exec(&Rewrite::SectionRefs, b1.as_slice());
    let mut r = chars_of("<p>");
    append(&mut r, l.as_slice());
    append_str(&mut r, "</p>");
    r
}

fn append_para_exec(rules: &mut Vec<Draft>, p: &[char])
    ensures
        drafts_view(final(rules)@) == append_para(drafts_view(old(rules)@), p@),
{
    if rules.len() == 0 {
        return;
    }
    let ghost r0 = drafts_view(rules@);
    let mut last = rules.pop().unwrap();
    assert(drafts_view(rules@) =~= r0.drop_last());
    let ghost lv = last@;
    if last.body.len() > 0 {
        last.body.push('\n');
    }
    append(&mut last.body, p);
    let h = para_html_exec(p);
    append(&mut last.body_html, h.as_slice());
    assert(last.body@ =~= (if lv.body.len() > 0 { lv.body.push('\n') } else { lv.body }) + p@);
    assert(last.body_html@ =~= lv.body_html + ipg_para_html(p@));
    let ghost r1 = rules@;
    rules.push(last);
    assert(drafts_view(rules@) =~= drafts_view(r1).push(last@));
}

fn subheader_exec(k: usize) -> (r: Vec<char>)
    requires
        k < 7,
    ensures
        r@ == subheader_word(k as int),
{
    if k == 0 { chars_of("Definition") }
    else if k == 1 { chars_of("Philosophy") }
    else if k == 2 { chars_of("Penalty") }
    else if k == 3 { chars_of("Penalties") }
    else if k == 4 { chars_of("Additional Remedy") }
    else if k == 5 { chars_of("Upgrade") }
    else { chars_of("Downgrade") }
}

fn is_subheader_exec(t: &[char]) -> (r: bool)
    ensures
        r == is_subheader(t@),
{
    let lower = lowercase_exec(t);
    let mut k: usize = 0;
    while k < 7
        invariant
            0 <= k <= 7,
            lower@ == lowercase(t@),
            forall|m: int| 0 <= m < k ==> lowercase(#[trigger] subheader_word(m)) != lowercase(t@),
        decreases 7 - k,
    {
        let h = lowercase_exec(subheader_exec(k).as_slice());
        if eq_chars(h.as_slice(), lower.as_slice()) {
            return true;
        }
        k = k + 1;
    }
    false
}

fn capitalized_exec(w: &[char]) -> (r: Vec<char>)
    ensures
        r@ == capitalized(w@),
{
    if w.len() == 0 {
        return Vec::new();
    }
    let mut r = uppercase_of_exec(w[0]);
    let rest = crate::text::subvec(w, 1, w.len());
    assert(rest@ =~= w@.drop_first());
    let low = lowercase_exec(rest.as_slice());
    append(&mut r, low.as_slice());
    r
}

fn title_cased_exec(s: &[char]) -> (r: Vec<char>)
    ensures
        r@ == title_cased(s@),
{
    let ws = words_exec(s);
    let mut caps: Vec<Vec<char>> = Vec::new();
    let mut i: usize = 0;
    while i < ws.len()
        invariant
            0 <= i <= ws@.len(),
            views(ws@) == words(s@),
            views(caps@) == words(s@).take(i as int).map_values(|w: Seq<char>| capitalized(w)),
        decreases ws.len() - i,
    {
        let c = capitalized_exec(ws[i].as_slice());
        let ghost c0 = views(caps@);
        caps.push(c);
        assert(views(caps@) =~= c0.push(c@));
        assert(words(s@).take(i + 1).map_values(|w: Seq<char>| capitalized(w))
            =~= words(s@).take(i as int).map_values(|w: Seq<char>| capitalized(w)).push(capitalized(words(s@)[i as int])));
        assert(views(ws@)[i as int] == ws@[i as int]@);
        i = i + 1;
    }
    assert(words(s@).take(ws@.len() as int) =~= words(s@));
    crate::rounds_table::join_space_exec(&caps)
}

/// Capitalise every word and join them with single spaces.
pub fn title_case(s: &str) -> (r: String)
    ensures
        r@ == title_cased(s@),
{
    let v = chars_of(s);
    let t = title_cased_exec(v.as_slice());
    string_from_chars(&t)
}

fn append_subheader_exec(rules: &mut Vec<Draft>, t: &[char])
    ensures
        drafts_view(final(rules)@) == append_subheader(drafts_view(old(rules)@), t@),
{
    if rules.len() == 0 {
        return;
    }
    let ghost r0 = drafts_view(rules@);
    let mut last = rules.pop().unwrap();
    assert(drafts_view(rules@) =~= r0.drop_last());
    let ghost lv = last@;
    append(&mut last.body, t);
    append_str(&mut last.body_html, "<strong>");
    let e = escape_html_chars(t);
    append(&mut last.body_html, e.as_slice());
    append_str(&mut last.body_html, "</strong>");
    assert(last.body@ =~= lv.body + t@);
    assert(last.body_html@ =~= lv.body_html + "<strong>"@ + escape_html(t@) + "</strong>"@);
    let ghost r1 = rules@;
    rules.push(last);
    assert(drafts_view(rules@) =~= drafts_view(r1).push(last@));
}

fn flush_exec(a: IpgExec) -> (r: IpgExec)
    ensures
        r@ == ipg_flush(a@),
        r.sort_order == a.sort_order,
{
    if a.para.len() > 0 {
        let mut a = a;
        append_para_exec(&mut a.rules, a.para.as_slice());
        IpgExec { para: Vec::new(), ..a }
    } else {
        a
    }
}

fn first_numbered_exec(rules: &Vec<Draft>, n: &[char]) -> (r: Option<usize>)
    ensures
        match r {
            Some(i) => first_numbered(drafts_view(rules@), n@, 0) == Some(i as int) && i < rules@.len(),
            None => first_numbered(drafts_view(rules@), n@, 0) is None,
        },
{
    let mut i: usize = 0;
    while i < rules.len()
        invariant
            0 <= i <= rules@.len(),
            first_numbered(drafts_view(rules@), n@, i as int) == first_numbered(drafts_view(rules@), n@, 0),
        decreases rules.len() - i,
    {
        assert(drafts_view(rules@)[i as int] == rules@[i as int]@);
        if eq_chars(rules[i].number.as_slice(), n) {
            return Some(i);
        }
        i = i + 1;
    }
    None
}

fn finalize_exec(a: IpgExec) -> (r: IpgExec)
    ensures
        r@ == ipg_finalize(a@),
        r.sort_order == a.sort_order,
{
    if !a.in_a {
        return a;
    }
    let mut a = a;
    let name = chars_of("Appendix A");
    if let Some(i) = first_numbered_exec(&a.rules, name.as_slice()) {
        let html = build_penalty_table_html(&a.a_lines);
        let ghost r0 = drafts_view(a.rules@);
        let mut d = a.rules.remove(i);
        let ghost dv = d@;
        assert(dv == r0[i as int]);
        d.body_html = html;
        a.rules.insert(i, d);
        assert(drafts_view(a.rules@) =~= r0.update(i as int, RuleView { body_html: penalty_table(views(a.a_lines@)), ..r0[i as int] }));
    }
    let empty: Vec<Vec<char>> = Vec::new();
    assert(views(empty@) =~= Seq::<Seq<char>>::empty());
    IpgExec { a_lines: empty, ..a }
}

fn heading_exec(a: IpgExec, num: Vec<char>, title: Vec<char>, parent: Option<Vec<char>>) -> (r: IpgExec)
    requires
        a.sort_order < i64::MAX,
    ensures
        r@ == heading(a@, num@, title@, opt_chars_view(parent)),
        r.sort_order == a.sort_order + 1,
{
    let mut a = a;
    let id = a.sort_order + 1;
    let body = crate::text::copy_chars(title.as_slice());
    let d = Draft { id, number: num, title: Some(title), body, body_html: Vec::new(), parent };
    let ghost r0 = drafts_view(a.rules@);
    a.rules.push(d);
    assert(d.body_html@ =~= Seq::<char>::empty());
    assert(drafts_view(a.rules@) =~= r0.push(d@));
    IpgExec { sort_order: id, ..a }
}

fn add_text_exec(a: IpgExec, t: &[char]) -> (r: IpgExec)
    ensures
        r@ == add_text(a@, t@),
        r.sort_order == a.sort_order,
{
    if list_item_exec(t) {
        let mut f = flush_exec(a);
        let ghost p0 = f.para@;
        append(&mut f.para, t);
        f
    } else {
        let mut a = a;
        let ghost p0 = a.para@;
        if a.para.len() > 0 {
            a.para.push(' ');
        }
        append(&mut a.para, t);
        assert(a.para@ =~= (if p0.len() > 0 { p0.push(' ') } else { p0 }) + t@);
        a
    }
}

fn seen_contains(seen: &Vec<Vec<char>>, n: &[char]) -> (r: bool)
    ensures
        r == views(seen@).contains(n@),
{
    let mut i: usize = 0;
    while i < seen.len()
        invariant
            0 <= i <= seen@.len(),
            forall|k: int| 0 <= k < i ==> views(seen@)[k] != n@,
        decreases seen.len() - i,
    {
        if eq_chars(seen[i].as_slice(), n) {
            assert(views(seen@)[i as int] == n@);
            return true;
        }
        i = i + 1;
    }
    false
}

#[verifier::spinoff_prover]
#[verifier::rlimit(60)]
fn step_exec(a0: IpgExec, line: &[char]) -> (r: IpgExec)
    requires
        a0.sort_order < i64::MAX,
    ensures
        r@ == ipg_step(a0@, line@),
        a0.sort_order <= r.sort_order <= a0.sort_order + 1,
{
    let t = trim_chars(line);
    if only_digits_exec(t.as_slice()) || header_footer_exec(t.as_slice()) {
        return a0;
    }
    let mut a = a0;
    if eq_str(a.version.as_slice(), "unknown") {
        if let Some(v) = find_version(&VersionPhrase::Effective, t.as_slice()) {
            a = IpgExec { version: v, ..a };
        }
    }
    if !a.past_toc {
        if let Some((num, tp0)) = numbered_section_exec(t.as_slice()) {
            let tp = trim_chars(tp0.as_slice());
            let ends_digit = tp.len() > 0 && '0' <= tp[tp.len() - 1] && tp[tp.len() - 1] <= '9';
            let tps = string_from_chars(&tp);
            if !ends_digit && crate::sections::looks_like_section_title(tps.as_str()) {
                let n = parse_unsigned_chars(num.as_slice(), 0xFFFF_FFFF);
                let last: u32 = match n { Some(x) => x as u32, None => 0 };
                let title = cleaned_title_exec(tp.as_slice());
                let h = heading_exec(a, num, title, None);
                return IpgExec { past_toc: true, last_section: last, ..h };
            }
        }
        return a;
    }
    if t.len() == 0 {
        if a.in_a {
            return a;
        } else {
            return flush_exec(a);
        }
    }
    if let Some((c1, c2)) = appendix_exec(t.as_slice(), true) {
        let f = finalize_exec(flush_exec(a));
        let tc = trim_chars(c1.as_slice());
        let letter = to_ascii_upper(if tc.len() > 0 { tc[tc.len() - 1] } else { 'A' });
        let mut number = chars_of("Appendix ");
        number.push(letter);
        let tt = title_cased_exec(trim_chars(c2.as_slice()).as_slice());
        let title = cleaned_title_exec(tt.as_slice());
        let h = heading_exec(f, number, title, None);
        if letter == 'A' {
            return IpgExec { in_a: true, ..h };
        }
        return h;
    }
    if a.in_a {
        let ghost e0 = views(a.a_lines@);
        a.a_lines.push(t);
        assert(views(a.a_lines@) =~= e0.push(t@));
        return a;
    }
    if is_subheader_exec(t.as_slice()) {
        let mut f = flush_exec(a);
        append_subheader_exec(&mut f.rules, t.as_slice());
        return f;
    }
    if let Some((num, ttl)) = numbered_section_exec(t.as_slice()) {
        let n = parse_unsigned_chars(num.as_slice(), 0xFFFF_FFFF);
        let nv: u32 = match n { Some(x) => x as u32, None => 0 };
        let tt = trim_chars(ttl.as_slice());
        let tts = string_from_chars(&tt);
        if nv == a.last_section.wrapping_add(1) && crate::sections::looks_like_section_title(tts.as_str()) {
            let f = flush_exec(a);
            let last: u32 = match n { Some(x) => x as u32, None => f.last_section };
            let title = cleaned_title_exec(tt.as_slice());
            return heading_exec(IpgExec { last_section: last, ..f }, num, title, None);
        }
    }
    if let Some((num, ttl)) = ipg_subsection_exec(t.as_slice()) {
        if !seen_contains(&a.seen, num.as_slice()) {
            let mut f = flush_exec(a);
            let ghost s0 = views(f.seen@);
            let key = crate::text::copy_chars(num.as_slice());
            f.seen.push(key);
            assert(views(f.seen@) =~= s0.push(num@));
            let title = cleaned_title_exec(trim_chars(ttl.as_slice()).as_slice());
            let parent = parent_number_exec(num.as_slice());
            return heading_exec(f, num, title, parent);
        }
    }
    add_text_exec(a, t.as_slice())
}

/// Parse the text of the infraction procedure guide.
pub fn parse_ipg(raw: &str) -> (r: ParsedIPG)
    requires
        raw@.len() < i64::MAX,
    ensures
        r@ == ipg_parse(raw@),
{
    let raw_v = chars_of(raw);
    let text = normalize_newlines_exec(raw_v.as_slice());
    let ls = split_lines(text.as_slice());
    proof {
        lemma_lines_len(text@, 0);
        crate::text::lemma_normalize_len(raw@);
    }
    let empty_seen: Vec<Vec<char>> = Vec::new();
    let empty_lines: Vec<Vec<char>> = Vec::new();
    let mut a = IpgExec {
        version: chars_of("unknown"),
        rules: Vec::new(),
        sort_order: 0,
        past_toc: false,
        last_section: 0,
        seen: empty_seen,
        para: Vec::new(),
        in_a: false,
        a_lines: empty_lines,
    };
    assert(a@.rules =~= seq![]);
    assert(a@.seen =~= seq![]);
    assert(a@.a_lines =~= seq![]);
    assert(a@ == ipg_init());
    let mut k: usize = 0;
    while k < ls.len()
        invariant
            0 <= k <= ls@.len(),
            views(ls@) == lines(ipg_text(raw@)),
            ls@.len() < i64::MAX,
            a@ == ipg_run(views(ls@).take(k as int)),
            0 <= a.sort_order <= k,
        decreases ls.len() - k,
    {
        assert(views(ls@).take(k + 1).drop_last() =~= views(ls@).take(k as int));
        assert(views(ls@)[k as int] == ls@[k as int]@);
        a = step_exec(a, ls[k].as_slice());
        k = k + 1;
    }
    assert(views(ls@).take(ls@.len() as int) =~= views(ls@));
    let a = finalize_exec(flush_exec(a));
    let rules = finish_rules(&a.rules);
    ParsedIPG { version: string_from_chars(&a.version), rules }
}

/// Line endings do not matter: the infraction procedure guide written with Windows (`"\r\n"`)
/// or old Mac (`'\r'`) line endings parses as the same text written with
/// `'\n'`.
pub proof fn law_ipg_line_endings(raw: Seq<char>)
    requires
        has_no_cr(raw),
    ensures
        ipg_parse(lf_to_crlf(raw)) == ipg_parse(raw),
        ipg_parse(lf_to_cr(raw)) == ipg_parse(raw),
{
    lemma_normalize_plain(raw);
    lemma_normalize_crlf(raw);
    lemma_normalize_cr(raw);
}

} // verus!
