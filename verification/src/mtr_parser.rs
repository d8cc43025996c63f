//! Parser for the Magic Tournament Rules as text extracted from the PDF:
//! numbered sections and subsections, paragraphs, appendices, and the
//! recommended-rounds table of Appendix E.
use vstd::prelude::*;
use crate::models::{drafts_view, finish_rules, opt_chars_view, rules_view, Draft, RuleDetail, RuleView};
use crate::patterns::{
    appendix_exec, appendix_match, find_version, mtr_subsection_exec, mtr_subsection_match,
    numbered_section_exec, numbered_section_match, only_digits, only_digits_exec, rewrite,
    rewrite_exec, version_search, Rewrite, VersionPhrase,
};
use crate::rounds_table::{build_rounds_table_html, rounds_table};
use crate::sections::{
    cleaned_title, cleaned_title_exec, list_item, list_item_exec, parent_number,
    parent_number_exec, section_title,
};
use crate::text::{
    has_no_cr, lemma_normalize_cr, lemma_normalize_crlf, lemma_normalize_plain, lf_to_cr, lf_to_crlf,
    append, append_str, ascii_upper_char, chars_of, contains, contains_str, decimal, occurs_at,
    occurs_at_exec, eq_chars, eq_str,
    escape_html, escape_html_chars, is_ascii_digit, lemma_lines_len, lines,
    normalize_newlines, normalize_newlines_exec, parse_unsigned, parse_unsigned_chars,
    split_lines, starts_with, starts_with_str, string_from_chars, to_ascii_upper, trim,
    trim_chars, views,
};

verus! {

/// The parsed tournament rules.
pub struct ParsedMTR {
    pub version: String,
    pub rules: Vec<RuleDetail>,
}

/// The parsed document as plain values.
pub struct MtrDoc {
    pub version: Seq<char>,
    pub rules: Seq<RuleView>,
}

impl View for ParsedMTR {
    type V = MtrDoc;

    open spec fn view(&self) -> MtrDoc {
        MtrDoc { version: self.version@, rules: rules_view(self.rules@) }
    }
}

/// Page headers and footers repeated by the PDF.
pub open spec fn mtr_header_footer(l: Seq<char>) -> bool {
    contains(l, "Magic: The Gathering Tournament Rules"@) || starts_with(l, "Wizards of the Coast"@)
        || starts_with(l, "\u{a9}"@) || starts_with(l, "WPN "@)
}

/// A paragraph's HTML: escaped, labels bolded, section references linked.
pub open spec fn mtr_para_html(p: Seq<char>) -> Seq<char> {
    "<p>"@ + rewrite(Rewrite::SectionRefs, rewrite(Rewrite::BoldDowngrade, rewrite(Rewrite::BoldUpgrade, escape_html(p))))
        + "</p>"@
}

/// A paragraph appended to the last rule.
pub open spec fn append_para(rules: Seq<RuleView>, p: Seq<char>) -> Seq<RuleView> {
    if rules.len() == 0 {
        rules
    } else {
        let last = rules.last();
        rules.drop_last().push(RuleView {
            body: (if last.body.len() > 0 { last.body.push('\n') } else { last.body }) + p,
            body_html: last.body_html + mtr_para_html(p),
            ..last
        })
    }
}

/// The index of the first rule numbered `n`.
pub open spec fn first_numbered(rules: Seq<RuleView>, n: Seq<char>, i: int) -> Option<int>
    decreases rules.len() - i,
{
    if i < 0 || i >= rules.len() {
        None
    } else if rules[i].number == n {
        Some(i)
    } else {
        first_numbered(rules, n, i + 1)
    }
}

/// The section number a header line carries (0 when it does not parse as `u32`).
pub open spec fn section_number(num: Seq<char>) -> int {
    match parse_unsigned(num, u32::MAX as nat) {
        Some(n) => n as int,
        None => 0,
    }
}

/// The section expected after `last`, wrapping at 2^32 as a release build does.
pub open spec fn next_section(last: int) -> int {
    (last + 1) % 0x1_0000_0000
}

pub struct MtrAcc {
    pub version: Seq<char>,
    pub rules: Seq<RuleView>,
    pub sort_order: int,
    pub past_toc: bool,
    pub last_section: int,
    pub seen: Seq<Seq<char>>,
    pub para: Seq<char>,
    pub in_e: bool,
    pub e_lines: Seq<Seq<char>>,
}

pub open spec fn mtr_init() -> MtrAcc {
    MtrAcc {
        version: "unknown"@,
        rules: seq![],
        sort_order: 0,
        past_toc: false,
        last_section: 0,
        seen: seq![],
        para: seq![],
        in_e: false,
        e_lines: seq![],
    }
}

pub open spec fn mtr_flush(a: MtrAcc) -> MtrAcc {
    if a.para.len() > 0 { MtrAcc { rules: append_para(a.rules, a.para), para: seq![], ..a } } else { a }
}

pub open spec fn mtr_finalize(a: MtrAcc) -> MtrAcc {
    if a.in_e {
        let rules = match first_numbered(a.rules, "Appendix E"@, 0) {
            Some(i) => a.rules.update(i, RuleView { body_html: rounds_table(a.e_lines), ..a.rules[i] }),
            None => a.rules,
        };
        MtrAcc { rules, e_lines: seq![], ..a }
    } else {
        a
    }
}

pub open spec fn heading(a: MtrAcc, num: Seq<char>, title: Seq<char>, parent: Option<Seq<char>>) -> MtrAcc {
    let id = a.sort_order + 1;
    MtrAcc {
        sort_order: id,
        rules: a.rules.push(RuleView { id, number: num, title: Some(title), body: title, body_html: seq![], parent }),
        ..a
    }
}

pub open spec fn add_text(a: MtrAcc, t: Seq<char>) -> MtrAcc {
    if list_item(t) {
        let f = mtr_flush(a);
        MtrAcc { para: f.para + t, ..f }
    } else {
        MtrAcc { para: (if a.para.len() > 0 { a.para.push(' ') } else { a.para }) + t, ..a }
    }
}

pub open spec fn ends_in_digit(t: Seq<char>) -> bool {
    t.len() > 0 && is_ascii_digit(t.last())
}

pub open spec fn is_next_section(a: MtrAcc, t: Seq<char>) -> bool {
    match numbered_section_match(t) {
        Some((num, ttl)) => section_number(num) == next_section(a.last_section) && section_title(trim(ttl)),
        None => false,
    }
}

pub open spec fn appendix_letter_of(c1: Seq<char>) -> char {
    let tc = trim(c1);
    ascii_upper_char(if tc.len() > 0 { tc.last() } else { 'A' })
}

pub open spec fn mtr_step(a0: MtrAcc, line: Seq<char>) -> MtrAcc {
    let t = trim(line);
    let a = if a0.version == "unknown"@ && version_search(VersionPhrase::Effective, t, 0) is Some {
        MtrAcc { version: version_search(VersionPhrase::Effective, t, 0)->0, ..a0 }
    } else {
        a0
    };
    if only_digits(t) || mtr_header_footer(t) {
        a0
    } else if !a.past_toc {
        match numbered_section_match(t) {
            Some((num, tp0)) => {
                let tp = trim(tp0);
                if !ends_in_digit(tp) && section_title(tp) {
                    let h = heading(a, num, cleaned_title(tp), None);
                    MtrAcc { past_toc: true, last_section: section_number(num), ..h }
                } else {
                    a
                }
            },
            None => a,
        }
    } else if t.len() == 0 {
        if a.in_e { MtrAcc { e_lines: a.e_lines.push(seq![]), ..a } } else { mtr_flush(a) }
    } else if appendix_match(t, false) is Some {
        let (c1, c2) = appendix_match(t, false)->0;
        let f = mtr_finalize(mtr_flush(a));
        let letter = appendix_letter_of(c1);
        let h = heading(MtrAcc { in_e: false, ..f }, "Appendix "@.push(letter), cleaned_title(trim(c2)), None);
        MtrAcc { in_e: letter == 'E', ..h }
    } else if a.in_e {
        MtrAcc { e_lines: a.e_lines.push(t), ..a }
    } else if is_next_section(a, t) {
        let (num, ttl) = numbered_section_match(t)->0;
        let f = mtr_flush(a);
        let last = match parse_unsigned(num, u32::MAX as nat) { Some(n) => n as int, None => f.last_section };
        heading(MtrAcc { last_section: last, ..f }, num, cleaned_title(trim(ttl)), None)
    } else if mtr_subsection_match(t) is Some {
        let (num, ttl) = mtr_subsection_match(t)->0;
        if !a.seen.contains(num) {
            let f = mtr_flush(a);
            heading(MtrAcc { seen: f.seen.push(num), ..f }, num, cleaned_title(trim(ttl)), parent_number(num))
        } else {
            add_text(a, t)
        }
    } else {
        add_text(a, t)
    }
}

pub open spec fn mtr_run(ls: Seq<Seq<char>>) -> MtrAcc
    decreases ls.len(),
{
    if ls.len() == 0 { mtr_init() } else { mtr_step(mtr_run(ls.drop_last()), ls.last()) }
}

/// The text the parser reads: line endings normalised, and a label split from
/// its colon ("Upgrade\n: ") joined again.
pub open spec fn mtr_text(raw: Seq<char>) -> Seq<char> {
    rewrite(Rewrite::JoinLabel, normalize_newlines(raw))
}

pub open spec fn mtr_parse(raw: Seq<char>) -> MtrDoc {
    let a = mtr_finalize(mtr_flush(mtr_run(lines(mtr_text(raw)))));
    MtrDoc { version: a.version, rules: a.rules }
}

// ── Integrity check ───────────────────────────────────────────────────────

/// Non-overlapping occurrences of `p` from `i` on, scanning left to right.
pub open spec fn count_from(s: Seq<char>, p: Seq<char>, i: int) -> nat
    decreases s.len() - i,
{
    if i < 0 || p.len() == 0 || i + p.len() > s.len() {
        0
    } else if occurs_at(s, p, i) {
        1 + count_from(s, p, i + p.len())
    } else {
        count_from(s, p, i + 1)
    }
}

/// The data rows of Appendix E's table: the `<tr>` count less the header row.
pub open spec fn data_rows(html: Seq<char>) -> nat {
    if count_from(html, "<tr>"@, 0) >= 1 { (count_from(html, "<tr>"@, 0) - 1) as nat } else { 0 }
}

/// Why a parse of the tournament rules is refused, or `Ok` when it is sound.
pub open spec fn mtr_validation(doc: MtrDoc) -> Result<(), Seq<char>> {
    if doc.version == "unknown"@ {
        Err("the document effective date could not be read"@)
    } else {
        match first_numbered(doc.rules, "Appendix E"@, 0) {
            None => Err("Appendix E is missing"@),
            Some(i) => {
                let html = doc.rules[i].body_html;
                if !contains(html, "<table"@) || data_rows(html) < 3 {
                    Err("Appendix E's recommended Swiss rounds table was not parsed correctly (found "@
                        + decimal(data_rows(html)) + " data rows)"@)
                } else if contains(html, "Appendix F"@) {
                    Err("Appendix F content leaked into Appendix E"@)
                } else {
                    Ok(())
                }
            },
        }
    }
}

pub open spec fn unit_result_view(r: Result<(), String>) -> Result<(), Seq<char>> {
    match r {
        Ok(()) => Ok(()),
        Err(e) => Err(e@),
    }
}

fn first_numbered_rule(rules: &Vec<RuleDetail>, n: &[char]) -> (r: Option<usize>)
    ensures
        match r {
            Some(i) => first_numbered(rules_view(rules@), n@, 0) == Some(i as int) && i < rules@.len(),
            None => first_numbered(rules_view(rules@), n@, 0) is None,
        },
{
    let mut i: usize = 0;
    while i < rules.len()
        invariant
            0 <= i <= rules@.len(),
            first_numbered(rules_view(rules@), n@, i as int) == first_numbered(rules_view(rules@), n@, 0),
        decreases rules.len() - i,
    {
        assert(rules_view(rules@)[i as int] == rules@[i as int]@);
        let num = chars_of(rules[i].number.as_str());
        if eq_chars(num.as_slice(), n) {
            return Some(i);
        }
        i = i + 1;
    }
    None
}

fn count_exec(s: &[char], p: &[char]) -> (r: usize)
    requires
        p@.len() > 0,
    ensures
        r == count_from(s@, p@, 0),
{
    let n = s.len();
    let mut i: usize = 0;
    let mut c: usize = 0;
    while i < n && p.len() <= n - i
        invariant
            n == s@.len(),
            p@.len() > 0,
            0 <= i <= n,
            c <= i,
            c + count_from(s@, p@, i as int) == count_from(s@, p@, 0),
        decreases n - i,
    {
        if occurs_at_exec(s, p, i) {
            c = c + 1;
            i = i + p.len();
        } else {
            i = i + 1;
        }
    }
    c
}

/// Reject an incomplete or corrupted parse before it replaces a stored document.
pub fn validate_mtr(parsed: &ParsedMTR) -> (r: Result<(), String>)
    ensures
        unit_result_view(r) == mtr_validation(parsed@),
{
    if eq_str(chars_of(parsed.version.as_str()).as_slice(), "unknown") {
        return Err(string_from_chars(&chars_of("the document effective date could not be read")));
    }
    let name = chars_of("Appendix E");
    let i = match first_numbered_rule(&parsed.rules, name.as_slice()) {
        Some(i) => i,
        None => return Err(string_from_chars(&chars_of("Appendix E is missing"))),
    };
    assert(rules_view(parsed.rules@)[i as int] == parsed.rules@[i as int]@);
    let html = chars_of(parsed.rules[i].body_html.as_str());
    let tr = chars_of("<tr>");
    proof { reveal_strlit("<tr>"); }
    let count = count_exec(html.as_slice(), tr.as_slice());
    let rows: usize = if count >= 1 { count - 1 } else { 0 };
    if !contains_str(html.as_slice(), "<table") || rows < 3 {
        let mut msg = chars_of("Appendix E's recommended Swiss rounds table was not parsed correctly (found ");
        let digits = crate::text::format_u64(rows as u64);
        append(&mut msg, digits.as_slice());
        append_str(&mut msg, " data rows)");
        return Err(string_from_chars(&msg));
    }
    if contains_str(html.as_slice(), "Appendix F") {
        return Err(string_from_chars(&chars_of("Appendix F content leaked into Appendix E")));
    }
    Ok(())
}

// ── Executable parser ─────────────────────────────────────────────────────

struct MtrExec {
    version: Vec<char>,
    rules: Vec<Draft>,
    sort_order: i64,
    past_toc: bool,
    last_section: u32,
    seen: Vec<Vec<char>>,
    para: Vec<char>,
    in_e: bool,
    e_lines: Vec<Vec<char>>,
}

impl View for MtrExec {
    type V = MtrAcc;

    closed spec fn view(&self) -> MtrAcc {
        MtrAcc {
            version: self.version@,
            rules: drafts_view(self.rules@),
            sort_order: self.sort_order as int,
            past_toc: self.past_toc,
            last_section: self.last_section as int,
            seen: views(self.seen@),
            para: self.para@,
            in_e: self.in_e,
            e_lines: views(self.e_lines@),
        }
    }
}

fn header_footer_exec(l: &[char]) -> (r: bool)
    ensures
        r == mtr_header_footer(l@),
{
    contains_str(l, "Magic: The Gathering Tournament Rules") || starts_with_str(l, "Wizards of the Coast")
        || starts_with_str(l, "\u{a9}") || starts_with_str(l, "WPN ")
}

/// Whether a line is a repeated page header or footer.
pub fn is_header_footer(line: &str) -> (r: bool)
    ensures
        r == mtr_header_footer(line@),
{
    let v = chars_of(line);
    header_footer_exec(v.as_slice())
}

fn para_html_exec(p: &[char]) -> (r: Vec<char>)
    ensures
        r@ == mtr_para_html(p@),
{
    let e = escape_html_chars(p);
    let b1 = rewrite_exec(&Rewrite::BoldUpgrade, e.as_slice());
    let b2 = rewrite_exec(&Rewrite::BoldDowngrade, b1.as_slice());
    let l = rewrite_exec(&Rewrite::SectionRefs, b2.as_slice());
    let mut r = chars_of("<p>");
    append(&mut r, l.as_slice());
    append_str(&mut r, "</p>");
    r
}

fn append_para_exec(rules: &mut Vec<Draft>, p: &[char])
    ensures
        drafts_view(final(rules)@) == append_para(drafts_view(old(rules)@), p@),
{
    if rules.len() == 0 {
        return;
    }
    let ghost r0 = drafts_view(rules@);
    let mut last = rules.pop().unwrap();
    assert(drafts_view(rules@) =~= r0.drop_last());
    let ghost lv = last@;
    if last.body.len() > 0 {
        last.body.push('\n');
    }
    append(&mut last.body, p);
    let h = para_html_exec(p);
    append(&mut last.body_html, h.as_slice());
    assert(last.body@ =~= (if lv.body.len() > 0 { lv.body.push('\n') } else { lv.body }) + p@);
    assert(last.body_html@ =~= lv.body_html + mtr_para_html(p@));
    let ghost r1 = rules@;
    rules.push(last);
    assert(drafts_view(rules@) =~= drafts_view(r1).push(last@));
}

fn flush_exec(a: MtrExec) -> (r: MtrExec)
    ensures
        r@ == mtr_flush(a@),
        r.sort_order == a.sort_order,
{
    if a.para.len() > 0 {
        let mut a = a;
        append_para_exec(&mut a.rules, a.para.as_slice());
        MtrExec { para: Vec::new(), ..a }
    } else {
        a
    }
}

fn first_numbered_exec(rules: &Vec<Draft>, n: &[char]) -> (r: Option<usize>)
    ensures
        match r {
            Some(i) => first_numbered(drafts_view(rules@), n@, 0) == Some(i as int) && i < rules@.len(),
            None => first_numbered(drafts_view(rules@), n@, 0) is None,
        },
{
    let mut i: usize = 0;
    while i < rules.len()
        invariant
            0 <= i <= rules@.len(),
            first_numbered(drafts_view(rules@), n@, i as int) == first_numbered(drafts_view(rules@), n@, 0),
        decreases rules.len() - i,
    {
        assert(drafts_view(rules@)[i as int] == rules@[i as int]@);
        if eq_chars(rules[i].number.as_slice(), n) {
            return Some(i);
        }
        i = i + 1;
    }
    None
}

fn finalize_exec(a: MtrExec) -> (r: MtrExec)
    ensures
        r@ == mtr_finalize(a@),
        r.sort_order == a.sort_order,
{
    if !a.in_e {
        return a;
    }
    let mut a = a;
    let name = chars_of("Appendix E");
    if let Some(i) = first_numbered_exec(&a.rules, name.as_slice()) {
        let html = build_rounds_table_html(&a.e_lines);
        let ghost r0 = drafts_view(a.rules@);
        let mut d = a.rules.remove(i);
        let ghost dv = d@;
        assert(dv == r0[i as int]);
        d.body_html = html;
        a.rules.insert(i, d);
        assert(drafts_view(a.rules@) =~= r0.update(i as int, RuleView { body_html: rounds_table(views(a.e_lines@)), ..r0[i as int] }));
    }
    let empty: Vec<Vec<char>> = Vec::new();
    assert(views(empty@) =~= Seq::<Seq<char>>::empty());
    MtrExec { e_lines: empty, ..a }
}

fn heading_exec(a: MtrExec, num: Vec<char>, title: Vec<char>, parent: Option<Vec<char>>) -> (r: MtrExec)
    requires
        a.sort_order < i64::MAX,
    ensures
        r@ == heading(a@, num@, title@, opt_chars_view(parent)),
        r.sort_order == a.sort_order + 1,
{
    let mut a = a;
    let id = a.sort_order + 1;
    let body = crate::text::copy_chars(title.as_slice());
    let d = Draft { id, number: num, title: Some(title), body, body_html: Vec::new(), parent };
    let ghost r0 = drafts_view(a.rules@);
    a.rules.push(d);
    assert(d.body_html@ =~= Seq::<char>::empty());
    assert(drafts_view(a.rules@) =~= r0.push(d@));
    MtrExec { sort_order: id, ..a }
}

fn add_text_exec(a: MtrExec, t: &[char]) -> (r: MtrExec)
    ensures
        r@ == add_text(a@, t@),
        r.sort_order == a.sort_order,
{
    if list_item_exec(t) {
        let mut f = flush_exec(a);
        let ghost p0 = f.para@;
        append(&mut f.para, t);
        f
    } else {
        let mut a = a;
        let ghost p0 = a.para@;
        if a.para.len() > 0 {
            a.para.push(' ');
        }
        append(&mut a.para, t);
        assert(a.para@ =~= (if p0.len() > 0 { p0.push(' ') } else { p0 }) + t@);
        a
    }
}

fn seen_contains(seen: &Vec<Vec<char>>, n: &[char]) -> (r: bool)
    ensures
        r == views(seen@).contains(n@),
{
    let mut i: usize = 0;
    while i < seen.len()
        invariant
            0 <= i <= seen@.len(),
            forall|k: int| 0 <= k < i ==> views(seen@)[k] != n@,
        decreases seen.len() - i,
    {
        if eq_chars(seen[i].as_slice(), n) {
            assert(views(seen@)[i as int] == n@);
            return true;
        }
        i = i + 1;
    }
    false
}

#[verifier::spinoff_prover]
#[verifier::rlimit(60)]
fn step_exec(a0: MtrExec, line: &[char]) -> (r: MtrExec)
    requires
        a0.sort_order < i64::MAX,
    ensures
        r@ == mtr_step(a0@, line@),
        a0.sort_order <= r.sort_order <= a0.sort_order + 1,
{
    let t = trim_chars(line);
    if only_digits_exec(t.as_slice()) || header_footer_exec(t.as_slice()) {
        return a0;
    }
    let mut a = a0;
    if eq_str(a.version.as_slice(), "unknown") {
        if let Some(v) = find_version(&VersionPhrase::Effective, t.as_slice()) {
            a = MtrExec { version: v, ..a };
        }
    }
    if !a.past_toc {
        if let Some((num, tp0)) = numbered_section_exec(t.as_slice()) {
            let tp = trim_chars(tp0.as_slice());
            let ends_digit = tp.len() > 0 && '0' <= tp[tp.len() - 1] && tp[tp.len() - 1] <= '9';
            let tps = string_from_chars(&tp);
            if !ends_digit && crate::sections::looks_like_section_title(tps.as_str()) {
                let n = parse_unsigned_chars(num.as_slice(), 0xFFFF_FFFF);
                let last: u32 = match n { Some(x) => x as u32, None => 0 };
                let title = cleaned_title_exec(tp.as_slice());
                let h = heading_exec(a, num, title, None);
                return MtrExec { past_toc: true, last_section: last, ..h };
            }
        }
        return a;
    }
    if t.len() == 0 {
        if a.in_e {
            let ghost e0 = views(a.e_lines@);
            let empty: Vec<char> = Vec::new();
            a.e_lines.push(empty);
            assert(views(a.e_lines@) =~= e0.push(seq![]));
            return a;
        } else {
            return flush_exec(a);
        }
    }
    if let Some((c1, c2)) = appendix_exec(t.as_slice(), false) {
        let f = finalize_exec(flush_exec(a));
        let tc = trim_chars(c1.as_slice());
        let letter = to_ascii_upper(if tc.len() > 0 { tc[tc.len() - 1] } else { 'A' });
        let mut number = chars_of("Appendix ");
        number.push(letter);
        let title = cleaned_title_exec(trim_chars(c2.as_slice()).as_slice());
        let h = heading_exec(MtrExec { in_e: false, ..f }, number, title, None);
        return MtrExec { in_e: letter == 'E', ..h };
    }
    if a.in_e {
        let ghost e0 = views(a.e_lines@);
        a.e_lines.push(t);
        assert(views(a.e_lines@) =~= e0.push(t@));
        return a;
    }
    if let Some((num, ttl)) = numbered_section_exec(t.as_slice()) {
        let n = parse_unsigned_chars(num.as_slice(), 0xFFFF_FFFF);
        let nv: u32 = match n { Some(x) => x as u32, None => 0 };
        let tt = trim_chars(ttl.as_slice());
        let tts = string_from_chars(&tt);
        if nv == a.last_section.wrapping_add(1) && crate::sections::looks_like_section_title(tts.as_str()) {
            let f = flush_exec(a);
            let last: u32 = match n { Some(x) => x as u32, None => f.last_section };
            let title = cleaned_title_exec(tt.as_slice());
            return heading_exec(MtrExec { last_section: last, ..f }, num, title, None);
        }
    }
    if let Some((num, ttl)) = mtr_subsection_exec(t.as_slice()) {
        if !seen_contains(&a.seen, num.as_slice()) {
            let mut f = flush_exec(a);
            let ghost s0 = views(f.seen@);
            let key = crate::text::copy_chars(num.as_slice());
            f.seen.push(key);
            assert(views(f.seen@) =~= s0.push(num@));
            let title = cleaned_title_exec(trim_chars(ttl.as_slice()).as_slice());
            let parent = parent_number_exec(num.as_slice());
            return heading_exec(f, num, title, parent);
        }
    }
    add_text_exec(a, t.as_slice())
}

/// Parse the text of the tournament rules.
pub fn parse_mtr(raw: &str) -> (r: ParsedMTR)
    requires
        raw@.len() < i64::MAX,
    ensures
        r@ == mtr_parse(raw@),
{
    let raw_v = chars_of(raw);
    let n1 = normalize_newlines_exec(raw_v.as_slice());
    let text = rewrite_exec(&Rewrite::JoinLabel, n1.as_slice());
    let ls = split_lines(text.as_slice());
    proof {
        lemma_lines_len(text@, 0);
        crate::patterns::lemma_rewrite_len(Rewrite::JoinLabel, n1@, 0);
        crate::text::lemma_normalize_len(raw@);
    }
    let empty_seen: Vec<Vec<char>> = Vec::new();
    let empty_lines: Vec<Vec<char>> = Vec::new();
    let mut a = MtrExec {
        version: chars_of("unknown"),
        rules: Vec::new(),
        sort_order: 0,
        past_toc: false,
        last_section: 0,
        seen: empty_seen,
        para: Vec::new(),
        in_e: false,
        e_lines: empty_lines,
    };
    assert(a@.rules =~= seq![]);
    assert(a@.seen =~= seq![]);
    assert(a@.e_lines =~= seq![]);
    assert(a@ == mtr_init());
    let mut k: usize = 0;
    while k < ls.len()
        invariant
            0 <= k <= ls@.len(),
            views(ls@) == lines(mtr_text(raw@)),
            ls@.len() < i64::MAX,
            a@ == mtr_run(views(ls@).take(k as int)),
            0 <= a.sort_order <= k,
        decreases ls.len() - k,
    {
        assert(views(ls@).take(k + 1).drop_last() =~= views(ls@).take(k as int));
        assert(views(ls@)[k as int] == ls@[k as int]@);
        a = step_exec(a, ls[k].as_slice());
        k = k + 1;
    }
    assert(views(ls@).take(ls@.len() as int) =~= views(ls@));
    let a = finalize_exec(flush_exec(a));
    let rules = finish_rules(&a.rules);
    ParsedMTR { version: string_from_chars(&a.version), rules }
}

/// Line endings do not matter: the tournament rules written with Windows (`"\r\n"`)
/// or old Mac (`'\r'`) line endings parses as the same text written with
/// `'\n'`.
pub proof fn law_mtr_line_endings(raw: Seq<char>)
    requires
        has_no_cr(raw),
    ensures
        mtr_parse(lf_to_crlf(raw)) == mtr_parse(raw),
        mtr_parse(lf_to_cr(raw)) == mtr_parse(raw),
{
    lemma_normalize_plain(raw);
    lemma_normalize_crlf(raw);
    lemma_normalize_cr(raw);
}

} // verus!
