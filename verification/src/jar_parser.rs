//! Parser for "Judging at Regular" as text extracted from the PDF: an
//! introduction, four named sections, and the "A player..." common issues.
use vstd::prelude::*;
use crate::models::{drafts_view, finish_rules, rules_view, Draft, RuleDetail, RuleView};
use crate::patterns::{find_version, only_digits, only_digits_exec, version_search, VersionPhrase};
use crate::text::{
    join_spaced, lemma_join_spaced_ends, trimmed_all,
    has_no_cr, lemma_normalize_cr, lemma_normalize_crlf, lemma_normalize_plain, lf_to_cr, lf_to_crlf,
    append, append_str, chars_of, contains, contains_str, decimal, eq_ignore_ascii_case,
    eq_ignore_ascii_case_exec, eq_str, escape_html, escape_html_chars, format_u64,
    lemma_lines_len, lemma_normalize_len, lines, normalize_newlines, normalize_newlines_exec,
    split_lines, starts_with, starts_with_str, string_from_chars, trim, trim_chars, trim_end_char,
    trim_end_char_exec, views,
};

verus! {

/// The parsed "Judging at Regular" document.
pub struct ParsedJAR {
    pub version: String,
    pub rules: Vec<RuleDetail>,
}

pub struct JarDoc {
    pub version: Seq<char>,
    pub rules: Seq<RuleView>,
}

impl View for ParsedJAR {
    type V = JarDoc;

    open spec fn view(&self) -> JarDoc {
        JarDoc { version: self.version@, rules: rules_view(self.rules@) }
    }
}

/// The named sections and their numbers.
pub open spec fn section_name(k: int) -> Seq<char> {
    if k == 0 { "Common Issues"@ }
    else if k == 1 { "General Unwanted Behaviors"@ }
    else if k == 2 { "Serious Problems"@ }
    else { "Resources"@ }
}

pub open spec fn section_no(k: int) -> Seq<char> {
    if k == 0 { "1"@ } else if k == 1 { "2"@ } else if k == 2 { "3"@ } else { "4"@ }
}

/// The first named section whose title equals `t` ignoring ASCII case.
pub open spec fn named_section(t: Seq<char>, k: int) -> Option<int>
    decreases 4 - k,
{
    if k < 0 || k >= 4 {
        None
    } else if eq_ignore_ascii_case(section_name(k), t) {
        Some(k)
    } else {
        named_section(t, k + 1)
    }
}

pub open spec fn jar_header_footer(l: Seq<char>) -> bool {
    contains(l, "Judging at Regular"@) || starts_with(l, "Wizards of the Coast"@)
        || starts_with(l, "\u{a9}"@) || starts_with(l, "WPN "@) || starts_with(l, "Magic: The Gathering"@)
}

pub open spec fn is_bullet(p: Seq<char>) -> bool {
    p.len() > 0 && (p[0] == '\u{2022}' || p[0] == '-')
}

pub open spec fn jar_para_html(p: Seq<char>) -> Seq<char> {
    if is_bullet(p) {
        "<p class=\"bullet\">"@ + escape_html(p) + "</p>"@
    } else {
        "<p>"@ + escape_html(p) + "</p>"@
    }
}

pub open spec fn jar_append(rules: Seq<RuleView>, p: Seq<char>) -> Seq<RuleView> {
    if rules.len() == 0 {
        rules
    } else {
        let last = rules.last();
        rules.drop_last().push(RuleView {
            body: (if last.body.len() > 0 { last.body.push('\n') } else { last.body }) + p,
            body_html: last.body_html + jar_para_html(p),
            ..last
        })
    }
}

pub struct JarAcc {
    pub version: Seq<char>,
    pub rules: Seq<RuleView>,
    pub sort_order: int,
    pub para: Seq<char>,
    pub in_common: bool,
    pub counter: int,
}

pub open spec fn jar_init() -> JarAcc {
    JarAcc {
        version: "unknown"@,
        rules: seq![RuleView {
            id: 1,
            number: "0"@,
            title: Some("Introduction"@),
            body: seq![],
            body_html: seq![],
            parent: None,
        }],
        sort_order: 1,
        para: seq![],
        in_common: false,
        counter: 0,
    }
}

pub open spec fn jar_flush(a: JarAcc) -> JarAcc {
    if a.para.len() > 0 { JarAcc { rules: jar_append(a.rules, a.para), para: seq![], ..a } } else { a }
}

pub open spec fn jar_step(a: JarAcc, line: Seq<char>) -> JarAcc {
    let t = trim(line);
    if t.len() == 0 {
        jar_flush(a)
    } else if only_digits(t) || jar_header_footer(t) {
        a
    } else if a.version == "unknown"@ && version_search(VersionPhrase::Updated, t, 0) is Some {
        JarAcc { version: version_search(VersionPhrase::Updated, t, 0)->0, ..a }
    } else if named_section(t, 0) is Some {
        let k = named_section(t, 0)->0;
        let f = jar_flush(a);
        let id = f.sort_order + 1;
        JarAcc {
            in_common: k == 0,
            counter: 0,
            sort_order: id,
            rules: f.rules.push(RuleView {
                id,
                number: section_no(k),
                title: Some(section_name(k)),
                body: section_name(k),
                body_html: seq![],
                parent: None,
            }),
            ..f
        }
    } else if a.in_common && starts_with(t, "A player"@) && a.para.len() == 0 {
        let c = (a.counter + 1) % 0x1_0000_0000;
        let id = a.sort_order + 1;
        let title = trim_end_char(t, '.');
        JarAcc {
            counter: c,
            sort_order: id,
            rules: a.rules.push(RuleView {
                id,
                number: "1."@ + decimal(c as nat),
                title: Some(title),
                body: title,
                body_html: "<p><strong>"@ + escape_html(title) + "</strong></p>"@,
                parent: Some("1"@),
            }),
            ..a
        }
    } else if is_bullet(t) {
        let f = jar_flush(a);
        JarAcc { para: f.para + t, ..f }
    } else {
        JarAcc { para: (if a.para.len() > 0 { a.para.push(' ') } else { a.para }) + t, ..a }
    }
}

pub open spec fn jar_run(ls: Seq<Seq<char>>) -> JarAcc
    decreases ls.len(),
{
    if ls.len() == 0 { jar_init() } else { jar_step(jar_run(ls.drop_last()), ls.last()) }
}

pub open spec fn jar_parse(raw: Seq<char>) -> JarDoc {
    let a = jar_flush(jar_run(lines(normalize_newlines(raw))));
    JarDoc { version: a.version, rules: a.rules }
}

// ── Executable parser ─────────────────────────────────────────────────────

struct JarExec {
    version: Vec<char>,
    rules: Vec<Draft>,
    sort_order: i64,
    para: Vec<char>,
    in_common: bool,
    counter: u32,
}

impl View for JarExec {
    type V = JarAcc;

    closed spec fn view(&self) -> JarAcc {
        JarAcc {
            version: self.version@,
            rules: drafts_view(self.rules@),
            sort_order: self.sort_order as int,
            para: self.para@,
            in_common: self.in_common,
            counter: self.counter as int,
        }
    }
}

fn section_name_exec(k: usize) -> (r: Vec<char>)
    requires
        k < 4,
    ensures
        r@ == section_name(k as int),
{
    if k == 0 { chars_of("Common Issues") }
    else if k == 1 { chars_of("General Unwanted Behaviors") }
    else if k == 2 { chars_of("Serious Problems") }
    else { chars_of("Resources") }
}

fn section_no_exec(k: usize) -> (r: Vec<char>)
    requires
        k < 4,
    ensures
        r@ == section_no(k as int),
{
    if k == 0 { chars_of("1") } else if k == 1 { chars_of("2") } else if k == 2 { chars_of("3") } else { chars_of("4") }
}

fn named_section_exec(t: &[char]) -> (r: Option<usize>)
    ensures
        match r {
            Some(k) => named_section(t@, 0) == Some(k as int) && k < 4,
            None => named_section(t@, 0) is None,
        },
{
    let mut k: usize = 0;
    while k < 4
        invariant
            0 <= k <= 4,
            named_section(t@, k as int) == named_section(t@, 0),
        decreases 4 - k,
    {
        let name = section_name_exec(k);
        if eq_ignore_ascii_case_exec(name.as_slice(), t) {
            return Some(k);
        }
        k = k + 1;
    }
    None
}

fn header_footer_exec(l: &[char]) -> (r: bool)
    ensures
        r == jar_header_footer(l@),
{
    contains_str(l, "Judging at Regular") || starts_with_str(l, "Wizards of the Coast")
        || starts_with_str(l, "\u{a9}") || starts_with_str(l, "WPN ") || starts_with_str(l, "Magic: The Gathering")
}

/// Whether a line is a repeated page header or footer.
pub fn is_header_footer(line: &str) -> (r: bool)
    ensures
        r == jar_header_footer(line@),
{
    let v = chars_of(line);
    header_footer_exec(v.as_slice())
}

fn is_bullet_exec(p: &[char]) -> (r: bool)
    ensures
        r == is_bullet(p@),
{
    p.len() > 0 && (p[0] == '\u{2022}' || p[0] == '-')
}

fn flush_exec(a: JarExec) -> (r: JarExec)
    ensures
        r@ == jar_flush(a@),
        r.sort_order == a.sort_order,
        r.counter == a.counter,
{
    if a.para.len() == 0 {
        return a;
    }
    let mut a = a;
    if a.rules.len() > 0 {
        let ghost r0 = drafts_view(a.rules@);
        let mut last = a.rules.pop().unwrap();
        assert(drafts_view(a.rules@) =~= r0.drop_last());
        let ghost lv = last@;
        if last.body.len() > 0 {
            last.body.push('\n');
        }
        append(&mut last.body, a.para.as_slice());
        let e = escape_html_chars(a.para.as_slice());
        if is_bullet_exec(a.para.as_slice()) {
            append_str(&mut last.body_html, "<p class=\"bullet\">");
        } else {
            append_str(&mut last.body_html, "<p>");
        }
        append(&mut last.body_html, e.as_slice());
        append_str(&mut last.body_html, "</p>");
        assert(last.body@ =~= (if lv.body.len() > 0 { lv.body.push('\n') } else { lv.body }) + a.para@);
        assert(last.body_html@ =~= lv.body_html + jar_para_html(a.para@));
        let ghost r1 = a.rules@;
        a.rules.push(last);
        assert(drafts_view(a.rules@) =~= drafts_view(r1).push(last@));
    }
    JarExec { para: Vec::new(), ..a }
}

fn step_exec(a: JarExec, line: &[char]) -> (r: JarExec)
    requires
        a.sort_order < i64::MAX,
    ensures
        r@ == jar_step(a@, line@),
        a.sort_order <= r.sort_order <= a.sort_order + 1,
{
    let t = trim_chars(line);
    if t.len() == 0 {
        return flush_exec(a);
    }
    if only_digits_exec(t.as_slice()) || header_footer_exec(t.as_slice()) {
        return a;
    }
    if eq_str(a.version.as_slice(), "unknown") {
        if let Some(v) = find_version(&VersionPhrase::Updated, t.as_slice()) {
            return JarExec { version: v, ..a };
        }
    }
    if let Some(k) = named_section_exec(t.as_slice()) {
        let mut f = flush_exec(a);
        let id = f.sort_order + 1;
        let title = section_name_exec(k);
        let body = section_name_exec(k);
        let d = Draft { id, number: section_no_exec(k), title: Some(title), body, body_html: Vec::new(), parent: None };
        let ghost r0 = drafts_view(f.rules@);
        f.rules.push(d);
        assert(d.body_html@ =~= Seq::<char>::empty());
        assert(drafts_view(f.rules@) =~= r0.push(d@));
        return JarExec { in_common: k == 0, counter: 0, sort_order: id, ..f };
    }
    if a.in_common && starts_with_str(t.as_slice(), "A player") && a.para.len() == 0 {
        let mut a = a;
        let c = a.counter.wrapping_add(1);
        let id = a.sort_order + 1;
        let title = trim_end_char_exec(t.as_slice(), '.');
        let mut number = chars_of("1.");
        append(&mut number, format_u64(c as u64).as_slice());
        let mut html = chars_of("<p><strong>");
        append(&mut html, escape_html_chars(title.as_slice()).as_slice());
        append_str(&mut html, "</strong></p>");
        let body = crate::text::copy_chars(title.as_slice());
        let d = Draft { id, number, title: Some(title), body, body_html: html, parent: Some(chars_of("1")) };
        let ghost r0 = drafts_view(a.rules@);
        a.rules.push(d);
        assert(drafts_view(a.rules@) =~= r0.push(d@));
        return JarExec { counter: c, sort_order: id, ..a };
    }
    if is_bullet_exec(t.as_slice()) {
        let mut f = flush_exec(a);
        append(&mut f.para, t.as_slice());
        return f;
    }
    let mut a = a;
    let ghost p0 = a.para@;
    if a.para.len() > 0 {
        a.para.push(' ');
    }
    append(&mut a.para, t.as_slice());
    assert(a.para@ =~= (if p0.len() > 0 { p0.push(' ') } else { p0 }) + t@);
    a
}

/// Parse the text of "Judging at Regular".
pub fn parse_jar(raw: &str) -> (r: ParsedJAR)
    requires
        raw@.len() < i64::MAX,
    ensures
        r@ == jar_parse(raw@),
{
    let raw_v = chars_of(raw);
    let text = normalize_newlines_exec(raw_v.as_slice());
    let ls = split_lines(text.as_slice());
    proof {
        lemma_lines_len(text@, 0);
        lemma_normalize_len(raw@);
    }
    let mut rules: Vec<Draft> = Vec::new();
    rules.push(Draft {
        id: 1,
        number: chars_of("0"),
        title: Some(chars_of("Introduction")),
        body: Vec::new(),
        body_html: Vec::new(),
        parent: None,
    });
    let mut a = JarExec { version: chars_of("unknown"), rules, sort_order: 1, para: Vec::new(), in_common: false, counter: 0 };
    assert(a@.rules =~= jar_init().rules);
    assert(a@ == jar_init());
    let mut k: usize = 0;
    while k < ls.len()
        invariant
            0 <= k <= ls@.len(),
            views(ls@) == lines(normalize_newlines(raw@)),
            ls@.len() < i64::MAX,
            a@ == jar_run(views(ls@).take(k as int)),
            1 <= a.sort_order <= k + 1,
        decreases ls.len() - k,
    {
        assert(views(ls@).take(k + 1).drop_last() =~= views(ls@).take(k as int));
        assert(views(ls@)[k as int] == ls@[k as int]@);
        a = step_exec(a, ls[k].as_slice());
        k = k + 1;
    }
    assert(views(ls@).take(ls@.len() as int) =~= views(ls@));
    let a = flush_exec(a);
    let rules = finish_rules(&a.rules);
    ParsedJAR { version: string_from_chars(&a.version), rules }
}

/// Line endings do not matter: the Judging at Regular document written with Windows (`"\r\n"`)
/// or old Mac (`'\r'`) line endings parses as the same text written with
/// `'\n'`.
pub proof fn law_jar_line_endings(raw: Seq<char>)
    requires
        has_no_cr(raw),
    ensures
        jar_parse(lf_to_crlf(raw)) == jar_parse(raw),
        jar_parse(lf_to_cr(raw)) == jar_parse(raw),
{
    lemma_normalize_plain(raw);
    lemma_normalize_crlf(raw);
    lemma_normalize_cr(raw);
}

/// A line of running text: not blank, not a page number, header or footer,
/// not the "Updated" line, a section name, an "A player" issue or a bullet.
pub open spec fn jar_plain_line(l: Seq<char>) -> bool {
    let t = trim(l);
    &&& t.len() > 0
    &&& !only_digits(t)
    &&& !jar_header_footer(t)
    &&& version_search(VersionPhrase::Updated, t, 0) is None
    &&& named_section(t, 0) is None
    &&& !starts_with(t, "A player"@)
    &&& !is_bullet(t)
}

/// The parser always has a rule to add text to.
proof fn lemma_jar_has_rule(ls: Seq<Seq<char>>)
    ensures
        jar_run(ls).rules.len() >= 1,
    decreases ls.len(),
{
    if ls.len() > 0 {
        lemma_jar_has_rule(ls.drop_last());
    }
}

/// After a blank line no paragraph is pending.
proof fn lemma_jar_no_pending(pre: Seq<Seq<char>>)
    requires
        pre.len() == 0 || trim(pre.last()).len() == 0,
    ensures
        jar_run(pre).para.len() == 0,
{
}

/// Running lines gather, trimmed, into the pending paragraph.
proof fn lemma_jar_plain_lines(base: Seq<Seq<char>>, ls: Seq<Seq<char>>)
    requires
        jar_run(base).para.len() == 0,
        forall|i: int| 0 <= i < ls.len() ==> jar_plain_line(#[trigger] ls[i]),
    ensures
        jar_run(base + ls) == (JarAcc { para: join_spaced(trimmed_all(ls)), ..jar_run(base) }),
    decreases ls.len(),
{
    if ls.len() == 0 {
        assert(base + ls =~= base);
        assert(trimmed_all(ls) =~= Seq::<Seq<char>>::empty());
        assert(jar_run(base).para =~= Seq::<char>::empty());
    } else {
        let p = ls.drop_last();
        assert forall|i: int| 0 <= i < p.len() implies jar_plain_line(#[trigger] p[i]) by {
            assert(p[i] == ls[i]);
        }
        lemma_jar_plain_lines(base, p);
        assert((base + ls).drop_last() =~= base + p);
        assert((base + ls).last() == ls.last());
        assert(jar_plain_line(ls[ls.len() - 1]));
        let tp = trimmed_all(p);
        assert(trimmed_all(ls).drop_last() =~= tp);
        assert(trimmed_all(ls).last() == trim(ls.last()));
        let a = jar_run(base + p);
        let t = trim(ls.last());
        assert(jar_run(base + ls) == jar_step(a, ls.last()));
        assert(t.len() > 0);
        assert(!only_digits(t) && !jar_header_footer(t));
        assert(version_search(VersionPhrase::Updated, t, 0) is None);
        assert(named_section(t, 0) is None);
        assert(!starts_with(t, "A player"@));
        assert(!is_bullet(t));
        let np = (if a.para.len() > 0 { a.para.push(' ') } else { a.para }) + t;
        assert(jar_step(a, ls.last()) == (JarAcc { para: np, ..a }));
        if p.len() > 0 {
            assert forall|i: int| 0 <= i < tp.len() implies (#[trigger] tp[i]).len() > 0 by {
                assert(jar_plain_line(p[i]));
            }
            lemma_join_spaced_ends(tp);
            assert(join_spaced(trimmed_all(ls)) == join_spaced(tp) + seq![' '] + t);
            assert(np =~= join_spaced(trimmed_all(ls)));
        } else {
            assert(tp.len() == 0);
            assert(trimmed_all(ls).len() == 1);
            assert(np =~= join_spaced(trimmed_all(ls)));
        }
    }
}

/// The lines of a paragraph are joined by single spaces: after a blank line
/// (or at the start), running lines `l1 .. ln` and a blank line add the
/// paragraph `trim(l1) + " " + .. + " " + trim(ln)` to the last rule, on a
/// line of its own in the body and as a `<p>` in the HTML; the other rules
/// and the rest of the last rule stay as they were.
pub proof fn law_jar_paragraph_lines(pre: Seq<Seq<char>>, ls: Seq<Seq<char>>)
    requires
        pre.len() == 0 || trim(pre.last()).len() == 0,
        ls.len() > 0,
        forall|i: int| 0 <= i < ls.len() ==> jar_plain_line(#[trigger] ls[i]),
    ensures
        ({
            let before = jar_run(pre).rules;
            let after = jar_run(pre + ls.push(seq![])).rules;
            let last = before.last();
            let p = join_spaced(trimmed_all(ls));
            &&& after.len() == before.len()
            &&& after.drop_last() == before.drop_last()
            &&& after.last() == (RuleView {
                body: (if last.body.len() > 0 { last.body.push('\n') } else { last.body }) + p,
                body_html: last.body_html + "<p>"@ + escape_html(p) + "</p>"@,
                ..last
            })
        }),
{
    lemma_jar_no_pending(pre);
    lemma_jar_has_rule(pre);
    lemma_jar_plain_lines(pre, ls);
    let all = pre + ls.push(seq![]);
    assert(all.drop_last() =~= pre + ls);
    assert(all.last() == Seq::<char>::empty());
    let tl = trimmed_all(ls);
    assert forall|i: int| 0 <= i < tl.len() implies (#[trigger] tl[i]).len() > 0 by {
        assert(jar_plain_line(ls[i]));
    }
    lemma_join_spaced_ends(tl);
    assert(jar_plain_line(ls[0]));
    assert(tl[0] == trim(ls[0]));
    let p = join_spaced(tl);
    assert(!is_bullet(p));
    let before = jar_run(pre).rules;
    let mid = jar_run(pre + ls);
    assert(mid.rules == before);
    assert(mid.para == p);
    assert(p.len() > 0);
    assert(trim(Seq::<char>::empty()).len() == 0);
    assert(jar_run(all) == jar_step(mid, Seq::<char>::empty()));
    assert(jar_run(all) == jar_flush(mid));
    assert(jar_run(all).rules == jar_append(before, p));
    assert(jar_para_html(p) == "<p>"@ + escape_html(p) + "</p>"@);
    let after = jar_run(all).rules;
    let last = before.last();
    assert(before.len() >= 1);
    assert(after.len() == before.len());
    assert(after.drop_last() =~= before.drop_last());
    assert(last.body_html + jar_para_html(p) =~= last.body_html + "<p>"@ + escape_html(p) + "</p>"@);
    assert(after.last() == (RuleView {
        body: (if last.body.len() > 0 { last.body.push('\n') } else { last.body }) + p,
        body_html: last.body_html + "<p>"@ + escape_html(p) + "</p>"@,
        ..last
    }));
}

} // verus!
