//! Parser for the plain-text Comprehensive Rules: table of contents, numbered
//! rules with linked cross-references, and the glossary.
use vstd::prelude::*;
use crate::models::{
    drafts_view, finish_glossary, finish_rules, glossary_view, opt_chars_view, pairs_view,
    rules_view, Draft, GlossaryEntry, RuleDetail, RuleView,
};
use crate::patterns::{
    cr_parent_exec, cr_parent_match, cr_rule_exec, cr_rule_match, cr_section_exec,
    cr_section_match, cr_subrule_exec, cr_subrule_match, cr_subsection_exec, cr_subsection_match,
    find_version, rewrite, rewrite_exec, version_search, Rewrite, VersionPhrase,
};
use crate::text::{
    lemma_trim_bom, join_spaced, lemma_join_spaced_ends, lemma_trim_ends, lemma_trim_of_trimmed, trimmed_all,
    append, before_char, before_char_exec, chars_of, copy_chars, crlf_to_lf,
    crlf_to_lf_exec, eq_str, escape_html, escape_html_chars, lemma_crlf_to_lf_len,
    lemma_lines_len, lemma_skip_char, lines, split_lines, string_from_chars, trim, trim_chars,
    trim_start_char, trim_start_char_exec, views,
};

verus! {

/// The parsed Comprehensive Rules.
pub struct ParsedCR {
    pub version: String,
    pub toc: Vec<TocEntry>,
    pub rules: Vec<RuleDetail>,
    pub glossary: Vec<GlossaryEntry>,
}

/// One table-of-contents line: a section or subsection number and its title.
pub struct TocEntry {
    pub number: String,
    pub title: String,
}

pub open spec fn toc_view(v: Seq<TocEntry>) -> Seq<(Seq<char>, Seq<char>)> {
    v.map_values(|e: TocEntry| (e.number@, e.title@))
}

/// Where the parser is in the document.
#[derive(PartialEq, Eq, Clone, Copy, Structural)]
pub enum CrState {
    Preamble,
    Toc,
    /// After "Credits" in the contents, waiting for the rules to begin.
    PostToc,
    Rules,
    Glossary,
    Credits,
}

/// The parser's state as plain values.
pub struct CrAcc {
    pub state: CrState,
    pub version: Seq<char>,
    pub toc: Seq<(Seq<char>, Seq<char>)>,
    pub rules: Seq<RuleView>,
    pub glossary: Seq<(Seq<char>, Seq<char>)>,
    pub term: Option<Seq<char>>,
    pub def: Seq<char>,
    pub sort_order: int,
}

pub open spec fn cr_init() -> CrAcc {
    CrAcc {
        state: CrState::Preamble,
        version: "unknown"@,
        toc: seq![],
        rules: seq![],
        glossary: seq![],
        term: None,
        def: seq![],
        sort_order: 0,
    }
}

/// Rule and section references in escaped text become links.
pub open spec fn cr_linkify(html: Seq<char>) -> Seq<char> {
    rewrite(Rewrite::SectionDigitRefs, rewrite(Rewrite::RuleRefs, html))
}

/// Close the pending glossary term, if any.
pub open spec fn cr_flush(a: CrAcc) -> CrAcc {
    match a.term {
        Some(t) => CrAcc { glossary: a.glossary.push((t, trim(a.def))), term: None, def: seq![], ..a },
        None => a,
    }
}

pub open spec fn numbered(id: int, number: Seq<char>, body: Seq<char>, parent: Option<Seq<char>>) -> RuleView {
    RuleView { id, number, title: None, body, body_html: cr_linkify(escape_html(body)), parent }
}

pub open spec fn titled(id: int, number: Seq<char>, title: Seq<char>) -> RuleView {
    RuleView { id, number, title: Some(title), body: title, body_html: escape_html(title), parent: None }
}

/// A non-empty line of the rules body.
pub open spec fn cr_rules_line(a: CrAcc, t: Seq<char>) -> CrAcc {
    let id = a.sort_order + 1;
    let b = CrAcc { sort_order: id, ..a };
    match cr_rule_match(t) {
        Some((num, body)) => CrAcc { rules: b.rules.push(numbered(id, num, body, Some(before_char(num, '.')))), ..b },
        None => match cr_subrule_match(t) {
            Some((num, body)) => CrAcc { rules: b.rules.push(numbered(id, num, body, cr_parent_match(num))), ..b },
            None => match cr_subsection_match(t) {
                Some((num, title)) => CrAcc { rules: b.rules.push(titled(id, num, title)), ..b },
                None => match cr_section_match(t) {
                    Some((num, title)) => CrAcc { rules: b.rules.push(titled(id, num, title)), ..b },
                    None => if b.rules.len() > 0 {
                        let last = b.rules.last();
                        let joined = RuleView {
                            body: last.body + seq![' '] + t,
                            body_html: last.body_html + seq![' '] + cr_linkify(escape_html(t)),
                            ..last
                        };
                        CrAcc { rules: b.rules.drop_last().push(joined), ..b }
                    } else {
                        b
                    },
                },
            },
        },
    }
}

/// One line of the document.
pub open spec fn cr_step(a: CrAcc, line: Seq<char>) -> CrAcc {
    let t = trim(line);
    match a.state {
        CrState::Preamble => {
            let v = match version_search(VersionPhrase::EffectiveAsOf, t, 0) {
                Some(v) => v,
                None => a.version,
            };
            CrAcc { version: v, state: if t == "Contents"@ { CrState::Toc } else { CrState::Preamble }, ..a }
        },
        CrState::Toc => {
            if t == "Credits"@ {
                CrAcc { state: CrState::PostToc, ..a }
            } else if t.len() == 0 {
                a
            } else {
                match cr_subsection_match(t) {
                    Some(e) => CrAcc { toc: a.toc.push(e), ..a },
                    None => match cr_section_match(t) {
                        Some(e) => CrAcc { toc: a.toc.push(e), ..a },
                        None => a,
                    },
                }
            }
        },
        CrState::PostToc => {
            if cr_section_match(t) is Some {
                cr_rules_line(CrAcc { state: CrState::Rules, ..a }, t)
            } else {
                a
            }
        },
        CrState::Rules => {
            if t == "Glossary"@ {
                CrAcc { state: CrState::Glossary, ..a }
            } else if t.len() == 0 {
                a
            } else {
                cr_rules_line(a, t)
            }
        },
        CrState::Glossary => {
            if t == "Credits"@ {
                CrAcc { state: CrState::Credits, ..cr_flush(a) }
            } else if t.len() == 0 {
                cr_flush(a)
            } else if !(line.len() > 0 && (line[0] == ' ' || line[0] == '\t')) {
                CrAcc { term: Some(t), ..cr_flush(a) }
            } else if a.term is Some {
                CrAcc { def: if a.def.len() > 0 { a.def + seq![' '] + t } else { a.def + t }, ..a }
            } else {
                a
            }
        },
        CrState::Credits => a,
    }
}

pub open spec fn cr_run(ls: Seq<Seq<char>>) -> CrAcc
    decreases ls.len(),
{
    if ls.len() == 0 { cr_init() } else { cr_step(cr_run(ls.drop_last()), ls.last()) }
}

/// The text the parser reads: byte-order marks dropped from the front and
/// "\r\n" turned into "\n".
pub open spec fn cr_text(raw: Seq<char>) -> Seq<char> {
    crlf_to_lf(trim_start_char(raw, '\u{FEFF}'))
}

/// The parsed document as plain values.
pub struct CrDoc {
    pub version: Seq<char>,
    pub toc: Seq<(Seq<char>, Seq<char>)>,
    pub rules: Seq<RuleView>,
    pub glossary: Seq<(Seq<char>, Seq<char>)>,
}

pub open spec fn cr_parse(raw: Seq<char>) -> CrDoc {
    let a = cr_run(lines(cr_text(raw)));
    CrDoc { version: a.version, toc: a.toc, rules: a.rules, glossary: a.glossary }
}

impl View for ParsedCR {
    type V = CrDoc;

    open spec fn view(&self) -> CrDoc {
        CrDoc {
            version: self.version@,
            toc: toc_view(self.toc@),
            rules: rules_view(self.rules@),
            glossary: glossary_view(self.glossary@),
        }
    }
}

// ── Executable parser ─────────────────────────────────────────────────────

struct CrExec {
    state: CrState,
    version: Vec<char>,
    toc: Vec<(Vec<char>, Vec<char>)>,
    rules: Vec<Draft>,
    glossary: Vec<(Vec<char>, Vec<char>)>,
    term: Option<Vec<char>>,
    def: Vec<char>,
    sort_order: i64,
}

impl View for CrExec {
    type V = CrAcc;

    closed spec fn view(&self) -> CrAcc {
        CrAcc {
            state: self.state,
            version: self.version@,
            toc: pairs_view(self.toc@),
            rules: drafts_view(self.rules@),
            glossary: pairs_view(self.glossary@),
            term: opt_chars_view(self.term),
            def: self.def@,
            sort_order: self.sort_order as int,
        }
    }
}

fn linkify_exec(html: &[char]) -> (r: Vec<char>)
    ensures
        r@ == cr_linkify(html@),
{
    let a = rewrite_exec(&Rewrite::RuleRefs, html);
    rewrite_exec(&Rewrite::SectionDigitRefs, a.as_slice())
}

/// Link rule and section references in already escaped text.
pub fn linkify(html: &str) -> (r: String)
    ensures
        r@ == cr_linkify(html@),
{
    let v = chars_of(html);
    let l = linkify_exec(v.as_slice());
    string_from_chars(&l)
}

fn flush_exec(a: CrExec) -> (r: CrExec)
    ensures
        r@ == cr_flush(a@),
        r.sort_order == a.sort_order,
{
    let mut a = a;
    match a.term {
        Some(t) => {
            let d = trim_chars(a.def.as_slice());
            let ghost g0 = a.glossary@;
            a.glossary.push((t, d));
            assert(pairs_view(a.glossary@) =~= pairs_view(g0).push((t@, d@)));
            CrExec { term: None, def: Vec::new(), ..a }
        },
        None => CrExec { term: None, ..a },
    }
}

fn push_rule(a: CrExec, d: Draft) -> (r: CrExec)
    ensures
        r@ == (CrAcc { rules: a@.rules.push(d@), ..a@ }),
        r.sort_order == a.sort_order,
{
    let mut a = a;
    let ghost r0 = a.rules@;
    a.rules.push(d);
    assert(drafts_view(a.rules@) =~= drafts_view(r0).push(d@));
    a
}

fn rules_line_exec(a: CrExec, t: &[char]) -> (r: CrExec)
    requires
        a.sort_order < i64::MAX,
    ensures
        r@ == cr_rules_line(a@, t@),
        r.sort_order == a.sort_order + 1,
{
    let id = a.sort_order + 1;
    let b = CrExec { sort_order: id, ..a };
    assert(b@ == (CrAcc { sort_order: id as int, ..a@ }));
    if let Some((num, body)) = cr_rule_exec(t) {
        let parent = before_char_exec(num.as_slice(), '.');
        let esc = escape_html_chars(body.as_slice());
        let html = linkify_exec(esc.as_slice());
        let d = Draft { id, number: num, title: None, body, body_html: html, parent: Some(parent) };
        return push_rule(b, d);
    }
    if let Some((num, body)) = cr_subrule_exec(t) {
        let parent = cr_parent_exec(num.as_slice());
        let esc = escape_html_chars(body.as_slice());
        let html = linkify_exec(esc.as_slice());
        let d = Draft { id, number: num, title: None, body, body_html: html, parent };
        return push_rule(b, d);
    }
    if let Some((num, title)) = cr_subsection_exec(t) {
        let html = escape_html_chars(title.as_slice());
        let body = copy_chars(title.as_slice());
        let d = Draft { id, number: num, title: Some(title), body, body_html: html, parent: None };
        return push_rule(b, d);
    }
    if let Some((num, title)) = cr_section_exec(t) {
        let html = escape_html_chars(title.as_slice());
        let body = copy_chars(title.as_slice());
        let d = Draft { id, number: num, title: Some(title), body, body_html: html, parent: None };
        return push_rule(b, d);
    }
    let mut b = b;
    if b.rules.len() > 0 {
        let ghost r0 = b.rules@;
        let mut last = b.rules.pop().unwrap();
        assert(r0.drop_last() =~= b.rules@);
        let ghost lv = last@;
        last.body.push(' ');
        append(&mut last.body, t);
        let esc = escape_html_chars(t);
        let linked = linkify_exec(esc.as_slice());
        last.body_html.push(' ');
        append(&mut last.body_html, linked.as_slice());
        assert(last.body@ =~= lv.body + seq![' '] + t@);
        assert(last.body_html@ =~= lv.body_html + seq![' '] + cr_linkify(escape_html(t@)));
        let ghost r1 = b.rules@;
        b.rules.push(last);
        assert(drafts_view(b.rules@) =~= drafts_view(r1).push(last@));
        assert(drafts_view(r0).drop_last() =~= drafts_view(r1));
        assert(last@ == (RuleView {
            body: lv.body + seq![' '] + t@,
            body_html: lv.body_html + seq![' '] + cr_linkify(escape_html(t@)),
            ..lv
        }));
    }
    b
}

fn step_exec(a: CrExec, line: &[char]) -> (r: CrExec)
    requires
        a.sort_order < i64::MAX,
    ensures
        r@ == cr_step(a@, line@),
        a.sort_order <= r.sort_order <= a.sort_order + 1,
{
    let t = trim_chars(line);
    match a.state {
        CrState::Preamble => {
            let v = match find_version(&VersionPhrase::EffectiveAsOf, t.as_slice()) {
                Some(v) => v,
                None => a.version,
            };
            let st = if eq_str(t.as_slice(), "Contents") { CrState::Toc } else { CrState::Preamble };
            CrExec { version: v, state: st, ..a }
        },
        CrState::Toc => {
            if eq_str(t.as_slice(), "Credits") {
                CrExec { state: CrState::PostToc, ..a }
            } else if t.len() == 0 {
                a
            } else {
                let e = match cr_subsection_exec(t.as_slice()) {
                    Some(e) => Some(e),
                    None => cr_section_exec(t.as_slice()),
                };
                match e {
                    Some(e) => {
                        let mut a = a;
                        let ghost t0 = a.toc@;
                        a.toc.push(e);
                        assert(pairs_view(a.toc@) =~= pairs_view(t0).push((e.0@, e.1@)));
                        a
                    },
                    None => a,
                }
            }
        },
        CrState::PostToc => {
            if cr_section_exec(t.as_slice()).is_some() {
                rules_line_exec(CrExec { state: CrState::Rules, ..a }, t.as_slice())
            } else {
                a
            }
        },
        CrState::Rules => {
            if eq_str(t.as_slice(), "Glossary") {
                CrExec { state: CrState::Glossary, ..a }
            } else if t.len() == 0 {
                a
            } else {
                rules_line_exec(a, t.as_slice())
            }
        },
        CrState::Glossary => {
            if eq_str(t.as_slice(), "Credits") {
                let f = flush_exec(a);
                CrExec { state: CrState::Credits, ..f }
            } else if t.len() == 0 {
                flush_exec(a)
            } else if !(line.len() > 0 && (line[0] == ' ' || line[0] == '\t')) {
                let f = flush_exec(a);
                CrExec { term: Some(t), ..f }
            } else if a.term.is_some() {
                let mut a = a;
                let ghost d0 = a.def@;
                if a.def.len() > 0 {
                    a.def.push(' ');
                }
                append(&mut a.def, t.as_slice());
                assert(a.def@ =~= if d0.len() > 0 { d0 + seq![' '] + t@ } else { d0 + t@ });
                a
            } else {
                a
            }
        },
        CrState::Credits => a,
    }
}

/// Parse the plain-text Comprehensive Rules.
pub fn parse_cr(raw: &str) -> (r: ParsedCR)
    requires
        raw@.len() < i64::MAX,
    ensures
        r@ == cr_parse(raw@),
{
    let raw_v = chars_of(raw);
    let t1 = trim_start_char_exec(raw_v.as_slice(), '\u{FEFF}');
    let text = crlf_to_lf_exec(t1.as_slice());
    let ls = split_lines(text.as_slice());
    proof {
        lemma_skip_char(raw@, '\u{FEFF}', 0);
        lemma_crlf_to_lf_len(t1@, 0);
        lemma_lines_len(text@, 0);
    }
    let mut a = CrExec {
        state: CrState::Preamble,
        version: chars_of("unknown"),
        toc: Vec::new(),
        rules: Vec::new(),
        glossary: Vec::new(),
        term: None,
        def: Vec::new(),
        sort_order: 0,
    };
    assert(a@.toc =~= seq![]);
    assert(a@.rules =~= seq![]);
    assert(a@.glossary =~= seq![]);
    assert(a@ == cr_init());
    let mut k: usize = 0;
    while k < ls.len()
        invariant
            0 <= k <= ls@.len(),
            views(ls@) == lines(cr_text(raw@)),
            ls@.len() < i64::MAX,
            a@ == cr_run(views(ls@).take(k as int)),
            0 <= a.sort_order <= k,
        decreases ls.len() - k,
    {
        assert(views(ls@).take(k + 1).drop_last() =~= views(ls@).take(k as int));
        assert(views(ls@)[k as int] == ls@[k as int]@);
        a = step_exec(a, ls[k].as_slice());
        k = k + 1;
    }
    assert(views(ls@).take(ls@.len() as int) =~= views(ls@));
    let rules = finish_rules(&a.rules);
    let glossary = finish_glossary(&a.glossary);
    let toc = finish_toc(&a.toc);
    ParsedCR { version: string_from_chars(&a.version), toc, rules, glossary }
}

fn finish_toc(v: &Vec<(Vec<char>, Vec<char>)>) -> (r: Vec<TocEntry>)
    ensures
        toc_view(r@) == pairs_view(v@),
{
    let mut r: Vec<TocEntry> = Vec::new();
    let mut i: usize = 0;
    while i < v.len()
        invariant
            0 <= i <= v@.len(),
            toc_view(r@) == pairs_view(v@.take(i as int)),
        decreases v.len() - i,
    {
        let p = &v[i];
        let e = TocEntry { number: string_from_chars(&p.0), title: string_from_chars(&p.1) };
        let ghost before = r@;
        r.push(e);
        i = i + 1;
        assert(v@.take(i as int) =~= v@.take(i - 1).push(v@[i - 1]));
        assert(toc_view(before.push(e)) =~= toc_view(before).push((e.number@, e.title@)));
        assert(pairs_view(v@.take(i - 1).push(v@[i - 1])) =~= pairs_view(v@.take(i - 1)).push((v@[i - 1].0@, v@[i - 1].1@)));
        assert(toc_view(r@) =~= pairs_view(v@.take(i as int)));
    }
    assert(v@.take(v@.len() as int) =~= v@);
    r
}

/// A leading byte-order mark changes nothing: the rules parse the same
/// with it as without.
pub proof fn law_cr_bom_ignored(raw: Seq<char>)
    ensures
        cr_parse(seq!['\u{FEFF}'] + raw) == cr_parse(raw),
{
    lemma_trim_bom(raw);
}

/// A definition line of the glossary: indented, not blank, not "Credits".
pub open spec fn glossary_definition_line(l: Seq<char>) -> bool {
    l.len() > 0 && (l[0] == ' ' || l[0] == '\t') && trim(l).len() > 0 && trim(l) != "Credits"@
}

/// A definition is only ever collected for a term.
proof fn lemma_cr_def_needs_term(ls: Seq<Seq<char>>)
    ensures
        cr_run(ls).term is None ==> cr_run(ls).def.len() == 0,
    decreases ls.len(),
{
    if ls.len() > 0 {
        lemma_cr_def_needs_term(ls.drop_last());
    }
}

/// Definition lines after a term gather, trimmed, into its definition.
proof fn lemma_cr_definition_lines(base: Seq<Seq<char>>, ls: Seq<Seq<char>>)
    requires
        cr_run(base).state == CrState::Glossary,
        cr_run(base).term is Some,
        cr_run(base).def.len() == 0,
        forall|i: int| 0 <= i < ls.len() ==> glossary_definition_line(#[trigger] ls[i]),
    ensures
        cr_run(base + ls).state == CrState::Glossary,
        cr_run(base + ls).term == cr_run(base).term,
        cr_run(base + ls).glossary == cr_run(base).glossary,
        cr_run(base + ls).def == join_spaced(trimmed_all(ls)),
    decreases ls.len(),
{
    if ls.len() == 0 {
        assert(base + ls =~= base);
        assert(trimmed_all(ls) =~= Seq::<Seq<char>>::empty());
    } else {
        let p = ls.drop_last();
        assert forall|i: int| 0 <= i < p.len() implies glossary_definition_line(#[trigger] p[i]) by {
            assert(p[i] == ls[i]);
        }
        lemma_cr_definition_lines(base, p);
        assert((base + ls).drop_last() =~= base + p);
        assert((base + ls).last() == ls.last());
        assert(glossary_definition_line(ls[ls.len() - 1]));
        let tp = trimmed_all(p);
        assert(trimmed_all(ls).drop_last() =~= tp);
        assert(trimmed_all(ls).last() == trim(ls.last()));
        if p.len() > 0 {
            assert forall|i: int| 0 <= i < tp.len() implies (#[trigger] tp[i]).len() > 0 by {
                assert(glossary_definition_line(p[i]));
            }
            lemma_join_spaced_ends(tp);
        } else {
            assert(tp.len() == 0);
        }
    }
}

/// A glossary entry's definition is its indented lines, each trimmed, joined
/// by single spaces: after the term line, lines `l1 .. ln` and a blank line
/// add the entry (term, `trim(l1) + " " + .. + " " + trim(ln)`).
pub proof fn law_cr_glossary_definition(pre: Seq<Seq<char>>, term: Seq<char>, ls: Seq<Seq<char>>)
    requires
        cr_run(pre).state == CrState::Glossary,
        term.len() > 0,
        term[0] != ' ' && term[0] != '\t',
        trim(term).len() > 0,
        trim(term) != "Credits"@,
        ls.len() > 0,
        forall|i: int| 0 <= i < ls.len() ==> glossary_definition_line(#[trigger] ls[i]),
    ensures
        cr_run(pre.push(term) + ls.push(seq![])).glossary
            == cr_run(pre.push(term)).glossary.push((trim(term), join_spaced(trimmed_all(ls)))),
{
    let base = pre.push(term);
    lemma_cr_def_needs_term(pre);
    assert(base.drop_last() =~= pre);
    lemma_cr_definition_lines(base, ls);
    let all = base + ls.push(seq![]);
    assert(all.drop_last() =~= base + ls);
    assert(all.last() == Seq::<char>::empty());
    reveal_strlit("Credits");
    lemma_trim_of_trimmed_empty();
    let j = join_spaced(trimmed_all(ls));
    let tl = trimmed_all(ls);
    assert forall|i: int| 0 <= i < tl.len() implies (#[trigger] tl[i]).len() > 0 by {
        assert(glossary_definition_line(ls[i]));
    }
    lemma_join_spaced_ends(tl);
    lemma_trim_ends(ls[0]);
    lemma_trim_ends(ls[ls.len() - 1]);
    assert(tl[0] == trim(ls[0]));
    assert(tl.last() == trim(ls[ls.len() - 1]));
    lemma_trim_of_trimmed(j);
}

proof fn lemma_trim_of_trimmed_empty()
    ensures
        trim(Seq::<char>::empty()).len() == 0,
{
}

} // verus!
