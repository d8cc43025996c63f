//! Riftbound rules arrive as a tree of numbered sections. Importing one
//! writes every section as a rule row, parents before children, numbered in
//! that order; a section with children becomes a heading, a leaf a paragraph.
use vstd::prelude::*;
use crate::models::opt_view;
use crate::text::{
    append, append_str, chars_of, escape_html, escape_html_chars, parse_unsigned, parse_unsigned_chars,
    string_from_chars, trim, trim_chars, trim_end_char, trim_end_char_exec,
};
use crate::versions::remove_char;

verus! {

/// One section of a Riftbound rules document and its subsections.
#[derive(Debug)]
pub struct RiftboundSection {
    pub section: String,
    pub text: String,
    pub children: Vec<RiftboundSection>,
}

/// A rule row as it is written for a section.
#[derive(Debug, Clone)]
pub struct SectionRow {
    pub number: String,
    pub title: Option<String>,
    pub body: String,
    pub body_html: String,
    pub parent: Option<String>,
    pub sort_order: i32,
}

pub struct RowView {
    pub number: Seq<char>,
    pub title: Option<Seq<char>>,
    pub body: Seq<char>,
    pub body_html: Seq<char>,
    pub parent: Option<Seq<char>>,
    pub sort_order: int,
}

impl View for SectionRow {
    type V = RowView;

    open spec fn view(&self) -> RowView {
        RowView {
            number: self.number@,
            title: opt_view(self.title),
            body: self.body@,
            body_html: self.body_html@,
            parent: opt_view(self.parent),
            sort_order: self.sort_order as int,
        }
    }
}

pub open spec fn rows_view(v: Seq<SectionRow>) -> Seq<RowView> {
    v.map_values(|r: SectionRow| r@)
}

/// A section's text without trailing colons and surrounding whitespace.
pub open spec fn section_text(t: Seq<char>) -> Seq<char> {
    trim(trim_end_char(t, ':'))
}

/// The row of one section, numbered `order`.
pub open spec fn section_row(s: RiftboundSection, parent: Option<Seq<char>>, order: int) -> RowView {
    let t = section_text(s.text@);
    if s.children@.len() > 0 {
        RowView { number: s.section@, title: Some(t), body: seq![], body_html: seq![], parent, sort_order: order }
    } else {
        RowView { number: s.section@, title: None, body: t, body_html: escape_html(t), parent, sort_order: order }
    }
}

/// The rows of a section and its subsections, depth first, numbered from
/// `order` on.
pub open spec fn section_rows(s: RiftboundSection, parent: Option<Seq<char>>, order: int) -> Seq<RowView>
    decreases s, 1int,
{
    seq![section_row(s, parent, order)] + sections_rows(s.children@, Some(s.section@), order + 1)
}

/// The rows of a list of sibling sections, in order, numbered from `order` on.
pub open spec fn sections_rows(cs: Seq<RiftboundSection>, parent: Option<Seq<char>>, order: int) -> Seq<RowView>
    decreases cs, 0int,
{
    if cs.len() == 0 {
        seq![]
    } else {
        let init = sections_rows(cs.drop_last(), parent, order);
        init + section_rows(cs.last(), parent, order + init.len())
    }
}

/// The number of rows a section gives.
pub open spec fn tree_size(s: RiftboundSection) -> nat
    decreases s, 1int,
{
    1 + forest_size(s.children@)
}

pub open spec fn forest_size(cs: Seq<RiftboundSection>) -> nat
    decreases cs, 0int,
{
    if cs.len() == 0 { 0 } else { forest_size(cs.drop_last()) + tree_size(cs.last()) }
}

proof fn lemma_rows_len(s: RiftboundSection, parent: Option<Seq<char>>, order: int)
    ensures
        section_rows(s, parent, order).len() == tree_size(s),
    decreases s, 1int,
{
    lemma_forest_rows_len(s.children@, Some(s.section@), order + 1);
}

proof fn lemma_forest_rows_len(cs: Seq<RiftboundSection>, parent: Option<Seq<char>>, order: int)
    ensures
        sections_rows(cs, parent, order).len() == forest_size(cs),
    decreases cs, 0int,
{
    if cs.len() > 0 {
        lemma_forest_rows_len(cs.drop_last(), parent, order);
        let init = sections_rows(cs.drop_last(), parent, order);
        lemma_rows_len(cs.last(), parent, order + init.len());
    }
}

fn row_of(s: &RiftboundSection, parent: &Option<String>, order: i32) -> (r: SectionRow)
    ensures
        r@ == section_row(*s, opt_view(*parent), order as int),
{
    let t0 = chars_of(s.text.as_str());
    let t1 = trim_end_char_exec(t0.as_slice(), ':');
    let t = trim_chars(t1.as_slice());
    let parent_c: Option<String> = match parent {
        Some(p) => Some(p.clone()),
        None => None,
    };
    if s.children.len() > 0 {
        SectionRow {
            number: s.section.clone(),
            title: Some(string_from_chars(&t)),
            body: String::new(),
            body_html: String::new(),
            parent: parent_c,
            sort_order: order,
        }
    } else {
        SectionRow {
            number: s.section.clone(),
            title: None,
            body: string_from_chars(&t),
            body_html: string_from_chars(&escape_html_chars(t.as_slice())),
            parent: parent_c,
            sort_order: order,
        }
    }
}

fn push_section(s: &RiftboundSection, parent: &Option<String>, out: &mut Vec<SectionRow>)
    requires
        old(out)@.len() + tree_size(*s) <= i32::MAX,
    ensures
        rows_view(final(out)@) == rows_view(old(out)@) + section_rows(*s, opt_view(*parent), old(out)@.len() as int),
    decreases s, 1int,
{
    let ghost o = rows_view(out@);
    let order = out.len() as i32;
    let r = row_of(s, parent, order);
    out.push(r);
    assert(rows_view(out@) =~= o.push(r@));
    let me: Option<String> = Some(s.section.clone());
    push_children(&s.children, &me, out);
    assert(rows_view(out@) =~= o + section_rows(*s, opt_view(*parent), o.len() as int));
}

fn push_children(cs: &Vec<RiftboundSection>, parent: &Option<String>, out: &mut Vec<SectionRow>)
    requires
        old(out)@.len() + forest_size(cs@) <= i32::MAX,
    ensures
        rows_view(final(out)@) == rows_view(old(out)@) + sections_rows(cs@, opt_view(*parent), old(out)@.len() as int),
    decreases cs, 0int,
{
    let ghost o = rows_view(out@);
    let ghost start = out@.len() as int;
    assert(o.len() == out@.len());
    let mut i: usize = 0;
    while i < cs.len()
        invariant
            0 <= i <= cs@.len(),
            start == o.len(),
            o.len() + forest_size(cs@) <= i32::MAX,
            rows_view(out@) == o + sections_rows(cs@.take(i as int), opt_view(*parent), start),
        decreases cs.len() - i,
    {
        proof {
            assert(cs@.take(i + 1).drop_last() =~= cs@.take(i as int));
            lemma_forest_rows_len(cs@.take(i as int), opt_view(*parent), start);
            lemma_forest_prefix(cs@, i as int);
            assert(rows_view(out@).len() == out@.len());
        }
        assert(out@.len() + tree_size(cs@[i as int]) <= i32::MAX);
        push_section(&cs[i], parent, out);
        assert(rows_view(out@) =~= o + sections_rows(cs@.take(i + 1), opt_view(*parent), start));
        i = i + 1;
    }
    assert(cs@.take(cs@.len() as int) =~= cs@);
}

proof fn lemma_forest_prefix(cs: Seq<RiftboundSection>, i: int)
    requires
        0 <= i < cs.len(),
    ensures
        forest_size(cs.take(i)) + tree_size(cs[i]) <= forest_size(cs),
    decreases cs.len(),
{
    if i < cs.len() - 1 {
        assert(cs.drop_last().take(i) =~= cs.take(i));
        assert(cs.drop_last()[i] == cs[i]);
        lemma_forest_prefix(cs.drop_last(), i);
    } else {
        assert(cs.drop_last() =~= cs.take(i));
    }
}

/// The rows of a rules document: its top sections in order, each followed by
/// its subsections, numbered from 0. The document must have fewer than 2^31
/// sections for the numbering to fit.
pub fn section_rows_of(sections: &Vec<RiftboundSection>) -> (r: Vec<SectionRow>)
    requires
        forest_size(sections@) <= i32::MAX,
    ensures
        rows_view(r@) == sections_rows(sections@, None, 0),
{
    let mut out: Vec<SectionRow> = Vec::new();
    assert(rows_view(out@) =~= Seq::<RowView>::empty());
    push_children(sections, &None, &mut out);
    assert(rows_view(out@) =~= sections_rows(sections@, None, 0));
    out
}

proof fn lemma_section_numbering(s: RiftboundSection, parent: Option<Seq<char>>, order: int)
    ensures
        forall|i: int| 0 <= i < section_rows(s, parent, order).len()
            ==> (#[trigger] section_rows(s, parent, order)[i]).sort_order == order + i,
    decreases s, 1int,
{
    lemma_forest_numbering(s.children@, Some(s.section@), order + 1);
}

proof fn lemma_forest_numbering(cs: Seq<RiftboundSection>, parent: Option<Seq<char>>, order: int)
    ensures
        forall|i: int| 0 <= i < sections_rows(cs, parent, order).len()
            ==> (#[trigger] sections_rows(cs, parent, order)[i]).sort_order == order + i,
    decreases cs, 0int,
{
    if cs.len() > 0 {
        let init = sections_rows(cs.drop_last(), parent, order);
        lemma_forest_numbering(cs.drop_last(), parent, order);
        lemma_section_numbering(cs.last(), parent, order + init.len());
        let all = sections_rows(cs, parent, order);
        assert forall|i: int| 0 <= i < all.len() implies (#[trigger] all[i]).sort_order == order + i by {
            if i >= init.len() {
                assert(all[i] == section_rows(cs.last(), parent, order + init.len())[i - init.len()]);
            } else {
                assert(all[i] == init[i]);
            }
        }
    }
}

/// Importing a document writes one row per section, and numbers the rows in
/// the order they are written, from 0.
pub proof fn law_rows_numbered_in_order(sections: Seq<RiftboundSection>)
    ensures
        sections_rows(sections, None, 0).len() == forest_size(sections),
        forall|i: int| 0 <= i < sections_rows(sections, None, 0).len()
            ==> (#[trigger] sections_rows(sections, None, 0)[i]).sort_order == i,
{
    lemma_forest_rows_len(sections, None, 0);
    lemma_forest_numbering(sections, None, 0);
}

/// A section's row comes before the rows of its subsections, which name it
/// as their parent.
pub proof fn law_children_follow_parent(s: RiftboundSection, parent: Option<Seq<char>>, order: int, k: int)
    requires
        0 <= k < s.children@.len(),
    ensures
        section_rows(s, parent, order)[0].number == s.section@,
        exists|i: int| 0 < i < section_rows(s, parent, order).len()
            && (#[trigger] section_rows(s, parent, order)[i]).number == s.children@[k].section@
            && section_rows(s, parent, order)[i].parent == Some(s.section@),
{
    let cs = s.children@;
    let pre = cs.take(k);
    lemma_forest_split(cs, k, Some(s.section@), order + 1);
    let rows = section_rows(s, parent, order);
    let before = sections_rows(pre, Some(s.section@), order + 1);
    let i: int = 1int + before.len();
    assert(rows[i] == section_rows(cs[k], Some(s.section@), order + 1 + before.len())[0]);
}

/// The rows of sibling sections up to and including the `k`-th: those of the
/// ones before it, then its own.
proof fn lemma_forest_split(cs: Seq<RiftboundSection>, k: int, parent: Option<Seq<char>>, order: int)
    requires
        0 <= k < cs.len(),
    ensures
        ({
            let before = sections_rows(cs.take(k), parent, order);
            let own = section_rows(cs[k], parent, order + before.len());
            &&& sections_rows(cs, parent, order).len() >= before.len() + own.len()
            &&& forall|j: int| 0 <= j < own.len() ==> sections_rows(cs, parent, order)[before.len() + j] == #[trigger] own[j]
        }),
    decreases cs.len(),
{
    if k == cs.len() - 1 {
        assert(cs.drop_last() =~= cs.take(k));
    } else {
        assert(cs.drop_last().take(k) =~= cs.take(k));
        assert(cs.drop_last()[k] == cs[k]);
        lemma_forest_split(cs.drop_last(), k, parent, order);
    }
}

// ── Bundled documents ──────────────────────────────────────────────────────

/// The version of the bundled comprehensive rules.
pub const BUNDLED_CR_VERSION: &'static str = "20260717";

/// A stored version as a number: dashes dropped, 0 when it does not parse.
pub open spec fn stored_number(v: Seq<char>) -> nat {
    match parse_unsigned(remove_char(v, '-'), u64::MAX as nat) {
        Some(n) => n,
        None => 0,
    }
}

/// The bundled Riftbound documents are imported unless all three document
/// types are present and the stored comprehensive rules are at least as new
/// as the bundled ones.
pub open spec fn riftbound_import_needed(present: Seq<bool>, stored_cr: Option<Seq<char>>) -> bool {
    let all_present = forall|i: int| 0 <= i < present.len() ==> #[trigger] present[i];
    let up_to_date = match stored_cr {
        Some(v) => stored_number(v) >= stored_number(BUNDLED_CR_VERSION@),
        None => false,
    };
    !(all_present && up_to_date)
}

fn stored_number_exec(v: &[char]) -> (r: u64)
    ensures
        r == stored_number(v@),
{
    let mut s: Vec<char> = Vec::new();
    let mut i: usize = 0;
    while i < v.len()
        invariant
            0 <= i <= v@.len(),
            s@ == remove_char(v@.take(i as int), '-'),
        decreases v.len() - i,
    {
        assert(v@.take(i + 1).drop_last() =~= v@.take(i as int));
        if v[i] != '-' {
            s.push(v[i]);
        }
        i = i + 1;
    }
    assert(v@.take(v@.len() as int) =~= v@);
    match parse_unsigned_chars(s.as_slice(), u64::MAX) {
        Some(n) => n,
        None => 0,
    }
}

/// Whether the bundled Riftbound rules are to be imported: `present` tells
/// for each expected document type whether it is stored, `stored_cr` is the
/// stored comprehensive rules' version.
pub fn needs_riftbound_import(present: &Vec<bool>, stored_cr: Option<&str>) -> (r: bool)
    ensures
        r == riftbound_import_needed(present@, match stored_cr { Some(s) => Some(s@), None => None }),
{
    let mut all = true;
    let mut i: usize = 0;
    while i < present.len()
        invariant
            0 <= i <= present@.len(),
            all == (forall|k: int| 0 <= k < i ==> #[trigger] present@[k]),
        decreases present.len() - i,
    {
        all = all && present[i];
        i = i + 1;
    }
    let up_to_date = match stored_cr {
        Some(v) => {
            let vc = chars_of(v);
            let b = chars_of(BUNDLED_CR_VERSION);
            stored_number_exec(vc.as_slice()) >= stored_number_exec(b.as_slice())
        },
        None => false,
    };
    !(all && up_to_date)
}

// ── Riftbound cards ────────────────────────────────────────────────────────

/// Domains joined by ", ".
pub open spec fn join_comma(ds: Seq<Seq<char>>) -> Seq<char>
    decreases ds.len(),
{
    if ds.len() == 0 {
        seq![]
    } else if ds.len() == 1 {
        ds[0]
    } else {
        join_comma(ds.drop_last()) + ", "@ + ds.last()
    }
}

/// A card's domains as stored: none when it has none, else joined by ", ".
pub open spec fn domain_column(ds: Seq<Seq<char>>) -> Option<Seq<char>> {
    if ds.len() == 0 { None } else { Some(join_comma(ds)) }
}

pub fn domain_text(domain: &Vec<String>) -> (r: Option<String>)
    ensures
        opt_view(r) == domain_column(domain@.map_values(|s: String| s@)),
{
    if domain.len() == 0 {
        return None;
    }
    let ghost ds = domain@.map_values(|s: String| s@);
    let mut r: Vec<char> = Vec::new();
    let mut i: usize = 0;
    while i < domain.len()
        invariant
            0 <= i <= domain@.len(),
            ds == domain@.map_values(|s: String| s@),
            r@ == join_comma(ds.take(i as int)),
        decreases domain.len() - i,
    {
        let ghost prev = r@;
        if i > 0 {
            append_str(&mut r, ", ");
        }
        append(&mut r, chars_of(domain[i].as_str()).as_slice());
        assert(ds.take(i + 1).drop_last() =~= ds.take(i as int));
        assert(ds.take(i + 1).last() == domain@[i as int]@);
        if i == 0 {
            assert(r@ =~= ds.take(1)[0]);
        } else {
            assert(r@ =~= prev + ", "@ + domain@[i as int]@);
        }
        i = i + 1;
    }
    assert(ds.take(ds.len() as int) =~= ds);
    Some(string_from_chars(&r))
}

} // verus!
