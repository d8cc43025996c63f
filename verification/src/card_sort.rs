//! The orders the compiled cards come out in: printings by release date,
//! cards by name. Sorting is std's stable sort, driven by the comparisons here.
use vstd::prelude::*;
use vstd::relations::sorted_by;
use core::cmp::Ordering;
use crate::card_compiler::{CompactCard, Printing};
use crate::text_order::{chars_lt, lemma_lt_total, str_lt};

verus! {

/// `a` is released no later than `b`.
pub open spec fn date_leq(a: Printing, b: Printing) -> bool {
    !chars_lt(b.released_at@, a.released_at@)
}

/// `a` is named no later than `b`.
pub open spec fn name_leq(a: CompactCard, b: CompactCard) -> bool {
    !chars_lt(b.name@, a.name@)
}

/// Two printings by release date.
pub fn compare_dates(a: &Printing, b: &Printing) -> (r: Ordering)
    ensures
        match r {
            Ordering::Less => chars_lt(a.released_at@, b.released_at@),
            Ordering::Equal => a.released_at@ == b.released_at@,
            Ordering::Greater => chars_lt(b.released_at@, a.released_at@),
        },
{
    proof { lemma_lt_total(a.released_at@, b.released_at@); }
    if str_lt(a.released_at.as_str(), b.released_at.as_str()) {
        Ordering::Less
    } else if str_lt(b.released_at.as_str(), a.released_at.as_str()) {
        Ordering::Greater
    } else {
        Ordering::Equal
    }
}

/// Two cards by name.
pub fn compare_names(a: &CompactCard, b: &CompactCard) -> (r: Ordering)
    ensures
        match r {
            Ordering::Less => chars_lt(a.name@, b.name@),
            Ordering::Equal => a.name@ == b.name@,
            Ordering::Greater => chars_lt(b.name@, a.name@),
        },
{
    proof { lemma_lt_total(a.name@, b.name@); }
    if str_lt(a.name.as_str(), b.name.as_str()) {
        Ordering::Less
    } else if str_lt(b.name.as_str(), a.name.as_str()) {
        Ordering::Greater
    } else {
        Ordering::Equal
    }
}

/// `slice::sort_by` with `compare_dates`: std documents a stable sort by the
/// comparison, so the printings are the same ones, ordered by date.
#[verifier::external_body]
pub(crate) fn sort_printings_by_date(v: &mut Vec<Printing>)
    ensures
        final(v)@.to_multiset() == old(v)@.to_multiset(),
        sorted_by(final(v)@, |a: Printing, b: Printing| date_leq(a, b)),
{
    v.sort_by(|a, b| compare_dates(a, b));
}

/// `slice::sort_by` with `compare_names`: the same cards, ordered by name.
#[verifier::external_body]
pub(crate) fn sort_cards_by_name(v: &mut Vec<CompactCard>)
    ensures
        final(v)@.to_multiset() == old(v)@.to_multiset(),
        sorted_by(final(v)@, |a: CompactCard, b: CompactCard| name_leq(a, b)),
{
    v.sort_by(|a, b| compare_names(a, b));
}

} // verus!
