//! Progress figures reported while a download or an import runs.
use vstd::prelude::*;

verus! {

/// `a` and `b`, whichever is smaller.
pub open spec fn min_int(a: int, b: int) -> int {
    if a <= b { a } else { b }
}

/// The share of a download done, in percent of `scale`, held below `scale`
/// so that only the end of the step reaches it.
pub open spec fn scaled(downloaded: int, total: int, scale: int) -> int {
    min_int(downloaded * scale / total, scale - 1)
}

/// Percent of a download reported inside an update step that spans `scale`
/// points.
pub fn scaled_percent(downloaded: u64, total: u64, scale: u64) -> (r: u8)
    requires
        total > 0,
        0 < scale <= 100,
        downloaded * scale <= u64::MAX,
    ensures
        r as int == scaled(downloaded as int, total as int, scale as int),
{
    let p = downloaded * scale / total;
    let cap = scale - 1;
    if p < cap { p as u8 } else { cap as u8 }
}

/// While downloading: the new percentage when it has grown past the last one
/// reported, else nothing.
pub open spec fn next_report(downloaded: int, total: int, last: int) -> Option<int> {
    let pct = scaled(downloaded, total, 100);
    if pct > last { Some(pct) } else { None }
}

/// Whether a download has moved far enough to report, and the percentage.
pub fn download_progress(downloaded: u64, total: u64, last_pct: u8) -> (r: Option<u8>)
    requires
        total > 0,
        downloaded * 100 <= u64::MAX,
    ensures
        match r {
            Some(p) => next_report(downloaded as int, total as int, last_pct as int) == Some(p as int),
            None => next_report(downloaded as int, total as int, last_pct as int) is None,
        },
{
    let pct = scaled_percent(downloaded, total, 100);
    if pct > last_pct { Some(pct) } else { None }
}

/// Percent reported while cards are written: from 85 up to 99, out of at
/// least one card.
pub open spec fn import_share(imported: int, count: int) -> int {
    let total = if count >= 1 { count } else { 1 };
    85 + min_int(imported * 14 / total, 14)
}

pub fn import_percent(imported: usize, count: usize) -> (r: u8)
    requires
        imported * 14 <= usize::MAX,
    ensures
        r as int == import_share(imported as int, count as int),
{
    let total = if count >= 1 { count } else { 1 };
    let p = imported * 14 / total;
    if p < 14 { 85 + p as u8 } else { 99 }
}

// ── Laws ──────────────────────────────────────────────────────────────────

/// A download's share never reaches the end of its step, and never goes
/// below zero.
pub proof fn law_scaled_below_scale(downloaded: int, total: int, scale: int)
    requires
        downloaded >= 0,
        total > 0,
        scale > 0,
    ensures
        0 <= scaled(downloaded, total, scale) < scale,
{
    assert(downloaded * scale >= 0) by (nonlinear_arith)
        requires downloaded >= 0, scale > 0;
    assert(downloaded * scale / total >= 0) by (nonlinear_arith)
        requires downloaded * scale >= 0, total > 0;
}

/// While cards are written the reported figure stays between 85 and 99.
pub proof fn law_import_share_bounded(imported: int, count: int)
    requires
        imported >= 0,
    ensures
        85 <= import_share(imported, count) <= 99,
{
    let total = if count >= 1 { count } else { 1 };
    assert(imported * 14 >= 0) by (nonlinear_arith)
        requires imported >= 0;
    assert(imported * 14 / total >= 0) by (nonlinear_arith)
        requires imported * 14 >= 0, total >= 1;
}

/// A download reports a percentage only when it has grown.
pub proof fn law_reports_only_growth(downloaded: int, total: int, last: int)
    ensures
        match next_report(downloaded, total, last) {
            Some(p) => p > last,
            None => true,
        },
{
}

} // verus!
