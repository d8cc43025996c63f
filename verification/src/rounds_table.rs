//! Appendix E of the tournament rules: the recommended number of Swiss rounds,
//! rebuilt as an HTML table from the wrapped lines text extraction produces.
use vstd::prelude::*;
use crate::patterns::{rounds_row_exec, rounds_row_match};
use crate::text::{
    append, append_str, chars_of, eq_ignore_ascii_case, eq_ignore_ascii_case_exec, escape_html,
    escape_html_chars, find, find_from_exec, lemma_find_from, subvec, trim, trim_chars, views,
};

verus! {

/// Lines grouped into blocks at blank lines (the first block may be empty).
pub open spec fn block_step(bs: Seq<Seq<Seq<char>>>, line: Seq<char>) -> Seq<Seq<Seq<char>>> {
    let t = trim(line);
    if t.len() == 0 {
        if bs.len() > 0 && bs.last().len() > 0 { bs.push(seq![]) } else { bs }
    } else if bs.len() > 0 {
        bs.drop_last().push(bs.last().push(t))
    } else {
        bs
    }
}

pub open spec fn blocks_of(lines: Seq<Seq<char>>) -> Seq<Seq<Seq<char>>>
    decreases lines.len(),
{
    if lines.len() == 0 {
        seq![seq![]]
    } else {
        block_step(blocks_of(lines.drop_last()), lines.last())
    }
}

/// `join(" ")`.
pub open spec fn join_space(ws: Seq<Seq<char>>) -> Seq<char>
    decreases ws.len(),
{
    if ws.len() == 0 {
        seq![]
    } else if ws.len() == 1 {
        ws[0]
    } else {
        join_space(ws.drop_last()) + seq![' '] + ws.last()
    }
}

/// The column headers the PDF may print, alone or merged.
pub open spec fn column_header(j: Seq<char>) -> bool {
    eq_ignore_ascii_case("Players (Teams) Swiss Rounds Playoff"@, j)
        || eq_ignore_ascii_case("Players (Teams)"@, j)
        || eq_ignore_ascii_case("Swiss Rounds"@, j)
        || eq_ignore_ascii_case("Playoff"@, j)
        || eq_ignore_ascii_case("Players"@, j)
        || eq_ignore_ascii_case("Teams"@, j)
}

/// Where the playoff column begins: just after the first " Top " or " None ".
pub open spec fn playoff_start(rem: Seq<char>) -> Option<int> {
    match (find(rem, " Top "@), find(rem, " None "@)) {
        (Some(a), Some(b)) => Some(if a <= b { a + 1 } else { b + 1 }),
        (Some(a), None) => Some(a + 1),
        (None, Some(b)) => Some(b + 1),
        (None, None) => None,
    }
}

/// A table row: players, Swiss rounds, playoff.
pub open spec fn table_row(line: Seq<char>) -> Option<(Seq<char>, Seq<char>, Seq<char>)> {
    match rounds_row_match(line) {
        None => None,
        Some((c1, c2)) => {
            let rem = trim(c2);
            match playoff_start(rem) {
                None => None,
                Some(ps) => {
                    let swiss = trim(rem.take(ps));
                    let playoff = trim(rem.skip(ps));
                    if swiss.len() == 0 || playoff.len() == 0 {
                        None
                    } else {
                        Some((trim(c1), swiss, playoff))
                    }
                },
            }
        },
    }
}

/// Paragraphs before the table, the rows, and paragraphs after it.
pub struct TableParts {
    pub pre: Seq<Seq<char>>,
    pub rows: Seq<(Seq<char>, Seq<char>, Seq<char>)>,
    pub post: Seq<Seq<char>>,
    pub started: bool,
}

pub open spec fn classify_step(p: TableParts, block: Seq<Seq<char>>) -> TableParts {
    let j = join_space(block);
    if block.len() == 0 || column_header(j) {
        p
    } else {
        match table_row(j) {
            Some(row) => TableParts { rows: p.rows.push(row), started: true, ..p },
            None => if p.started {
                TableParts { post: p.post.push(j), ..p }
            } else {
                TableParts { pre: p.pre.push(j), ..p }
            },
        }
    }
}

pub open spec fn classify(blocks: Seq<Seq<Seq<char>>>) -> TableParts
    decreases blocks.len(),
{
    if blocks.len() == 0 {
        TableParts { pre: seq![], rows: seq![], post: seq![], started: false }
    } else {
        classify_step(classify(blocks.drop_last()), blocks.last())
    }
}

pub open spec fn paras_html(ps: Seq<Seq<char>>) -> Seq<char>
    decreases ps.len(),
{
    if ps.len() == 0 {
        seq![]
    } else {
        paras_html(ps.drop_last()) + "<p>"@ + escape_html(ps.last()) + "</p>"@
    }
}

pub open spec fn row_html(r: (Seq<char>, Seq<char>, Seq<char>)) -> Seq<char> {
    "<tr><td>"@ + escape_html(r.0) + "</td><td>"@ + escape_html(r.1) + "</td><td>"@
        + escape_html(r.2) + "</td></tr>"@
}

pub open spec fn rows_html(rs: Seq<(Seq<char>, Seq<char>, Seq<char>)>) -> Seq<char>
    decreases rs.len(),
{
    if rs.len() == 0 { seq![] } else { rows_html(rs.drop_last()) + row_html(rs.last()) }
}

pub open spec fn table_head() -> Seq<char> {
    "<table class=\"penalty-table\"><thead><tr><th>Players (Teams)</th><th>Swiss Rounds</th><th>Playoff</th></tr></thead><tbody>"@
}

/// The HTML for Appendix E's collected lines.
pub open spec fn rounds_table(lines: Seq<Seq<char>>) -> Seq<char> {
    let p = classify(blocks_of(lines));
    paras_html(p.pre)
        + (if p.rows.len() > 0 { table_head() + rows_html(p.rows) + "</tbody></table>"@ } else { seq![] })
        + paras_html(p.post)
}

// ── Executable ────────────────────────────────────────────────────────────

pub fn join_space_exec(ws: &Vec<Vec<char>>) -> (r: Vec<char>)
    ensures
        r@ == join_space(views(ws@)),
{
    let mut r: Vec<char> = Vec::new();
    let mut i: usize = 0;
    while i < ws.len()
        invariant
            0 <= i <= ws@.len(),
            r@ == join_space(views(ws@).take(i as int)),
        decreases ws.len() - i,
    {
        let ghost prev = r@;
        if i > 0 {
            r.push(' ');
        }
        append(&mut r, ws[i].as_slice());
        assert(views(ws@).take(i + 1).drop_last() =~= views(ws@).take(i as int));
        assert(views(ws@).take(i + 1).last() == ws@[i as int]@);
        if i == 0 {
            assert(r@ =~= views(ws@).take(1)[0]);
        } else {
            assert(r@ =~= prev + seq![' '] + ws@[i as int]@);
        }
        i = i + 1;
    }
    assert(views(ws@).take(ws@.len() as int) =~= views(ws@));
    r
}

fn column_header_exec(j: &[char]) -> (r: bool)
    ensures
        r == column_header(j@),
{
    eq_ignore_ascii_case_exec(chars_of("Players (Teams) Swiss Rounds Playoff").as_slice(), j)
        || eq_ignore_ascii_case_exec(chars_of("Players (Teams)").as_slice(), j)
        || eq_ignore_ascii_case_exec(chars_of("Swiss Rounds").as_slice(), j)
        || eq_ignore_ascii_case_exec(chars_of("Playoff").as_slice(), j)
        || eq_ignore_ascii_case_exec(chars_of("Players").as_slice(), j)
        || eq_ignore_ascii_case_exec(chars_of("Teams").as_slice(), j)
}

fn playoff_start_exec(rem: &[char]) -> (r: Option<usize>)
    ensures
        match r {
            Some(p) => playoff_start(rem@) == Some(p as int) && p <= rem@.len(),
            None => playoff_start(rem@) is None,
        },
{
    let len = rem.len();
    let top = chars_of(" Top ");
    let none = chars_of(" None ");
    proof {
        lemma_find_from(rem@, " Top "@, 0);
        lemma_find_from(rem@, " None "@, 0);
        reveal_strlit(" Top ");
        reveal_strlit(" None ");
    }
    let a = find_from_exec(rem, top.as_slice(), 0);
    let b = find_from_exec(rem, none.as_slice(), 0);
    match (a, b) {
        (Some(x), Some(y)) => Some(if x <= y { x + 1 } else { y + 1 }),
        (Some(x), None) => Some(x + 1),
        (None, Some(y)) => Some(y + 1),
        (None, None) => None,
    }
}

fn table_row_exec(line: &[char]) -> (r: Option<(Vec<char>, Vec<char>, Vec<char>)>)
    ensures
        match r {
            Some((a, b, c)) => table_row(line@) == Some((a@, b@, c@)),
            None => table_row(line@) is None,
        },
{
    let (c1, c2) = match rounds_row_exec(line) {
        Some(p) => p,
        None => return None,
    };
    let rem = trim_chars(c2.as_slice());
    let ps = match playoff_start_exec(rem.as_slice()) {
        Some(p) => p,
        None => return None,
    };
    let head = subvec(rem.as_slice(), 0, ps);
    let tail = subvec(rem.as_slice(), ps, rem.len());
    assert(head@ =~= rem@.take(ps as int));
    assert(tail@ =~= rem@.skip(ps as int));
    let swiss = trim_chars(head.as_slice());
    let playoff = trim_chars(tail.as_slice());
    if swiss.len() == 0 || playoff.len() == 0 {
        return None;
    }
    Some((trim_chars(c1.as_slice()), swiss, playoff))
}

fn push_para(out: &mut Vec<char>, p: &[char])
    ensures
        final(out)@ == old(out)@ + "<p>"@ + escape_html(p@) + "</p>"@,
{
    append_str(out, "<p>");
    let e = escape_html_chars(p);
    append(out, e.as_slice());
    append_str(out, "</p>");
}

fn paras_exec(out: &mut Vec<char>, ps: &Vec<Vec<char>>)
    ensures
        final(out)@ == old(out)@ + paras_html(views(ps@)),
{
    let mut i: usize = 0;
    while i < ps.len()
        invariant
            0 <= i <= ps@.len(),
            out@ == old(out)@ + paras_html(views(ps@).take(i as int)),
        decreases ps.len() - i,
    {
        let ghost prev = out@;
        push_para(out, ps[i].as_slice());
        assert(views(ps@).take(i + 1).drop_last() =~= views(ps@).take(i as int));
        assert(views(ps@).take(i + 1).last() == ps@[i as int]@);
        i = i + 1;
        assert(out@ =~= old(out)@ + paras_html(views(ps@).take(i as int)));
    }
    assert(views(ps@).take(ps@.len() as int) =~= views(ps@));
}

pub open spec fn triples_view(v: Seq<(Vec<char>, Vec<char>, Vec<char>)>) -> Seq<(Seq<char>, Seq<char>, Seq<char>)> {
    v.map_values(|t: (Vec<char>, Vec<char>, Vec<char>)| (t.0@, t.1@, t.2@))
}

fn rows_exec(out: &mut Vec<char>, rs: &Vec<(Vec<char>, Vec<char>, Vec<char>)>)
    ensures
        final(out)@ == old(out)@ + rows_html(triples_view(rs@)),
{
    let mut i: usize = 0;
    while i < rs.len()
        invariant
            0 <= i <= rs@.len(),
            out@ == old(out)@ + rows_html(triples_view(rs@).take(i as int)),
        decreases rs.len() - i,
    {
        let ghost prev = out@;
        let r = &rs[i];
        append_str(out, "<tr><td>");
        append(out, escape_html_chars(r.0.as_slice()).as_slice());
        append_str(out, "</td><td>");
        append(out, escape_html_chars(r.1.as_slice()).as_slice());
        append_str(out, "</td><td>");
        append(out, escape_html_chars(r.2.as_slice()).as_slice());
        append_str(out, "</td></tr>");
        assert(triples_view(rs@).take(i + 1).drop_last() =~= triples_view(rs@).take(i as int));
        assert(triples_view(rs@).take(i + 1).last() == (r.0@, r.1@, r.2@));
        assert(out@ =~= prev + row_html((r.0@, r.1@, r.2@)));
        i = i + 1;
        assert(out@ =~= old(out)@ + rows_html(triples_view(rs@).take(i as int)));
    }
    assert(triples_view(rs@).take(rs@.len() as int) =~= triples_view(rs@));
}

pub open spec fn blocks_view(b: Seq<Vec<Vec<char>>>) -> Seq<Seq<Seq<char>>> {
    b.map_values(|x: Vec<Vec<char>>| views(x@))
}

fn blocks_exec(lines: &Vec<Vec<char>>) -> (r: Vec<Vec<Vec<char>>>)
    ensures
        blocks_view(r@) == blocks_of(views(lines@)),
        r@.len() > 0,
{
    let mut bs: Vec<Vec<Vec<char>>> = Vec::new();
    let first: Vec<Vec<char>> = Vec::new();
    assert(views(first@) =~= Seq::<Seq<char>>::empty());
    bs.push(first);
    assert(blocks_view(bs@) =~= seq![seq![]]);
    assert(views(lines@).take(0) =~= Seq::<Seq<char>>::empty());
    let mut i: usize = 0;
    while i < lines.len()
        invariant
            0 <= i <= lines@.len(),
            bs@.len() > 0,
            blocks_view(bs@) == blocks_of(views(lines@).take(i as int)),
        decreases lines.len() - i,
    {
        let t = trim_chars(lines[i].as_slice());
        assert(views(lines@).take(i + 1).drop_last() =~= views(lines@).take(i as int));
        assert(views(lines@).take(i + 1).last() == lines@[i as int]@);
        let ghost b0 = blocks_view(bs@);
        if t.len() == 0 {
            let last_len = bs[bs.len() - 1].len();
            if last_len > 0 {
                let fresh: Vec<Vec<char>> = Vec::new();
                assert(views(fresh@) =~= Seq::<Seq<char>>::empty());
                bs.push(fresh);
                assert(blocks_view(bs@) =~= b0.push(seq![]));
            }
        } else {
            let mut last = bs.pop().unwrap();
            let ghost lv = views(last@);
            last.push(t);
            assert(views(last@) =~= lv.push(t@));
            bs.push(last);
            assert(blocks_view(bs@) =~= b0.drop_last().push(b0.last().push(t@)));
        }
        i = i + 1;
    }
    assert(views(lines@).take(lines@.len() as int) =~= views(lines@));
    bs
}

/// Build the HTML for Appendix E from its non-empty lines and blank separators.
pub fn build_rounds_table_html(lines: &Vec<Vec<char>>) -> (r: Vec<char>)
    ensures
        r@ == rounds_table(views(lines@)),
{
    let bs = blocks_exec(lines);
    let mut pre: Vec<Vec<char>> = Vec::new();
    let mut rows: Vec<(Vec<char>, Vec<char>, Vec<char>)> = Vec::new();
    let mut post: Vec<Vec<char>> = Vec::new();
    let mut started = false;
    let mut i: usize = 0;
    while i < bs.len()
        invariant
            0 <= i <= bs@.len(),
            blocks_view(bs@) == blocks_of(views(lines@)),
            ({
                let p = classify(blocks_view(bs@).take(i as int));
                p.pre == views(pre@) && p.rows == triples_view(rows@) && p.post == views(post@)
                    && p.started == started
            }),
        decreases bs.len() - i,
    {
        assert(blocks_view(bs@).take(i + 1).drop_last() =~= blocks_view(bs@).take(i as int));
        assert(blocks_view(bs@).take(i + 1).last() == views(bs@[i as int]@));
        if bs[i].len() > 0 {
            let j = join_space_exec(&bs[i]);
            if !column_header_exec(j.as_slice()) {
                match table_row_exec(j.as_slice()) {
                    Some(row) => {
                        let ghost r0 = triples_view(rows@);
                        rows.push(row);
                        assert(triples_view(rows@) =~= r0.push((row.0@, row.1@, row.2@)));
                        started = true;
                    },
                    None => {
                        if started {
                            let ghost q0 = views(post@);
                            post.push(j);
                            assert(views(post@) =~= q0.push(j@));
                        } else {
                            let ghost q0 = views(pre@);
                            pre.push(j);
                            assert(views(pre@) =~= q0.push(j@));
                        }
                    },
                }
            }
        }
        i = i + 1;
    }
    assert(blocks_view(bs@).take(bs@.len() as int) =~= blocks_view(bs@));
    let mut html: Vec<char> = Vec::new();
    paras_exec(&mut html, &pre);
    if rows.len() > 0 {
        append_str(&mut html, "<table class=\"penalty-table\"><thead><tr><th>Players (Teams)</th><th>Swiss Rounds</th><th>Playoff</th></tr></thead><tbody>");
        rows_exec(&mut html, &rows);
        append_str(&mut html, "</tbody></table>");
    }
    paras_exec(&mut html, &post);
    assert(html@ =~= rounds_table(views(lines@)));
    html
}

} // verus!
