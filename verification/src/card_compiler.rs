//! Compiling Scryfall's card dump into one record per oracle card. English
//! printings of playable layouts are grouped by oracle id; each group keeps
//! the text of its first printing, the images of its newest one, and the
//! newest printing of every set. The compiled cards come out sorted by name,
//! each with its printings sorted by release date.
use vstd::prelude::*;
use vstd::relations::sorted_by;
use crate::models::opt_view;
use crate::text::{append, append_str, chars_of, eq_str, string_from_chars};
use crate::card_sort::{date_leq, name_leq, sort_cards_by_name, sort_printings_by_date};
use crate::text_order::{
    chars_lt, lemma_lt_total, lemma_lt_transitive, str_lt,
};

verus! {

// ── Input ──────────────────────────────────────────────────────────────────

/// The image links of a card or face.
#[derive(Debug, Clone)]
pub struct ImageUris {
    pub normal: Option<String>,
}

/// One face of a multi-faced card.
#[derive(Debug, Clone)]
pub struct CardFace {
    pub oracle_text: Option<String>,
    pub mana_cost: Option<String>,
    pub type_line: Option<String>,
    pub image_uris: Option<ImageUris>,
}

/// One printing as Scryfall's dump lists it. The mana value is carried as
/// the bits of its floating-point number: nothing here reads it.
#[derive(Debug, Clone)]
pub struct ScryfallCard {
    pub oracle_id: Option<String>,
    pub name: String,
    pub lang: String,
    pub layout: String,
    pub released_at: String,
    pub oracle_text: Option<String>,
    pub mana_cost: Option<String>,
    pub cmc_bits: Option<u64>,
    pub type_line: Option<String>,
    pub colors: Option<Vec<String>>,
    pub legalities: Option<Vec<(String, String)>>,
    pub image_uris: Option<ImageUris>,
    pub card_faces: Option<Vec<CardFace>>,
    pub set: String,
    pub set_name: String,
}

// ── Output ─────────────────────────────────────────────────────────────────

/// One set a card was printed in.
#[derive(Debug, Clone, PartialEq, Eq)]
pub struct Printing {
    pub set_code: String,
    pub set_name: String,
    pub released_at: String,
    pub image_url: Option<String>,
    pub back_image_url: Option<String>,
}

/// One oracle card with every set it was printed in.
#[derive(Debug, Clone, PartialEq, Eq)]
pub struct CompactCard {
    pub oracle_id: String,
    pub name: String,
    pub oracle_text: Option<String>,
    pub mana_cost: Option<String>,
    pub cmc_bits: Option<u64>,
    pub type_line: Option<String>,
    pub colors: Vec<String>,
    pub legalities: Vec<(String, String)>,
    pub image_url: Option<String>,
    pub back_image_url: Option<String>,
    pub printings: Vec<Printing>,
}

/// The cards of one oracle id seen so far: the card, its newest printing of
/// each set, and the newest release date seen.
#[derive(Debug)]
pub struct OracleGroup {
    pub card: CompactCard,
    pub printings: Vec<Printing>,
    pub newest: String,
}

// ── The model ──────────────────────────────────────────────────────────────

pub struct PrintingV {
    pub set_code: Seq<char>,
    pub set_name: Seq<char>,
    pub released_at: Seq<char>,
    pub image_url: Option<Seq<char>>,
    pub back_image_url: Option<Seq<char>>,
}

pub struct CardV {
    pub oracle_id: Seq<char>,
    pub name: Seq<char>,
    pub oracle_text: Option<Seq<char>>,
    pub mana_cost: Option<Seq<char>>,
    pub cmc_bits: Option<u64>,
    pub type_line: Option<Seq<char>>,
    pub colors: Seq<Seq<char>>,
    pub legalities: Seq<(Seq<char>, Seq<char>)>,
    pub image_url: Option<Seq<char>>,
    pub back_image_url: Option<Seq<char>>,
}

pub struct GroupV {
    pub card: CardV,
    pub printings: Seq<PrintingV>,
    pub newest: Seq<char>,
}

pub struct AccV {
    pub groups: Seq<GroupV>,
    pub total: nat,
    pub skipped: nat,
}

pub open spec fn printing_v(p: Printing) -> PrintingV {
    PrintingV {
        set_code: p.set_code@,
        set_name: p.set_name@,
        released_at: p.released_at@,
        image_url: opt_view(p.image_url),
        back_image_url: opt_view(p.back_image_url),
    }
}

pub open spec fn printings_v(ps: Seq<Printing>) -> Seq<PrintingV> {
    ps.map_values(|p: Printing| printing_v(p))
}

pub open spec fn strings_v(v: Seq<String>) -> Seq<Seq<char>> {
    v.map_values(|s: String| s@)
}

pub open spec fn pairs_v(v: Seq<(String, String)>) -> Seq<(Seq<char>, Seq<char>)> {
    v.map_values(|p: (String, String)| (p.0@, p.1@))
}

pub open spec fn card_v(c: CompactCard) -> CardV {
    CardV {
        oracle_id: c.oracle_id@,
        name: c.name@,
        oracle_text: opt_view(c.oracle_text),
        mana_cost: opt_view(c.mana_cost),
        cmc_bits: c.cmc_bits,
        type_line: opt_view(c.type_line),
        colors: strings_v(c.colors@),
        legalities: pairs_v(c.legalities@),
        image_url: opt_view(c.image_url),
        back_image_url: opt_view(c.back_image_url),
    }
}

pub open spec fn group_v(g: OracleGroup) -> GroupV {
    GroupV { card: card_v(g.card), printings: printings_v(g.printings@), newest: g.newest@ }
}

/// Layouts that are not playable cards.
pub open spec fn excluded_layout(l: Seq<char>) -> bool {
    l == "token"@ || l == "double_faced_token"@ || l == "art_series"@ || l == "emblem"@
        || l == "vanguard"@ || l == "scheme"@ || l == "phenomenon"@ || l == "plane"@
}

pub open spec fn normal_image(u: Option<ImageUris>) -> Option<Seq<char>> {
    match u {
        Some(x) => opt_view(x.normal),
        None => None,
    }
}

/// The image of the first face that has one.
pub open spec fn first_face_image(fs: Seq<CardFace>) -> Option<Seq<char>>
    decreases fs.len(),
{
    if fs.len() == 0 {
        None
    } else {
        match normal_image(fs[0].image_uris) {
            Some(u) => Some(u),
            None => first_face_image(fs.drop_first()),
        }
    }
}

/// The first face that has a mana cost, its cost.
pub open spec fn first_face_cost(fs: Seq<CardFace>) -> Option<Seq<char>>
    decreases fs.len(),
{
    if fs.len() == 0 {
        None
    } else {
        match opt_view(fs[0].mana_cost) {
            Some(u) => Some(u),
            None => first_face_cost(fs.drop_first()),
        }
    }
}

/// The faces' texts that are present, in order.
pub open spec fn face_texts(fs: Seq<CardFace>) -> Seq<Seq<char>>
    decreases fs.len(),
{
    if fs.len() == 0 {
        seq![]
    } else {
        match opt_view(fs.last().oracle_text) {
            Some(t) => face_texts(fs.drop_last()).push(t),
            None => face_texts(fs.drop_last()),
        }
    }
}

/// The faces' type lines that are present, in order.
pub open spec fn face_types(fs: Seq<CardFace>) -> Seq<Seq<char>>
    decreases fs.len(),
{
    if fs.len() == 0 {
        seq![]
    } else {
        match opt_view(fs.last().type_line) {
            Some(t) => face_types(fs.drop_last()).push(t),
            None => face_types(fs.drop_last()),
        }
    }
}

/// Texts joined by a separator.
pub open spec fn join_sep(ss: Seq<Seq<char>>, sep: Seq<char>) -> Seq<char>
    decreases ss.len(),
{
    if ss.len() == 0 {
        seq![]
    } else if ss.len() == 1 {
        ss[0]
    } else {
        join_sep(ss.drop_last(), sep) + sep + ss.last()
    }
}

/// The joined texts, none when there is none.
pub open spec fn joined_or_none(ss: Seq<Seq<char>>, sep: Seq<char>) -> Option<Seq<char>> {
    if ss.len() == 0 { None } else { Some(join_sep(ss, sep)) }
}

pub open spec fn faces_of(c: ScryfallCard) -> Seq<CardFace> {
    match c.card_faces {
        Some(f) => f@,
        None => seq![],
    }
}

/// The front image: the card's own, else the first face's that has one.
pub open spec fn card_image(c: ScryfallCard) -> Option<Seq<char>> {
    match normal_image(c.image_uris) {
        Some(u) => Some(u),
        None => first_face_image(faces_of(c)),
    }
}

/// The back image: the second face's, for a card of two faces or more.
pub open spec fn card_back_image(c: ScryfallCard) -> Option<Seq<char>> {
    let fs = faces_of(c);
    if fs.len() >= 2 { normal_image(fs[1].image_uris) } else { None }
}

pub open spec fn or_else(a: Option<Seq<char>>, b: Option<Seq<char>>) -> Option<Seq<char>> {
    match a {
        Some(x) => Some(x),
        None => b,
    }
}

/// The compact card a printing starts a group with.
pub open spec fn fresh_card(c: ScryfallCard) -> CardV {
    let fs = faces_of(c);
    CardV {
        oracle_id: match c.oracle_id { Some(i) => i@, None => seq![] },
        name: c.name@,
        oracle_text: or_else(opt_view(c.oracle_text), joined_or_none(face_texts(fs), "\n//\n"@)),
        mana_cost: or_else(opt_view(c.mana_cost), first_face_cost(fs)),
        cmc_bits: c.cmc_bits,
        type_line: or_else(opt_view(c.type_line), joined_or_none(face_types(fs), " // "@)),
        colors: match c.colors { Some(v) => strings_v(v@), None => seq![] },
        legalities: match c.legalities { Some(v) => pairs_v(v@), None => seq![] },
        image_url: card_image(c),
        back_image_url: card_back_image(c),
    }
}

/// The printing a card stands for.
pub open spec fn printing_of(c: ScryfallCard) -> PrintingV {
    PrintingV {
        set_code: c.set@,
        set_name: c.set_name@,
        released_at: c.released_at@,
        image_url: card_image(c),
        back_image_url: card_back_image(c),
    }
}

/// The position of the printing of a set.
pub open spec fn set_index(ps: Seq<PrintingV>, set: Seq<char>, i: int) -> Option<int>
    decreases ps.len() - i,
{
    if i < 0 || i >= ps.len() {
        None
    } else if ps[i].set_code == set {
        Some(i)
    } else {
        set_index(ps, set, i + 1)
    }
}

/// A set's printing is kept when it is newer than the one held.
pub open spec fn merge_printing(ps: Seq<PrintingV>, p: PrintingV) -> Seq<PrintingV> {
    match set_index(ps, p.set_code, 0) {
        Some(i) => if chars_lt(ps[i].released_at, p.released_at) { ps.update(i, p) } else { ps },
        None => ps.push(p),
    }
}

/// A printing added to its group: a newer release date moves the group's
/// images to this printing's (the front image only when it has one).
pub open spec fn merge_group(g: GroupV, p: PrintingV) -> GroupV {
    let ps = merge_printing(g.printings, p);
    if chars_lt(g.newest, p.released_at) {
        GroupV {
            card: CardV {
                image_url: if p.image_url is Some { p.image_url } else { g.card.image_url },
                back_image_url: p.back_image_url,
                ..g.card
            },
            printings: ps,
            newest: p.released_at,
        }
    } else {
        GroupV { printings: ps, ..g }
    }
}

/// Where an oracle id is, or belongs, among groups sorted by id.
pub open spec fn id_position(gs: Seq<GroupV>, id: Seq<char>, i: int) -> int
    decreases gs.len() - i,
{
    if i < 0 || i >= gs.len() {
        gs.len() as int
    } else if !chars_lt(gs[i].card.oracle_id, id) {
        i
    } else {
        id_position(gs, id, i + 1)
    }
}

/// Whether a printing is counted as skipped: not English, a layout that is
/// not a card, or no oracle id.
pub open spec fn skipped_card(c: ScryfallCard) -> bool {
    c.lang@ != "en"@ || excluded_layout(c.layout@) || c.oracle_id is None
}

/// One printing taken in.
pub open spec fn processed(a: AccV, c: ScryfallCard) -> AccV {
    if skipped_card(c) {
        AccV { total: a.total + 1, skipped: a.skipped + 1, ..a }
    } else {
        let id = c.oracle_id->0@;
        let p = printing_of(c);
        let k = id_position(a.groups, id, 0);
        let groups = if k < a.groups.len() && a.groups[k].card.oracle_id == id {
            a.groups.update(k, merge_group(a.groups[k], p))
        } else {
            a.groups.insert(k, GroupV { card: fresh_card(c), printings: seq![p], newest: c.released_at@ })
        };
        AccV { groups, total: a.total + 1, ..a }
    }
}

/// Groups are kept sorted by oracle id, each id once.
pub open spec fn ids_sorted(gs: Seq<GroupV>) -> bool {
    forall|i: int, j: int| 0 <= i < j < gs.len() ==> chars_lt(#[trigger] gs[i].card.oracle_id, #[trigger] gs[j].card.oracle_id)
}

/// Printings of a group are of distinct sets.
pub open spec fn sets_distinct(ps: Seq<PrintingV>) -> bool {
    forall|i: int, j: int| 0 <= i < j < ps.len() ==> #[trigger] ps[i].set_code != #[trigger] ps[j].set_code
}

pub open spec fn acc_wf(a: AccV) -> bool {
    &&& ids_sorted(a.groups)
    &&& forall|i: int| 0 <= i < a.groups.len() ==> sets_distinct(#[trigger] a.groups[i].printings)
}


// ── Executable ────────────────────────────────────────────────────────────

proof fn lemma_id_position(gs: Seq<GroupV>, id: Seq<char>, i: int)
    requires
        0 <= i <= gs.len(),
    ensures
        i <= id_position(gs, id, i) <= gs.len(),
        forall|j: int| i <= j < id_position(gs, id, i) ==> chars_lt(#[trigger] gs[j].card.oracle_id, id),
        id_position(gs, id, i) < gs.len() ==> !chars_lt(gs[id_position(gs, id, i)].card.oracle_id, id),
    decreases gs.len() - i,
{
    if i < gs.len() && chars_lt(gs[i].card.oracle_id, id) {
        lemma_id_position(gs, id, i + 1);
    }
}

fn opt_clone(o: &Option<String>) -> (r: Option<String>)
    ensures
        opt_view(r) == opt_view(*o),
{
    match o {
        Some(s) => Some(s.clone()),
        None => None,
    }
}

fn normal_image_exec(u: &Option<ImageUris>) -> (r: Option<String>)
    ensures
        opt_view(r) == normal_image(*u),
{
    match u {
        Some(x) => opt_clone(&x.normal),
        None => None,
    }
}

fn first_face_image_exec(fs: &Vec<CardFace>) -> (r: Option<String>)
    ensures
        opt_view(r) == first_face_image(fs@),
{
    let mut i: usize = 0;
    assert(fs@.skip(0) =~= fs@);
    while i < fs.len()
        invariant
            0 <= i <= fs@.len(),
            first_face_image(fs@) == first_face_image(fs@.skip(i as int)),
        decreases fs.len() - i,
    {
        assert(fs@.skip(i as int)[0] == fs@[i as int]);
        assert(fs@.skip(i as int).drop_first() =~= fs@.skip(i + 1));
        let u = normal_image_exec(&fs[i].image_uris);
        if u.is_some() {
            return u;
        }
        i = i + 1;
    }
    None
}

fn first_face_cost_exec(fs: &Vec<CardFace>) -> (r: Option<String>)
    ensures
        opt_view(r) == first_face_cost(fs@),
{
    let mut i: usize = 0;
    assert(fs@.skip(0) =~= fs@);
    while i < fs.len()
        invariant
            0 <= i <= fs@.len(),
            first_face_cost(fs@) == first_face_cost(fs@.skip(i as int)),
        decreases fs.len() - i,
    {
        assert(fs@.skip(i as int)[0] == fs@[i as int]);
        assert(fs@.skip(i as int).drop_first() =~= fs@.skip(i + 1));
        let u = opt_clone(&fs[i].mana_cost);
        if u.is_some() {
            return u;
        }
        i = i + 1;
    }
    None
}

fn joined_faces(fs: &Vec<CardFace>, types: bool, sep: &str) -> (r: Option<String>)
    ensures
        types ==> opt_view(r) == joined_or_none(face_types(fs@), sep@),
        !types ==> opt_view(r) == joined_or_none(face_texts(fs@), sep@),
{
    let ghost ts = if types { face_types(fs@) } else { face_texts(fs@) };
    let mut out: Vec<char> = Vec::new();
    let mut n: usize = 0;
    let mut i: usize = 0;
    while i < fs.len()
        invariant
            0 <= i <= fs@.len(),
            types ==> (face_types(fs@.take(i as int)).len() == n && out@ == join_sep(face_types(fs@.take(i as int)), sep@)),
            !types ==> (face_texts(fs@.take(i as int)).len() == n && out@ == join_sep(face_texts(fs@.take(i as int)), sep@)),
            n <= i,
        decreases fs.len() - i,
    {
        assert(fs@.take(i + 1).drop_last() =~= fs@.take(i as int));
        assert(fs@.take(i + 1).last() == fs@[i as int]);
        let part = if types { opt_clone(&fs[i].type_line) } else { opt_clone(&fs[i].oracle_text) };
        let ghost before = out@;
        if let Some(t) = part {
            if n > 0 {
                append_str(&mut out, sep);
            }
            append(&mut out, chars_of(t.as_str()).as_slice());
            n = n + 1;
            proof {
                let prev = if types { face_types(fs@.take(i as int)) } else { face_texts(fs@.take(i as int)) };
                let now = if types { face_types(fs@.take(i + 1)) } else { face_texts(fs@.take(i + 1)) };
                assert(now == prev.push(t@));
                if prev.len() == 0 {
                    assert(out@ =~= t@);
                    assert(now.len() == 1);
                } else {
                    assert(now.drop_last() == prev);
                    assert(out@ =~= before + sep@ + t@);
                }
            }
        }
        i = i + 1;
    }
    assert(fs@.take(fs@.len() as int) =~= fs@);
    if n == 0 {
        None
    } else {
        Some(string_from_chars(&out))
    }
}

fn excluded_layout_exec(l: &str) -> (r: bool)
    ensures
        r == excluded_layout(l@),
{
    let c = chars_of(l);
    let s = c.as_slice();
    eq_str(s, "token") || eq_str(s, "double_faced_token") || eq_str(s, "art_series") || eq_str(s, "emblem")
        || eq_str(s, "vanguard") || eq_str(s, "scheme") || eq_str(s, "phenomenon") || eq_str(s, "plane")
}

fn card_image_exec(c: &ScryfallCard) -> (r: Option<String>)
    ensures
        opt_view(r) == card_image(*c),
{
    let own = normal_image_exec(&c.image_uris);
    if own.is_some() {
        return own;
    }
    match &c.card_faces {
        Some(fs) => first_face_image_exec(fs),
        None => None,
    }
}

fn card_back_image_exec(c: &ScryfallCard) -> (r: Option<String>)
    ensures
        opt_view(r) == card_back_image(*c),
{
    match &c.card_faces {
        Some(fs) => if fs.len() >= 2 { normal_image_exec(&fs[1].image_uris) } else { None },
        None => None,
    }
}

fn printing_of_exec(c: &ScryfallCard) -> (r: Printing)
    ensures
        printing_v(r) == printing_of(*c),
{
    Printing {
        set_code: c.set.clone(),
        set_name: c.set_name.clone(),
        released_at: c.released_at.clone(),
        image_url: card_image_exec(c),
        back_image_url: card_back_image_exec(c),
    }
}

fn fresh_card_exec(c: ScryfallCard) -> (r: CompactCard)
    requires
        c.oracle_id is Some,
    ensures
        card_v(r) == fresh_card(c),
        r.printings@.len() == 0,
{
    let image_url = card_image_exec(&c);
    let back_image_url = card_back_image_exec(&c);
    let empty: Vec<CardFace> = Vec::new();
    let oracle_text = match &c.oracle_text {
        Some(t) => Some(t.clone()),
        None => match &c.card_faces {
            Some(fs) => joined_faces(fs, false, "\n//\n"),
            None => joined_faces(&empty, false, "\n//\n"),
        },
    };
    let mana_cost = match &c.mana_cost {
        Some(t) => Some(t.clone()),
        None => match &c.card_faces {
            Some(fs) => first_face_cost_exec(fs),
            None => None,
        },
    };
    let type_line = match &c.type_line {
        Some(t) => Some(t.clone()),
        None => match &c.card_faces {
            Some(fs) => joined_faces(fs, true, " // "),
            None => joined_faces(&empty, true, " // "),
        },
    };
    proof {
        assert(empty@ =~= Seq::<CardFace>::empty());
    }
    let ScryfallCard { oracle_id, name, cmc_bits, colors, legalities, .. } = c;
    let oracle_id = match oracle_id {
        Some(i) => i,
        None => String::new(),
    };
    let colors = match colors {
        Some(v) => v,
        None => Vec::new(),
    };
    let legalities = match legalities {
        Some(v) => v,
        None => Vec::new(),
    };
    let r = CompactCard {
        oracle_id,
        name,
        oracle_text,
        mana_cost,
        cmc_bits,
        type_line,
        colors,
        legalities,
        image_url,
        back_image_url,
        printings: Vec::new(),
    };
    proof {
        if c.colors is None {
            assert(strings_v(r.colors@) =~= Seq::<Seq<char>>::empty());
        }
        if c.legalities is None {
            assert(pairs_v(r.legalities@) =~= Seq::<(Seq<char>, Seq<char>)>::empty());
        }
    }
    r
}

fn merge_printing_exec(ps: &mut Vec<Printing>, p: Printing)
    requires
        sets_distinct(printings_v(old(ps)@)),
    ensures
        printings_v(final(ps)@) == merge_printing(printings_v(old(ps)@), printing_v(p)),
        sets_distinct(printings_v(final(ps)@)),
{
    let ghost pv = printings_v(ps@);
    let mut i: usize = 0;
    while i < ps.len()
        invariant
            0 <= i <= ps@.len(),
            pv == printings_v(ps@),
            pv == printings_v(old(ps)@),
            sets_distinct(pv),
            set_index(pv, p.set_code@, i as int) == set_index(pv, p.set_code@, 0),
            forall|j: int| 0 <= j < i ==> #[trigger] pv[j].set_code != p.set_code@,
        decreases ps.len() - i,
    {
        assert(pv[i as int] == printing_v(ps@[i as int]));
        if eq_str(chars_of(ps[i].set_code.as_str()).as_slice(), p.set_code.as_str()) {
            assert(pv[i as int].set_code == p.set_code@);
            assert(set_index(pv, p.set_code@, 0) == Some(i as int));
            assert(pv[i as int].released_at == ps@[i as int].released_at@);
            if str_lt(ps[i].released_at.as_str(), p.released_at.as_str()) {
                let ghost q = printing_v(p);
                ps.set(i, p);
                assert(printings_v(ps@) =~= pv.update(i as int, q));
                assert forall|a: int, b: int| 0 <= a < b < printings_v(ps@).len()
                    implies #[trigger] printings_v(ps@)[a].set_code != #[trigger] printings_v(ps@)[b].set_code by {
                    assert(pv[a].set_code != pv[b].set_code);
                }
                assert(printings_v(ps@) == merge_printing(pv, q));
            } else {
                assert(printings_v(ps@) == merge_printing(pv, printing_v(p)));
            }
            return;
        }
        i = i + 1;
    }
    let ghost q = printing_v(p);
    ps.push(p);
    assert(printings_v(ps@) =~= pv.push(q));
    assert forall|a: int, b: int| 0 <= a < b < printings_v(ps@).len()
        implies #[trigger] printings_v(ps@)[a].set_code != #[trigger] printings_v(ps@)[b].set_code by {
        if b < pv.len() {
            assert(pv[a].set_code != pv[b].set_code);
        }
    }
}

fn merge_group_exec(g: &mut OracleGroup, p: Printing)
    requires
        sets_distinct(printings_v(old(g).printings@)),
    ensures
        group_v(*final(g)) == merge_group(group_v(*old(g)), printing_v(p)),
        sets_distinct(printings_v(final(g).printings@)),
{
    if str_lt(g.newest.as_str(), p.released_at.as_str()) {
        g.newest = p.released_at.clone();
        if p.image_url.is_some() {
            g.card.image_url = opt_clone(&p.image_url);
        }
        g.card.back_image_url = opt_clone(&p.back_image_url);
    }
    merge_printing_exec(&mut g.printings, p);
}

fn empty_group() -> (r: OracleGroup)
    ensures
        r.card.oracle_id@ == Seq::<char>::empty(),
        r.card.name@ == Seq::<char>::empty(),
        r.card.oracle_text is None,
        r.card.mana_cost is None,
        r.card.cmc_bits is None,
        r.card.type_line is None,
        r.card.colors@.len() == 0,
        r.card.legalities@.len() == 0,
        r.card.image_url is None,
        r.card.back_image_url is None,
        r.card.printings@.len() == 0,
        r.printings@.len() == 0,
        r.newest@ == Seq::<char>::empty(),
{
    OracleGroup {
        card: CompactCard {
            oracle_id: String::new(),
            name: String::new(),
            oracle_text: None,
            mana_cost: None,
            cmc_bits: None,
            type_line: None,
            colors: Vec::new(),
            legalities: Vec::new(),
            image_url: None,
            back_image_url: None,
            printings: Vec::new(),
        },
        printings: Vec::new(),
        newest: String::new(),
    }
}

/// The compiled cards so far, with the numbers of printings read and skipped.
pub struct Accumulator {
    groups: Vec<Box<OracleGroup>>,
    pub total: usize,
    pub skipped: usize,
}

pub open spec fn groups_v(gs: Seq<Box<OracleGroup>>) -> Seq<GroupV> {
    gs.map_values(|g: Box<OracleGroup>| group_v(*g))
}

impl View for Accumulator {
    type V = AccV;

    closed spec fn view(&self) -> AccV {
        AccV { groups: groups_v(self.groups@), total: self.total as nat, skipped: self.skipped as nat }
    }
}

impl Accumulator {
    /// The groups held, in the order of their oracle ids.
    pub closed spec fn groups(&self) -> Seq<OracleGroup> {
        self.groups@.map_values(|g: Box<OracleGroup>| *g)
    }

    pub closed spec fn well_formed(&self) -> bool {
        &&& acc_wf(self@)
        &&& self.skipped <= self.total
        &&& self@.groups == self.groups().map_values(|g: OracleGroup| group_v(g))
    }

    /// Nothing read yet.
    pub fn new() -> (r: Self)
        ensures
            r@ == (AccV { groups: seq![], total: 0, skipped: 0 }),
            r.well_formed(),
            r.groups().len() == 0,
            r.groups().map_values(|g: OracleGroup| group_v(g)) == r@.groups,
    {
        let r = Accumulator { groups: Vec::new(), total: 0, skipped: 0 };
        assert(r@.groups =~= Seq::<GroupV>::empty());
        assert(r.groups().map_values(|g: OracleGroup| group_v(g)) =~= Seq::<GroupV>::empty());
        r
    }

    /// Where `id` is, or belongs, among the groups.
    fn position(&self, id: &str) -> (r: usize)
        requires
            self.well_formed(),
        ensures
            r == id_position(self@.groups, id@, 0),
    {
        let ghost gs = self@.groups;
        proof { lemma_id_position(gs, id@, 0); }
        let mut lo: usize = 0;
        let mut hi: usize = self.groups.len();
        while lo < hi
            invariant
                0 <= lo <= hi <= gs.len(),
                gs == self@.groups,
                gs.len() == self.groups@.len(),
                ids_sorted(gs),
                forall|j: int| 0 <= j < lo ==> chars_lt(#[trigger] gs[j].card.oracle_id, id@),
                forall|j: int| hi <= j < gs.len() ==> !chars_lt(#[trigger] gs[j].card.oracle_id, id@),
            decreases hi - lo,
        {
            let mid = lo + (hi - lo) / 2;
            assert(gs[mid as int] == group_v(*self.groups@[mid as int]));
            if str_lt(self.groups[mid].card.oracle_id.as_str(), id) {
                assert forall|j: int| 0 <= j < mid + 1 implies chars_lt(#[trigger] gs[j].card.oracle_id, id@) by {
                    if j < mid {
                        lemma_lt_transitive(gs[j].card.oracle_id, gs[mid as int].card.oracle_id, id@);
                    }
                }
                lo = mid + 1;
            } else {
                assert forall|j: int| mid <= j < gs.len() implies !chars_lt(#[trigger] gs[j].card.oracle_id, id@) by {
                    if j > mid && chars_lt(gs[j].card.oracle_id, id@) {
                        lemma_lt_transitive(gs[mid as int].card.oracle_id, gs[j].card.oracle_id, id@);
                    }
                }
                hi = mid;
            }
        }
        proof {
            let k = id_position(gs, id@, 0);
            if k < lo {
                assert(chars_lt(gs[k].card.oracle_id, id@));
            }
            if k > lo {
                assert(chars_lt(gs[lo as int].card.oracle_id, id@));
            }
        }
        lo
    }

    /// Take in one printing of the dump (see `processed`).
    pub fn process(&mut self, card: ScryfallCard)
        requires
            old(self).well_formed(),
            old(self)@.total < usize::MAX,
        ensures
            final(self).well_formed(),
            final(self)@ == processed(old(self)@, card),
            final(self).groups().map_values(|g: OracleGroup| group_v(g)) == final(self)@.groups,
    {
        let ghost a0 = self@;
        self.total = self.total + 1;
        let skip = match &card.oracle_id {
            Some(_) => false,
            None => true,
        };
        let lang = chars_of(card.lang.as_str());
        if !eq_str(lang.as_slice(), "en") || excluded_layout_exec(card.layout.as_str()) || skip {
            self.skipped = self.skipped + 1;
            proof {
                assert(self@.groups == a0.groups);
                assert(skipped_card(card));
            }
            return;
        }
        let id: String = match &card.oracle_id {
            Some(i) => i.clone(),
            None => String::new(),
        };
        let p = printing_of_exec(&card);
        let ghost pv = printing_v(p);
        let k = self.position(id.as_str());
        let ghost gs = a0.groups;
        proof { lemma_id_position(gs, id@, 0); }
        let found = k < self.groups.len() && eq_str(chars_of(self.groups[k].card.oracle_id.as_str()).as_slice(), id.as_str());
        if found {
            assert(gs[k as int] == group_v(*self.groups@[k as int]));
            let mut slot: Box<OracleGroup> = Box::new(empty_group());
            self.groups.set_and_swap(k, &mut slot);
            let ghost old_g = *slot;
            assert(group_v(old_g) == gs[k as int]);
            merge_group_exec(&mut slot, p);
            self.groups.set(k, slot);
            proof {
                assert(groups_v(self.groups@) =~= gs.update(k as int, merge_group(gs[k as int], pv)));
                let ng = groups_v(self.groups@);
                assert forall|i: int, j: int| 0 <= i < j < ng.len() implies chars_lt(#[trigger] ng[i].card.oracle_id, #[trigger] ng[j].card.oracle_id) by {
                    assert(ng[i].card.oracle_id == gs[i].card.oracle_id);
                    assert(ng[j].card.oracle_id == gs[j].card.oracle_id);
                }
                assert forall|i: int| 0 <= i < ng.len() implies sets_distinct(#[trigger] ng[i].printings) by {
                    if i != k {
                        assert(ng[i] == gs[i]);
                    }
                }
                assert(self.groups().map_values(|g: OracleGroup| group_v(g)) =~= ng);
            }
        } else {
            let released = card.released_at.clone();
            let c = fresh_card_exec(card);
            let mut ps: Vec<Printing> = Vec::new();
            ps.push(p);
            let g = OracleGroup { card: c, printings: ps, newest: released };
            let ghost gv = group_v(g);
            assert(gv.printings =~= seq![pv]);
            self.groups.insert(k, Box::new(g));
            proof {
                assert(groups_v(self.groups@) =~= gs.insert(k as int, gv));
                let ng = groups_v(self.groups@);
                if k < gs.len() {
                    lemma_lt_total(gs[k as int].card.oracle_id, id@);
                }
                assert forall|i: int, j: int| 0 <= i < j < ng.len() implies chars_lt(#[trigger] ng[i].card.oracle_id, #[trigger] ng[j].card.oracle_id) by {
                    if i < k && j == k {
                    } else if i < k && j > k {
                        assert(ng[j] == gs[j - 1]);
                        if j - 1 > i {
                            assert(chars_lt(gs[i].card.oracle_id, gs[j - 1].card.oracle_id));
                        }
                    } else if i == k {
                        assert(ng[j] == gs[j - 1]);
                        if j - 1 > k {
                            assert(chars_lt(gs[k as int].card.oracle_id, gs[j - 1].card.oracle_id));
                            lemma_lt_transitive(id@, gs[k as int].card.oracle_id, gs[j - 1].card.oracle_id);
                        }
                    } else if i > k {
                        assert(ng[i] == gs[i - 1]);
                        assert(ng[j] == gs[j - 1]);
                    } else {
                        assert(ng[i] == gs[i]);
                        assert(ng[j] == gs[j]);
                    }
                }
                assert forall|i: int| 0 <= i < ng.len() implies sets_distinct(#[trigger] ng[i].printings) by {
                    if i < k {
                        assert(ng[i] == gs[i]);
                    } else if i > k {
                        assert(ng[i] == gs[i - 1]);
                    }
                }
                assert(self.groups().map_values(|g: OracleGroup| group_v(g)) =~= ng);
            }
        }
    }
}


/// A compiled card from its group: the group's card with the group's
/// printings, ordered by release date.
pub open spec fn finished_as(c: CompactCard, g: OracleGroup) -> bool {
    &&& c.oracle_id == g.card.oracle_id
    &&& c.name == g.card.name
    &&& c.oracle_text == g.card.oracle_text
    &&& c.mana_cost == g.card.mana_cost
    &&& c.cmc_bits == g.card.cmc_bits
    &&& c.type_line == g.card.type_line
    &&& c.colors == g.card.colors
    &&& c.legalities == g.card.legalities
    &&& c.image_url == g.card.image_url
    &&& c.back_image_url == g.card.back_image_url
    &&& c.printings@.to_multiset() == g.printings@.to_multiset()
    &&& sorted_by(c.printings@, |a: Printing, b: Printing| date_leq(a, b))
}

fn finish_group(g: Box<OracleGroup>) -> (r: CompactCard)
    ensures
        finished_as(r, *g),
{
    let OracleGroup { card, printings, newest: _ } = *g;
    let mut ps = printings;
    sort_printings_by_date(&mut ps);
    CompactCard { printings: ps, ..card }
}

impl Accumulator {
    /// The compiled cards: one per group, ordered by name, each with its
    /// printings ordered by release date.
    pub fn finish(self) -> (r: Vec<CompactCard>)
        requires
            self.well_formed(),
        ensures
            r@.len() == self.groups().len(),
            r@.len() == self@.groups.len(),
            sorted_by(r@, |a: CompactCard, b: CompactCard| name_leq(a, b)),
            exists|pre: Seq<CompactCard>|
                #![trigger pre.to_multiset()]
                pre.len() == self.groups().len() && pre.to_multiset() == r@.to_multiset()
                    && (forall|i: int| 0 <= i < pre.len() ==> finished_as(#[trigger] pre[i], self.groups()[i]))
                    && (forall|i: int| 0 <= i < pre.len() ==> card_v(#[trigger] pre[i]) == self@.groups[i].card),
            forall|i: int| 0 <= i < r@.len() ==> exists|j: int| 0 <= j < self@.groups.len() && card_v(#[trigger] r@[i]) == #[trigger] self@.groups[j].card,
            forall|j: int| 0 <= j < self@.groups.len() ==> exists|i: int| 0 <= i < r@.len() && card_v(#[trigger] r@[i]) == #[trigger] self@.groups[j].card,
    {
        let ghost all = self.groups();
        let Accumulator { groups, .. } = self;
        let mut groups = groups;
        let ghost orig = groups@;
        assert(all =~= orig.map_values(|g: Box<OracleGroup>| *g));
        let mut out: Vec<CompactCard> = Vec::new();
        while groups.len() > 0
            invariant
                groups@ == orig.take(groups@.len() as int),
                out@.len() + groups@.len() == orig.len(),
                all == orig.map_values(|g: Box<OracleGroup>| *g),
                forall|j: int| 0 <= j < out@.len() ==> finished_as(#[trigger] out@[j], all[orig.len() - 1 - j]),
            decreases groups@.len(),
        {
            let ghost n = groups@.len();
            let g = groups.pop().unwrap();
            assert(*g == all[n - 1]);
            assert(groups@ =~= orig.take(n - 1));
            let c = finish_group(g);
            out.push(c);
        }
        let ghost pre = out@.reverse();
        proof {
            out@.lemma_reverse_to_multiset();
            assert forall|i: int| 0 <= i < pre.len() implies finished_as(#[trigger] pre[i], all[i]) by {
                assert(pre[i] == out@[out@.len() - 1 - i]);
            }
            assert(self@.groups == all.map_values(|g: OracleGroup| group_v(g)));
            assert forall|i: int| 0 <= i < pre.len() implies card_v(#[trigger] pre[i]) == self@.groups[i].card by {
                assert(finished_as(pre[i], all[i]));
                assert(self@.groups[i] == group_v(all[i]));
            }
        }
        sort_cards_by_name(&mut out);
        proof {
            out@.to_multiset_ensures();
            pre.to_multiset_ensures();
            vstd::seq_lib::to_multiset_len(out@);
            vstd::seq_lib::to_multiset_len(pre);
            let gv = self@.groups;
            assert forall|i: int| 0 <= i < out@.len() implies exists|j: int| 0 <= j < gv.len() && card_v(#[trigger] out@[i]) == #[trigger] gv[j].card by {
                assert(out@.contains(out@[i]));
                assert(out@.to_multiset().count(out@[i]) > 0);
                assert(pre.contains(out@[i]));
                let j = choose|j: int| 0 <= j < pre.len() && pre[j] == out@[i];
                assert(card_v(pre[j]) == gv[j].card);
            }
            assert forall|j: int| 0 <= j < gv.len() implies exists|i: int| 0 <= i < out@.len() && card_v(#[trigger] out@[i]) == #[trigger] gv[j].card by {
                assert(pre.contains(pre[j]));
                assert(pre.to_multiset().count(pre[j]) > 0);
                assert(out@.contains(pre[j]));
                let i = choose|i: int| 0 <= i < out@.len() && out@[i] == pre[j];
                assert(card_v(pre[j]) == gv[j].card);
            }
        }
        out
    }
}

/// Printings that are not playable cards (tokens, double-faced tokens, art
/// series cards, emblems, Vanguard, Scheme, Phenomenon and Plane cards) are
/// counted and skipped: the cards compiled so far stay as they were.
pub proof fn law_unplayable_layouts_skipped(a: AccV, c: ScryfallCard)
    requires
        c.layout@ == "token"@ || c.layout@ == "double_faced_token"@ || c.layout@ == "art_series"@
            || c.layout@ == "emblem"@ || c.layout@ == "vanguard"@ || c.layout@ == "scheme"@
            || c.layout@ == "phenomenon"@ || c.layout@ == "plane"@,
    ensures
        processed(a, c).groups == a.groups,
        processed(a, c).total == a.total + 1,
        processed(a, c).skipped == a.skipped + 1,
{
}

} // verus!
