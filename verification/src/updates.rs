//! Data updates: which documents have a newer version than the one installed,
//! what kind of import a document type needs, the progress figures reported
//! while one runs, and when the Riftbound quick reference is refreshed.
use vstd::prelude::*;
use crate::models::opt_view;
use crate::text::{append, append_str, chars_of, eq_str, format_u64, string_from_chars, trim_chars};
use crate::versions::{is_newer, newer, quick_reference_ok, valid_quick_reference};

verus! {

// ── Manifest and update list ───────────────────────────────────────────────

/// A document listed by the hosted manifest.
#[derive(Debug, Clone)]
pub struct ManifestEntry {
    pub version: String,
    pub url: String,
}

/// The hosted manifest: the documents it offers, each optional.
#[derive(Debug, Clone)]
pub struct Manifest {
    pub cr: Option<ManifestEntry>,
    pub mtr: Option<ManifestEntry>,
    pub ipg: Option<ManifestEntry>,
    pub jar: Option<ManifestEntry>,
    pub riftbound_cr: Option<ManifestEntry>,
    pub riftbound_tr: Option<ManifestEntry>,
    pub riftbound_ep: Option<ManifestEntry>,
    pub riftbound_quick_reference: Option<ManifestEntry>,
}

pub struct EntryView {
    pub version: Seq<char>,
    pub url: Seq<char>,
}

pub open spec fn entry_view(e: Option<ManifestEntry>) -> Option<EntryView> {
    match e {
        Some(x) => Some(EntryView { version: x.version@, url: x.url@ }),
        None => None,
    }
}

/// What the update screen shows for one document type.
#[derive(Debug, Clone)]
pub struct UpdateInfo {
    pub doc_type: String,
    pub label: String,
    pub installed_version: Option<String>,
    pub available_version: String,
    pub url: String,
    pub update_available: bool,
    pub size_bytes: Option<u64>,
}

pub struct UpdateView {
    pub doc_type: Seq<char>,
    pub label: Seq<char>,
    pub installed_version: Option<Seq<char>>,
    pub available_version: Seq<char>,
    pub url: Seq<char>,
    pub update_available: bool,
    pub size_bytes: Option<int>,
}

impl View for UpdateInfo {
    type V = UpdateView;

    open spec fn view(&self) -> UpdateView {
        UpdateView {
            doc_type: self.doc_type@,
            label: self.label@,
            installed_version: opt_view(self.installed_version),
            available_version: self.available_version@,
            url: self.url@,
            update_available: self.update_available,
            size_bytes: match self.size_bytes { Some(n) => Some(n as int), None => None },
        }
    }
}

pub open spec fn updates_view(v: Seq<UpdateInfo>) -> Seq<UpdateView> {
    v.map_values(|u: UpdateInfo| u@)
}

pub open spec fn pairs_of(v: Seq<(String, String)>) -> Seq<(Seq<char>, Seq<char>)> {
    v.map_values(|p: (String, String)| (p.0@, p.1@))
}

/// The installed version of a document type: the last pair that names it,
/// as when the pairs are collected into a map.
pub open spec fn installed_of(ps: Seq<(Seq<char>, Seq<char>)>, k: Seq<char>) -> Option<Seq<char>>
    decreases ps.len(),
{
    if ps.len() == 0 {
        None
    } else if ps.last().0 == k {
        Some(ps.last().1)
    } else {
        installed_of(ps.drop_last(), k)
    }
}

/// A manifest document: an update when its version is newer than the one
/// installed, or when none is.
pub open spec fn doc_update(
    dt: Seq<char>,
    label: Seq<char>,
    e: Option<EntryView>,
    ps: Seq<(Seq<char>, Seq<char>)>,
) -> Seq<UpdateView> {
    match e {
        Some(x) => {
            let inst = installed_of(ps, dt);
            seq![UpdateView {
                doc_type: dt,
                label,
                installed_version: inst,
                available_version: x.version,
                url: x.url,
                update_available: newer(x.version, inst),
                size_bytes: None,
            }]
        },
        None => seq![],
    }
}

/// The answer of a live source as plain values: its URL, its version and
/// perhaps a size, or the reason it could not be reached.
pub open spec fn live_update(
    dt: Seq<char>,
    label: Seq<char>,
    r: Result<(Seq<char>, Seq<char>, Option<int>), Seq<char>>,
    has_data: bool,
    ps: Seq<(Seq<char>, Seq<char>)>,
) -> UpdateView {
    let inst = installed_of(ps, dt);
    match r {
        Ok(t) => UpdateView {
            doc_type: dt,
            label,
            installed_version: inst,
            available_version: t.1,
            url: t.0,
            update_available: !has_data || newer(t.1, inst),
            size_bytes: t.2,
        },
        Err(e) => UpdateView {
            doc_type: dt,
            label,
            installed_version: inst,
            available_version: "unavailable ("@ + e + ")"@,
            url: seq![],
            update_available: false,
            size_bytes: None,
        },
    }
}

pub open spec fn pair_result(r: Result<(String, String), String>) -> Result<(Seq<char>, Seq<char>, Option<int>), Seq<char>> {
    match r {
        Ok(t) => Ok((t.0@, t.1@, None)),
        Err(e) => Err(e@),
    }
}

pub open spec fn triple_result(r: Result<(String, String, Option<u64>), String>) -> Result<(Seq<char>, Seq<char>, Option<int>), Seq<char>> {
    match r {
        Ok(t) => Ok((t.0@, t.1@, match t.2 { Some(n) => Some(n as int), None => None })),
        Err(e) => Err(e@),
    }
}

/// The update list: the manifest's rules documents in a fixed order, then
/// card oracle text, Riftbound cards and card rulings from their live sources.
pub open spec fn update_list(
    m: Manifest,
    ps: Seq<(Seq<char>, Seq<char>)>,
    has_card_data: bool,
    has_rulings_data: bool,
    has_riftbound_card_data: bool,
    cards: Result<(Seq<char>, Seq<char>, Option<int>), Seq<char>>,
    riftbound_cards: Result<(Seq<char>, Seq<char>, Option<int>), Seq<char>>,
    rulings: Result<(Seq<char>, Seq<char>, Option<int>), Seq<char>>,
) -> Seq<UpdateView> {
    doc_update("cr"@, "Comprehensive Rules"@, entry_view(m.cr), ps)
        + doc_update("mtr"@, "Magic Tournament Rules"@, entry_view(m.mtr), ps)
        + doc_update("ipg"@, "Infraction Procedure Guide"@, entry_view(m.ipg), ps)
        + doc_update("jar"@, "Judging at Regular REL"@, entry_view(m.jar), ps)
        + doc_update("riftbound_cr"@, "Riftbound Comprehensive Rules"@, entry_view(m.riftbound_cr), ps)
        + doc_update("riftbound_tr"@, "Riftbound Tournament Rules"@, entry_view(m.riftbound_tr), ps)
        + doc_update("riftbound_ep"@, "Riftbound Enforcement & Penalties"@, entry_view(m.riftbound_ep), ps)
        + seq![
            live_update("cards"@, "Card Oracle Text"@, cards, has_card_data, ps),
            live_update("riftbound_cards"@, "Riftbound Cards"@, riftbound_cards, has_riftbound_card_data, ps),
            live_update("rulings"@, "Card Rulings"@, rulings, has_rulings_data, ps),
        ]
}

fn installed_exec(installed: &Vec<(String, String)>, key: &str) -> (r: Option<String>)
    ensures
        opt_view(r) == installed_of(pairs_of(installed@), key@),
{
    let mut i: usize = installed.len();
    assert(pairs_of(installed@).take(i as int) =~= pairs_of(installed@));
    while i > 0
        invariant
            0 <= i <= installed@.len(),
            installed_of(pairs_of(installed@), key@) == installed_of(pairs_of(installed@).take(i as int), key@),
        decreases i,
    {
        let ghost t = pairs_of(installed@).take(i as int);
        assert(t.last() == (installed@[i - 1].0@, installed@[i - 1].1@));
        assert(t.drop_last() =~= pairs_of(installed@).take(i - 1));
        let name = chars_of(installed[i - 1].0.as_str());
        if eq_str(name.as_slice(), key) {
            return Some(installed[i - 1].1.clone());
        }
        i = i - 1;
    }
    None
}

fn push_doc(
    out: &mut Vec<UpdateInfo>,
    dt: &str,
    label: &str,
    e: &Option<ManifestEntry>,
    installed: &Vec<(String, String)>,
)
    ensures
        updates_view(final(out)@) == updates_view(old(out)@) + doc_update(dt@, label@, entry_view(*e), pairs_of(installed@)),
{
    let ghost o = updates_view(out@);
    if let Some(x) = e {
        let inst = installed_exec(installed, dt);
        let update_available = is_newer(x.version.as_str(), match &inst { Some(s) => Some(s.as_str()), None => None });
        let u = UpdateInfo {
            doc_type: dt.to_owned(),
            label: label.to_owned(),
            installed_version: inst,
            available_version: x.version.clone(),
            url: x.url.clone(),
            update_available,
            size_bytes: None,
        };
        out.push(u);
        assert(updates_view(out@) =~= o.push(u@));
    } else {
        assert(updates_view(out@) =~= o);
    }
}

fn push_live(
    out: &mut Vec<UpdateInfo>,
    dt: &str,
    label: &str,
    r: Result<(String, String, Option<u64>), String>,
    has_data: bool,
    installed: &Vec<(String, String)>,
)
    ensures
        updates_view(final(out)@) == updates_view(old(out)@).push(live_update(dt@, label@, triple_result(r), has_data, pairs_of(installed@))),
{
    let ghost o = updates_view(out@);
    let ghost rv = triple_result(r);
    let inst = installed_exec(installed, dt);
    let u = match r {
        Ok((url, version, size)) => {
            let newer_v = is_newer(version.as_str(), match &inst { Some(s) => Some(s.as_str()), None => None });
            UpdateInfo {
                doc_type: dt.to_owned(),
                label: label.to_owned(),
                installed_version: inst,
                available_version: version,
                url,
                update_available: !has_data || newer_v,
                size_bytes: size,
            }
        },
        Err(e) => {
            let mut a = chars_of("unavailable (");
            append(&mut a, chars_of(e.as_str()).as_slice());
            append_str(&mut a, ")");
            UpdateInfo {
                doc_type: dt.to_owned(),
                label: label.to_owned(),
                installed_version: inst,
                available_version: string_from_chars(&a),
                url: String::new(),
                update_available: false,
                size_bytes: None,
            }
        },
    };
    out.push(u);
    assert(updates_view(out@) =~= o.push(u@));
}

fn no_size(r: Result<(String, String), String>) -> (s: Result<(String, String, Option<u64>), String>)
    ensures
        triple_result(s) == pair_result(r),
{
    match r {
        Ok((a, b)) => Ok((a, b, None)),
        Err(e) => Err(e),
    }
}

/// Compare the manifest and the live sources with what is installed (see
/// `update_list`). `installed` holds the (document type, version) pairs read
/// from the database; `cards` and `riftbound_cards` are (URL, version) from
/// the Judge API, `rulings` (URL, version, size) from Scryfall, each or the
/// reason it failed.
#[verifier::spinoff_prover]
#[verifier::rlimit(50)]
pub fn build_update_list(
    manifest: &Manifest,
    installed: &Vec<(String, String)>,
    has_card_data: bool,
    has_rulings_data: bool,
    has_riftbound_card_data: bool,
    cards: Result<(String, String), String>,
    riftbound_cards: Result<(String, String), String>,
    rulings: Result<(String, String, Option<u64>), String>,
) -> (r: Vec<UpdateInfo>)
    ensures
        updates_view(r@) == update_list(
            *manifest,
            pairs_of(installed@),
            has_card_data,
            has_rulings_data,
            has_riftbound_card_data,
            pair_result(cards),
            pair_result(riftbound_cards),
            triple_result(rulings),
        ),
{
    let mut out: Vec<UpdateInfo> = Vec::new();
    assert(updates_view(out@) =~= Seq::<UpdateView>::empty());
    push_doc(&mut out, "cr", "Comprehensive Rules", &manifest.cr, installed);
    push_doc(&mut out, "mtr", "Magic Tournament Rules", &manifest.mtr, installed);
    push_doc(&mut out, "ipg", "Infraction Procedure Guide", &manifest.ipg, installed);
    push_doc(&mut out, "jar", "Judging at Regular REL", &manifest.jar, installed);
    push_doc(&mut out, "riftbound_cr", "Riftbound Comprehensive Rules", &manifest.riftbound_cr, installed);
    push_doc(&mut out, "riftbound_tr", "Riftbound Tournament Rules", &manifest.riftbound_tr, installed);
    push_doc(&mut out, "riftbound_ep", "Riftbound Enforcement & Penalties", &manifest.riftbound_ep, installed);
    let ghost docs = updates_view(out@);
    push_live(&mut out, "cards", "Card Oracle Text", no_size(cards), has_card_data, installed);
    push_live(&mut out, "riftbound_cards", "Riftbound Cards", no_size(riftbound_cards), has_riftbound_card_data, installed);
    push_live(&mut out, "rulings", "Card Rulings", rulings, has_rulings_data, installed);
    assert(updates_view(out@) =~= docs + seq![
        live_update("cards"@, "Card Oracle Text"@, pair_result(cards), has_card_data, pairs_of(installed@)),
        live_update("riftbound_cards"@, "Riftbound Cards"@, pair_result(riftbound_cards), has_riftbound_card_data, pairs_of(installed@)),
        live_update("rulings"@, "Card Rulings"@, triple_result(rulings), has_rulings_data, pairs_of(installed@)),
    ]);
    out
}

/// An update whose download size is still to be asked for.
pub open spec fn wants_size(u: UpdateView) -> bool {
    u.update_available && u.size_bytes is None && u.url.len() > 0
}

/// The positions of the updates whose size is to be asked for, in order.
pub open spec fn size_requests(us: Seq<UpdateView>) -> Seq<int>
    decreases us.len(),
{
    if us.len() == 0 {
        seq![]
    } else if wants_size(us.last()) {
        size_requests(us.drop_last()).push(us.len() - 1)
    } else {
        size_requests(us.drop_last())
    }
}

pub open spec fn usizes_view(v: Seq<usize>) -> Seq<int> {
    v.map_values(|i: usize| i as int)
}

/// The positions of the updates that are available, have a URL and no size yet.
pub fn size_request_indices(updates: &Vec<UpdateInfo>) -> (r: Vec<usize>)
    ensures
        usizes_view(r@) == size_requests(updates_view(updates@)),
{
    let mut r: Vec<usize> = Vec::new();
    let mut i: usize = 0;
    while i < updates.len()
        invariant
            0 <= i <= updates@.len(),
            usizes_view(r@) == size_requests(updates_view(updates@).take(i as int)),
        decreases updates.len() - i,
    {
        let u = &updates[i];
        let ghost t = updates_view(updates@).take(i + 1);
        assert(t.drop_last() =~= updates_view(updates@).take(i as int));
        assert(t.last() == u@);
        let wants = u.update_available && match u.size_bytes { Some(_) => false, None => true }
            && !u.url.as_str().is_empty();
        if wants {
            let ghost r0 = usizes_view(r@);
            r.push(i);
            assert(usizes_view(r@) =~= r0.push(i as int));
        }
        i = i + 1;
    }
    assert(updates_view(updates@).take(updates@.len() as int) =~= updates_view(updates@));
    r
}

// ── Applying an update ─────────────────────────────────────────────────────

/// The import an update runs, chosen by its document type.
#[derive(Debug, Clone, Copy, PartialEq, Eq, Structural)]
pub enum UpdateKind {
    /// Card rulings from Scryfall's bulk data.
    Rulings,
    /// Card oracle text from the Judge API.
    Cards,
    /// Riftbound cards from the Judge API.
    RiftboundCards,
    /// A Riftbound rules document as JSON sections.
    RiftboundRules,
    /// The comprehensive rules as text.
    ComprehensiveRules,
    /// The tournament rules as a PDF.
    TournamentRules,
    /// The infraction procedure guide as a PDF.
    InfractionGuide,
    /// Judging at Regular as a PDF.
    JudgingAtRegular,
}

pub open spec fn update_kind(dt: Seq<char>) -> Option<UpdateKind> {
    if dt == "rulings"@ {
        Some(UpdateKind::Rulings)
    } else if dt == "cards"@ {
        Some(UpdateKind::Cards)
    } else if dt == "riftbound_cards"@ {
        Some(UpdateKind::RiftboundCards)
    } else if dt == "riftbound_cr"@ || dt == "riftbound_tr"@ || dt == "riftbound_ep"@ {
        Some(UpdateKind::RiftboundRules)
    } else if dt == "cr"@ {
        Some(UpdateKind::ComprehensiveRules)
    } else if dt == "mtr"@ {
        Some(UpdateKind::TournamentRules)
    } else if dt == "ipg"@ {
        Some(UpdateKind::InfractionGuide)
    } else if dt == "jar"@ {
        Some(UpdateKind::JudgingAtRegular)
    } else {
        None
    }
}

/// The import for a document type, or the error for a type nobody knows.
pub fn classify_update(doc_type: &str) -> (r: Result<UpdateKind, String>)
    ensures
        match r {
            Ok(k) => update_kind(doc_type@) == Some(k),
            Err(e) => update_kind(doc_type@) is None && e@ == "Unknown doc_type: "@ + doc_type@,
        },
{
    let d = chars_of(doc_type);
    let s = d.as_slice();
    if eq_str(s, "rulings") {
        Ok(UpdateKind::Rulings)
    } else if eq_str(s, "cards") {
        Ok(UpdateKind::Cards)
    } else if eq_str(s, "riftbound_cards") {
        Ok(UpdateKind::RiftboundCards)
    } else if eq_str(s, "riftbound_cr") || eq_str(s, "riftbound_tr") || eq_str(s, "riftbound_ep") {
        Ok(UpdateKind::RiftboundRules)
    } else if eq_str(s, "cr") {
        Ok(UpdateKind::ComprehensiveRules)
    } else if eq_str(s, "mtr") {
        Ok(UpdateKind::TournamentRules)
    } else if eq_str(s, "ipg") {
        Ok(UpdateKind::InfractionGuide)
    } else if eq_str(s, "jar") {
        Ok(UpdateKind::JudgingAtRegular)
    } else {
        let mut e = chars_of("Unknown doc_type: ");
        append(&mut e, s);
        Err(string_from_chars(&e))
    }
}

/// A rulings download that holds no ruling is an error.
pub fn check_rulings_loaded(count: usize) -> (r: Result<(), String>)
    ensures
        r is Ok <==> count > 0,
        match r {
            Err(e) => e@ == "Rulings file was empty or could not be parsed"@,
            Ok(_) => true,
        },
{
    if count == 0 {
        Err("Rulings file was empty or could not be parsed".to_owned())
    } else {
        Ok(())
    }
}

/// The outcome of a rulings import: the version, unless no ruling matched a
/// card of the database.
pub fn rulings_import_result(inserted: usize, downloaded: usize, version: String) -> (r: Result<String, String>)
    ensures
        match r {
            Ok(v) => inserted > 0 && v@ == version@,
            Err(e) => inserted == 0 && e@ == "Downloaded "@ + crate::text::decimal(downloaded as nat)
                + " rulings but none matched cards in the database. Try updating card data first."@,
        },
{
    if inserted == 0 {
        let mut e = chars_of("Downloaded ");
        append(&mut e, format_u64(downloaded as u64).as_slice());
        append_str(&mut e, " rulings but none matched cards in the database. Try updating card data first.");
        Err(string_from_chars(&e))
    } else {
        Ok(version)
    }
}

// ── Riftbound quick reference ──────────────────────────────────────────────

/// What to do next when refreshing the quick reference.
#[derive(Debug, Clone)]
pub enum QuickRefStep {
    /// This text is the answer; nothing is downloaded.
    Use(String),
    /// Download the reference from `url`; it has this `version`.
    Fetch { url: String, version: String },
}

/// The copy kept on disk counts only when it is a usable reference.
pub fn usable_cached(text: Option<String>) -> (r: Option<String>)
    ensures
        opt_view(r) == (match opt_view(text) {
            Some(t) => if quick_reference_ok(t) { Some(t) } else { None },
            None => None,
        }),
{
    match text {
        Some(t) => if valid_quick_reference(t.as_str()) { Some(t) } else { None },
        None => None,
    }
}

pub open spec fn fallback_text(cached: Option<Seq<char>>, bundled: Seq<char>) -> Seq<char> {
    match cached {
        Some(c) => c,
        None => bundled,
    }
}

pub open spec fn trimmed_opt(o: Option<Seq<char>>) -> Option<Seq<char>> {
    match o {
        Some(v) => Some(crate::text::trim(v)),
        None => None,
    }
}

/// Without a manifest entry the kept copy, else the bundled one, is used; a
/// kept copy also stays when the manifest's version is not newer than the
/// installed one (compared trimmed); otherwise the entry is downloaded.
pub open spec fn quick_ref_start(
    cached: Option<Seq<char>>,
    installed: Option<Seq<char>>,
    entry: Option<EntryView>,
    bundled: Seq<char>,
) -> (bool, Seq<char>, Seq<char>) {
    match entry {
        None => (false, fallback_text(cached, bundled), seq![]),
        Some(e) => if cached is Some && !newer(e.version, trimmed_opt(installed)) {
            (false, cached->0, seq![])
        } else {
            (true, e.url, e.version)
        },
    }
}

pub open spec fn quick_ref_step_view(s: QuickRefStep) -> (bool, Seq<char>, Seq<char>) {
    match s {
        QuickRefStep::Use(t) => (false, t@, seq![]),
        QuickRefStep::Fetch { url, version } => (true, url@, version@),
    }
}

/// The first step of a quick reference refresh (see `quick_ref_start`).
/// `cached` is the usable copy on disk, `installed` the version recorded with
/// it, `entry` the manifest's entry when the manifest could be read.
pub fn quick_reference_start(
    cached: Option<String>,
    installed: Option<String>,
    entry: Option<ManifestEntry>,
    bundled: &str,
) -> (r: QuickRefStep)
    ensures
        quick_ref_step_view(r) == quick_ref_start(opt_view(cached), opt_view(installed), entry_view(entry), bundled@),
{
    match entry {
        None => match cached {
            Some(c) => QuickRefStep::Use(c),
            None => QuickRefStep::Use(bundled.to_owned()),
        },
        Some(e) => {
            let inst: Option<Vec<char>> = match &installed {
                Some(v) => Some(trim_chars(chars_of(v.as_str()).as_slice())),
                None => None,
            };
            let inst_s: Option<String> = match &inst {
                Some(v) => Some(string_from_chars(v)),
                None => None,
            };
            let is_update = is_newer(e.version.as_str(), match &inst_s { Some(s) => Some(s.as_str()), None => None });
            match cached {
                Some(c) => if !is_update {
                    QuickRefStep::Use(c)
                } else {
                    QuickRefStep::Fetch { url: e.url, version: e.version }
                },
                None => QuickRefStep::Fetch { url: e.url, version: e.version },
            }
        },
    }
}

/// After the download: a usable download is the answer and is stored
/// (`true`); anything else falls back to the kept copy, else the bundled one.
pub fn quick_reference_after_fetch(downloaded: Option<String>, cached: Option<String>, bundled: &str) -> (r: (String, bool))
    ensures
        match opt_view(downloaded) {
            Some(d) => if quick_reference_ok(d) {
                r.0@ == d && r.1
            } else {
                r.0@ == fallback_text(opt_view(cached), bundled@) && !r.1
            },
            None => r.0@ == fallback_text(opt_view(cached), bundled@) && !r.1,
        },
{
    let fallback = match cached {
        Some(c) => c,
        None => bundled.to_owned(),
    };
    match downloaded {
        Some(d) => if valid_quick_reference(d.as_str()) { (d, true) } else { (fallback, false) },
        None => (fallback, false),
    }
}

// ── Scryfall bulk data ─────────────────────────────────────────────────────

/// One entry of Scryfall's bulk-data list.
#[derive(Debug, Clone)]
pub struct BulkEntry {
    pub bulk_type: String,
    pub download_uri: Option<String>,
    pub jsonl_download_uri: Option<String>,
    pub updated_at: String,
    pub size: Option<u64>,
    pub compressed_size: Option<u64>,
}

/// The number of bytes a character takes in UTF-8.
pub open spec fn utf8_width(c: char) -> nat {
    if (c as u32) < 0x80 {
        1
    } else if (c as u32) < 0x800 {
        2
    } else if (c as u32) < 0x10000 {
        3
    } else {
        4
    }
}

/// The characters that make up exactly the first `n` bytes, starting at
/// character `k` after `acc` bytes; none when `n` falls inside a character
/// or past the end (`str::get(..n)`).
pub open spec fn byte_prefix_from(s: Seq<char>, n: nat, k: int, acc: nat) -> Option<Seq<char>>
    decreases s.len() - k,
{
    if acc == n {
        Some(s.take(k))
    } else if acc > n || k < 0 || k >= s.len() {
        None
    } else {
        byte_prefix_from(s, n, k + 1, acc + utf8_width(s[k]))
    }
}

pub open spec fn byte_prefix(s: Seq<char>, n: nat) -> Option<Seq<char>> {
    byte_prefix_from(s, n, 0, 0)
}

pub open spec fn first_of_type(es: Seq<BulkEntry>, t: Seq<char>, i: int) -> Option<int>
    decreases es.len() - i,
{
    if i < 0 || i >= es.len() {
        None
    } else if es[i].bulk_type@ == t {
        Some(i)
    } else {
        first_of_type(es, t, i + 1)
    }
}

pub open spec fn or_opt(a: Option<String>, b: Option<String>) -> Option<String> {
    match a {
        Some(x) => Some(x),
        None => b,
    }
}

/// The download of the first entry of the wanted type: its URL (the JSON
/// lines file when there is one), its version (the first ten bytes of
/// `updated_at` without dashes) and its size (compressed when known).
pub open spec fn bulk_choice(es: Seq<BulkEntry>, t: Seq<char>) -> Result<(Seq<char>, Seq<char>, Option<u64>), Seq<char>> {
    match first_of_type(es, t, 0) {
        None => Err(t + " not found in Scryfall bulk-data response"@),
        Some(i) => {
            let e = es[i];
            match byte_prefix(e.updated_at@, 10) {
                None => Err("Unexpected updated_at format from Scryfall"@),
                Some(d) => match or_opt(e.jsonl_download_uri, e.download_uri) {
                    None => Err(t + " has no download URL"@),
                    Some(u) => Ok((u@, crate::versions::remove_char(d, '-'), match e.compressed_size {
                        Some(c) => Some(c),
                        None => e.size,
                    })),
                },
            }
        },
    }
}

fn utf8_width_exec(c: char) -> (r: usize)
    ensures
        r == utf8_width(c),
{
    let v = c as u32;
    if v < 0x80 {
        1
    } else if v < 0x800 {
        2
    } else if v < 0x10000 {
        3
    } else {
        4
    }
}

fn byte_prefix_exec(s: &[char], n: usize) -> (r: Option<Vec<char>>)
    requires
        n < 1000,
    ensures
        match r {
            Some(v) => byte_prefix(s@, n as nat) == Some(v@),
            None => byte_prefix(s@, n as nat) is None,
        },
{
    let mut k: usize = 0;
    let mut acc: usize = 0;
    while acc < n && k < s.len()
        invariant
            0 <= k <= s@.len(),
            acc <= n + 4,
            n < 1000,
            byte_prefix(s@, n as nat) == byte_prefix_from(s@, n as nat, k as int, acc as nat),
        decreases s.len() - k,
    {
        acc = acc + utf8_width_exec(s[k]);
        k = k + 1;
    }
    if acc == n {
        Some(crate::text::subvec(s, 0, k))
    } else {
        None
    }
}

fn remove_dashes_exec(s: &[char]) -> (r: Vec<char>)
    ensures
        r@ == crate::versions::remove_char(s@, '-'),
{
    let mut r: Vec<char> = Vec::new();
    let mut i: usize = 0;
    while i < s.len()
        invariant
            0 <= i <= s@.len(),
            r@ == crate::versions::remove_char(s@.take(i as int), '-'),
        decreases s.len() - i,
    {
        assert(s@.take(i + 1).drop_last() =~= s@.take(i as int));
        if s[i] != '-' {
            r.push(s[i]);
        }
        i = i + 1;
    }
    assert(s@.take(s@.len() as int) =~= s@);
    r
}

pub open spec fn triple_view(r: Result<(String, String, Option<u64>), String>) -> Result<(Seq<char>, Seq<char>, Option<u64>), Seq<char>> {
    match r {
        Ok(t) => Ok((t.0@, t.1@, t.2)),
        Err(e) => Err(e@),
    }
}

/// Pick the download of the wanted type from Scryfall's bulk-data list (see
/// `bulk_choice`).
pub fn select_bulk_entry(entries: &Vec<BulkEntry>, entry_type: &str) -> (r: Result<(String, String, Option<u64>), String>)
    ensures
        triple_view(r) == bulk_choice(entries@, entry_type@),
{
    let mut i: usize = 0;
    while i < entries.len()
        invariant
            0 <= i <= entries@.len(),
            first_of_type(entries@, entry_type@, i as int) == first_of_type(entries@, entry_type@, 0),
        decreases entries.len() - i,
    {
        let e = &entries[i];
        if eq_str(chars_of(e.bulk_type.as_str()).as_slice(), entry_type) {
            let updated = chars_of(e.updated_at.as_str());
            let d = match byte_prefix_exec(updated.as_slice(), 10) {
                Some(d) => d,
                None => return Err("Unexpected updated_at format from Scryfall".to_owned()),
            };
            let url = match &e.jsonl_download_uri {
                Some(u) => u.clone(),
                None => match &e.download_uri {
                    Some(u) => u.clone(),
                    None => {
                        let mut m = chars_of(entry_type);
                        append_str(&mut m, " has no download URL");
                        return Err(string_from_chars(&m));
                    },
                },
            };
            let size = match e.compressed_size {
                Some(c) => Some(c),
                None => e.size,
            };
            return Ok((url, string_from_chars(&remove_dashes_exec(d.as_slice())), size));
        }
        i = i + 1;
    }
    let mut m = chars_of(entry_type);
    append_str(&mut m, " not found in Scryfall bulk-data response");
    Err(string_from_chars(&m))
}

// ── Laws ──────────────────────────────────────────────────────────────────

/// A source that could not be reached never offers an update, and says why.
pub proof fn law_unreachable_source_offers_nothing(
    dt: Seq<char>,
    label: Seq<char>,
    e: Seq<char>,
    has_data: bool,
    ps: Seq<(Seq<char>, Seq<char>)>,
)
    ensures
        !live_update(dt, label, Err(e), has_data, ps).update_available,
        live_update(dt, label, Err(e), has_data, ps).available_version == "unavailable ("@ + e + ")"@,
        live_update(dt, label, Err(e), has_data, ps).installed_version == installed_of(ps, dt),
{
}

/// Card data that is not there yet is always offered once its source answers.
pub proof fn law_missing_data_offered(
    dt: Seq<char>,
    label: Seq<char>,
    t: (Seq<char>, Seq<char>, Option<int>),
    ps: Seq<(Seq<char>, Seq<char>)>,
)
    ensures
        live_update(dt, label, Ok(t), false, ps).update_available,
{
}

/// A manifest document is offered exactly when its version is newer than
/// the one installed, or nothing is installed; an installed copy of the same
/// version is never offered again.
pub proof fn law_manifest_offer_iff_newer(
    dt: Seq<char>,
    label: Seq<char>,
    e: EntryView,
    ps: Seq<(Seq<char>, Seq<char>)>,
)
    ensures
        doc_update(dt, label, Some(e), ps)[0].update_available == newer(e.version, installed_of(ps, dt)),
        installed_of(ps, dt) is None ==> doc_update(dt, label, Some(e), ps)[0].update_available,
        installed_of(ps, dt) == Some(e.version) ==> !doc_update(dt, label, Some(e), ps)[0].update_available,
{
}

/// The update list always ends with the three live sources, after exactly
/// the rules documents the manifest lists.
#[verifier::spinoff_prover]
#[verifier::rlimit(40)]
pub proof fn law_update_list_shape(
    m: Manifest,
    ps: Seq<(Seq<char>, Seq<char>)>,
    has_card_data: bool,
    has_rulings_data: bool,
    has_riftbound_card_data: bool,
    cards: Result<(Seq<char>, Seq<char>, Option<int>), Seq<char>>,
    riftbound_cards: Result<(Seq<char>, Seq<char>, Option<int>), Seq<char>>,
    rulings: Result<(Seq<char>, Seq<char>, Option<int>), Seq<char>>,
)
    ensures
        ({
            let l = update_list(m, ps, has_card_data, has_rulings_data, has_riftbound_card_data, cards, riftbound_cards, rulings);
            let n = l.len() - 3;
            &&& l.len() >= 3
            &&& l[n].doc_type == "cards"@
            &&& l[n + 1].doc_type == "riftbound_cards"@
            &&& l[n + 2].doc_type == "rulings"@
        }),
{
    let docs = doc_update("cr"@, "Comprehensive Rules"@, entry_view(m.cr), ps)
        + doc_update("mtr"@, "Magic Tournament Rules"@, entry_view(m.mtr), ps)
        + doc_update("ipg"@, "Infraction Procedure Guide"@, entry_view(m.ipg), ps)
        + doc_update("jar"@, "Judging at Regular REL"@, entry_view(m.jar), ps)
        + doc_update("riftbound_cr"@, "Riftbound Comprehensive Rules"@, entry_view(m.riftbound_cr), ps)
        + doc_update("riftbound_tr"@, "Riftbound Tournament Rules"@, entry_view(m.riftbound_tr), ps)
        + doc_update("riftbound_ep"@, "Riftbound Enforcement & Penalties"@, entry_view(m.riftbound_ep), ps);
    let tail = seq![
        live_update("cards"@, "Card Oracle Text"@, cards, has_card_data, ps),
        live_update("riftbound_cards"@, "Riftbound Cards"@, riftbound_cards, has_riftbound_card_data, ps),
        live_update("rulings"@, "Card Rulings"@, rulings, has_rulings_data, ps),
    ];
    let l = update_list(m, ps, has_card_data, has_rulings_data, has_riftbound_card_data, cards, riftbound_cards, rulings);
    assert(l == docs + tail);
    assert(l[docs.len() as int] == tail[0]);
    assert(l[docs.len() + 1int] == tail[1]);
    assert(l[docs.len() + 2int] == tail[2]);
}

/// A refresh whose download failed or is unusable keeps what the app had:
/// the kept copy when there is one, else the bundled reference.
pub proof fn law_quick_reference_never_lost(cached: Option<Seq<char>>, bundled: Seq<char>)
    ensures
        cached is Some ==> fallback_text(cached, bundled) == cached->0,
        cached is None ==> fallback_text(cached, bundled) == bundled,
{
}

} // verus!
