//! Round timers: the state of one timer, the text file it is kept in, and
//! what creating, starting and stopping a timer do to it.
use vstd::prelude::*;
use rand::Rng;
use crate::text::{
    append, append_str, bool_text, chars_of, decimal, format_i64, format_u64, int_decimal,
    lemma_decimal_digits, lemma_lines_cons, lemma_parse_decimal, lemma_parse_int_decimal, lines,
    parse_bool, parse_bool_chars, parse_signed, parse_signed_chars, parse_unsigned,
    parse_unsigned_chars, split_lines, starts_with, starts_with_str, string_from_chars, subvec,
    views, is_ascii_digit, };

verus! {

/// The state of a round timer. `time_started` and
/// `time_remaining_when_started` are -1 when unset.
#[derive(Debug, Clone, Copy, PartialEq, Eq, Structural)]
pub struct TimerData {
    pub time_length: u64,
    pub running: bool,
    pub time_started: i64,
    pub time_remaining_when_started: i64,
}

// ── The timer file ─────────────────────────────────────────────────────────

/// The file text of a timer: one `key=value` line per field.
pub open spec fn timer_text(d: TimerData) -> Seq<char> {
    "time_length="@ + decimal(d.time_length as nat) + "\nrunning="@ + bool_text(d.running)
        + "\ntime_started="@ + int_decimal(d.time_started as int)
        + "\ntime_remaining_when_started="@ + int_decimal(d.time_remaining_when_started as int) + "\n"@
}

/// The fields read so far; a later line for a field overrides an earlier one.
pub struct TimerFields {
    pub time_length: Option<nat>,
    pub running: Option<bool>,
    pub time_started: int,
    pub time_remaining_when_started: int,
}

pub open spec fn or_unset(o: Option<int>) -> int {
    match o {
        Some(v) => v,
        None => -1,
    }
}

/// One line of a timer file; a line with no known key changes nothing.
pub open spec fn read_line(f: TimerFields, l: Seq<char>) -> TimerFields {
    if starts_with(l, "time_length="@) {
        TimerFields { time_length: parse_unsigned(l.skip("time_length="@.len() as int), u64::MAX as nat), ..f }
    } else if starts_with(l, "running="@) {
        TimerFields { running: parse_bool(l.skip("running="@.len() as int)), ..f }
    } else if starts_with(l, "time_started="@) {
        TimerFields { time_started: or_unset(parse_signed(l.skip("time_started="@.len() as int))), ..f }
    } else if starts_with(l, "time_remaining_when_started="@) {
        TimerFields {
            time_remaining_when_started: or_unset(parse_signed(l.skip("time_remaining_when_started="@.len() as int))),
            ..f
        }
    } else {
        f
    }
}

pub open spec fn read_lines(ls: Seq<Seq<char>>) -> TimerFields
    decreases ls.len(),
{
    if ls.len() == 0 {
        TimerFields { time_length: None, running: None, time_started: -1, time_remaining_when_started: -1 }
    } else {
        read_line(read_lines(ls.drop_last()), ls.last())
    }
}

/// A timer read back from its file: present when the length and the running
/// flag were both read.
pub open spec fn timer_from_text(s: Seq<char>) -> Option<TimerData> {
    let f = read_lines(lines(s));
    match (f.time_length, f.running) {
        (Some(l), Some(r)) => Some(TimerData {
            time_length: l as u64,
            running: r,
            time_started: f.time_started as i64,
            time_remaining_when_started: f.time_remaining_when_started as i64,
        }),
        _ => None,
    }
}

/// The text a timer is saved as.
pub fn format_timer(data: &TimerData) -> (r: String)
    ensures
        r@ == timer_text(*data),
{
    let mut v = chars_of("time_length=");
    append(&mut v, format_u64(data.time_length).as_slice());
    append_str(&mut v, "\nrunning=");
    append_str(&mut v, if data.running { "true" } else { "false" });
    append_str(&mut v, "\ntime_started=");
    append(&mut v, format_i64(data.time_started).as_slice());
    append_str(&mut v, "\ntime_remaining_when_started=");
    append(&mut v, format_i64(data.time_remaining_when_started).as_slice());
    append_str(&mut v, "\n");
    string_from_chars(&v)
}

struct FieldsExec {
    time_length: Option<u64>,
    running: Option<bool>,
    time_started: i64,
    time_remaining_when_started: i64,
}

impl View for FieldsExec {
    type V = TimerFields;

    closed spec fn view(&self) -> TimerFields {
        TimerFields {
            time_length: match self.time_length { Some(n) => Some(n as nat), None => None },
            running: self.running,
            time_started: self.time_started as int,
            time_remaining_when_started: self.time_remaining_when_started as int,
        }
    }
}

fn value_after(l: &[char], prefix: &str) -> (r: Vec<char>)
    requires
        starts_with(l@, prefix@),
    ensures
        r@ == l@.skip(prefix@.len() as int),
{
    let p = chars_of(prefix);
    subvec(l, p.len(), l.len())
}

fn signed_or_unset(v: &[char]) -> (r: i64)
    ensures
        r as int == or_unset(parse_signed(v@)),
{
    match parse_signed_chars(v) {
        Some(n) => n,
        None => -1,
    }
}

fn read_line_exec(f: FieldsExec, l: &[char]) -> (r: FieldsExec)
    ensures
        r@ == read_line(f@, l@),
{
    if starts_with_str(l, "time_length=") {
        let v = value_after(l, "time_length=");
        FieldsExec { time_length: parse_unsigned_chars(v.as_slice(), u64::MAX), ..f }
    } else if starts_with_str(l, "running=") {
        let v = value_after(l, "running=");
        FieldsExec { running: parse_bool_chars(v.as_slice()), ..f }
    } else if starts_with_str(l, "time_started=") {
        let v = value_after(l, "time_started=");
        FieldsExec { time_started: signed_or_unset(v.as_slice()), ..f }
    } else if starts_with_str(l, "time_remaining_when_started=") {
        let v = value_after(l, "time_remaining_when_started=");
        FieldsExec { time_remaining_when_started: signed_or_unset(v.as_slice()), ..f }
    } else {
        f
    }
}

/// Read a timer back from the text of its file (see `timer_from_text`).
pub fn parse_timer(contents: &str) -> (r: Option<TimerData>)
    ensures
        r == timer_from_text(contents@),
{
    let c = chars_of(contents);
    let ls = split_lines(c.as_slice());
    let mut f = FieldsExec { time_length: None, running: None, time_started: -1, time_remaining_when_started: -1 };
    let mut i: usize = 0;
    while i < ls.len()
        invariant
            0 <= i <= ls@.len(),
            views(ls@) == lines(contents@),
            f@ == read_lines(views(ls@).take(i as int)),
        decreases ls.len() - i,
    {
        assert(views(ls@).take(i + 1).drop_last() =~= views(ls@).take(i as int));
        assert(views(ls@).take(i + 1).last() == ls@[i as int]@);
        f = read_line_exec(f, ls[i].as_slice());
        i = i + 1;
    }
    assert(views(ls@).take(ls@.len() as int) =~= views(ls@));
    match (f.time_length, f.running) {
        (Some(l), Some(r)) => Some(TimerData {
            time_length: l,
            running: r,
            time_started: f.time_started,
            time_remaining_when_started: f.time_remaining_when_started,
        }),
        _ => None,
    }
}

// ── Saving then loading ────────────────────────────────────────────────────

proof fn lemma_no_newline_in_number(n: int)
    requires
        i64::MIN <= n,
    ensures
        forall|k: int| 0 <= k < int_decimal(n).len() ==> #[trigger] int_decimal(n)[k] != '\n' && int_decimal(n)[k] != '\r',
        int_decimal(n).len() > 0,
        is_ascii_digit(int_decimal(n).last()),
{
    reveal_strlit("-");
    if n < 0 {
        lemma_decimal_digits((-n) as nat);
        let d = decimal((-n) as nat);
        assert forall|k: int| 0 <= k < int_decimal(n).len() implies #[trigger] int_decimal(n)[k] != '\n' && int_decimal(n)[k] != '\r' by {
            if k > 0 {
                assert(int_decimal(n)[k] == d[k - 1]);
                assert(is_ascii_digit(d[k - 1]));
            }
        }
        assert(int_decimal(n).last() == d.last());
        assert(is_ascii_digit(d[d.len() - 1]));
    } else {
        lemma_decimal_digits(n as nat);
        let d = decimal(n as nat);
        assert forall|k: int| 0 <= k < d.len() implies #[trigger] d[k] != '\n' && d[k] != '\r' by {
            assert(is_ascii_digit(d[k]));
        }
        assert(is_ascii_digit(d[d.len() - 1]));
    }
}

/// A `key=value` line of the timer file is a line by itself.
proof fn lemma_key_line(key: Seq<char>, value: Seq<char>)
    requires
        forall|k: int| 0 <= k < key.len() ==> #[trigger] key[k] != '\n',
        forall|k: int| 0 <= k < value.len() ==> #[trigger] value[k] != '\n' && value[k] != '\r',
        value.len() > 0,
    ensures
        forall|k: int| 0 <= k < (key + value).len() ==> #[trigger] (key + value)[k] != '\n',
        (key + value).last() != '\r',
{
    assert forall|k: int| 0 <= k < (key + value).len() implies #[trigger] (key + value)[k] != '\n' by {
        if k < key.len() {
            assert((key + value)[k] == key[k]);
        } else {
            assert((key + value)[k] == value[k - key.len()]);
        }
    }
    assert((key + value).last() == value.last());
}

proof fn lemma_read_value(key: Seq<char>, value: Seq<char>)
    ensures
        (key + value).skip(key.len() as int) == value,
        starts_with(key + value, key),
{
    assert((key + value).skip(key.len() as int) =~= value);
    assert((key + value).take(key.len() as int) =~= key);
}

pub open spec fn key_lines(d: TimerData) -> Seq<Seq<char>> {
    seq![
        "time_length="@ + decimal(d.time_length as nat),
        "running="@ + bool_text(d.running),
        "time_started="@ + int_decimal(d.time_started as int),
        "time_remaining_when_started="@ + int_decimal(d.time_remaining_when_started as int),
    ]
}

#[verifier::spinoff_prover]
#[verifier::rlimit(40)]
proof fn lemma_timer_lines(d: TimerData)
    ensures
        lines(timer_text(d)) == key_lines(d),
{
    reveal_strlit("time_length=");
    reveal_strlit("\nrunning=");
    reveal_strlit("running=");
    reveal_strlit("\ntime_started=");
    reveal_strlit("time_started=");
    reveal_strlit("\ntime_remaining_when_started=");
    reveal_strlit("time_remaining_when_started=");
    reveal_strlit("\n");
    reveal_strlit("true");
    reveal_strlit("false");
    let ks = key_lines(d);
    let k1 = "time_length="@;
    let k2 = "running="@;
    let k3 = "time_started="@;
    let k4 = "time_remaining_when_started="@;
    let v1 = decimal(d.time_length as nat);
    let v2 = bool_text(d.running);
    let v3 = int_decimal(d.time_started as int);
    let v4 = int_decimal(d.time_remaining_when_started as int);
    let nl = seq!['\n'];
    let e = Seq::<char>::empty();
    assert(timer_text(d) =~= ks[0] + nl + (ks[1] + nl + (ks[2] + nl + (ks[3] + nl + e))));
    lemma_no_newline_in_number(d.time_length as int);
    assert(int_decimal(d.time_length as int) == v1);
    lemma_no_newline_in_number(d.time_started as int);
    lemma_no_newline_in_number(d.time_remaining_when_started as int);
    assert forall|k: int| 0 <= k < v2.len() implies #[trigger] v2[k] != '\n' && v2[k] != '\r' by {}
    lemma_key_line(k1, v1);
    lemma_key_line(k2, v2);
    lemma_key_line(k3, v3);
    lemma_key_line(k4, v4);
    lemma_lines_cons(ks[3], e);
    lemma_lines_cons(ks[2], ks[3] + nl + e);
    lemma_lines_cons(ks[1], ks[2] + nl + (ks[3] + nl + e));
    lemma_lines_cons(ks[0], ks[1] + nl + (ks[2] + nl + (ks[3] + nl + e)));
    assert(lines(e) =~= Seq::<Seq<char>>::empty());
    assert(lines(timer_text(d)) =~= ks);
}

#[verifier::spinoff_prover]
#[verifier::rlimit(40)]
proof fn lemma_read_key_lines(d: TimerData)
    ensures
        read_lines(key_lines(d)) == (TimerFields {
            time_length: Some(d.time_length as nat),
            running: Some(d.running),
            time_started: d.time_started as int,
            time_remaining_when_started: d.time_remaining_when_started as int,
        }),
{
    reveal_strlit("time_length=");
    reveal_strlit("running=");
    reveal_strlit("time_started=");
    reveal_strlit("time_remaining_when_started=");
    reveal_strlit("true");
    reveal_strlit("false");
    let ls = key_lines(d);
    let k1 = "time_length="@;
    let k2 = "running="@;
    let k3 = "time_started="@;
    let k4 = "time_remaining_when_started="@;
    let v1 = decimal(d.time_length as nat);
    let v2 = bool_text(d.running);
    let v3 = int_decimal(d.time_started as int);
    let v4 = int_decimal(d.time_remaining_when_started as int);
    lemma_read_value(k1, v1);
    lemma_read_value(k2, v2);
    lemma_read_value(k3, v3);
    lemma_read_value(k4, v4);
    lemma_parse_decimal(d.time_length as nat, u64::MAX as nat);
    lemma_parse_int_decimal(d.time_started as int);
    lemma_parse_int_decimal(d.time_remaining_when_started as int);
    assert(ls[1][0] != k1[0]);
    assert(ls[2][5] != k1[5]);
    assert(ls[2][0] != k2[0]);
    assert(ls[3][5] != k1[5]);
    assert(ls[3][0] != k2[0]);
    assert(ls[3][5] != k3[5]);
    assert(parse_bool(v2) == Some(d.running));
    assert(ls.drop_last().drop_last().drop_last().drop_last() =~= Seq::<Seq<char>>::empty());
    assert(ls.drop_last().drop_last().drop_last() =~= seq![ls[0]]);
    assert(ls.drop_last().drop_last() =~= seq![ls[0], ls[1]]);
    assert(ls.drop_last() =~= seq![ls[0], ls[1], ls[2]]);
    assert(starts_with(ls[0], k1));
    assert(!starts_with(ls[1], k1));
    assert(starts_with(ls[1], k2));
    assert(!starts_with(ls[2], k1));
    assert(!starts_with(ls[2], k2));
    assert(starts_with(ls[2], k3));
    assert(!starts_with(ls[3], k1));
    assert(!starts_with(ls[3], k2));
    assert(!starts_with(ls[3], k3));
    assert(starts_with(ls[3], k4));
    let f0 = read_lines(Seq::<Seq<char>>::empty());
    let f1 = read_line(f0, ls[0]);
    assert(read_lines(seq![ls[0]]) == f1);
    assert(f1.time_length == Some(d.time_length as nat));
    let f2 = read_line(f1, ls[1]);
    assert(read_lines(seq![ls[0], ls[1]]) == f2);
    assert(f2.running == Some(d.running));
    let f3 = read_line(f2, ls[2]);
    assert(read_lines(seq![ls[0], ls[1], ls[2]]) == f3);
    assert(f3.time_started == d.time_started as int);
    let f4 = read_line(f3, ls[3]);
    assert(read_lines(ls) == f4);
}

/// Saving a timer and reading the file back gives the same timer.
pub proof fn law_timer_round_trip(d: TimerData)
    ensures
        timer_from_text(timer_text(d)) == Some(d),
{
    lemma_timer_lines(d);
    lemma_read_key_lines(d);
}

// ── Creating, starting and stopping ────────────────────────────────────────

/// A new timer: a start time or remaining time given as 0 is stored as unset.
pub open spec fn created(d: TimerData) -> TimerData {
    TimerData {
        time_started: if d.time_started == 0 { -1i64 } else { d.time_started },
        time_remaining_when_started: if d.time_remaining_when_started == 0 { -1i64 } else { d.time_remaining_when_started },
        ..d
    }
}

pub fn new_timer(payload: TimerData) -> (r: TimerData)
    ensures
        r == created(payload),
{
    let mut d = payload;
    if d.time_started == 0 {
        d.time_started = -1;
    }
    if d.time_remaining_when_started == 0 {
        d.time_remaining_when_started = -1;
    }
    d
}

/// Starting a timer: it runs from the given start time with the given time left.
pub fn start_timer(data: TimerData, time_started: i64, time_remaining_when_started: i64) -> (r: TimerData)
    ensures
        r == (TimerData { running: true, time_started, time_remaining_when_started, ..data }),
{
    TimerData { running: true, time_started, time_remaining_when_started, ..data }
}

/// Stopping a timer: it keeps the time left and forgets its start time.
pub fn stop_timer(data: TimerData, time_remaining_when_started: i64) -> (r: TimerData)
    ensures
        r == (TimerData { running: false, time_started: -1i64, time_remaining_when_started, ..data }),
{
    TimerData { running: false, time_started: -1, time_remaining_when_started, ..data }
}

/// The answer for a timer id that has no file.
pub fn not_found_message(id: &str) -> (r: String)
    ensures
        r@ == "timer "@ + id@ + " not found"@,
{
    let mut v = chars_of("timer ");
    append(&mut v, chars_of(id).as_slice());
    append_str(&mut v, " not found");
    string_from_chars(&v)
}

// ── Timer ids ──────────────────────────────────────────────────────────────

/// The characters a timer id is made of.
pub const ID_CHARSET: &'static str = "abcdefghijklmnopqrstuvwxyz0123456789";

/// `rand::Rng::gen_range(0..n)` on the thread's generator.
#[verifier::external_body]
fn random_below(n: usize) -> (r: usize)
    requires
        n > 0,
    ensures
        r < n,
{
    rand::thread_rng().gen_range(0..n)
}

/// Six draws below 36, each a position in `ID_CHARSET`.
pub open spec fn valid_draws(d: Seq<usize>) -> bool {
    d.len() == 6 && forall|k: int| 0 <= k < 6 ==> #[trigger] d[k] < 36
}

/// The id the draws spell: the character of `ID_CHARSET` at each position.
pub open spec fn id_of_draws(d: Seq<usize>) -> Seq<char> {
    Seq::new(6, |k: int| ID_CHARSET@[d[k] as int])
}

/// The timer id that six draws spell (see `id_of_draws`).
pub fn id_from_draws(d: &Vec<usize>) -> (r: String)
    requires
        valid_draws(d@),
    ensures
        r@ == id_of_draws(d@),
        forall|k: int| 0 <= k < 6 ==> ID_CHARSET@.contains(#[trigger] r@[k]),
{
    let cs = chars_of(ID_CHARSET);
    proof { reveal_strlit("abcdefghijklmnopqrstuvwxyz0123456789"); }
    let mut v: Vec<char> = Vec::new();
    let mut i: usize = 0;
    while i < 6
        invariant
            0 <= i <= 6,
            valid_draws(d@),
            cs@ == ID_CHARSET@,
            cs@.len() == 36,
            v@ =~= id_of_draws(d@).take(i as int),
        decreases 6 - i,
    {
        assert(d@[i as int] < 36);
        let c = cs[d[i]];
        v.push(c);
        i = i + 1;
    }
    assert(v@ =~= id_of_draws(d@));
    assert forall|k: int| 0 <= k < 6 implies ID_CHARSET@.contains(#[trigger] v@[k]) by {
        assert(d@[k] < 36);
        assert(ID_CHARSET@[d@[k] as int] == v@[k]);
    }
    string_from_chars(&v)
}

/// A fresh timer id: six characters drawn at random from `ID_CHARSET`, as
/// `id_from_draws` spells six draws of `random_below(36)`.
pub fn generate_id() -> (r: String)
    ensures
        exists|d: Seq<usize>| valid_draws(d) && r@ == id_of_draws(d),
        r@.len() == 6,
        forall|k: int| 0 <= k < 6 ==> ID_CHARSET@.contains(#[trigger] r@[k]),
{
    let mut d: Vec<usize> = Vec::new();
    let mut i: usize = 0;
    while i < 6
        invariant
            0 <= i <= 6,
            d@.len() == i,
            forall|k: int| 0 <= k < i ==> #[trigger] d@[k] < 36,
        decreases 6 - i,
    {
        let j = random_below(36);
        d.push(j);
        i = i + 1;
    }
    let r = id_from_draws(&d);
    assert(valid_draws(d@) && r@ == id_of_draws(d@));
    r
}

} // verus!
