use judgeapp::timer::{
    format_timer, generate_id, id_from_draws, new_timer, not_found_message, parse_timer, start_timer, stop_timer,
    TimerData, ID_CHARSET,
};

#[test]
fn timer_file_round_trip() {
    let d = TimerData { time_length: 300, running: true, time_started: -1, time_remaining_when_started: i64::MIN };
    let text = format_timer(&d);
    assert_eq!(
        text,
        "time_length=300\nrunning=true\ntime_started=-1\ntime_remaining_when_started=-9223372036854775808\n"
    );
    assert_eq!(parse_timer(&text), Some(d));
}

#[test]
fn timer_file_reading_rules() {
    assert_eq!(parse_timer("running=false\n"), None);
    assert_eq!(
        parse_timer("time_length=+5\r\nrunning=false\ntime_started=abc\nother=1"),
        Some(TimerData { time_length: 5, running: false, time_started: -1, time_remaining_when_started: -1 })
    );
    assert_eq!(parse_timer("time_length=5\nrunning=true\ntime_length=x\n"), None);
    assert_eq!(parse_timer("time_length=5\nrunning=True\n"), None);
}

#[test]
fn timer_transitions() {
    let d = new_timer(TimerData { time_length: 90, running: false, time_started: 0, time_remaining_when_started: 0 });
    assert_eq!(d.time_started, -1);
    assert_eq!(d.time_remaining_when_started, -1);
    let s = start_timer(d, 9999999, 90);
    assert!(s.running);
    assert_eq!(s.time_started, 9999999);
    let t = stop_timer(s, 42);
    assert!(!t.running);
    assert_eq!(t.time_started, -1);
    assert_eq!(t.time_remaining_when_started, 42);
    assert_eq!(t.time_length, 90);
    assert_eq!(not_found_message("zzzzzz"), "timer zzzzzz not found");
}

#[test]
fn timer_ids() {
    let id = generate_id();
    assert_eq!(id.chars().count(), 6);
    assert!(id.chars().all(|c| ID_CHARSET.contains(c)));
}

#[test]
fn ids_spell_their_draws() {
    assert_eq!(id_from_draws(&vec![0, 1, 25, 26, 35, 2]), "abz09c");
    assert_eq!(id_from_draws(&vec![7, 7, 7, 7, 7, 7]), "hhhhhh");
}
