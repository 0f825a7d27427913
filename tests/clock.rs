use eremit::clock::{current_unix_time, Clock, Effect, DEFAULT_QUANTUM};
use eremit::protocol::{ClockControlMessage, Command, ProtocolError};
use eremit::report::{metro_string, report_line, SessionState};
use eremit::streams::{BaseEventType, Event, Stream};
use eremit::midi::MidiMessage;
use eremit::numtext::parse_fixed;

fn msg(name: &str, args: &[&str]) -> ClockControlMessage {
    ClockControlMessage { name: name.to_string(), args: args.iter().map(|a| a.to_string()).collect() }
}

fn capture(tempo: u64, playing: bool, beat: i64, phase: i64) -> SessionState {
    SessionState {
        time: 1000,
        tempo,
        playing,
        beat,
        phase,
        enabled: true,
        num_peers: 0,
        start_stop_sync: true,
    }
}

fn reply_of(e: Option<Effect>) -> (String, Vec<String>) {
    match e {
        Some(Effect::Reply(m)) => (m.name, m.args),
        other => panic!("expected a reply, got {:?}", other),
    }
}

fn print_of(e: Option<Effect>) -> String {
    match e {
        Some(Effect::Print(line)) => line,
        other => panic!("expected a line, got {:?}", other),
    }
}

#[test]
fn set_tempo_then_report_shows_two_decimals() {
    let mut clock = Clock::new();
    let e = clock.handle_messages(&msg("set_tempo", &["90.0"]), capture(120000000, false, 0, 0)).unwrap();
    assert!(matches!(e, Some(Effect::SetTempo { tempo: 90000000, at: 1000 })));
    // the shared clock reads the committed tempo back on the next capture
    let line = print_of(clock.handle_messages(&msg("report", &[]), capture(90000000, false, 0, 0)).unwrap());
    let fields: Vec<&str> = line.split(" | ").collect();
    assert_eq!(fields[4].trim_end(), "90.00");
    assert_eq!(line, "yes     | 0         | 4       | yes   [stopped] | 90.00   | 0.00     | XOOO");
}

#[test]
fn add_subscriber_then_count_replies_one() {
    let mut clock = Clock::new();
    let e = clock.handle_messages(&msg("add_subscriber", &["lead"]), capture(120000000, false, 0, 0)).unwrap();
    assert!(e.is_none());
    let (name, args) = reply_of(clock.handle_messages(&msg("subscribers", &[]), capture(120000000, false, 0, 0)).unwrap());
    assert_eq!(name, "subscribers");
    assert_eq!(args, vec!["1".to_string()]);
    assert_eq!(clock.subscribers[0].name, "lead");
}

#[test]
fn play_from_stopped_snaps_to_next_boundary() {
    let mut clock = Clock::new();
    let e = clock.handle_messages(&msg("play", &[]), capture(120000000, false, 0, 0)).unwrap();
    assert!(clock.session_state.playing);
    match e {
        Some(Effect::Start { at_beat, beat, quantum }) => {
            assert_eq!(at_beat, 4000000);
            assert_eq!(beat, 0);
            assert_eq!(quantum, DEFAULT_QUANTUM);
        }
        other => panic!("expected a start, got {:?}", other),
    }
}

#[test]
fn play_from_a_fractional_beat_waits_for_the_bar() {
    let mut clock = Clock::new();
    let e = clock.handle_messages(&msg("play", &[]), capture(120000000, false, 5250000, 1250000)).unwrap();
    assert!(matches!(e, Some(Effect::Start { at_beat: 8000000, beat: 0, .. })));
}

#[test]
fn play_twice_returns_to_stopped() {
    let mut clock = Clock::new();
    let first = clock.handle_messages(&msg("play", &[]), capture(120000000, false, 0, 0)).unwrap();
    assert!(matches!(first, Some(Effect::Start { .. })));
    assert!(clock.session_state.playing);
    let second = clock.handle_messages(&msg("play", &[]), capture(120000000, true, 4000000, 0)).unwrap();
    assert!(matches!(second, Some(Effect::Stop { at: 1000 })));
    assert!(!clock.session_state.playing);
}

#[test]
fn set_tempo_then_tick_then_get_tempo() {
    let mut clock = Clock::new();
    clock.handle_messages(&msg("set_tempo", &["133.5"]), capture(120000000, false, 0, 0)).unwrap();
    assert_eq!(clock.session_state.tempo, 133500000);
    clock.tick(capture(133500000, false, 10000, 10000));
    let (name, args) = reply_of(clock.handle_messages(&msg("get_tempo", &[]), capture(133500000, false, 20000, 20000)).unwrap());
    assert_eq!(name, "get_tempo");
    assert_eq!(args, vec!["133.500000".to_string()]);
    assert_eq!(parse_fixed(&args[0], 6), Some(133500000));
}

#[test]
fn queries_reply_with_numbers_as_text() {
    let mut clock = Clock::new();
    let c = SessionState { num_peers: 3, ..capture(120000000, true, 6500000, 2500000) };
    let (n, a) = reply_of(clock.handle_messages(&msg("beats", &[]), c).unwrap());
    assert_eq!((n.as_str(), a[0].as_str()), ("beats", "6.500000"));
    let (n, a) = reply_of(clock.handle_messages(&msg("get_phase", &[]), c).unwrap());
    assert_eq!((n.as_str(), a[0].as_str()), ("get_phase", "2.500000"));
    let (n, a) = reply_of(clock.handle_messages(&msg("peers", &[]), c).unwrap());
    assert_eq!((n.as_str(), a[0].as_str()), ("peers", "3"));
    assert_eq!(clock.peers(), 3);
}

#[test]
fn sync_toggles_start_stop_sync() {
    let mut clock = Clock::new();
    assert!(clock.sync);
    let e = clock.handle_messages(&msg("sync", &[]), capture(120000000, false, 0, 0)).unwrap();
    assert!(matches!(e, Some(Effect::EnableStartStopSync(false))));
    let e = clock.handle_messages(&msg("sync", &[]), capture(120000000, false, 0, 0)).unwrap();
    assert!(matches!(e, Some(Effect::EnableStartStopSync(true))));
}

#[test]
fn unknown_commands_are_logged() {
    let mut clock = Clock::new();
    let line = print_of(clock.handle_messages(&msg("test", &[]), capture(120000000, false, 0, 0)).unwrap());
    assert_eq!(line, "Unknown command: test");
}

#[test]
fn malformed_commands_are_refused() {
    let mut clock = Clock::new();
    let c = capture(120000000, false, 0, 0);
    assert_eq!(clock.handle_messages(&msg("set_tempo", &[]), c).unwrap_err(), ProtocolError::MissingArgument);
    assert_eq!(clock.handle_messages(&msg("set_tempo", &["fast"]), c).unwrap_err(), ProtocolError::MalformedTempo);
    assert_eq!(clock.handle_messages(&msg("set_tempo", &["0"]), c).unwrap_err(), ProtocolError::MalformedTempo);
    assert_eq!(clock.handle_messages(&msg("add_subscriber", &[]), c).unwrap_err(), ProtocolError::MissingArgument);
    assert_eq!(clock.session_state.tempo, 120000000);
    assert!(clock.subscribers.is_empty());
}

#[test]
fn commands_parse_into_variants() {
    assert!(matches!(msg("report", &[]).parse_command(), Ok(Command::Report)));
    assert!(matches!(msg("set_tempo", &["90"]).parse_command(), Ok(Command::SetTempo(90000000))));
    match msg("add_subscriber", &["bass"]).parse_command() {
        Ok(Command::AddSubscriber(n)) => assert_eq!(n, "bass"),
        other => panic!("unexpected {:?}", other),
    }
}

#[test]
fn ticks_keep_the_phase_inside_the_quantum() {
    let mut clock = Clock::new();
    for raw in [0i64, 3999999, 4000000, 4000001, -1, -4000000, 12345678] {
        clock.tick(capture(120000000, true, 0, raw));
        assert!(0 <= clock.session_state.phase && clock.session_state.phase < clock.quantum);
    }
    clock.tick(capture(120000000, true, 0, 4000000));
    assert_eq!(clock.session_state.phase, 0);
    clock.tick(capture(120000000, true, 0, -1));
    assert_eq!(clock.session_state.phase, 3999999);
}

#[test]
fn ticks_dispatch_to_streams_by_bar() {
    let mut clock = Clock::new();
    let mut s = Stream::new(String::from("lead"));
    s.add_event(Event::new(0, 1000000, BaseEventType::Tick, vec![]));
    clock.add_subscriber(s);
    clock.add_subscriber(Stream::new(String::from("quiet")));
    assert_eq!(clock.tick(capture(120000000, true, 0, 0)), vec![MidiMessage::NoteOn(60, 120, 0)]);
    assert!(clock.tick(capture(120000000, true, 2000000, 2000000)).is_empty());
    assert_eq!(clock.tick(capture(120000000, true, 4000000, 0)), vec![MidiMessage::NoteOff(60, 0)]);
    assert_eq!(clock.subscribers[0].current_bar, Some(1));
}

#[test]
fn metro_marks_beats_up_to_the_phase() {
    assert_eq!(metro_string(4000000, 0), "XOOO");
    assert_eq!(metro_string(4000000, 999999), "XOOO");
    assert_eq!(metro_string(4000000, 1000000), "XXOO");
    assert_eq!(metro_string(4000000, 3999999), "XXXX");
    assert_eq!(metro_string(4500000, 4200000), "XXXX");
    assert_eq!(metro_string(500000, 0), "");
}

#[test]
fn report_line_fields() {
    let c = SessionState {
        time: 0,
        tempo: 120000000,
        playing: true,
        beat: 5254999,
        phase: 1254999,
        enabled: false,
        num_peers: 12,
        start_stop_sync: false,
    };
    assert_eq!(report_line(&c, 4000000), "no      | 12        | 4       | no    [playing] | 120.00  | 5.25     | XXOO");
}

#[test]
fn subscribers_can_be_removed_by_name() {
    let mut clock = Clock::new();
    clock.add_subscriber(Stream::new(String::from("a")));
    clock.add_subscriber(Stream::new(String::from("b")));
    assert!(clock.remove_subscriber(&String::from("a")));
    assert_eq!(clock.subscribers.len(), 1);
    assert_eq!(clock.subscribers[0].name, "b");
    assert!(!clock.remove_subscriber(&String::from("zz")));
    clock.clear_subs();
    assert!(clock.subscribers.is_empty());
}

#[test]
fn snapshots_hold_the_captured_state() {
    let mut clock = Clock::new();
    assert_eq!(clock.print_snapshot(), "No snapshot available");
    clock.make_snapshot(capture(90000000, true, 1500000, 1500000));
    let s = clock.snapshot.as_ref().unwrap();
    assert_eq!(s.enabled, "yes");
    assert_eq!(s.playing, "[playing]");
    assert_eq!(s.metro, "XXOO");
    assert_eq!(clock.print_snapshot(), "Tempo: 90.000000\nBeats: 1.500000\nPhase: 1.500000\nMetro: XXOO");
    let st = clock.get_clock_state(capture(90000000, false, 0, 0));
    assert_eq!(st.start_stop, "yes");
    assert_eq!(st.playing, "[stopped]");
}

#[test]
fn next_phase_boundary_in_unix_time() {
    let mut clock = Clock::new();
    clock.capture_app_state(capture(120000000, true, 1000000, 1000000));
    assert_eq!(clock.next_phase_boundary(), 4000000);
    // the boundary is 1.5 s ahead on the timeline
    assert_eq!(clock.unix_time_at_next_phase_boundary(1501000, 1700000000000000), 1700000001500000);
}

#[test]
fn unix_time_is_after_the_year_2020() {
    assert!(current_unix_time().as_secs() > 1577836800);
    assert!(Clock::new().is_running());
}

#[test]
fn set_tempo_keeps_six_decimals() {
    let mut clock = Clock::new();
    let e = clock.handle_messages(&msg("set_tempo", &["90.005"]), capture(120000000, false, 0, 0)).unwrap();
    assert!(matches!(e, Some(Effect::SetTempo { tempo: 90005000, .. })));
    let e = clock.handle_messages(&msg("set_tempo", &["0.000001"]), capture(120000000, false, 0, 0)).unwrap();
    assert!(matches!(e, Some(Effect::SetTempo { tempo: 1, .. })));
    let line = print_of(clock.handle_messages(&msg("report", &[]), capture(90005000, false, 0, 0)).unwrap());
    assert_eq!(line.split(" | ").nth(4).unwrap().trim_end(), "90.01");
}

#[test]
fn beat_holds_while_stopped() {
    let mut clock = Clock::new();
    // stopped from the start: the beat stays where it was, whatever the timeline says
    let (_, a) = reply_of(clock.handle_messages(&msg("beats", &[]), capture(120000000, false, 7000000, 3000000)).unwrap());
    assert_eq!(a[0], "0.000000");
    clock.tick(capture(120000000, false, 9000000, 1000000));
    assert_eq!(clock.session_state.beat, 0);
    assert_eq!(clock.timeline_beat, 9000000);
    // playing: the beat follows the timeline
    clock.tick(capture(120000000, true, 9500000, 1500000));
    assert_eq!(clock.session_state.beat, 9500000);
    // stop, then the timeline runs on: the beat stays at the stop
    let e = clock.handle_messages(&msg("play", &[]), capture(120000000, true, 10000000, 2000000)).unwrap();
    assert!(matches!(e, Some(Effect::Stop { .. })));
    let (_, b1) = reply_of(clock.handle_messages(&msg("beats", &[]), capture(120000000, false, 12000000, 0)).unwrap());
    let (_, b2) = reply_of(clock.handle_messages(&msg("beats", &[]), capture(120000000, false, 15000000, 3000000)).unwrap());
    assert_eq!(b1[0], "10.000000");
    assert_eq!(b2[0], "10.000000");
}

#[test]
fn play_starts_from_the_timeline_not_the_held_beat() {
    let mut clock = Clock::new();
    let e = clock.handle_messages(&msg("play", &[]), capture(120000000, false, 13500000, 1500000)).unwrap();
    assert!(matches!(e, Some(Effect::Start { at_beat: 16000000, beat: 0, .. })));
}

#[test]
fn duplicate_subscriber_names_are_ignored() {
    let mut clock = Clock::new();
    let c = capture(120000000, false, 0, 0);
    clock.handle_messages(&msg("add_subscriber", &["lead"]), c).unwrap();
    clock.handle_messages(&msg("add_subscriber", &["lead"]), c).unwrap();
    let (_, a) = reply_of(clock.handle_messages(&msg("subscribers", &[]), c).unwrap());
    assert_eq!(a, vec!["1".to_string()]);
    assert!(!clock.add_subscriber(Stream::new(String::from("lead"))));
    assert!(clock.add_subscriber(Stream::new(String::from("bass"))));
    assert_eq!(clock.subscribers.len(), 2);
}
