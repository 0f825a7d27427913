use eremit::device::{port_choice, retry_allowed, select_port, PortChoice, SETUP_ATTEMPTS};
use eremit::midi::MidiMessage;
use eremit::streams::{BaseEventType, Event, EventStatus, Stream};

#[test]
fn midi_messages_encode_to_wire_bytes() {
    assert_eq!(MidiMessage::NoteOn(60, 120, 0).to_bytes(), vec![0x90, 60, 120]);
    assert_eq!(MidiMessage::NoteOn(60, 120, 3).to_bytes(), vec![0x93, 60, 120]);
    assert_eq!(MidiMessage::NoteOff(60, 1).to_bytes(), vec![0x81, 60, 0]);
    assert_eq!(MidiMessage::ControlChange(7, 100, 2).to_bytes(), vec![0xB2, 7, 100]);
    assert_eq!(MidiMessage::ProgramChange(5, 0).to_bytes(), vec![0xC0, 5]);
    assert_eq!(MidiMessage::PitchBend(64, 9).to_bytes(), vec![0xE9, 64]);
    assert_eq!(MidiMessage::Aftertouch(60, 30, 0).to_bytes(), vec![0xA0, 60, 30]);
    assert_eq!(MidiMessage::MidiClock.to_bytes(), vec![0xF8]);
    assert_eq!(MidiMessage::MidiStart.to_bytes(), vec![0xFA]);
    assert_eq!(MidiMessage::MidiContinue.to_bytes(), vec![0xFB]);
    assert_eq!(MidiMessage::MidiStop.to_bytes(), vec![0xFC]);
    assert_eq!(MidiMessage::Reset.to_bytes(), vec![0xFF]);
}

fn tick_stream() -> Stream {
    let mut s = Stream::new(String::from("lead"));
    s.add_event(Event::new(0, 2000000, BaseEventType::Tick, vec![]));
    s
}

#[test]
fn an_empty_stream_ignores_ticks() {
    let mut s = Stream::new(String::from("empty"));
    assert!(s.notify_tick(4000000, 0, 0).is_empty());
    assert_eq!(s.current_bar, None);
}

#[test]
fn events_fire_once_per_bar_change() {
    let mut s = tick_stream();
    assert_eq!(s.status, vec![EventStatus::Pending]);
    // bar 0 is new to the stream: the event starts
    assert_eq!(s.notify_tick(4000000, 100, 0), vec![MidiMessage::NoteOn(60, 120, 0)]);
    assert_eq!(s.status, vec![EventStatus::Active]);
    assert_eq!(s.current_bar, Some(0));
    // same bar, later beat: nothing
    assert!(s.notify_tick(4000000, 3000000, 0).is_empty());
    assert_eq!(s.status, vec![EventStatus::Active]);
    // next bar: the event has been passed and ends
    assert_eq!(s.notify_tick(4000000, 4000000, 1), vec![MidiMessage::NoteOff(60, 0)]);
    assert_eq!(s.status, vec![EventStatus::Ended]);
    // ended events stay ended
    assert!(s.notify_tick(4000000, 8000000, 2).is_empty());
}

#[test]
fn a_passed_event_starts_and_ends_together() {
    let mut s = tick_stream();
    // a new stream has processed no bar yet, so its first tick is a change of bar
    assert_eq!(
        s.notify_tick(4000000, 4000000, 1),
        vec![MidiMessage::NoteOn(60, 120, 0), MidiMessage::NoteOff(60, 0)]
    );
    assert_eq!(s.status, vec![EventStatus::Ended]);
}

#[test]
fn pending_events_wait_and_other_kinds_send_nothing() {
    let mut s = Stream::new(String::from("mixed"));
    s.add_event(Event::new(8000000, 9000000, BaseEventType::Tick, vec![]));
    s.add_event(Event::new(0, 1000000, BaseEventType::NoteOn, vec![0x90, 64, 100]));
    assert!(s.notify_tick(4000000, 0, 0).is_empty());
    assert_eq!(s.status, vec![EventStatus::Pending, EventStatus::Active]);
    assert_eq!(s.notify_tick(4000000, 8000000, 2), vec![MidiMessage::NoteOn(60, 120, 0)]);
    assert_eq!(s.status, vec![EventStatus::Active, EventStatus::Ended]);
}

#[test]
fn process_events_only_acts_on_a_new_bar() {
    let mut s = tick_stream();
    assert_eq!(s.process_events(0, 1, 4000000), vec![MidiMessage::NoteOn(60, 120, 0)]);
    assert_eq!(s.current_bar, Some(1));
    assert!(s.process_events(3000000, 1, 4000000).is_empty());
    assert_eq!(s.status, vec![EventStatus::Active]);
}

#[test]
fn first_tick_in_bar_one_is_evaluated() {
    let mut s = Stream::new(String::from("lead"));
    s.add_event(Event::new(4000000, 6000000, BaseEventType::Tick, vec![]));
    assert_eq!(s.notify_tick(4000000, 4500000, 1), vec![MidiMessage::NoteOn(60, 120, 0)]);
    assert_eq!(s.status, vec![EventStatus::Active]);
}

#[test]
fn default_config_is_empty() {
    let c = eremit::config::EremitConfig::default();
    assert_eq!(c.version, 0);
    assert!(c.port.is_empty());
}

#[test]
fn events_describe_themselves() {
    assert_eq!(BaseEventType::Tick.name(), "Tick");
    assert_eq!(BaseEventType::SysRealtime.name(), "SysRealtime");
    let e = Event::new(0, 1500000, BaseEventType::NoteOn, vec![]);
    assert_eq!(e.describe(), "Event: 0 1.5 NoteOn");
    let t = Event::new(-250000, 4000000, BaseEventType::Tick, vec![]);
    assert_eq!(t.describe(), "Event: -0.25 4 Tick");
    let u = Event::new(1, 1234567, BaseEventType::SysEx, vec![]);
    assert_eq!(u.describe(), "Event: 0.000001 1.234567 SysEx");
}

#[test]
fn device_choice_by_port_count() {
    assert_eq!(port_choice(0), PortChoice::NoPort);
    assert_eq!(port_choice(1), PortChoice::Only);
    assert_eq!(port_choice(5), PortChoice::Ask);
    assert!(retry_allowed(SETUP_ATTEMPTS - 1));
    assert!(!retry_allowed(SETUP_ATTEMPTS));
}

#[test]
fn operator_answers_select_ports() {
    assert_eq!(select_port("1\n", 3), Some(1));
    assert_eq!(select_port("  2 \r\n", 3), Some(2));
    assert_eq!(select_port("0", 1), Some(0));
    assert_eq!(select_port("3\n", 3), None);
    assert_eq!(select_port("\n", 3), None);
    assert_eq!(select_port("1.0\n", 3), None);
    assert_eq!(select_port("one\n", 3), None);
    assert_eq!(select_port("-1\n", 3), None);
    assert_eq!(select_port("99999999999999999999999\n", 3), None);
}
