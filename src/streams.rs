use vstd::prelude::*;

use crate::midi::MidiMessage;
use crate::numtext::{push_short, short_text};
use crate::timeline::BEAT_DIGITS;

verus! {

/// The kind of a scheduled event.
#[derive(Debug, Clone, Copy, PartialEq, Eq, Structural)]
pub enum BaseEventType {
    Tick,
    NoteOn,
    NoteOff,
    ControlChange,
    ProgramChange,
    PitchBend,
    Aftertouch,
    PolyAftertouch,
    SysEx,
    SysCommon,
    SysRealtime,
}

/// The name of an event kind.
pub open spec fn event_type_name(k: BaseEventType) -> Seq<char> {
    match k {
        BaseEventType::Tick => "Tick"@,
        BaseEventType::NoteOn => "NoteOn"@,
        BaseEventType::NoteOff => "NoteOff"@,
        BaseEventType::ControlChange => "ControlChange"@,
        BaseEventType::ProgramChange => "ProgramChange"@,
        BaseEventType::PitchBend => "PitchBend"@,
        BaseEventType::Aftertouch => "Aftertouch"@,
        BaseEventType::PolyAftertouch => "PolyAftertouch"@,
        BaseEventType::SysEx => "SysEx"@,
        BaseEventType::SysCommon => "SysCommon"@,
        BaseEventType::SysRealtime => "SysRealtime"@,
    }
}

impl BaseEventType {
    /// The kind's name.
    pub fn name(&self) -> (r: &'static str)
        ensures
            r@ == event_type_name(*self),
    {
        match self {
            BaseEventType::Tick => "Tick",
            BaseEventType::NoteOn => "NoteOn",
            BaseEventType::NoteOff => "NoteOff",
            BaseEventType::ControlChange => "ControlChange",
            BaseEventType::ProgramChange => "ProgramChange",
            BaseEventType::PitchBend => "PitchBend",
            BaseEventType::Aftertouch => "Aftertouch",
            BaseEventType::PolyAftertouch => "PolyAftertouch",
            BaseEventType::SysEx => "SysEx",
            BaseEventType::SysCommon => "SysCommon",
            BaseEventType::SysRealtime => "SysRealtime",
        }
    }
}

/// An event scheduled on the beat range `[begin, end)`, in millionths of a beat.
#[derive(Debug, Clone)]
pub struct Event {
    pub begin: i64,
    pub end: i64,
    pub event_type: BaseEventType,
    pub event_data: Vec<u8>,
}

/// Where an event stands in its life: not yet begun, sounding, or over.
#[derive(Debug, Clone, Copy, PartialEq, Eq, Structural)]
pub enum EventStatus {
    Pending,
    Active,
    Ended,
}

/// What the sink receives when an event of kind `k` starts.
pub open spec fn start_action(k: BaseEventType) -> Seq<MidiMessage> {
    if k == BaseEventType::Tick {
        seq![MidiMessage::NoteOn(60, 120, 0)]
    } else {
        seq![]
    }
}

/// What the sink receives when an event of kind `k` ends.
pub open spec fn end_action(k: BaseEventType) -> Seq<MidiMessage> {
    if k == BaseEventType::Tick {
        seq![MidiMessage::NoteOff(60, 0)]
    } else {
        seq![]
    }
}

/// One evaluation of an event at beat `b`: its next status and the messages it fires.
/// A pending event that `b` has reached starts, and ends at once if `b` has also passed
/// its end; an active event that `b` has passed ends; an ended event stays ended.
pub open spec fn event_step(e: Event, st: EventStatus, b: int) -> (EventStatus, Seq<MidiMessage>) {
    match st {
        EventStatus::Pending => if b < e.begin {
            (EventStatus::Pending, seq![])
        } else if b < e.end {
            (EventStatus::Active, start_action(e.event_type))
        } else {
            (EventStatus::Ended, start_action(e.event_type) + end_action(e.event_type))
        },
        EventStatus::Active => if b < e.end {
            (EventStatus::Active, seq![])
        } else {
            (EventStatus::Ended, end_action(e.event_type))
        },
        EventStatus::Ended => (EventStatus::Ended, seq![]),
    }
}

/// The messages that the first `n` events fire, in pattern order, on a bar change at `b`.
pub open spec fn fired(pattern: Seq<Event>, status: Seq<EventStatus>, b: int, n: nat) -> Seq<
    MidiMessage,
>
    decreases n,
{
    if n == 0 {
        seq![]
    } else {
        fired(pattern, status, b, (n - 1) as nat) + event_step(
            pattern[n - 1],
            status[n - 1],
            b,
        ).1
    }
}

/// The statuses after every event has been evaluated at `b`.
pub open spec fn stepped(pattern: Seq<Event>, status: Seq<EventStatus>, b: int) -> Seq<
    EventStatus,
> {
    Seq::new(status.len(), |i: int| event_step(pattern[i], status[i], b).0)
}

/// The statuses of a stream's events after a tick at `beat` in bar `bar`.
pub open spec fn tick_status(s: Stream, beat: int, bar: i64) -> Seq<EventStatus> {
    if s.pattern@.len() == 0 || s.current_bar == Some(bar) {
        s.status@
    } else {
        stepped(s.pattern@, s.status@, beat)
    }
}

/// The bar that a stream has recorded after a tick in bar `bar`.
pub open spec fn tick_bar(s: Stream, bar: i64) -> Option<i64> {
    if s.pattern@.len() == 0 {
        s.current_bar
    } else {
        Some(bar)
    }
}

/// The messages that a stream fires on a tick at `beat` in bar `bar`: its events'
/// actions when the bar has changed, nothing otherwise.
pub open spec fn tick_output(s: Stream, beat: int, bar: i64) -> Seq<MidiMessage> {
    if s.pattern@.len() == 0 || s.current_bar == Some(bar) {
        seq![]
    } else {
        fired(s.pattern@, s.status@, beat, s.pattern@.len())
    }
}

impl Event {
    pub fn new(begin: i64, end: i64, event_type: BaseEventType, event_data: Vec<u8>) -> (r: Self)
        ensures
            r.begin == begin,
            r.end == end,
            r.event_type == event_type,
            r.event_data@ == event_data@,
    {
        Event { begin, end, event_type, event_data }
    }

    /// A one-line description: the beat range, each bound in its shortest decimal text,
    /// and the kind.
    pub fn describe(&self) -> (r: String)
        ensures
            r@ == "Event: "@ + short_text(self.begin as int, BEAT_DIGITS as nat) + " "@ + short_text(
                self.end as int,
                BEAT_DIGITS as nat,
            ) + " "@ + event_type_name(self.event_type),
    {
        let mut out = String::from_str("Event: ");
        push_short(&mut out, self.begin, BEAT_DIGITS);
        out.append(" ");
        push_short(&mut out, self.end, BEAT_DIGITS);
        out.append(" ");
        out.append(self.event_type.name());
        out
    }

    fn start_event(&self) -> (r: Vec<MidiMessage>)
        ensures
            r@ == start_action(self.event_type),
    {
        let mut r: Vec<MidiMessage> = Vec::new();
        if self.event_type == BaseEventType::Tick {
            r.push(MidiMessage::NoteOn(60, 120, 0));
        }
        assert(r@ =~= start_action(self.event_type));
        r
    }

    fn end_event(&self) -> (r: Vec<MidiMessage>)
        ensures
            r@ == end_action(self.event_type),
    {
        let mut r: Vec<MidiMessage> = Vec::new();
        if self.event_type == BaseEventType::Tick {
            r.push(MidiMessage::NoteOff(60, 0));
        }
        assert(r@ =~= end_action(self.event_type));
        r
    }
}

/// A named, ordered list of events, evaluated once per bar.
pub struct Stream {
    pub name: String,
    pub pattern: Vec<Event>,
    pub status: Vec<EventStatus>,
    /// the last bar whose change was processed; none before the first
    pub current_bar: Option<i64>,
}

impl Stream {
    /// Each event has exactly one status.
    pub open spec fn wf(&self) -> bool {
        self.pattern.len() == self.status.len()
    }

    pub fn new(name: String) -> (r: Self)
        ensures
            r.wf(),
            r.name@ == name@,
            r.pattern@.len() == 0,
            r.current_bar is None,
    {
        Stream { name, pattern: Vec::new(), status: Vec::new(), current_bar: None }
    }

    /// Appends an event, pending, to the end of the pattern.
    pub fn add_event(&mut self, event: Event)
        requires
            old(self).wf(),
        ensures
            final(self).wf(),
            final(self).name == old(self).name,
            final(self).current_bar == old(self).current_bar,
            final(self).pattern@ == old(self).pattern@.push(event),
            final(self).status@ == old(self).status@.push(EventStatus::Pending),
    {
        self.pattern.push(event);
        self.status.push(EventStatus::Pending);
    }

    /// On a change of bar, records the new bar and evaluates every event once at `beat`,
    /// returning what they fire; within the same bar, does nothing.
    pub fn process_events(&mut self, beat: i64, bar: i64, quantum: i64) -> (r: Vec<MidiMessage>)
        requires
            old(self).wf(),
        ensures
            final(self).wf(),
            final(self).name == old(self).name,
            final(self).pattern@ == old(self).pattern@,
            final(self).current_bar == Some(bar),
            old(self).current_bar == Some(bar) ==> final(self).status@ == old(self).status@ && r@.len()
                == 0,
            old(self).current_bar != Some(bar) ==> final(self).status@ == stepped(
                old(self).pattern@,
                old(self).status@,
                beat as int,
            ) && r@ == fired(
                old(self).pattern@,
                old(self).status@,
                beat as int,
                old(self).pattern@.len(),
            ),
    {
        let mut out: Vec<MidiMessage> = Vec::new();
        if self.current_bar == Some(bar) {
            return out;
        }
        self.current_bar = Some(bar);
        let n = self.pattern.len();
        let ghost st0 = self.status@;
        let mut i: usize = 0;
        while i < n
            invariant
                n == self.pattern.len(),
                self.wf(),
                i <= n,
                self.name == old(self).name,
                self.pattern@ == old(self).pattern@,
                self.current_bar == Some(bar),
                st0 == old(self).status@,
                forall|j: int| 0 <= j < i ==> self.status@[j] == event_step(
                    self.pattern@[j],
                    st0[j],
                    beat as int,
                ).0,
                forall|j: int| i <= j < n ==> self.status@[j] == st0[j],
                out@ == fired(self.pattern@, st0, beat as int, i as nat),
            decreases n - i,
        {
            let e = &self.pattern[i];
            let st = self.status[i];
            let next = match st {
                EventStatus::Pending => {
                    if beat < e.begin {
                        EventStatus::Pending
                    } else {
                        let mut s = e.start_event();
                        out.append(&mut s);
                        if beat < e.end {
                            EventStatus::Active
                        } else {
                            let mut f = e.end_event();
                            out.append(&mut f);
                            EventStatus::Ended
                        }
                    }
                },
                EventStatus::Active => {
                    if beat < e.end {
                        EventStatus::Active
                    } else {
                        let mut f = e.end_event();
                        out.append(&mut f);
                        EventStatus::Ended
                    }
                },
                EventStatus::Ended => EventStatus::Ended,
            };
            self.status[i] = next;
            i = i + 1;
            assert(out@ =~= fired(self.pattern@, st0, beat as int, i as nat));
        }
        assert(self.status@ =~= stepped(old(self).pattern@, st0, beat as int));
        out
    }

    /// Tells the stream where the clock stands; a stream with no events ignores it.
    pub fn notify_tick(&mut self, quantum: i64, beat: i64, bar: i64) -> (r: Vec<MidiMessage>)
        requires
            old(self).wf(),
        ensures
            final(self).wf(),
            final(self).name == old(self).name,
            final(self).pattern@ == old(self).pattern@,
            final(self).status@ == tick_status(*old(self), beat as int, bar),
            final(self).current_bar == tick_bar(*old(self), bar),
            r@ == tick_output(*old(self), beat as int, bar),
    {
        if self.pattern.len() == 0 {
            return Vec::new();
        }
        self.process_events(beat, bar, quantum)
    }
}

} // verus!
