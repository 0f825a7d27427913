use vstd::prelude::*;

use std::time::{Duration, SystemTime, SystemTimeError, UNIX_EPOCH};

use crate::midi::MidiMessage;
use crate::numtext::{dec, fixed_text, lemma_fixed_text_round_trip, parsed_fixed, push_decimal, push_fixed, push_fixed_u64};
use crate::protocol::{parses_to, ClockControlMessage, Command, ProtocolError};
use crate::report::{metro, metro_string, report_line, report_text, transport, transport_str, yes_no, yes_no_str, SessionState};
use crate::streams::{tick_bar, tick_output, tick_status, Stream};
use crate::timeline::{bar_at, bar_of, floor_mod, lemma_next_boundary_on_grid, next_boundary, next_boundary_beat, BEAT_DIGITS, TEMPO_DIGITS};

verus! {

#[verifier::external_type_specification]
#[verifier::external_body]
pub struct ExSystemTime(SystemTime);

#[verifier::external_type_specification]
#[verifier::external_body]
pub struct ExSystemTimeError(SystemTimeError);

/// Relies on SystemTime::now: a reading of the system's wall clock.
#[verifier::external_body]
fn system_now() -> SystemTime {
    SystemTime::now()
}

/// Relies on SystemTime::duration_since: the span from the Unix epoch to `t`, or an
/// error where `t` lies before it.
#[verifier::external_body]
fn since_unix_epoch(t: SystemTime) -> Result<Duration, SystemTimeError> {
    t.duration_since(UNIX_EPOCH)
}

/// Relies on Duration::ZERO: the empty span.
#[verifier::external_body]
fn zero_duration() -> Duration {
    Duration::ZERO
}

/// The current Unix time; the empty span where the wall clock reads before the epoch.
pub fn current_unix_time() -> Duration {
    match since_unix_epoch(system_now()) {
        Ok(d) => d,
        Err(_) => zero_duration(),
    }
}

/// The default quantum: four beats.
pub const DEFAULT_QUANTUM: i64 = 4000000;

/// The tempo that a new clock starts at: 120 beats per minute.
pub const DEFAULT_TEMPO: u64 = 120000000;

/// A materialised view of the clock, with the display texts of its report.
#[derive(Debug)]
pub struct ClockState {
    pub enabled: String,
    pub num_peers: u64,
    pub start_stop: String,
    pub playing: String,
    pub tempo: u64,
    pub beats: i64,
    pub phase: i64,
    pub metro: String,
}

/// What the engine asks of its surroundings after handling a command: a reply on the
/// reply channel, a line for the console, or a change to commit to the shared tempo clock.
#[derive(Debug)]
pub enum Effect {
    Reply(ClockControlMessage),
    Print(String),
    /// set the tempo (millionths of a beat per minute) at timeline time `at`
    SetTempo { tempo: u64, at: i64 },
    /// stop the transport at timeline time `at`
    Stop { at: i64 },
    /// start the transport, mapping `beat` to the bar boundary at `at_beat`
    Start { at_beat: i64, beat: i64, quantum: i64 },
    EnableStartStopSync(bool),
}

/// The buffer after capturing `c` over the buffer `pre`: the capture, with the phase
/// brought into `[0, quantum)`; while the transport was stopped and stays stopped, the
/// beat and phase are held where they were.
pub open spec fn captured(pre: SessionState, c: SessionState, quantum: int) -> SessionState {
    if !pre.playing && !c.playing {
        SessionState { beat: pre.beat, phase: pre.phase, ..c }
    } else {
        SessionState { phase: (c.phase as int % quantum) as i64, ..c }
    }
}

/// Some subscriber in `subs` is named `name`.
pub open spec fn has_subscriber(subs: Seq<Stream>, name: Seq<char>) -> bool {
    exists|i: int| 0 <= i < subs.len() && #[trigger] subs[i].name@ == name
}

/// `e` is a reply named `name` carrying the one argument `arg`.
pub open spec fn is_reply(e: Option<Effect>, name: Seq<char>, arg: Seq<char>) -> bool {
    &&& e is Some
    &&& e->Some_0 is Reply
    &&& e->Some_0->Reply_0.name@ == name
    &&& e->Some_0->Reply_0.args@.len() == 1
    &&& e->Some_0->Reply_0.args@[0]@ == arg
}

/// `post` is `pre` after taking the capture `c` into the buffer, which then reads `s`:
/// the timeline position is the capture's own, and the quantum, the running flag and the
/// snapshot are unchanged.
pub open spec fn took_capture(pre: Clock, post: Clock, c: SessionState, s: SessionState) -> bool {
    &&& post.session_state == s
    &&& post.timeline_beat == c.beat
    &&& post.timeline_phase == (c.phase as int % pre.quantum as int) as i64
    &&& post.running == pre.running
    &&& post.quantum == pre.quantum
    &&& post.snapshot == pre.snapshot
}

/// As `took_capture`, with the start-stop setting and the subscribers unchanged too.
pub open spec fn only_buffer(pre: Clock, post: Clock, c: SessionState, s: SessionState) -> bool {
    &&& took_capture(pre, post, c, s)
    &&& post.sync == pre.sync
    &&& post.subscribers@ == pre.subscribers@
}

/// `r` holds the display texts and values of the buffer `s` under `quantum`.
pub open spec fn state_of(r: ClockState, s: SessionState, quantum: int) -> bool {
    &&& r.enabled@ == yes_no(s.enabled)
    &&& r.num_peers == s.num_peers
    &&& r.start_stop@ == yes_no(s.start_stop_sync)
    &&& r.playing@ == transport(s.playing)
    &&& r.tempo == s.tempo
    &&& r.beats == s.beat
    &&& r.phase == s.phase
    &&& r.metro@ == metro(quantum, s.phase as int)
}

/// What handling `cmd` with the fresh capture `c` does: `pre` and `post` are the clock
/// before and after, `r` what it asks of its surroundings.
pub open spec fn handled(pre: Clock, cmd: Command, c: SessionState, post: Clock, r: Option<Effect>) -> bool {
    let q = pre.quantum as int;
    let s = captured(pre.session_state, c, q);
    match cmd {
        Command::Report => only_buffer(pre, post, c, s) && r is Some && r->Some_0 is Print
            && r->Some_0->Print_0@ == report_text(s, q),
        Command::GetTempo => only_buffer(pre, post, c, s) && is_reply(
            r,
            "get_tempo"@,
            fixed_text(s.tempo as int, TEMPO_DIGITS as nat),
        ),
        Command::GetPhase => only_buffer(pre, post, c, s) && is_reply(
            r,
            "get_phase"@,
            fixed_text(s.phase as int, BEAT_DIGITS as nat),
        ),
        Command::Beats => only_buffer(pre, post, c, s) && is_reply(
            r,
            "beats"@,
            fixed_text(s.beat as int, BEAT_DIGITS as nat),
        ),
        Command::Peers => only_buffer(pre, post, c, s) && is_reply(r, "peers"@, dec(s.num_peers as nat)),
        Command::Subscribers => only_buffer(pre, post, c, s) && is_reply(
            r,
            "subscribers"@,
            dec(pre.subscribers@.len()),
        ),
        Command::SetTempo(t) => only_buffer(pre, post, c, SessionState { tempo: t, ..s }) && r == Some(
            Effect::SetTempo { tempo: t, at: s.time },
        ),
        Command::Play => if s.playing {
            only_buffer(pre, post, c, SessionState { playing: false, ..s }) && r == Some(
                Effect::Stop { at: s.time },
            )
        } else {
            only_buffer(pre, post, c, SessionState { playing: true, ..s }) && r == Some(
                Effect::Start {
                    at_beat: next_boundary(c.beat as int, c.phase as int % q, q) as i64,
                    beat: 0,
                    quantum: pre.quantum,
                },
            )
        },
        Command::Sync => {
            &&& took_capture(pre, post, c, s)
            &&& post.sync == !pre.sync
            &&& post.subscribers@ == pre.subscribers@
            &&& r == Some(Effect::EnableStartStopSync(!pre.sync))
        },
        Command::AddSubscriber(name) => {
            &&& took_capture(pre, post, c, s)
            &&& post.sync == pre.sync
            &&& r is None
            &&& if has_subscriber(pre.subscribers@, name@) {
                post.subscribers@ == pre.subscribers@
            } else {
                &&& post.subscribers@.len() == pre.subscribers@.len() + 1
                &&& post.subscribers@.drop_last() == pre.subscribers@
                &&& post.subscribers@.last().name@ == name@
                &&& post.subscribers@.last().pattern@.len() == 0
                &&& post.subscribers@.last().current_bar is None
            }
        },
        Command::Unknown(name) => only_buffer(pre, post, c, s) && r is Some && r->Some_0 is Print
            && r->Some_0->Print_0@ == "Unknown command: "@ + name@,
    }
}

/// A snapshot as four labelled lines: tempo, beats, phase and metronome display.
pub open spec fn snapshot_text(s: ClockState) -> Seq<char> {
    "Tempo: "@ + fixed_text(s.tempo as int, TEMPO_DIGITS as nat) + "\nBeats: "@ + fixed_text(
        s.beats as int,
        BEAT_DIGITS as nat,
    ) + "\nPhase: "@ + fixed_text(s.phase as int, BEAT_DIGITS as nat) + "\nMetro: "@ + s.metro@
}

/// The messages that the streams `subs[0..n]` fire, in order, on a tick at `beat` in `bar`.
pub open spec fn tick_outputs(subs: Seq<Stream>, beat: int, bar: i64, n: nat) -> Seq<MidiMessage>
    decreases n,
{
    if n == 0 {
        seq![]
    } else {
        tick_outputs(subs, beat, bar, (n - 1) as nat) + tick_output(subs[n - 1], beat, bar)
    }
}

/// The clock engine: the local session buffer, where the shared timeline stood at the
/// last capture, the quantum, the running flag and the subscriber streams, all owned by
/// the engine alone.
pub struct Clock {
    pub session_state: SessionState,
    /// the shared timeline's beat at the last capture, whether or not the buffer holds it
    pub timeline_beat: i64,
    /// the shared timeline's phase at the last capture, in `[0, quantum)`
    pub timeline_phase: i64,
    pub running: bool,
    pub quantum: i64,
    pub snapshot: Option<ClockState>,
    pub sync: bool,
    pub subscribers: Vec<Stream>,
}

impl Clock {
    /// The quantum is positive, both phases lie in `[0, quantum)`, every stream is well
    /// formed, and no two streams share a name.
    pub open spec fn wf(&self) -> bool {
        &&& self.quantum > 0
        &&& 0 <= self.session_state.phase < self.quantum
        &&& 0 <= self.timeline_phase < self.quantum
        &&& forall|i: int| 0 <= i < self.subscribers@.len() ==> (#[trigger] self.subscribers@[i]).wf()
        &&& forall|i: int, j: int|
            0 <= i < j < self.subscribers@.len() ==> (#[trigger] self.subscribers@[i]).name@
                != (#[trigger] self.subscribers@[j]).name@
    }

    pub fn new() -> (r: Self)
        ensures
            r.wf(),
            r.running,
            r.sync,
            r.quantum == DEFAULT_QUANTUM,
            r.snapshot is None,
            r.subscribers@.len() == 0,
            r.session_state.tempo == DEFAULT_TEMPO,
            !r.session_state.playing,
            r.session_state.beat == 0,
            r.session_state.phase == 0,
    {
        Clock {
            session_state: SessionState {
                time: 0,
                tempo: DEFAULT_TEMPO,
                playing: false,
                beat: 0,
                phase: 0,
                enabled: false,
                num_peers: 0,
                start_stop_sync: false,
            },
            timeline_beat: 0,
            timeline_phase: 0,
            running: true,
            quantum: DEFAULT_QUANTUM,
            snapshot: None,
            sync: true,
            subscribers: Vec::new(),
        }
    }

    /// Pulls a fresh capture of the shared tempo clock into the local buffer.
    pub fn capture_app_state(&mut self, c: SessionState)
        requires
            old(self).wf(),
        ensures
            final(self).wf(),
            only_buffer(*old(self), *final(self), c, captured(old(self).session_state, c, old(self).quantum as int)),
    {
        let phase = floor_mod(c.phase, self.quantum);
        self.timeline_beat = c.beat;
        self.timeline_phase = phase;
        if !self.session_state.playing && !c.playing {
            let beat = self.session_state.beat;
            let held = self.session_state.phase;
            self.session_state = SessionState { beat, phase: held, ..c };
        } else {
            self.session_state = SessionState { phase, ..c };
        }
    }

    /// Registers a stream, unless one of the same name is registered already; says
    /// whether it did.
    pub fn add_subscriber(&mut self, stream: Stream) -> (r: bool)
        requires
            old(self).wf(),
            stream.wf(),
        ensures
            final(self).wf(),
            r == !has_subscriber(old(self).subscribers@, stream.name@),
            r ==> final(self).subscribers@ == old(self).subscribers@.push(stream),
            !r ==> final(self).subscribers@ == old(self).subscribers@,
            final(self).session_state == old(self).session_state,
            final(self).timeline_beat == old(self).timeline_beat,
            final(self).timeline_phase == old(self).timeline_phase,
            final(self).running == old(self).running,
            final(self).quantum == old(self).quantum,
            final(self).snapshot == old(self).snapshot,
            final(self).sync == old(self).sync,
    {
        let n = self.subscribers.len();
        let mut i: usize = 0;
        while i < n
            invariant
                n == self.subscribers@.len(),
                *self == *old(self),
                self.wf(),
                i <= n,
                forall|j: int| 0 <= j < i ==> self.subscribers@[j].name@ != stream.name@,
            decreases n - i,
        {
            if self.subscribers[i].name == stream.name {
                return false;
            }
            i = i + 1;
        }
        let ghost pre = self.subscribers@;
        self.subscribers.push(stream);
        assert forall|i: int| 0 <= i < self.subscribers@.len() implies (#[trigger] self.subscribers@[i]).wf() by {
            if i < pre.len() {
                assert(self.subscribers@[i] == pre[i]);
            }
        }
        assert forall|i: int, j: int|
            0 <= i < j < self.subscribers@.len() implies (#[trigger] self.subscribers@[i]).name@
                != (#[trigger] self.subscribers@[j]).name@ by {
            assert(self.subscribers@[i] == pre[i]);
            if j < pre.len() {
                assert(self.subscribers@[j] == pre[j]);
            }
        }
        true
    }

    pub fn clear_subs(&mut self)
        requires
            old(self).wf(),
        ensures
            final(self).wf(),
            final(self).subscribers@.len() == 0,
            final(self).session_state == old(self).session_state,
            final(self).quantum == old(self).quantum,
    {
        self.subscribers.clear();
    }

    pub fn is_running(&self) -> (r: bool)
        ensures
            r == self.running,
    {
        self.running
    }

    pub fn peers(&self) -> (r: u64)
        ensures
            r == self.session_state.num_peers,
    {
        self.session_state.num_peers
    }

    /// Sets the tempo in the buffer, from a capture taken just before, and asks for the
    /// change to be committed at the capture's time.
    pub fn set_tempo(&mut self, tempo: u64, c: SessionState) -> (r: Effect)
        requires
            old(self).wf(),
        ensures
            final(self).wf(),
            only_buffer(*old(self), *final(self), c, SessionState { tempo, ..captured(old(self).session_state, c, old(self).quantum as int) }),
            r == (Effect::SetTempo { tempo, at: c.time }),
    {
        self.capture_app_state(c);
        self.session_state.tempo = tempo;
        Effect::SetTempo { tempo, at: c.time }
    }

    /// Toggles the transport on the buffer: a playing clock stops now, its beat held from
    /// then on; a stopped one starts with beat zero on the shared timeline's next bar
    /// boundary.
    pub fn play(&mut self) -> (r: Effect)
        requires
            old(self).wf(),
            !old(self).session_state.playing ==> old(self).timeline_beat <= i64::MAX - old(self).quantum,
        ensures
            final(self).wf(),
            final(self).session_state == (SessionState { playing: !old(self).session_state.playing, ..old(self).session_state }),
            final(self).timeline_beat == old(self).timeline_beat,
            final(self).timeline_phase == old(self).timeline_phase,
            final(self).running == old(self).running,
            final(self).quantum == old(self).quantum,
            final(self).snapshot == old(self).snapshot,
            final(self).sync == old(self).sync,
            final(self).subscribers@ == old(self).subscribers@,
            old(self).session_state.playing ==> r == (Effect::Stop { at: old(self).session_state.time }),
            !old(self).session_state.playing ==> r == (Effect::Start {
                at_beat: next_boundary(old(self).timeline_beat as int, old(self).timeline_phase as int, old(self).quantum as int) as i64,
                beat: 0,
                quantum: old(self).quantum,
            }),
    {
        let st = self.session_state;
        if st.playing {
            self.session_state.playing = false;
            Effect::Stop { at: st.time }
        } else {
            self.session_state.playing = true;
            let at_beat = next_boundary_beat(self.timeline_beat, self.timeline_phase, self.quantum);
            Effect::Start { at_beat, beat: 0, quantum: self.quantum }
        }
    }

    /// Flips start-stop synchronisation and asks for the new setting to be applied.
    pub fn sync(&mut self) -> (r: Effect)
        requires
            old(self).wf(),
        ensures
            final(self).wf(),
            final(self).sync == !old(self).sync,
            final(self).session_state == old(self).session_state,
            final(self).timeline_beat == old(self).timeline_beat,
            final(self).timeline_phase == old(self).timeline_phase,
            final(self).running == old(self).running,
            final(self).quantum == old(self).quantum,
            final(self).snapshot == old(self).snapshot,
            final(self).subscribers@ == old(self).subscribers@,
            r == Effect::EnableStartStopSync(!old(self).sync),
    {
        self.sync = !self.sync;
        Effect::EnableStartStopSync(self.sync)
    }

    /// The status line, from a fresh capture.
    pub fn report(&mut self, c: SessionState) -> (r: String)
        requires
            old(self).wf(),
        ensures
            final(self).wf(),
            only_buffer(*old(self), *final(self), c, captured(old(self).session_state, c, old(self).quantum as int)),
            r@ == report_text(captured(old(self).session_state, c, old(self).quantum as int), old(self).quantum as int),
    {
        self.capture_app_state(c);
        report_line(&self.session_state, self.quantum)
    }

    /// Removes the subscriber named `name`; `false`, with nothing removed, where none has
    /// that name.
    pub fn remove_subscriber(&mut self, name: &String) -> (r: bool)
        requires
            old(self).wf(),
        ensures
            final(self).wf(),
            final(self).session_state == old(self).session_state,
            final(self).quantum == old(self).quantum,
            r == has_subscriber(old(self).subscribers@, name@),
            !r ==> final(self).subscribers@ == old(self).subscribers@,
            r ==> exists|i: int|
                0 <= i < old(self).subscribers@.len() && #[trigger] old(self).subscribers@[i].name@ == name@
                && final(self).subscribers@ == old(self).subscribers@.remove(i),
    {
        let n = self.subscribers.len();
        let mut i: usize = 0;
        while i < n
            invariant
                n == self.subscribers@.len(),
                *self == *old(self),
                self.wf(),
                i <= n,
                forall|j: int| 0 <= j < i ==> old(self).subscribers@[j].name@ != name@,
            decreases n - i,
        {
            if self.subscribers[i].name == *name {
                let ghost pre = self.subscribers@;
                self.subscribers.remove(i);
                assert forall|j: int| 0 <= j < self.subscribers@.len() implies (#[trigger] self.subscribers@[j]).wf() by {
                    if j < i {
                        assert(self.subscribers@[j] == pre[j]);
                    } else {
                        assert(self.subscribers@[j] == pre[j + 1]);
                    }
                }
                assert forall|a: int, b: int|
                    0 <= a < b < self.subscribers@.len() implies (#[trigger] self.subscribers@[a]).name@
                        != (#[trigger] self.subscribers@[b]).name@ by {
                    let a0 = if a < i { a } else { a + 1 };
                    let b0 = if b < i { b } else { b + 1 };
                    assert(self.subscribers@[a] == pre[a0]);
                    assert(self.subscribers@[b] == pre[b0]);
                }
                return true;
            }
            i = i + 1;
        }
        false
    }

    /// The clock's state with the display texts of its report, from a fresh capture.
    pub fn get_clock_state(&mut self, c: SessionState) -> (r: ClockState)
        requires
            old(self).wf(),
        ensures
            final(self).wf(),
            only_buffer(*old(self), *final(self), c, captured(old(self).session_state, c, old(self).quantum as int)),
            state_of(r, captured(old(self).session_state, c, old(self).quantum as int), old(self).quantum as int),
    {
        self.capture_app_state(c);
        let st = self.session_state;
        ClockState {
            enabled: String::from_str(yes_no_str(st.enabled)),
            num_peers: st.num_peers,
            start_stop: String::from_str(yes_no_str(st.start_stop_sync)),
            playing: String::from_str(transport_str(st.playing)),
            tempo: st.tempo,
            beats: st.beat,
            phase: st.phase,
            metro: metro_string(self.quantum, st.phase),
        }
    }

    /// Keeps the clock's state, from a fresh capture, as the snapshot, in place of any
    /// earlier one.
    pub fn make_snapshot(&mut self, c: SessionState)
        requires
            old(self).wf(),
        ensures
            final(self).wf(),
            final(self).session_state == captured(old(self).session_state, c, old(self).quantum as int),
            final(self).quantum == old(self).quantum,
            final(self).sync == old(self).sync,
            final(self).subscribers@ == old(self).subscribers@,
            final(self).snapshot is Some,
            state_of(final(self).snapshot->Some_0, final(self).session_state, old(self).quantum as int),
    {
        let st = self.get_clock_state(c);
        self.snapshot = Some(st);
    }

    /// The snapshot as four labelled lines, or a note that there is none.
    pub fn print_snapshot(&self) -> (r: String)
        ensures
            self.snapshot is None ==> r@ == "No snapshot available"@,
            self.snapshot is Some ==> r@ == snapshot_text(self.snapshot->Some_0),
    {
        match &self.snapshot {
            Some(s) => {
                let mut out = String::from_str("Tempo: ");
                push_fixed_u64(&mut out, s.tempo, TEMPO_DIGITS);
                out.append("\nBeats: ");
                push_fixed(&mut out, s.beats, BEAT_DIGITS);
                out.append("\nPhase: ");
                push_fixed(&mut out, s.phase, BEAT_DIGITS);
                out.append("\nMetro: ");
                out.append(s.metro.as_str());
                out
            },
            None => String::from_str("No snapshot available"),
        }
    }

    /// The beat at which the shared timeline's next bar starts, as of the last capture;
    /// a whole quantum ahead when the phase is exactly zero.
    pub fn next_phase_boundary(&self) -> (r: i64)
        requires
            self.wf(),
            self.timeline_beat <= i64::MAX - self.quantum,
        ensures
            r == next_boundary(self.timeline_beat as int, self.timeline_phase as int, self.quantum as int),
    {
        next_boundary_beat(self.timeline_beat, self.timeline_phase, self.quantum)
    }

    /// The Unix time (microseconds) at which the shared timeline reaches `boundary_time`,
    /// given that the wall clock read `unix_now` at the buffer's capture time.
    pub fn unix_time_at_next_phase_boundary(&self, boundary_time: i64, unix_now: i64) -> (r: i64)
        requires
            i64::MIN <= unix_now + (boundary_time - self.session_state.time) <= i64::MAX,
        ensures
            r == unix_now + (boundary_time - self.session_state.time),
    {
        (unix_now as i128 + (boundary_time as i128 - self.session_state.time as i128)) as i64
    }

    /// Handles one command against a capture taken just before it.
    pub fn handle_command(&mut self, cmd: Command, c: SessionState) -> (r: Option<Effect>)
        requires
            old(self).wf(),
            cmd is Play && !c.playing ==> c.beat <= i64::MAX - old(self).quantum,
        ensures
            final(self).wf(),
            handled(*old(self), cmd, c, *final(self), r),
    {
        self.capture_app_state(c);
        match cmd {
            Command::Report => {
                let line = report_line(&self.session_state, self.quantum);
                assert(line@ == report_text(captured(old(self).session_state, c, old(self).quantum as int), old(self).quantum as int));
                Some(Effect::Print(line))
            },
            Command::GetTempo => {
                let mut t = String::new();
                push_fixed_u64(&mut t, self.session_state.tempo, TEMPO_DIGITS);
                Some(reply("get_tempo", t))
            },
            Command::GetPhase => {
                let mut t = String::new();
                push_fixed(&mut t, self.session_state.phase, BEAT_DIGITS);
                Some(reply("get_phase", t))
            },
            Command::Beats => {
                let mut t = String::new();
                push_fixed(&mut t, self.session_state.beat, BEAT_DIGITS);
                Some(reply("beats", t))
            },
            Command::Peers => {
                let mut t = String::new();
                push_decimal(&mut t, self.session_state.num_peers);
                Some(reply("peers", t))
            },
            Command::Subscribers => {
                let mut t = String::new();
                push_decimal(&mut t, self.subscribers.len() as u64);
                Some(reply("subscribers", t))
            },
            Command::SetTempo(t) => {
                self.session_state.tempo = t;
                Some(Effect::SetTempo { tempo: t, at: self.session_state.time })
            },
            Command::Play => Some(self.play()),
            Command::Sync => Some(self.sync()),
            Command::AddSubscriber(name) => {
                let stream = Stream::new(name);
                if self.add_subscriber(stream) {
                    assert(self.subscribers@.drop_last() =~= old(self).subscribers@);
                }
                None
            },
            Command::Unknown(name) => {
                let mut line = String::from_str("Unknown command: ");
                line.append(name.as_str());
                Some(Effect::Print(line))
            },
        }
    }

    /// Reads a control message as a command and handles it against a capture taken just
    /// before it. A message that does not read as a command changes nothing.
    pub fn handle_messages(&mut self, recv: &ClockControlMessage, c: SessionState) -> (r: Result<
        Option<Effect>,
        ProtocolError,
    >)
        requires
            old(self).wf(),
            recv.name@ == "play"@ && !c.playing ==> c.beat <= i64::MAX - old(self).quantum,
        ensures
            final(self).wf(),
            r is Err ==> parses_to(recv.name@, recv.args@, Err(r->Err_0)) && *final(self) == *old(self),
            r is Ok ==> exists|cmd: Command|
                #![trigger handled(*old(self), cmd, c, *final(self), r->Ok_0)]
                parses_to(recv.name@, recv.args@, Ok(cmd)) && handled(*old(self), cmd, c, *final(self), r->Ok_0),
    {
        match recv.parse_command() {
            Err(e) => Err(e),
            Ok(cmd) => {
                let ghost g = cmd;
                let e = self.handle_command(cmd, c);
                let r: Result<Option<Effect>, ProtocolError> = Ok(e);
                assert(parses_to(recv.name@, recv.args@, Ok(g)) && handled(*old(self), g, c, *self, r->Ok_0));
                r
            },
        }
    }

    /// One tick of the engine: captures the shared clock, works out the bar of the
    /// buffered beat (held while the transport is stopped), and lets every stream see
    /// it; returns what the streams fire, stream by stream.
    pub fn tick(&mut self, c: SessionState) -> (r: Vec<MidiMessage>)
        requires
            old(self).wf(),
        ensures
            final(self).wf(),
            ({
                let s = captured(old(self).session_state, c, old(self).quantum as int);
                let bar = bar_at(s.beat as int, old(self).quantum as int) as i64;
                &&& took_capture(*old(self), *final(self), c, s)
                &&& 0 <= final(self).session_state.phase < final(self).quantum
                &&& final(self).sync == old(self).sync
                &&& final(self).subscribers@.len() == old(self).subscribers@.len()
                &&& forall|i: int| 0 <= i < old(self).subscribers@.len() ==> {
                    let pre = #[trigger] old(self).subscribers@[i];
                    let post = final(self).subscribers@[i];
                    &&& post.name == pre.name
                    &&& post.pattern@ == pre.pattern@
                    &&& post.status@ == tick_status(pre, s.beat as int, bar)
                    &&& post.current_bar == tick_bar(pre, bar)
                }
                &&& r@ == tick_outputs(old(self).subscribers@, s.beat as int, bar, old(self).subscribers@.len())
            }),
    {
        self.capture_app_state(c);
        let ghost s = self.session_state;
        let ghost pre_clock = *self;
        let beat = self.session_state.beat;
        let bar = bar_of(beat, self.quantum);
        let n = self.subscribers.len();
        let ghost subs0 = self.subscribers@;
        let mut out: Vec<MidiMessage> = Vec::new();
        let mut i: usize = 0;
        while i < n
            invariant
                self.wf(),
                n == self.subscribers@.len(),
                subs0.len() == n,
                subs0 == old(self).subscribers@,
                i <= n,
                s == captured(old(self).session_state, c, old(self).quantum as int),
                beat == s.beat,
                bar == bar_at(s.beat as int, old(self).quantum as int),
                took_capture(*old(self), *self, c, s),
                self.sync == old(self).sync,
                forall|j: int| i <= j < n ==> #[trigger] self.subscribers@[j] == subs0[j],
                forall|j: int| 0 <= j < n ==> (#[trigger] self.subscribers@[j]).name == subs0[j].name,
                forall|j: int| 0 <= j < i ==> {
                    let pre = #[trigger] subs0[j];
                    let post = self.subscribers@[j];
                    &&& post.name == pre.name
                    &&& post.pattern@ == pre.pattern@
                    &&& post.status@ == tick_status(pre, beat as int, bar)
                    &&& post.current_bar == tick_bar(pre, bar)
                },
                out@ == tick_outputs(subs0, beat as int, bar, i as nat),
            decreases n - i,
        {
            assert(self.subscribers@[i as int].wf());
            let ghost before = self.subscribers@;
            let mut fired = self.subscribers[i].notify_tick(self.quantum, beat, bar);
            out.append(&mut fired);
            assert forall|j: int| 0 <= j < self.subscribers@.len() implies (#[trigger] self.subscribers@[j]).wf() by {
                if j != i {
                    assert(self.subscribers@[j] == before[j]);
                }
            }
            assert forall|a: int, b: int|
                0 <= a < b < self.subscribers@.len() implies (#[trigger] self.subscribers@[a]).name@
                    != (#[trigger] self.subscribers@[b]).name@ by {
                assert(self.subscribers@[a].name == before[a].name);
                assert(self.subscribers@[b].name == before[b].name);
            }
            i = i + 1;
            assert(out@ =~= tick_outputs(subs0, beat as int, bar, i as nat));
        }
        out
    }
}

/// A reply named `name` with the one argument `arg`.
fn reply(name: &str, arg: String) -> (r: Effect)
    ensures
        r is Reply,
        r->Reply_0.name@ == name@,
        r->Reply_0.args@.len() == 1,
        r->Reply_0.args@[0]@ == arg@,
{
    Effect::Reply(ClockControlMessage { name: String::from_str(name), args: vec![arg] })
}

/// Setting the tempo to `t` holds `t` in the buffer and asks the shared clock for it at
/// the capture's time; once a later capture reads `t` back, the reply to a tempo query
/// denotes exactly `t`.
pub proof fn lemma_set_tempo_then_get_tempo(
    pre: Clock,
    t: u64,
    c1: SessionState,
    mid: Clock,
    r1: Option<Effect>,
    c2: SessionState,
    post: Clock,
    r2: Option<Effect>,
)
    requires
        pre.wf(),
        handled(pre, Command::SetTempo(t), c1, mid, r1),
        c2.tempo == t,
        handled(mid, Command::GetTempo, c2, post, r2),
    ensures
        mid.session_state.tempo == t,
        r1 == Some(Effect::SetTempo { tempo: t, at: c1.time }),
        r2 is Some && r2->Some_0 is Reply,
        r2->Some_0->Reply_0.name@ == "get_tempo"@,
        parsed_fixed(r2->Some_0->Reply_0.args@[0]@, TEMPO_DIGITS as nat) == Some(t),
{
    lemma_fixed_text_round_trip(t, TEMPO_DIGITS as nat);
}

/// Toggling the transport twice brings `playing` back to what the first capture read,
/// where the second capture reads back what the first toggle committed. The toggle that
/// starts the transport maps beat zero to the shared timeline's next bar boundary:
/// strictly ahead, at most one quantum ahead, and on a whole number of quanta where the
/// timeline's phase agrees with its beat.
pub proof fn lemma_play_twice(
    pre: Clock,
    c1: SessionState,
    mid: Clock,
    r1: Option<Effect>,
    c2: SessionState,
    post: Clock,
    r2: Option<Effect>,
)
    requires
        pre.wf(),
        !c1.playing ==> c1.beat <= i64::MAX - pre.quantum,
        !c2.playing ==> c2.beat <= i64::MAX - pre.quantum,
        handled(pre, Command::Play, c1, mid, r1),
        c2.playing == mid.session_state.playing,
        handled(mid, Command::Play, c2, post, r2),
    ensures
        mid.session_state.playing == !c1.playing,
        post.session_state.playing == c1.playing,
        post.quantum == pre.quantum,
        c1.playing ==> r1 == Some(Effect::Stop { at: c1.time }),
        !c1.playing ==> r2 == Some(Effect::Stop { at: c2.time }),
        !c1.playing ==> r1 is Some && r1->Some_0 is Start && r1->Some_0->beat == 0 && {
            let b = r1->Some_0->at_beat;
            let q = pre.quantum as int;
            &&& c1.beat < b <= c1.beat + q
            &&& (c1.phase as int) % q == (c1.beat as int) % q ==> (b as int) % q == 0
        },
        c1.playing ==> r2 is Some && r2->Some_0 is Start && r2->Some_0->beat == 0 && {
            let b = r2->Some_0->at_beat;
            let q = pre.quantum as int;
            &&& c2.beat < b <= c2.beat + q
            &&& (c2.phase as int) % q == (c2.beat as int) % q ==> (b as int) % q == 0
        },
{
    let q = pre.quantum as int;
    let p1 = c1.phase as int % q;
    let p2 = c2.phase as int % q;
    if (c1.phase as int) % q == (c1.beat as int) % q {
        lemma_next_boundary_on_grid(c1.beat as int, p1, q);
    }
    if (c2.phase as int) % q == (c2.beat as int) % q {
        lemma_next_boundary_on_grid(c2.beat as int, p2, q);
    }
}

/// While the transport stays stopped, the beat holds still: two beat queries whose
/// captures both read a stopped transport reply with the same beat, whatever the shared
/// timeline did in between.
pub proof fn lemma_beat_held_while_stopped(
    pre: Clock,
    c1: SessionState,
    mid: Clock,
    r1: Option<Effect>,
    c2: SessionState,
    post: Clock,
    r2: Option<Effect>,
)
    requires
        pre.wf(),
        !c1.playing,
        !c2.playing,
        handled(pre, Command::Beats, c1, mid, r1),
        handled(mid, Command::Beats, c2, post, r2),
    ensures
        r1 is Some && r1->Some_0 is Reply,
        r2 is Some && r2->Some_0 is Reply,
        r2->Some_0->Reply_0.args@[0]@ == r1->Some_0->Reply_0.args@[0]@,
        post.session_state.beat == mid.session_state.beat,
{
}

/// Adding a subscriber under a new name and then asking for the count replies with one
/// more than before.
pub proof fn lemma_add_subscriber_then_count(
    pre: Clock,
    name: String,
    c1: SessionState,
    mid: Clock,
    r1: Option<Effect>,
    c2: SessionState,
    post: Clock,
    r2: Option<Effect>,
)
    requires
        pre.wf(),
        !has_subscriber(pre.subscribers@, name@),
        handled(pre, Command::AddSubscriber(name), c1, mid, r1),
        handled(mid, Command::Subscribers, c2, post, r2),
    ensures
        r1 is None,
        post.subscribers@.len() == pre.subscribers@.len() + 1,
        is_reply(r2, "subscribers"@, dec(pre.subscribers@.len() + 1)),
{
}

} // verus!
