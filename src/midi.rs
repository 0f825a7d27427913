use vstd::prelude::*;

verus! {

/// The closed vocabulary of messages that the MIDI sink accepts.
#[derive(Debug, Clone, Copy, PartialEq, Eq, Structural)]
pub enum MidiMessage {
    /// note, velocity, channel
    NoteOn(u8, u8, u8),
    /// note, channel
    NoteOff(u8, u8),
    /// control, value, channel
    ControlChange(u8, u8, u8),
    /// program, channel
    ProgramChange(u8, u8),
    /// value, channel
    PitchBend(u8, u8),
    /// note, value, channel
    Aftertouch(u8, u8, u8),
    MidiClock,
    MidiStart,
    MidiContinue,
    MidiStop,
    Reset,
}

/// The bytes that go on the wire for a message: a status byte (carrying the channel for
/// channel messages), then the data bytes.
pub open spec fn midi_bytes(m: MidiMessage) -> Seq<u8> {
    match m {
        MidiMessage::NoteOn(note, velocity, channel) => seq![0x90u8 | channel, note, velocity],
        MidiMessage::NoteOff(note, channel) => seq![0x80u8 | channel, note, 0u8],
        MidiMessage::ControlChange(control, value, channel) => seq![0xB0u8 | channel, control, value],
        MidiMessage::ProgramChange(program, channel) => seq![0xC0u8 | channel, program],
        MidiMessage::PitchBend(value, channel) => seq![0xE0u8 | channel, value],
        MidiMessage::Aftertouch(note, value, channel) => seq![0xA0u8 | channel, note, value],
        MidiMessage::MidiClock => seq![0xF8u8],
        MidiMessage::MidiStart => seq![0xFAu8],
        MidiMessage::MidiContinue => seq![0xFBu8],
        MidiMessage::MidiStop => seq![0xFCu8],
        MidiMessage::Reset => seq![0xFFu8],
    }
}

impl MidiMessage {
    /// Encodes the message as the bytes that the sink writes out.
    pub fn to_bytes(&self) -> (r: Vec<u8>)
        ensures
            r@ == midi_bytes(*self),
    {
        let r = match *self {
            MidiMessage::NoteOn(note, velocity, channel) => vec![0x90u8 | channel, note, velocity],
            MidiMessage::NoteOff(note, channel) => vec![0x80u8 | channel, note, 0u8],
            MidiMessage::ControlChange(control, value, channel) => vec![0xB0u8 | channel, control, value],
            MidiMessage::ProgramChange(program, channel) => vec![0xC0u8 | channel, program],
            MidiMessage::PitchBend(value, channel) => vec![0xE0u8 | channel, value],
            MidiMessage::Aftertouch(note, value, channel) => vec![0xA0u8 | channel, note, value],
            MidiMessage::MidiClock => vec![0xF8u8],
            MidiMessage::MidiStart => vec![0xFAu8],
            MidiMessage::MidiContinue => vec![0xFBu8],
            MidiMessage::MidiStop => vec![0xFCu8],
            MidiMessage::Reset => vec![0xFFu8],
        };
        assert(r@ =~= midi_bytes(*self));
        r
    }
}

} // verus!
