use crate::error::Error;
use midly::live::LiveEvent;
use midly::MidiMessage as RawMessage;
use vstd::prelude::*;

verus! {

/// A channel message, with its data bytes as plain integers.
#[derive(Clone, Copy, Debug, PartialEq, Eq, Structural)]
pub enum MidiMessage {
    /// Stop playing a note.
    NoteOff { key: u8, vel: u8 },
    /// Start playing a note.
    NoteOn { key: u8, vel: u8 },
    /// Change the pressure of a held note.
    Aftertouch { key: u8, vel: u8 },
    /// Change a controller value.
    Controller { controller: u8, value: u8 },
    /// Change the program of the channel.
    ProgramChange { program: u8 },
    /// Change the pressure of the whole channel.
    ChannelAftertouch { vel: u8 },
    /// Set the pitch bend, a 14-bit value.
    PitchBend { bend: u16 },
}

/// A SMPTE time stamp.
#[derive(Clone, Copy, Debug, PartialEq, Eq, Structural)]
pub struct SmpteTime {
    pub hour: u8,
    pub minute: u8,
    pub second: u8,
    pub frame: u8,
    pub subframe: u8,
    /// Frames per second (24, 25, 29 for 29.97 or 30).
    pub fps: u8,
}

/// A meta message of a standard MIDI file, owning its data.
#[derive(Clone, Debug)]
pub enum OwnedMetaMessage {
    TrackNumber(Option<u16>),
    Text(Vec<u8>),
    Copyright(Vec<u8>),
    TrackName(Vec<u8>),
    InstrumentName(Vec<u8>),
    Lyric(Vec<u8>),
    Marker(Vec<u8>),
    CuePoint(Vec<u8>),
    ProgramName(Vec<u8>),
    DeviceName(Vec<u8>),
    MidiChannel(u8),
    MidiPort(u8),
    EndOfTrack,
    Tempo(u32),
    SmpteOffset(SmpteTime),
    TimeSignature(u8, u8, u8, u8),
    KeySignature(i8, bool),
    SequencerSpecific(Vec<u8>),
    Unknown(u8, Vec<u8>),
}

/// What a track event does, owning its data.
#[derive(Clone, Debug)]
pub enum OwnedTrackEventKind {
    /// A channel message on channel `channel` (0 to 15).
    Midi { channel: u8, message: MidiMessage },
    SysEx(Vec<u8>),
    Escape(Vec<u8>),
    Meta(OwnedMetaMessage),
}

/// A track event: what happens, and how many ticks after the previous event.
#[derive(Clone, Debug)]
pub struct OwnedTrackEvent {
    pub delta: u32,
    pub kind: OwnedTrackEventKind,
}

/// The number of data bytes that follow a channel status byte.
pub open spec fn midi_data_len(status: u8) -> int {
    let kind = status / 16;
    if kind == 12 || kind == 13 {
        1
    } else {
        2
    }
}

/// The message a channel status byte and its data bytes encode
/// (`d1` is 0 for one-byte messages).
pub open spec fn message_from_parts(status: u8, d0: u8, d1: u8) -> MidiMessage {
    let kind = status / 16;
    if kind == 8 {
        MidiMessage::NoteOff { key: d0, vel: d1 }
    } else if kind == 9 {
        MidiMessage::NoteOn { key: d0, vel: d1 }
    } else if kind == 10 {
        MidiMessage::Aftertouch { key: d0, vel: d1 }
    } else if kind == 11 {
        MidiMessage::Controller { controller: d0, value: d1 }
    } else if kind == 12 {
        MidiMessage::ProgramChange { program: d0 }
    } else if kind == 13 {
        MidiMessage::ChannelAftertouch { vel: d0 }
    } else {
        MidiMessage::PitchBend { bend: (d1 * 128 + d0) as u16 }
    }
}

/// Whether data byte `i` follows the status byte of `bytes` and is a data byte
/// (below 0x80).
pub open spec fn is_data_byte(bytes: Seq<u8>, i: int) -> bool {
    1 + i < bytes.len() && bytes[1 + i] < 0x80
}

/// The channel and message of a live MIDI message, or `None` when `bytes` do
/// not start with a complete channel message (status 0x80 to 0xEF followed by
/// its data bytes). Bytes after the message are ignored.
pub open spec fn live_channel_message(bytes: Seq<u8>) -> Option<(u8, MidiMessage)> {
    if bytes.len() >= 1 && 0x80 <= bytes[0] <= 0xEF && is_data_byte(bytes, 0) && (midi_data_len(
        bytes[0],
    ) == 1 || is_data_byte(bytes, 1)) {
        let d1: u8 = if midi_data_len(bytes[0]) == 2 {
            bytes[2]
        } else {
            0
        };
        Some(((bytes[0] % 16) as u8, message_from_parts(bytes[0], bytes[1], d1)))
    } else {
        None
    }
}

/// Parses a live MIDI message with `midly::live::LiveEvent::parse` and keeps it
/// when it is a channel message. Claims what midly's source shows: a channel
/// status byte (0x80 to 0xEF) followed by as many data bytes as the message
/// takes is parsed into that message on channel `status & 0x0F`; anything else
/// (system messages, missing or invalid data bytes, no bytes) gives `None`.
#[verifier::external_body]
fn parse_channel_message(bytes: &[u8]) -> (r: Option<(u8, MidiMessage)>)
    ensures
        r == live_channel_message(bytes@),
{
    match LiveEvent::parse(bytes) {
        Ok(LiveEvent::Midi { channel, message }) => Some((channel.as_int(), midi_message_of(message))),
        Ok(LiveEvent::Common(_)) => None,
        Ok(LiveEvent::Realtime(_)) => None,
        Err(_) => None,
    }
}

/// The outside type `midly::MidiMessage`, seen as opaque.
#[verifier::external_type_specification]
#[verifier::external_body]
pub struct ExRawMessage(RawMessage);

/// Turns a `midly::MidiMessage` into the library's message, field for field.
/// It is used by `parse_channel_message`, whose contract covers it; it is
/// a function of its own only to keep each trusted body short.
#[verifier::external_body]
fn midi_message_of(m: RawMessage) -> MidiMessage {
    match m {
        RawMessage::NoteOff { key, vel } => MidiMessage::NoteOff { key: key.into(), vel: vel.into() },
        RawMessage::NoteOn { key, vel } => MidiMessage::NoteOn { key: key.into(), vel: vel.into() },
        RawMessage::Aftertouch { key, vel } => MidiMessage::Aftertouch { key: key.into(), vel: vel.into() },
        RawMessage::Controller { controller, value } => MidiMessage::Controller { controller: controller.into(), value: value.into() },
        RawMessage::ProgramChange { program } => MidiMessage::ProgramChange { program: program.into() },
        RawMessage::ChannelAftertouch { vel } => MidiMessage::ChannelAftertouch { vel: vel.into() },
        RawMessage::PitchBend { bend } => MidiMessage::PitchBend { bend: bend.0.into() },
    }
}

/// The message of the error for live bytes that are not a channel message.
pub open spec fn unsupported_live_message() -> Seq<char> {
    "Only MIDI channel messages are supported"@
}

impl OwnedTrackEvent {
    /// The event a live MIDI message stands for, played at once (delta 0).
    /// Only channel messages are taken; any other input is an error.
    pub fn from_live_bytes(bytes: &[u8]) -> (r: Result<OwnedTrackEvent, Error>)
        ensures
            match live_channel_message(bytes@) {
                Some((channel, message)) => r matches Ok(e) && e.delta == 0 && e.kind
                    == OwnedTrackEventKind::Midi { channel, message },
                None => r matches Err(Error::Generic(e)) && e@ == unsupported_live_message(),
            },
    {
        match parse_channel_message(bytes) {
            Some((channel, message)) => Ok(
                OwnedTrackEvent { delta: 0, kind: OwnedTrackEventKind::Midi { channel, message } },
            ),
            None => {
                let e = Error::from("Only MIDI channel messages are supported");
                proof {
                    reveal_strlit("Only MIDI channel messages are supported");
                }
                Err(e)
            },
        }
    }
}

} // verus!
