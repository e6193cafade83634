use crate::midi::smf_extensions::MidiMessage;
use crate::midi::smf_extensions::OwnedTrackEvent;
use crate::midi::smf_extensions::OwnedTrackEventKind;
use crate::midi::smf_extensions::live_channel_message;
use vstd::prelude::*;

verus! {

/// What a synthesizer does on a MIDI event.
#[derive(Clone, Copy, Debug, PartialEq, Eq, Structural)]
pub enum NoteAction {
    /// Start the note `key` with the given velocity.
    On { key: u32, velocity: u32 },
    /// Release the note `key`.
    Off { key: u32 },
    /// Nothing to do.
    Ignore,
}

/// The action a channel message asks for.
pub open spec fn message_action(message: MidiMessage) -> NoteAction {
    match message {
        MidiMessage::NoteOn { key, vel } => NoteAction::On { key: key as u32, velocity: vel as u32 },
        MidiMessage::NoteOff { key, .. } => NoteAction::Off { key: key as u32 },
        _ => NoteAction::Ignore,
    }
}

/// The action an event asks for: note-on and note-off messages start and
/// release notes, whatever their channel; everything else is ignored.
pub open spec fn event_action(kind: OwnedTrackEventKind) -> NoteAction {
    match kind {
        OwnedTrackEventKind::Midi { message, .. } => message_action(message),
        _ => NoteAction::Ignore,
    }
}

/// Decides what the synthesizer does on `event`.
pub fn note_action(event: &OwnedTrackEvent) -> (r: NoteAction)
    ensures
        r == event_action(event.kind),
        event.kind matches OwnedTrackEventKind::Midi { message: MidiMessage::NoteOn { key, vel }, .. }
            ==> r == (NoteAction::On { key: key as u32, velocity: vel as u32 }),
        event.kind matches OwnedTrackEventKind::Midi { message: MidiMessage::NoteOff { key, .. }, .. }
            ==> r == (NoteAction::Off { key: key as u32 }),
        !(event.kind matches OwnedTrackEventKind::Midi { message: MidiMessage::NoteOn { .. }, .. })
            && !(event.kind matches OwnedTrackEventKind::Midi {
            message: MidiMessage::NoteOff { .. },
            ..
        }) ==> r == NoteAction::Ignore,
{
    match &event.kind {
        OwnedTrackEventKind::Midi { message, .. } => match message {
            MidiMessage::NoteOn { key, vel } => NoteAction::On { key: *key as u32, velocity: *vel as u32 },
            MidiMessage::NoteOff { key, .. } => NoteAction::Off { key: *key as u32 },
            _ => NoteAction::Ignore,
        },
        OwnedTrackEventKind::SysEx(_) => NoteAction::Ignore,
        OwnedTrackEventKind::Escape(_) => NoteAction::Ignore,
        OwnedTrackEventKind::Meta(_) => NoteAction::Ignore,
    }
}

/// The channel of a message plays no part in what it asks for: the same
/// message asks for the same action on every channel, and note-on and note-off
/// messages start and release their key on each of them.
pub proof fn lemma_action_ignores_channel(channel: u8, other: u8, message: MidiMessage)
    ensures
        event_action(OwnedTrackEventKind::Midi { channel, message }) == event_action(
            OwnedTrackEventKind::Midi { channel: other, message },
        ),
        message matches MidiMessage::NoteOn { key, vel } ==> event_action(
            OwnedTrackEventKind::Midi { channel, message },
        ) == (NoteAction::On { key: key as u32, velocity: vel as u32 }),
        message matches MidiMessage::NoteOff { key, .. } ==> event_action(
            OwnedTrackEventKind::Midi { channel, message },
        ) == (NoteAction::Off { key: key as u32 }),
{
}

/// A live note-on message (status 0x90 to 0x9F, then key and velocity below
/// 0x80) starts its key with its velocity, and a live note-off message
/// (status 0x80 to 0x8F) releases its key, on every channel.
pub proof fn lemma_live_note_messages(bytes: Seq<u8>)
    requires
        bytes.len() >= 3,
        0x80 <= bytes[0] <= 0x9F,
        bytes[1] < 0x80,
        bytes[2] < 0x80,
    ensures
        match live_channel_message(bytes) {
            Some((channel, message)) => {
                &&& channel == bytes[0] % 16
                &&& bytes[0] >= 0x90 ==> message_action(message) == (NoteAction::On {
                    key: bytes[1] as u32,
                    velocity: bytes[2] as u32,
                })
                &&& bytes[0] < 0x90 ==> message_action(message) == (NoteAction::Off {
                    key: bytes[1] as u32,
                })
            },
            None => false,
        },
{
}

} // verus!
