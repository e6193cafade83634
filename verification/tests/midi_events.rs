use oosc::midi::mediator::note_action;
use oosc::midi::mediator::NoteAction;
use oosc::midi::playback::ticks_per_beat;
use oosc::midi::playback::SmfTiming;
use oosc::midi::smf_extensions::MidiMessage;
use oosc::midi::smf_extensions::OwnedMetaMessage;
use oosc::midi::smf_extensions::OwnedTrackEvent;
use oosc::midi::smf_extensions::OwnedTrackEventKind;

fn channel_message(bytes: &[u8]) -> (u8, MidiMessage) {
    let event = OwnedTrackEvent::from_live_bytes(bytes).ok().unwrap();
    assert_eq!(event.delta, 0);
    match event.kind {
        OwnedTrackEventKind::Midi { channel, message } => (channel, message),
        _ => panic!("expected a channel message"),
    }
}

#[test]
fn test_live_note_on() {
    let (channel, message) = channel_message(&[0x93, 60, 100]);
    assert_eq!(channel, 3);
    assert_eq!(message, MidiMessage::NoteOn { key: 60, vel: 100 });
}

#[test]
fn test_live_note_off() {
    let (channel, message) = channel_message(&[0x8F, 61, 0]);
    assert_eq!(channel, 15);
    assert_eq!(message, MidiMessage::NoteOff { key: 61, vel: 0 });
}

#[test]
fn test_live_other_messages() {
    assert_eq!(channel_message(&[0xA0, 1, 2]).1, MidiMessage::Aftertouch { key: 1, vel: 2 });
    assert_eq!(
        channel_message(&[0xB1, 7, 127]).1,
        MidiMessage::Controller { controller: 7, value: 127 }
    );
    assert_eq!(channel_message(&[0xC5, 7]), (5, MidiMessage::ProgramChange { program: 7 }));
    assert_eq!(channel_message(&[0xD2, 9]).1, MidiMessage::ChannelAftertouch { vel: 9 });
    assert_eq!(channel_message(&[0xE0, 0x01, 0x02]).1, MidiMessage::PitchBend { bend: 257 });
}

#[test]
fn test_live_trailing_bytes_ignored() {
    assert_eq!(channel_message(&[0x90, 1, 2, 3, 4]), (0, MidiMessage::NoteOn { key: 1, vel: 2 }));
}

#[test]
fn test_live_rejected() {
    assert!(OwnedTrackEvent::from_live_bytes(&[]).is_err());
    assert!(OwnedTrackEvent::from_live_bytes(&[0x90, 60]).is_err());
    assert!(OwnedTrackEvent::from_live_bytes(&[0x90, 0x80, 1]).is_err());
    assert!(OwnedTrackEvent::from_live_bytes(&[0xF8]).is_err());
    assert!(OwnedTrackEvent::from_live_bytes(&[60, 100]).is_err());
    let e = OwnedTrackEvent::from_live_bytes(&[0xF0, 1, 0xF7]).err().unwrap();
    assert_eq!(e.message(), "Only MIDI channel messages are supported");
}

#[test]
fn test_note_actions() {
    let on = OwnedTrackEvent::from_live_bytes(&[0x90, 64, 90]).ok().unwrap();
    assert_eq!(note_action(&on), NoteAction::On { key: 64, velocity: 90 });
    let off = OwnedTrackEvent::from_live_bytes(&[0x80, 64, 90]).ok().unwrap();
    assert_eq!(note_action(&off), NoteAction::Off { key: 64 });
    let bend = OwnedTrackEvent::from_live_bytes(&[0xE0, 0, 64]).ok().unwrap();
    assert_eq!(note_action(&bend), NoteAction::Ignore);
    let meta = OwnedTrackEvent {
        delta: 10,
        kind: OwnedTrackEventKind::Meta(OwnedMetaMessage::EndOfTrack),
    };
    assert_eq!(note_action(&meta), NoteAction::Ignore);
    let sysex = OwnedTrackEvent { delta: 0, kind: OwnedTrackEventKind::SysEx(vec![1, 2]) };
    assert_eq!(note_action(&sysex), NoteAction::Ignore);
}

#[test]
fn test_ticks_per_beat() {
    assert_eq!(ticks_per_beat(SmfTiming::Metrical(480)), 480);
    assert_eq!(ticks_per_beat(SmfTiming::Timecode(25, 40)), 192);
}
