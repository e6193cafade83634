use oosc::synth::note::{Note, NoteEventReceiver};
use oosc::synth::oscillator::OscillatorNotes;
use oosc::utils::adsr_envelope::State;

fn note(key: u32) -> Note<f32> {
    Note {
        note: key,
        frequency: 8.175_799_f32 * 1.059_463_1_f32.powi(key as i32),
        velocity: 1.0,
        play_time: 0.0,
        hold_on: State::Sustain,
        state: State::Attack,
    }
}

#[test]
fn test_osc_notes() {
    let mut osc = OscillatorNotes::<f32>::new();
    osc.note_on(note(60)).unwrap();
    let get = osc.get_note(60);
    assert!(get.is_ok());
    let get = osc.get_note(61);
    assert!(get.is_err());
}

#[test]
fn missing_note_error_names_the_key() {
    let osc = OscillatorNotes::<f32>::new();
    assert_eq!(osc.get_note(61).err().unwrap().message(), "Note 61 not playing");
}

#[test]
fn note_on_twice_releases_the_first() {
    let mut osc = OscillatorNotes::<f32>::new();
    osc.note_on(note(60)).unwrap();
    osc.note_on(note(62)).unwrap();
    let mut again = note(60);
    again.velocity = 0.5;
    osc.note_on(again).unwrap();
    assert_eq!(osc.notes.len(), 2);
    assert_eq!(osc.notes[0].note, 62);
    assert_eq!(osc.notes[1].velocity, 0.5);
    assert_eq!(osc.release_notes.len(), 1);
    assert_eq!(osc.release_notes[0].note, 60);
    assert!(osc.release_notes[0].hold_on == State::Idle);
    assert_eq!(osc.get_note(60).unwrap(), 1);
}

#[test]
fn note_off_of_a_silent_key_changes_nothing() {
    let mut osc = OscillatorNotes::<f32>::new();
    osc.note_on(note(60)).unwrap();
    osc.note_off(64).unwrap();
    assert_eq!(osc.notes.len(), 1);
    assert!(osc.release_notes.is_empty());
    osc.note_off(60).unwrap();
    assert!(osc.notes.is_empty());
    assert_eq!(osc.release_notes.len(), 1);
    assert!(osc.get_note(60).is_err());
}

#[test]
fn release_all_moves_the_last_started_first() {
    let mut osc = OscillatorNotes::<f32>::new();
    for key in [60, 64, 67] {
        osc.note_on(note(key)).unwrap();
    }
    osc.release_all();
    assert!(osc.notes.is_empty());
    let keys: Vec<u32> = osc.release_notes.iter().map(|n| n.note).collect();
    assert_eq!(keys, vec![67, 64, 60]);
}

#[test]
fn released_notes_fade_out() {
    let mut osc = OscillatorNotes::<f32>::new();
    for key in [60, 64, 67] {
        osc.note_on(note(key)).unwrap();
    }
    osc.release_all();
    osc.release_notes[1].state = State::Idle;
    osc.remove_released_notes(&vec![true, true, false]);
    let keys: Vec<u32> = osc.release_notes.iter().map(|n| n.note).collect();
    assert_eq!(keys, vec![67]);
}

#[test]
fn remove_note_takes_it_out() {
    let mut osc = OscillatorNotes::<f32>::new();
    osc.note_on(note(60)).unwrap();
    osc.note_on(note(61)).unwrap();
    let removed = osc.remove_note(0);
    assert_eq!(removed.note, 60);
    assert_eq!(osc.get_note(61).unwrap(), 0);
}
