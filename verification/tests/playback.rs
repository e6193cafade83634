use oosc::midi::playback::{pass_is_schedulable, schedule_events};

#[test]
fn first_pass_plays_tick_zero_and_due_events() {
    // Track 0 is the conductor track and is not played.
    let tracks = vec![vec![0, 5], vec![0, 10, 10], vec![5]];
    let pass = schedule_events(&tracks, 0, 15);
    assert_eq!(pass.events, vec![(1, 0), (1, 1)]);
    assert_eq!(pass.midi_ticks, 10);
    let pass = schedule_events(&tracks, pass.midi_ticks, 30);
    // Ticks run on across tracks: the event of track 2 falls at tick 25.
    assert_eq!(pass.events, vec![(1, 2), (2, 0)]);
    assert_eq!(pass.midi_ticks, 25);
}

#[test]
fn nothing_due_keeps_the_position() {
    let tracks = vec![vec![], vec![20]];
    let pass = schedule_events(&tracks, 5, 10);
    assert!(pass.events.is_empty());
    assert_eq!(pass.midi_ticks, 5);
}

#[test]
fn tick_zero_is_recorded_as_one() {
    let tracks = vec![vec![], vec![0, 0, 7]];
    let pass = schedule_events(&tracks, 0, 3);
    assert_eq!(pass.events, vec![(1, 0), (1, 1)]);
    assert_eq!(pass.midi_ticks, 1);
    let pass = schedule_events(&tracks, pass.midi_ticks, 3);
    assert!(pass.events.is_empty());
}

#[test]
fn no_played_track() {
    let pass = schedule_events(&vec![vec![0, 1]], 0, 100);
    assert!(pass.events.is_empty());
    assert_eq!(pass.midi_ticks, 1);
    let pass = schedule_events(&vec![], 4, 100);
    assert_eq!(pass.midi_ticks, 4);
}

#[test]
fn consecutive_passes_play_every_event_once() {
    let tracks = vec![vec![3], vec![0, 2, 2, 0, 5], vec![1, 4]];
    let mut midi_ticks = 0;
    let mut played = Vec::new();
    for time_ticks in [1, 4, 4, 9, 20] {
        let pass = schedule_events(&tracks, midi_ticks, time_ticks);
        played.extend(pass.events);
        assert!(pass.midi_ticks >= midi_ticks);
        midi_ticks = pass.midi_ticks;
    }
    assert_eq!(played, vec![(1, 0), (1, 1), (1, 2), (1, 3), (1, 4), (2, 0), (2, 1)]);
}

#[test]
fn an_event_at_tick_one_after_an_empty_first_pass_is_missed() {
    let tracks = vec![vec![], vec![1]];
    let pass = schedule_events(&tracks, 0, 0);
    assert!(pass.events.is_empty());
    assert_eq!(pass.midi_ticks, 1);
    let pass = schedule_events(&tracks, pass.midi_ticks, 5);
    assert!(pass.events.is_empty());
}

#[test]
fn schedulable_passes() {
    let tracks = vec![vec![0, 5], vec![0, 10, 10], vec![5]];
    assert!(pass_is_schedulable(&tracks, 0, 15));
    assert!(pass_is_schedulable(&tracks, 15, 15));
    // The recorded position may not lie ahead of the clock.
    assert!(!pass_is_schedulable(&tracks, 16, 15));
}

#[test]
fn schedulable_refuses_a_tick_past_the_counter() {
    let tracks = vec![vec![], vec![u32::MAX, 1]];
    // The second event falls past `u32::MAX` while the first is due.
    assert!(!pass_is_schedulable(&tracks, 0, u32::MAX));
    // Before the first event is due the scan stops there.
    assert!(pass_is_schedulable(&tracks, 0, u32::MAX - 1));
}
