use beep_evdev::{Action, Beep, Melody, Note, Recorder};
use beep_evdev::{DEFAULT_DELAY, DEFAULT_FREQ, DEFAULT_LEN, DEFAULT_REPEATS};

#[test]
fn zero_repeats_plays_nothing() {
    let mut device = Recorder::new();
    device.note(&Note::new(440, 100, 0, 50)).unwrap();
    assert!(device.log.is_empty());
    assert!(device.writes().is_empty());
}

#[test]
fn two_repeats_write_four_tone_events() {
    let mut device = Recorder::new();
    device.note(&Note::new(300, 20, 2, 5)).unwrap();
    assert_eq!(device.writes(), vec![300, 0, 300, 0]);
    assert_eq!(
        device.log,
        vec![
            Action::Tone(300),
            Action::Wait(20),
            Action::Tone(0),
            Action::Wait(5),
            Action::Tone(300),
            Action::Wait(20),
            Action::Tone(0),
        ]
    );
}

#[test]
fn tone_off_writes_zero_regardless_of_prior_state() {
    let mut device = Recorder::new();
    device.beep(0).unwrap();
    assert_eq!(device.log, vec![Action::Tone(0)]);
    device.beep(880).unwrap();
    device.beep(0).unwrap();
    assert_eq!(
        device.log,
        vec![Action::Tone(0), Action::Tone(880), Action::Tone(0)]
    );
}

#[test]
fn melody_plays_notes_in_order() {
    let mut device = Recorder::new();
    let melody = Melody::new(vec![
        Note::new(100, 10, 1, 1),
        Note::new(200, 10, 1, 1),
        Note::new(300, 10, 1, 1),
    ]);
    device.play(&melody).unwrap();
    assert_eq!(device.writes(), vec![100, 0, 200, 0, 300, 0]);
}

#[test]
fn empty_melody_plays_nothing() {
    let mut device = Recorder::new();
    device.play(&Melody::new(Vec::new())).unwrap();
    assert!(device.log.is_empty());
    assert!(device.writes().is_empty());
}

#[test]
fn melody_of_silent_notes_succeeds_and_plays_nothing() {
    let mut device = Recorder::failing_after(0);
    let melody = Melody::new(vec![Note::new(440, 100, 0, 50), Note::new(880, 100, 0, 50)]);
    // No note ever touches the device, so even a device that would fail
    // every write succeeds.
    device.play(&melody).unwrap();
    assert!(device.log.is_empty());
}

#[test]
fn failing_note_aborts_rest_of_melody() {
    let mut device = Recorder::failing_after(3);
    let melody = Melody::new(vec![
        Note::new(100, 10, 1, 1),
        Note::new(200, 10, 1, 1),
        Note::new(300, 10, 1, 1),
    ]);
    let error = device.play(&melody).unwrap_err();
    assert_eq!(error.kind(), std::io::ErrorKind::BrokenPipe);
    // The first note played whole, the second lost its tone-off event,
    // and the third never started.
    assert_eq!(device.writes(), vec![100, 0, 200]);
    assert_eq!(
        device.log,
        vec![
            Action::Tone(100),
            Action::Wait(10),
            Action::Tone(0),
            Action::Tone(200),
            Action::Wait(10),
        ]
    );
}

#[test]
fn failing_first_write_plays_nothing() {
    let mut device = Recorder::failing_after(0);
    let error = device.note(&Note::new(440, 100, 3, 10)).unwrap_err();
    assert_eq!(error.kind(), std::io::ErrorKind::BrokenPipe);
    assert!(device.log.is_empty());
}

#[test]
fn shorthand_note_uses_default_repeats_and_delay() {
    let note = Note::from((659, 120));
    assert_eq!(note, Note::new(659, 120, 1, DEFAULT_DELAY));
    assert_eq!(note, Note::new(659, 120, DEFAULT_REPEATS, 100));
}

#[test]
fn single_note_produces_two_writes_and_one_wait() {
    let mut device = Recorder::new();
    device.note(&Note::new(659, 120, 1, 100)).unwrap();
    assert_eq!(
        device.log,
        vec![Action::Tone(659), Action::Wait(120), Action::Tone(0)]
    );
    assert_eq!(device.writes(), vec![659, 0]);
}

#[test]
fn three_repeats_interleave_waits_without_trailing_delay() {
    let mut device = Recorder::new();
    device.note(&Note::new(440, 50, 3, 10)).unwrap();
    assert_eq!(device.writes(), vec![440, 0, 440, 0, 440, 0]);
    let waits: Vec<u64> = device
        .log
        .iter()
        .filter_map(|action| match action {
            Action::Wait(millis) => Some(*millis),
            Action::Tone(_) => None,
        })
        .collect();
    assert_eq!(waits, vec![50, 10, 50, 10, 50]);
}

#[test]
fn default_note_uses_the_default_constants() {
    let note = Note::default();
    assert_eq!(note.frequency(), DEFAULT_FREQ);
    assert_eq!(note.length(), DEFAULT_LEN);
    assert_eq!(note.repeats(), DEFAULT_REPEATS);
    assert_eq!(note.delay(), DEFAULT_DELAY);
    assert_eq!(note, Note::new(440, 200, 1, 100));
}

#[test]
fn default_melody_holds_one_default_note() {
    let melody = Melody::default();
    assert_eq!(melody.len(), 1);
    assert!(!melody.is_empty());
    assert_eq!(*melody.get(0), Note::default());
}

#[test]
fn melody_keeps_order_and_duplicates() {
    let notes = vec![
        Note::new(440, 100, 1, 10),
        Note::new(440, 100, 1, 10),
        Note::new(880, 50, 2, 20),
    ];
    let melody = Melody::from(notes.clone());
    assert_eq!(melody.len(), 3);
    assert_eq!(*melody.get(0), notes[0]);
    assert_eq!(*melody.get(1), notes[1]);
    assert_eq!(*melody.get(2), notes[2]);
    assert_eq!(melody, Melody::new(notes));
}

#[test]
fn note_accessors_return_the_fields() {
    let note = Note::new(523, 250, 4, 75);
    assert_eq!(note.frequency(), 523);
    assert_eq!(note.length(), 250);
    assert_eq!(note.repeats(), 4);
    assert_eq!(note.delay(), 75);
}
