use beep_evdev::{Action, Beep, Melody, Note, Recorder};

const EXAMPLE_FREQUENCIES: [u16; 35] = [
    659, 622, 659, 622, 659, 94, 587, 523, 440, 262, 330, 440, 494, 330, 415, 494, 523, 330,
    659, 622, 659, 622, 659, 494, 587, 523, 440, 262, 330, 440, 494, 330, 523, 494, 440,
];

#[test]
fn documented_example_melody_writes_every_note_in_order() {
    let notes: Vec<Note> = EXAMPLE_FREQUENCIES
        .iter()
        .map(|&frequency| Note::from((frequency, 120)))
        .collect();
    let melody = Melody::new(notes);

    let mut device = Recorder::new();
    device.play(&melody).unwrap();

    // Two writes per note: tone on at the documented frequency, tone off.
    let mut expected_writes: Vec<u16> = Vec::new();
    for &frequency in EXAMPLE_FREQUENCIES.iter() {
        expected_writes.push(frequency);
        expected_writes.push(0);
    }
    assert_eq!(expected_writes.len(), 2 * EXAMPLE_FREQUENCIES.len());
    assert_eq!(device.writes(), expected_writes);

    // Every note has one repeat, so no delay wait is ever performed:
    // every wait is a 120 ms length wait, one per note.
    let waits: Vec<u64> = device
        .log
        .iter()
        .filter_map(|action| match action {
            Action::Wait(millis) => Some(*millis),
            Action::Tone(_) => None,
        })
        .collect();
    assert_eq!(waits, vec![120; EXAMPLE_FREQUENCIES.len()]);
}
