use clap_validator::notes::{supported_types, Note, NoteEventType, NoteTracker, PlannedEvent};

#[test]
fn supported_types_concatenate_the_dialects() {
    assert_eq!(supported_types(false, false, false), vec![]);
    assert_eq!(
        supported_types(true, false, true),
        vec![
            NoteEventType::ClapNoteOn,
            NoteEventType::ClapNoteOff,
            NoteEventType::ClapNoteChoke,
            NoteEventType::ClapNoteExpression,
            NoteEventType::ParamValue,
            NoteEventType::ParamModulation,
        ]
    );
    let midi = supported_types(false, true, false);
    assert_eq!(midi.len(), 7);
    assert_eq!(midi[0], NoteEventType::MidiNoteOn);
    assert_eq!(midi[6], NoteEventType::MidiProgramChange);
    assert_eq!(supported_types(true, true, true).len(), 13);
}

fn note(key: i16, channel: i16, note_id: i32) -> Note {
    Note { key, channel, note_id, choked: false }
}

#[test]
fn note_tracker_starts_ends_and_chokes_notes() {
    let mut t = NoteTracker::new(2);
    assert_eq!(t.ports(), 2);
    assert_eq!(t.start_note(1, 60, 0), Some(note(60, 0, 0)));
    assert_eq!(t.start_note(1, 62, 3), Some(note(62, 3, 1)));
    assert_eq!(t.start_note(0, 60, 0), Some(note(60, 0, 2)));
    assert_eq!(t.playing(1), 2);
    assert_eq!(t.choke_note(1, 1), Some(Note { choked: true, ..note(62, 3, 1) }));
    assert_eq!(t.choke_note(1, 1), None);
    assert_eq!(t.end_note(1, 0), note(60, 0, 0));
    assert_eq!(t.playing_note(1, 0), Note { choked: true, ..note(62, 3, 1) });
    assert_eq!(
        t.stop_all_voices(),
        vec![(0, note(60, 0, 2)), (1, Note { choked: true, ..note(62, 3, 1) })]
    );
    assert_eq!(t.playing(0), 0);
    assert_eq!(t.playing(1), 0);
    assert_eq!(t.start_note(0, 1, 1), Some(note(1, 1, 3)));
    t.reset();
    assert_eq!(t.playing(0), 0);
    assert_eq!(t.start_note(0, 1, 1), Some(note(1, 1, 0)));
}

#[test]
fn plan_event_keeps_consistent_streams_consistent() {
    let mut t = NoteTracker::new(1);
    let drawn = note(64, 2, 77);
    assert_eq!(t.plan_event(0, NoteEventType::ClapNoteOff, true, drawn, 0, false), None);
    assert_eq!(t.plan_event(0, NoteEventType::ClapNoteExpression, true, drawn, 0, false), None);
    assert_eq!(
        t.plan_event(0, NoteEventType::MidiCc, true, drawn, 0, false),
        Some(PlannedEvent::Channel { kind: NoteEventType::MidiCc })
    );
    assert_eq!(t.plan_event(0, NoteEventType::ParamValue, true, drawn, 0, false), None);
    assert_eq!(
        t.plan_event(0, NoteEventType::MidiNoteOn, true, drawn, 0, false),
        Some(PlannedEvent::ForNote { kind: NoteEventType::MidiNoteOn, note: note(64, 2, 0) })
    );
    assert_eq!(
        t.plan_event(0, NoteEventType::ParamModulation, true, drawn, 0, true),
        Some(PlannedEvent::ForNote { kind: NoteEventType::ParamModulation, note: note(64, 2, 0) })
    );
    assert_eq!(
        t.plan_event(0, NoteEventType::ClapNoteChoke, true, drawn, 0, false),
        Some(PlannedEvent::ForNote { kind: NoteEventType::ClapNoteChoke, note: Note { choked: true, ..note(64, 2, 0) } })
    );
    assert_eq!(t.plan_event(0, NoteEventType::ClapNoteChoke, true, drawn, 0, false), None);
    assert_eq!(
        t.plan_event(0, NoteEventType::ClapNoteOff, true, drawn, 0, false),
        Some(PlannedEvent::ForNote { kind: NoteEventType::ClapNoteOff, note: Note { choked: true, ..note(64, 2, 0) } })
    );
    assert_eq!(t.playing(0), 0);
    assert_eq!(
        t.plan_event(0, NoteEventType::ClapNoteOff, false, drawn, 0, false),
        Some(PlannedEvent::ForNote { kind: NoteEventType::ClapNoteOff, note: drawn })
    );
    assert_eq!(t.playing(0), 0);
}
