use wavetable_designer::voice::{table_neighbours, MonoVoice, VoiceAction, VoiceEvent};

#[test]
fn new_and_reset_voice_hold_note_zero() {
    let mut voice = MonoVoice::new();
    assert_eq!(voice.note, 0);
    voice.handle(VoiceEvent::NoteOn { note: 64, audible: true });
    voice.reset();
    assert_eq!(voice.note, 0);
}

#[test]
fn last_note_wins() {
    let mut voice = MonoVoice::new();
    assert_eq!(voice.handle(VoiceEvent::NoteOn { note: 60, audible: true }), VoiceAction::Start(60));
    assert_eq!(voice.handle(VoiceEvent::NoteOn { note: 67, audible: true }), VoiceAction::Start(67));
    assert_eq!(voice.note, 67);
    // releasing the earlier note does nothing
    assert_eq!(voice.handle(VoiceEvent::NoteOff { note: 60 }), VoiceAction::Ignore);
    assert_eq!(voice.handle(VoiceEvent::NoteOff { note: 67 }), VoiceAction::Release);
    assert_eq!(voice.note, 67);
}

#[test]
fn silent_note_on_releases_only_the_sounding_note() {
    let mut voice = MonoVoice::new();
    voice.handle(VoiceEvent::NoteOn { note: 50, audible: true });
    assert_eq!(voice.handle(VoiceEvent::NoteOn { note: 51, audible: false }), VoiceAction::Ignore);
    assert_eq!(voice.handle(VoiceEvent::NoteOn { note: 50, audible: false }), VoiceAction::Release);
    assert_eq!(voice.note, 50);
}

#[test]
fn pressure_follows_the_sounding_note() {
    let mut voice = MonoVoice::new();
    voice.handle(VoiceEvent::NoteOn { note: 72, audible: true });
    assert_eq!(voice.handle(VoiceEvent::PolyPressure { note: 72 }), VoiceAction::Pressure);
    assert_eq!(voice.handle(VoiceEvent::PolyPressure { note: 71 }), VoiceAction::Ignore);
    assert_eq!(voice.handle(VoiceEvent::Other), VoiceAction::Ignore);
    assert_eq!(voice.note, 72);
}

#[test]
fn interpolation_neighbours_wrap_around() {
    assert_eq!(table_neighbours(0), (0, 1));
    assert_eq!(table_neighbours(100), (100, 101));
    assert_eq!(table_neighbours(2047), (2047, 0));
    assert_eq!(table_neighbours(2048), (0, 1));
    assert_eq!(table_neighbours(4100), (4, 5));
}
