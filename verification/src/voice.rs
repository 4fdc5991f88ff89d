use vstd::prelude::*;
use crate::app_state::WT_SIZE;

verus! {

/// A MIDI note event as the monophonic preview voice sees it. `audible` tells
/// whether a note-on carries a velocity above zero; velocities and pressures
/// themselves are applied by the caller.
#[derive(Debug, Clone, Copy, PartialEq, Eq, Structural)]
pub enum VoiceEvent {
    NoteOn { note: u8, audible: bool },
    NoteOff { note: u8 },
    PolyPressure { note: u8 },
    Other,
}

/// What the caller does with an event's values.
#[derive(Debug, Clone, Copy, PartialEq, Eq, Structural)]
pub enum VoiceAction {
    /// Play this note: take its frequency and glide the gain to the event's velocity.
    Start(u8),
    /// Glide the gain to zero.
    Release,
    /// Glide the gain to the event's pressure.
    Pressure,
    /// Leave the voice as it is.
    Ignore,
}

/// The note a voice holds after `event`, and what the caller is to do:
/// an audible note-on always takes over (last note wins); a silent note-on,
/// a note-off or a pressure change only acts on the sounding note.
pub open spec fn voice_step(note: u8, event: VoiceEvent) -> (u8, VoiceAction) {
    match event {
        VoiceEvent::NoteOn { note: n, audible } => {
            if audible {
                (n, VoiceAction::Start(n))
            } else if n == note {
                (note, VoiceAction::Release)
            } else {
                (note, VoiceAction::Ignore)
            }
        },
        VoiceEvent::NoteOff { note: n } => {
            if n == note { (note, VoiceAction::Release) } else { (note, VoiceAction::Ignore) }
        },
        VoiceEvent::PolyPressure { note: n } => {
            if n == note { (note, VoiceAction::Pressure) } else { (note, VoiceAction::Ignore) }
        },
        VoiceEvent::Other => (note, VoiceAction::Ignore),
    }
}

/// The note of the monophonic MIDI preview voice.
pub struct MonoVoice {
    pub note: u8,
}

impl MonoVoice {
    /// A voice that has heard no note yet (note 0).
    pub fn new() -> (voice: Self)
        ensures
            voice.note == 0,
    {
        MonoVoice { note: 0 }
    }

    /// Forgets the note heard last, as when the plugin is reset.
    pub fn reset(&mut self)
        ensures
            final(self).note == 0,
    {
        self.note = 0;
    }

    /// Applies one event and says what the caller is to do with it.
    pub fn handle(&mut self, event: VoiceEvent) -> (action: VoiceAction)
        ensures
            (final(self).note, action) == voice_step(old(self).note, event),
    {
        match event {
            VoiceEvent::NoteOn { note, audible } => {
                if audible {
                    self.note = note;
                    VoiceAction::Start(note)
                } else if note == self.note {
                    VoiceAction::Release
                } else {
                    VoiceAction::Ignore
                }
            },
            VoiceEvent::NoteOff { note } => {
                if note == self.note { VoiceAction::Release } else { VoiceAction::Ignore }
            },
            VoiceEvent::PolyPressure { note } => {
                if note == self.note { VoiceAction::Pressure } else { VoiceAction::Ignore }
            },
            VoiceEvent::Other => VoiceAction::Ignore,
        }
    }
}

/// The note a voice holds after hearing `events` in order, starting from `note`.
pub open spec fn note_after(note: u8, events: Seq<VoiceEvent>) -> u8
    decreases events.len(),
{
    if events.len() == 0 {
        note
    } else {
        voice_step(note_after(note, events.drop_last()), events.last()).0
    }
}

/// The note of the last audible note-on among `events`, or `note` if there is none.
pub open spec fn last_audible_note(note: u8, events: Seq<VoiceEvent>) -> u8
    decreases events.len(),
{
    if events.len() == 0 {
        note
    } else {
        match events.last() {
            VoiceEvent::NoteOn { note: n, audible: true } => n,
            _ => last_audible_note(note, events.drop_last()),
        }
    }
}

/// Last note wins: whatever came before, the voice holds the note of the last
/// audible note-on it heard (or the note it started with if there was none).
pub proof fn law_last_note_wins(note: u8, events: Seq<VoiceEvent>)
    ensures
        note_after(note, events) == last_audible_note(note, events),
    decreases events.len(),
{
    if events.len() > 0 {
        law_last_note_wins(note, events.drop_last());
    }
}

/// Events about any note other than the sounding one never change the voice
/// and are ignored, unless they are audible note-ons.
pub proof fn law_other_notes_ignored(note: u8, event: VoiceEvent)
    requires
        match event {
            VoiceEvent::NoteOn { note: n, audible } => n != note && !audible,
            VoiceEvent::NoteOff { note: n } => n != note,
            VoiceEvent::PolyPressure { note: n } => n != note,
            VoiceEvent::Other => true,
        },
    ensures
        voice_step(note, event) == (note, VoiceAction::Ignore),
{
}

/// The two table positions that linear interpolation reads for the integer part
/// `position` of the phase index: `position` wrapped into the table, and the
/// sample after it, wrapping from the last sample to the first.
pub fn table_neighbours(position: usize) -> (pair: (usize, usize))
    ensures
        pair.0 == position % WT_SIZE,
        pair.1 == (position % WT_SIZE + 1) % WT_SIZE as int,
        pair.0 < WT_SIZE,
        pair.1 < WT_SIZE,
{
    let first = position % WT_SIZE;
    (first, (first + 1) % WT_SIZE)
}

} // verus!

verus! {

/// Every audible note-on starts its note, whatever note was held before: the
/// held note itself too, so a note that was just released sounds again.
pub proof fn law_audible_note_on_starts(held: u8, n: u8)
    ensures
        voice_step(held, VoiceEvent::NoteOn { note: n, audible: true }) == (n, VoiceAction::Start(n)),
{
}

/// A note-off or a silent note-on for the held note releases it and keeps it
/// held; a pressure change for the held note is applied to it.
pub proof fn law_held_note_release_and_pressure(held: u8)
    ensures
        voice_step(held, VoiceEvent::NoteOff { note: held }) == (held, VoiceAction::Release),
        voice_step(held, VoiceEvent::NoteOn { note: held, audible: false }) == (
            held,
            VoiceAction::Release,
        ),
        voice_step(held, VoiceEvent::PolyPressure { note: held }) == (held, VoiceAction::Pressure),
{
}

} // verus!
