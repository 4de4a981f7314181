use vstd::prelude::*;
use crate::oscillator::{valid_table, PolyOscillator, MAX_VELOCITY, PITCHES};

verus! {

/// A note event, as the oscillator takes it.
#[derive(Clone, Copy, Debug, PartialEq, Eq, Structural)]
pub enum NoteEvent {
    On { pitch: u8, velocity: u8 },
    Off { pitch: u8 },
}

impl NoteEvent {
    /// The pitch names a slot, and a note-on carries a velocity above zero.
    pub open spec fn wf(self) -> bool {
        match self {
            NoteEvent::On { pitch, velocity } => pitch < PITCHES && 1 <= velocity <= MAX_VELOCITY,
            NoteEvent::Off { pitch } => pitch < PITCHES,
        }
    }

    /// The pitch that the event is about.
    pub open spec fn pitch(self) -> u8 {
        match self {
            NoteEvent::On { pitch, .. } => pitch,
            NoteEvent::Off { pitch } => pitch,
        }
    }

    /// The velocity that the event leaves in its slot.
    pub open spec fn level(self) -> u8 {
        match self {
            NoteEvent::On { velocity, .. } => velocity,
            NoteEvent::Off { .. } => 0,
        }
    }
}

/// The table after one event.
pub open spec fn table_after(table: Seq<u8>, event: NoteEvent) -> Seq<u8> {
    table.update(event.pitch() as int, event.level())
}

/// The table after a run of events, taken in order.
pub open spec fn table_after_all(table: Seq<u8>, events: Seq<NoteEvent>) -> Seq<u8>
    decreases events.len(),
{
    if events.len() == 0 {
        table
    } else {
        table_after(table_after_all(table, events.drop_last()), events.last())
    }
}

/// The velocity that the last event about `pitch` leaves, if there is one.
pub open spec fn last_write(events: Seq<NoteEvent>, pitch: int) -> Option<u8>
    decreases events.len(),
{
    if events.len() == 0 {
        None
    } else if events.last().pitch() == pitch {
        Some(events.last().level())
    } else {
        last_write(events.drop_last(), pitch)
    }
}

/// The upper four bits of a status byte that starts a note-on message.
pub const NOTE_ON: u8 = 0x90;

/// The upper four bits of a status byte that starts a note-off message.
pub const NOTE_OFF: u8 = 0x80;

/// What `decode_message` finds in `message`.
///
/// The upper four bits of the first byte tell the kind; the lower seven bits
/// of the second byte are the pitch and, for a note-on, those of the third
/// are the velocity. A note-on with velocity 0 silences the slot, so it reads
/// as a note-off. Anything else, and a message too short for its kind, is no
/// note event.
pub open spec fn decoded(message: Seq<u8>) -> Option<NoteEvent> {
    if message.len() >= 3 && message[0] & 0xf0 == NOTE_ON {
        if message[2] & 0x7f == 0 {
            Some(NoteEvent::Off { pitch: message[1] & 0x7f })
        } else {
            Some(NoteEvent::On { pitch: message[1] & 0x7f, velocity: message[2] & 0x7f })
        }
    } else if message.len() >= 2 && message[0] & 0xf0 == NOTE_OFF {
        Some(NoteEvent::Off { pitch: message[1] & 0x7f })
    } else {
        None
    }
}

/// Reads a note event from the bytes of one message.
pub fn decode_message(message: &[u8]) -> (event: Option<NoteEvent>)
    ensures
        event == decoded(message@),
        event matches Some(e) ==> e.wf(),
{
    if message.len() < 2 {
        return None;
    }
    let kind = message[0] & 0xf0;
    let second = message[1];
    let pitch = second & 0x7f;
    assert(pitch < 128) by (bit_vector)
        requires
            pitch == second & 0x7f,
    ;
    if kind == NOTE_ON && message.len() >= 3 {
        let third = message[2];
        let velocity = third & 0x7f;
        assert(velocity <= 127) by (bit_vector)
            requires
                velocity == third & 0x7f,
        ;
        if velocity == 0 {
            Some(NoteEvent::Off { pitch })
        } else {
            Some(NoteEvent::On { pitch, velocity })
        }
    } else if kind == NOTE_OFF {
        Some(NoteEvent::Off { pitch })
    } else {
        None
    }
}

impl PolyOscillator {
    /// Takes one note event.
    pub fn apply(&mut self, event: NoteEvent)
        requires
            old(self).wf(),
            event.wf(),
        ensures
            final(self).wf(),
            final(self).table() == table_after(old(self).table(), event),
            final(self).shape() == old(self).shape(),
            final(self).channel() == old(self).channel(),
    {
        match event {
            NoteEvent::On { pitch, velocity } => self.note_on(pitch, velocity),
            NoteEvent::Off { pitch } => self.note_off(pitch),
        }
    }
}

/// Events keep a table valid, in whatever order they come.
pub proof fn lemma_events_keep_valid(table: Seq<u8>, events: Seq<NoteEvent>)
    requires
        valid_table(table),
        forall|i: int| 0 <= i < events.len() ==> (#[trigger] events[i]).wf(),
    ensures
        valid_table(table_after_all(table, events)),
    decreases events.len(),
{
    if events.len() > 0 {
        lemma_events_keep_valid(table, events.drop_last());
    }
}

/// The last write wins, slot by slot: after a run of events a slot holds what
/// the last event about its pitch left there, whole, and a slot that no event
/// was about holds what it held before.
pub proof fn lemma_last_write_wins(table: Seq<u8>, events: Seq<NoteEvent>, pitch: int)
    requires
        valid_table(table),
        forall|i: int| 0 <= i < events.len() ==> (#[trigger] events[i]).wf(),
        0 <= pitch < PITCHES,
    ensures
        table_after_all(table, events)[pitch] == (match last_write(events, pitch) {
            Some(velocity) => velocity,
            None => table[pitch],
        }),
    decreases events.len(),
{
    if events.len() > 0 {
        lemma_events_keep_valid(table, events.drop_last());
        lemma_last_write_wins(table, events.drop_last(), pitch);
    }
}

} // verus!
