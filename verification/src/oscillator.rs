use vstd::prelude::*;
use crate::nodes::WaveType;

verus! {

/// The number of pitches, and of slots in a note table.
pub const PITCHES: usize = 128;

/// The largest velocity.
pub const MAX_VELOCITY: u8 = 127;

/// The pitch that sounds at the reference frequency. This instrument is
/// anchored at pitch 60, not at the customary 69.
pub const ANCHOR_PITCH: u8 = 60;

/// The reference frequency in Hz, that of `ANCHOR_PITCH`.
pub const ANCHOR_HZ: u32 = 440;

/// A table is valid when it has a slot for every pitch and every velocity is
/// in range.
pub open spec fn valid_table(table: Seq<u8>) -> bool {
    &&& table.len() == PITCHES
    &&& forall|p: int| 0 <= p < PITCHES ==> #[trigger] table[p] <= MAX_VELOCITY
}

/// An oscillator that sounds every pitch whose slot holds a velocity above
/// zero. A slot is either silent (velocity 0) or sounding.
pub struct PolyOscillator {
    wave_type: WaveType,
    midi_channel: u8,
    notes: [u8; 128],
}

impl PolyOscillator {
    /// The velocity of every pitch, by pitch.
    pub closed spec fn table(&self) -> Seq<u8> {
        self.notes@
    }

    /// The waveform of every voice.
    pub closed spec fn shape(&self) -> WaveType {
        self.wave_type
    }

    /// The channel that the oscillator is set to.
    pub closed spec fn channel(&self) -> u8 {
        self.midi_channel
    }

    pub open spec fn wf(&self) -> bool {
        valid_table(self.table())
    }

    /// An oscillator with every slot silent.
    pub fn new(wave_type: WaveType, midi_channel: u8) -> (osc: PolyOscillator)
        ensures
            osc.wf(),
            osc.shape() == wave_type,
            osc.channel() == midi_channel,
            forall|p: int| 0 <= p < PITCHES ==> osc.table()[p] == 0,
    {
        PolyOscillator { wave_type, midi_channel, notes: [0u8; 128] }
    }

    /// Sets the slot of `pitch` sounding at `velocity`. The last write wins:
    /// a slot that is sounding already takes the new velocity.
    pub fn note_on(&mut self, pitch: u8, velocity: u8)
        requires
            old(self).wf(),
            pitch < PITCHES,
            1 <= velocity <= MAX_VELOCITY,
        ensures
            final(self).wf(),
            final(self).table() == old(self).table().update(pitch as int, velocity),
            final(self).shape() == old(self).shape(),
            final(self).channel() == old(self).channel(),
    {
        self.notes[pitch as usize] = velocity;
    }
    /// Silences the slot of `pitch`.
    pub fn note_off(&mut self, pitch: u8)
        requires
            old(self).wf(),
            pitch < PITCHES,
        ensures
            final(self).wf(),
            final(self).table() == old(self).table().update(pitch as int, 0u8),
            final(self).shape() == old(self).shape(),
            final(self).channel() == old(self).channel(),
    {
        self.notes[pitch as usize] = 0;
    }

    /// Silences every slot.
    pub fn reset(&mut self)
        ensures
            final(self).wf(),
            forall|p: int| 0 <= p < PITCHES ==> final(self).table()[p] == 0,
            final(self).shape() == old(self).shape(),
            final(self).channel() == old(self).channel(),
    {
        self.notes = [0u8; 128];
    }

    /// The velocity in the slot of `pitch`; 0 when the slot is silent.
    pub fn velocity(&self, pitch: u8) -> (v: u8)
        requires
            pitch < PITCHES,
        ensures
            v == self.table()[pitch as int],
    {
        self.notes[pitch as usize]
    }

    /// The waveform of every voice.
    pub fn wave_type(&self) -> (shape: WaveType)
        ensures
            shape == self.shape(),
    {
        self.wave_type
    }

    /// The channel that the oscillator is set to.
    pub fn midi_channel(&self) -> (channel: u8)
        ensures
            channel == self.channel(),
    {
        self.midi_channel
    }

    /// The pitches that sound, in rising order.
    pub fn sounding(&self) -> (pitches: Vec<u8>)
        ensures
            forall|p: u8| pitches@.contains(p) <==> p < PITCHES && self.table()[p as int] > 0,
            forall|i: int, j: int| 0 <= i < j < pitches@.len() ==> pitches@[i] < pitches@[j],
    {
        let mut pitches: Vec<u8> = Vec::new();
        let mut pitch: u8 = 0;
        while pitch < 128
            invariant
                pitch <= PITCHES,
                self.table().len() == PITCHES,
                forall|p: u8|
                    pitches@.contains(p) <==> p < pitch && self.table()[p as int] > 0,
                forall|i: int, j: int| 0 <= i < j < pitches@.len() ==> pitches@[i] < pitches@[j],
            decreases PITCHES - pitch,
        {
            if self.notes[pitch as usize] > 0 {
                let ghost before = pitches@;
                pitches.push(pitch);
                proof {
                    assert(pitches@.last() == pitch);
                    assert forall|p: u8| pitches@.contains(p) implies p < pitch + 1
                        && self.table()[p as int] > 0 by {
                        let i = choose|i: int| 0 <= i < pitches@.len() && pitches@[i] == p;
                        if i < before.len() {
                            assert(before[i] == p);
                            assert(before.contains(p));
                        }
                    }
                    assert forall|p: u8| p < pitch + 1 && self.table()[p as int] > 0
                        implies pitches@.contains(p) by {
                        if p < pitch {
                            assert(before.contains(p));
                            let i = choose|i: int| 0 <= i < before.len() && before[i] == p;
                            assert(pitches@[i] == p);
                        }
                    }
                    assert forall|i: int, j: int| 0 <= i < j < pitches@.len()
                        implies pitches@[i] < pitches@[j] by {
                        if j == before.len() {
                            assert(before[i] == pitches@[i]);
                            assert(before.contains(pitches@[i]));
                        } else {
                            assert(before[i] < before[j]);
                        }
                    }
                }
            }
            pitch += 1;
        }
        pitches
    }
}

/// How many semitones `pitch` lies above the anchor pitch, negative below it.
/// The voice of `pitch` sounds at the reference frequency times two to the
/// power of a twelfth of this.
pub fn semitone_offset(pitch: u8) -> (offset: i8)
    requires
        pitch < PITCHES,
    ensures
        offset == pitch - ANCHOR_PITCH,
{
    if pitch >= ANCHOR_PITCH {
        (pitch - ANCHOR_PITCH) as i8
    } else {
        -((ANCHOR_PITCH - pitch) as i8)
    }
}

} // verus!
