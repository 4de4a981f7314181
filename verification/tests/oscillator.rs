use modsynth::oscillator::{ANCHOR_HZ, ANCHOR_PITCH, MAX_VELOCITY, PITCHES};
use modsynth::{
    decode_message, sample_node, semitone_offset, Node, NoteEvent, PolyOscillator,
    SamplingContext, WaveType,
};

fn sine(freq: f32, t: f32, offset: f32) -> f32 {
    ((t * freq + offset) * std::f32::consts::PI * 2.0).sin()
}

/// The sum of one sine voice per sounding pitch, over the fixed divisor 5.
fn voices(node: &Node, ctx: &SamplingContext, _inputs: Vec<f32>) -> f32 {
    match node {
        Node::Poly(osc) => {
            let t = ctx.clock as f32 / ctx.sample_rate as f32;
            let mut total = 0.0f32;
            for pitch in osc.sounding() {
                let steps = semitone_offset(pitch) as f32;
                let freq = 2.0f32.powf(steps / 12.0) * ANCHOR_HZ as f32;
                total += sine(freq, t, 0.0);
            }
            total / 5.0
        }
        _ => 0.0,
    }
}

#[test]
fn a_new_oscillator_is_silent() {
    let osc = PolyOscillator::new(WaveType::Sawtooth, 9);
    assert_eq!(osc.wave_type(), WaveType::Sawtooth);
    assert_eq!(osc.midi_channel(), 9);
    assert!(osc.sounding().is_empty());
    for pitch in 0..128u8 {
        assert_eq!(osc.velocity(pitch), 0);
    }
}

#[test]
fn constants_of_the_instrument() {
    assert_eq!(PITCHES, 128);
    assert_eq!(MAX_VELOCITY, 127);
    assert_eq!(ANCHOR_PITCH, 60);
    assert_eq!(ANCHOR_HZ, 440);
}

#[test]
fn note_on_then_off_then_reset() {
    let ctx = SamplingContext { clock: 25, sample_rate: 44100 };
    let mut osc = PolyOscillator::new(WaveType::Sine, 0);
    osc.note_on(60, 100);
    assert_eq!(osc.velocity(60), 100);
    assert_eq!(osc.sounding(), vec![60]);
    let node = Node::Poly(osc);
    let sounding = sample_node(&voices, &ctx, &node, Vec::new());
    let expected = sine(440.0, 25.0 / 44100.0, 0.0) / 5.0;
    assert!(sounding != 0.0);
    assert_eq!(sounding, expected);

    let mut osc = match node {
        Node::Poly(osc) => osc,
        _ => unreachable!(),
    };
    osc.note_off(60);
    assert_eq!(osc.velocity(60), 0);
    assert!(osc.sounding().is_empty());
    let node = Node::Poly(osc);
    assert_eq!(sample_node(&voices, &ctx, &node, Vec::new()), 0.0);

    let mut osc = match node {
        Node::Poly(osc) => osc,
        _ => unreachable!(),
    };
    osc.note_on(0, 1);
    osc.note_on(64, 90);
    osc.note_on(127, 127);
    assert_eq!(osc.sounding(), vec![0, 64, 127]);
    osc.reset();
    assert!(osc.sounding().is_empty());
    for pitch in 0..128u8 {
        assert_eq!(osc.velocity(pitch), 0);
    }
    assert_eq!(osc.wave_type(), WaveType::Sine);
    assert_eq!(osc.midi_channel(), 0);
}

#[test]
fn the_last_write_wins() {
    let mut osc = PolyOscillator::new(WaveType::Square, 1);
    osc.note_on(72, 10);
    osc.note_on(72, 99);
    osc.note_on(48, 5);
    assert_eq!(osc.velocity(72), 99);
    assert_eq!(osc.sounding(), vec![48, 72]);
    osc.note_off(72);
    osc.note_off(72);
    assert_eq!(osc.sounding(), vec![48]);
    osc.note_off(100);
    assert_eq!(osc.sounding(), vec![48]);
}

#[test]
fn interleaved_writers_and_readers_see_whole_velocities() {
    let mut osc = PolyOscillator::new(WaveType::Sine, 0);
    let mut model = [0u8; 128];
    let mut seed: u32 = 0x2545_f491;
    for _ in 0..5000 {
        seed = seed.wrapping_mul(1_664_525).wrapping_add(1_013_904_223);
        let pitch = ((seed >> 8) % 128) as u8;
        let velocity = ((seed >> 16) % 127) as u8 + 1;
        let event = match (seed >> 24) % 3 {
            0 => NoteEvent::Off { pitch },
            _ => NoteEvent::On { pitch, velocity },
        };
        osc.apply(event);
        match event {
            NoteEvent::On { pitch, velocity } => model[pitch as usize] = velocity,
            NoteEvent::Off { pitch } => model[pitch as usize] = 0,
        }
        let heard = osc.sounding();
        let expected: Vec<u8> = (0..128u8).filter(|p| model[*p as usize] > 0).collect();
        assert_eq!(heard, expected);
        for p in 0..128u8 {
            assert_eq!(osc.velocity(p), model[p as usize]);
            assert!(osc.velocity(p) <= 127);
        }
    }
}

#[test]
fn semitones_are_counted_from_pitch_sixty() {
    assert_eq!(semitone_offset(60), 0);
    assert_eq!(semitone_offset(69), 9);
    assert_eq!(semitone_offset(72), 12);
    assert_eq!(semitone_offset(48), -12);
    assert_eq!(semitone_offset(0), -60);
    assert_eq!(semitone_offset(127), 67);
}

#[test]
fn decode_reads_note_on_and_note_off() {
    assert_eq!(
        decode_message(&[0x90, 60, 100]),
        Some(NoteEvent::On { pitch: 60, velocity: 100 })
    );
    assert_eq!(
        decode_message(&[0x9a, 0x3c, 0x7f]),
        Some(NoteEvent::On { pitch: 60, velocity: 127 })
    );
    assert_eq!(decode_message(&[0x80, 60, 64]), Some(NoteEvent::Off { pitch: 60 }));
    assert_eq!(decode_message(&[0x8f, 61]), Some(NoteEvent::Off { pitch: 61 }));
    assert_eq!(decode_message(&[0x90, 60, 0]), Some(NoteEvent::Off { pitch: 60 }));
}

#[test]
fn decode_keeps_the_lower_seven_bits() {
    assert_eq!(
        decode_message(&[0x90, 0xbc, 0xe4]),
        Some(NoteEvent::On { pitch: 60, velocity: 100 })
    );
    assert_eq!(decode_message(&[0x90, 0xff, 0x80]), Some(NoteEvent::Off { pitch: 127 }));
    assert_eq!(decode_message(&[0x80, 0x80]), Some(NoteEvent::Off { pitch: 0 }));
}

#[test]
fn decode_passes_over_everything_else() {
    assert_eq!(decode_message(&[]), None);
    assert_eq!(decode_message(&[0x90]), None);
    assert_eq!(decode_message(&[0x90, 60]), None);
    assert_eq!(decode_message(&[0x80]), None);
    assert_eq!(decode_message(&[0xb0, 7, 100]), None);
    assert_eq!(decode_message(&[0xf8]), None);
    assert_eq!(decode_message(&[0x10, 60, 100]), None);
}

#[test]
fn decoded_events_drive_the_oscillator() {
    let mut osc = PolyOscillator::new(WaveType::Triangle, 0);
    let feed: [&[u8]; 5] =
        [&[0x90, 60, 100], &[0x90, 64, 80], &[0xb0, 1, 2], &[0x80, 60, 0], &[0x90, 64, 0]];
    let mut heard = Vec::new();
    for message in feed {
        if let Some(event) = decode_message(message) {
            osc.apply(event);
        }
        heard.push(osc.sounding());
    }
    assert_eq!(heard, vec![vec![60], vec![60, 64], vec![60, 64], vec![64], vec![]]);
}
