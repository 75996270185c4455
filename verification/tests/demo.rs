use ac4_player::decoder::demo::stage::{
    arrange, bed_state, block, diatonic_above, element_id, frame_of, idle_state, lfe, lfe_onsets,
    object, state_of, update, within, Demonstration, Motion, Note, Phase, Score, CONTINUO, GROUND,
    HARPSICHORD, LFE_ELEMENT_ID,
};
use ac4_player::decoder::demo::voice::{note_window, NoteWindow};
use ac4_player::decoder::tracking::ContentHeadTracking;

const RATE: u32 = 48_000;

fn note(onset: u32, pitch: u8) -> Note {
    Note { onset, pitch }
}

fn phase(shows: Demonstration, first: u32, last: u32, pool_slots: u32) -> Phase {
    Phase { shows, first, last, pool_slots, per_note: shows == Demonstration::Keyboard }
}

/// Two bars of a ground and a line of eight notes, in 48 ticks to the beat.
fn score() -> Score {
    Score {
        tempo_bpm: 72,
        ticks_per_beat: 48,
        beats_per_bar: 4,
        bars: 4,
        ticks_per_statement: 384,
        ground_repeats: 2,
        slots: 16,
        spine: 6,
        violins: 3,
        canon_entries: vec![0, 96, 192],
        canon_line: (0..8).map(|index| note(index * 48, 66 + index as u8)).collect(),
        canon_line_ticks: 384,
        canon_tails: vec![vec![note(0, 74)], vec![note(0, 74)], vec![]],
        ground: vec![
            note(0, 50),
            note(48, 45),
            note(96, 47),
            note(144, 42),
            note(192, 43),
            note(240, 38),
            note(288, 43),
            note(336, 45),
        ],
        ground_coda: vec![note(0, 38)],
        phases: vec![
            phase(Demonstration::Music, 0, 96, 0),
            phase(Demonstration::Reference, 96, 192, 2),
            phase(Demonstration::Keyboard, 192, 288, 10),
            phase(Demonstration::GainRing, 288, 768, 4),
        ],
    }
}

fn holds() -> Vec<i64> {
    vec![60_000, 90_000, 50_000, 80_000, 40_000, 30_000, 20_000]
}

#[test]
fn a_score_is_sound_only_with_all_its_parts() {
    assert!(score().is_sound(48_000));
    let mut silent = score();
    silent.tempo_bpm = 0;
    assert!(!silent.is_sound(48_000));
    let mut crowded = score();
    crowded.phases[2].pool_slots = 11;
    assert!(!crowded.is_sound(48_000));
    let mut low = score();
    low.canon_tails[1][0].pitch = 11;
    assert!(!low.is_sound(48_000));
    let mut short = score();
    short.ground.truncate(4);
    assert!(!short.is_sound(48_000));
    let mut plain = score();
    plain.phases.retain(|phase| !phase.per_note);
    assert!(!plain.is_sound(48_000));
}

#[test]
fn ticks_become_frames_without_drift() {
    let score = score();
    // One beat at 72 bpm is 40 000 frames; a tick is 833 and a third.
    assert_eq!(frame_of(&score, 48, RATE), 40_000);
    assert_eq!(frame_of(&score, 1, RATE), 833);
    assert_eq!(frame_of(&score, 2, RATE), 1_666);
    assert_eq!(frame_of(&score, 3, RATE), 2_500);
}

#[test]
fn chords_stand_on_the_scale() {
    // D, and the third and the fifth above it.
    assert_eq!(diatonic_above(50, 2), 54);
    assert_eq!(diatonic_above(50, 4), 57);
    // A leads over the octave: C sharp and E.
    assert_eq!(diatonic_above(45, 2), 49);
    assert_eq!(diatonic_above(45, 4), 52);
    assert_eq!(diatonic_above(50, 7), 62);
}

#[test]
fn every_note_has_a_slot_and_comes_by_onset() {
    let score = score();
    let arrangement = arrange(&score, RATE, &holds(), 3_840);
    assert_eq!(arrangement.stolen, 0);
    let placements = &arrangement.placements;
    assert!(placements.iter().all(|p| p.slot < 16));
    assert!(placements
        .windows(2)
        .all(|pair| (pair[0].onset, pair[0].slot) <= (pair[1].onset, pair[1].slot)));
    let last = placements.iter().map(|p| p.release).max().unwrap();
    assert_eq!(arrangement.duration_frames, u64::try_from(last).unwrap());
    assert!(last >= frame_of(&score, 768, RATE));
    // The ground speaks on its own slot, at both statements and in the coda.
    assert_eq!(placements.iter().filter(|p| p.timbre == GROUND).count(), 17);
    // A voice hands the notes of the keyboard phase to the pool.
    let keyboard = score.phases[2];
    for placement in placements.iter().filter(|p| p.slot < 3 && p.timbre != HARPSICHORD) {
        assert!(matches!(placement.motion, Motion::Orbit { .. }));
        let tick = u64::try_from(placement.onset).unwrap() * 3 / 2_500;
        assert!(!within(tick, &keyboard), "{placement:?}");
    }
    let keys: Vec<_> = placements.iter().filter(|p| p.timbre == HARPSICHORD).collect();
    assert_eq!(keys.len(), 6);
    for (index, key) in keys.iter().enumerate() {
        for other in &keys[index + 1..] {
            assert!(key.slot != other.slot || key.release <= other.onset + 3_840);
        }
    }
}

#[test]
fn a_pool_without_room_truncates_a_tail_and_counts_it() {
    let mut tight = score();
    tight.slots = 8;
    tight.violins = 1;
    tight.phases = vec![phase(Demonstration::Keyboard, 0, 768, 2)];
    let mut long = holds();
    long[HARPSICHORD] = 4_000_000;
    let arrangement = arrange(&tight, RATE, &long, 3_840);
    // Three slots for eight notes that all ring to the end.
    assert_eq!(arrangement.stolen, 5);
    assert!(arrangement.placements.iter().all(|p| p.slot < 8));
}

#[test]
fn the_gain_ring_says_what_the_audio_cannot() {
    let arrangement = arrange(&score(), RATE, &holds(), 3_840);
    let on = |slot: usize| {
        arrangement
            .placements
            .iter()
            .filter(move |p| p.slot == slot && p.onset >= 240_000)
    };
    assert!(on(6).any(|p| p.level == 0 && f32::from_bits(p.gain) == 1.0));
    assert!(on(7).any(|p| !p.metadata_active) && on(7).any(|p| p.metadata_active));
    let gains: Vec<f32> = on(8)
        .filter(|p| p.timbre == CONTINUO)
        .map(|p| f32::from_bits(p.gain))
        .collect();
    assert_eq!(gains[..2], [1.0, 0.25]);
    assert!(on(8).any(|p| p.ramp_frames == RATE / 4));
    let twins: Vec<_> = arrangement
        .placements
        .iter()
        .filter(|p| (6..8).contains(&p.slot) && p.onset < 160_000)
        .map(|p| p.tracking)
        .collect();
    assert_eq!(
        twins[..2],
        [ContentHeadTracking::HeadRelative, ContentHeadTracking::SceneRelative]
    );
}

#[test]
fn the_bed_strikes_once_a_bar() {
    let strokes = lfe_onsets(&score(), RATE);
    assert_eq!(strokes, [(0, 38), (160_000, 31), (320_000, 38), (480_000, 31)]);
}

#[test]
fn elements_keep_their_identity_for_the_whole_programme() {
    assert_eq!(element_id(0), 1);
    assert_eq!(object(4, idle_state(), vec![0]).element_id(), 5);
    assert_eq!(lfe(bed_state(), Vec::new()).element_id(), LFE_ELEMENT_ID);
    assert!(!idle_state().metadata_active());
    let placement = arrange(&score(), RATE, &holds(), 3_840).placements[0];
    let state = state_of(&placement, 1, 2, 3);
    assert!(state.metadata_active());
    assert_eq!(update(5, 1, 2, state).changed_fields(), 1 | 2 | 8 | 0x100);
    let built = block(RATE, 9, 2_048, Vec::new(), None, Vec::new());
    assert_eq!((built.start_frame(), built.presentation_id()), (9, Some(0)));
}

#[test]
fn a_note_sounds_in_the_same_frames_wherever_its_block_starts() {
    let whole = note_window(8_192, 0, i64::MAX, 6_000, 144, 3_840).unwrap();
    assert_eq!(
        whole,
        NoteWindow { first: 0, last: 6_000, attack_end: 144, damp_start: None }
    );
    let later = note_window(2_048, -4_096, i64::MAX, 6_000, 144, 3_840).unwrap();
    assert_eq!(
        later,
        NoteWindow { first: 0, last: 1_904, attack_end: 0, damp_start: None }
    );
    let cut = note_window(8_192, 100, 5_000, 6_000, 144, 3_840).unwrap();
    assert_eq!(
        cut,
        NoteWindow { first: 100, last: 5_000, attack_end: 244, damp_start: Some(1_160) }
    );
    assert!(note_window(2_048, 4_000, i64::MAX, 6_000, 144, 3_840).is_none());
    assert!(note_window(2_048, -9_000, i64::MAX, 6_000, 144, 3_840).is_none());
}
