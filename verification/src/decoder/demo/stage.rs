//! Placing the canon in space: which object sounds which note, and where.
//!
//! The arrangement is built once, as a list of placements sorted by onset. The
//! same slots exist for the whole programme. Some of them carry the music, and
//! the rest are a pool that the phases spend on whatever they demonstrate.
//!
//! The score and the length that each timbre holds a slot for are given; both
//! are fixed for a programme. Levels and positions are single-precision
//! patterns, and bearings and heights that follow from a voice or a pitch are
//! worked out by the application.
use crate::decoder::level::Level;
use crate::decoder::scene::{
    DecodedSceneBlock, SceneLfePcm, SceneMetadataUpdate, SceneObjectPcm, SpatialObjectState,
    SpatialPosition, FIELD_ACTIVE, FIELD_GAIN, FIELD_HEAD_TRACKING, FIELD_POSITION,
};
use crate::decoder::tracking::ContentHeadTracking;
use crate::numeric::ONE;
use vstd::arithmetic::div_mod::*;
use vstd::arithmetic::mul::*;
use vstd::prelude::*;

verus! {

/// The element of the bed.
pub const LFE_ELEMENT_ID: u64 = 0x100;

/// Frames per block.
pub const BLOCK_FRAMES: u32 = 2048;

/// The level that one object may reach.
pub const OBJECT_PEAK: u32 = 0x3e00_0000;

/// 0.55 of it.
pub const CHORD_PEAK: u32 = 0x3d8c_cccd;

/// 0.6 of it.
pub const TWIN_PEAK: u32 = 0x3d99_999a;

/// 0.8 of it.
pub const KEY_PEAK: u32 = 0x3dcc_cccd;

/// Half of it.
pub const HALF_PEAK: u32 = 0x3d80_0000;

/// A quarter.
pub const QUARTER: u32 = 0x3e80_0000;

pub const PLUCKED: usize = 0;

pub const VIBRAPHONE: usize = 1;

pub const GLOCKENSPIEL: usize = 2;

pub const GROUND: usize = 3;

pub const CONTINUO: usize = 4;

pub const HARPSICHORD: usize = 5;

pub const TIMPANI: usize = 6;

pub const TIMBRES: usize = 7;

/// One note of a line: when it starts, in ticks from the start of the line.
#[derive(Debug, Clone, Copy, PartialEq, Eq, Structural)]
pub struct Note {
    pub onset: u32,
    pub pitch: u8,
}

/// What a phase of the programme demonstrates.
#[derive(Debug, Clone, Copy, PartialEq, Eq, Structural)]
pub enum Demonstration {
    Music,
    Reference,
    Keyboard,
    GainRing,
}

#[derive(Debug, Clone, Copy, PartialEq, Eq, Structural)]
pub struct Phase {
    pub shows: Demonstration,
    /// The ticks from `first` up to `last`.
    pub first: u32,
    pub last: u32,
    /// How many slots of the pool it may use.
    pub pool_slots: u32,
    /// Every note that rings has an object of its own.
    pub per_note: bool,
}

#[derive(Debug)]
pub struct Score {
    pub tempo_bpm: u32,
    pub ticks_per_beat: u32,
    pub beats_per_bar: u32,
    pub bars: u32,
    pub ticks_per_statement: u32,
    pub ground_repeats: u32,
    /// Slots in all, slots that the music holds, and slots of the canon.
    pub slots: usize,
    pub spine: usize,
    pub violins: usize,
    pub canon_entries: Vec<u32>,
    pub canon_line: Vec<Note>,
    pub canon_line_ticks: u32,
    pub canon_tails: Vec<Vec<Note>>,
    pub ground: Vec<Note>,
    pub ground_coda: Vec<Note>,
    pub phases: Vec<Phase>,
}

/// No tick of a programme lies behind this one.
pub const LAST_TICK: u64 = 0x3_0000_0000;

pub open spec fn are_playable(notes: Seq<Note>) -> bool {
    forall|i: int| 0 <= i < notes.len() ==> 12 <= (#[trigger] notes[i]).pitch <= 200
}

impl Score {
    /// The score can be arranged at this rate.
    pub open spec fn wf(&self, sample_rate: u32) -> bool {
        &&& self.tempo_bpm > 0
        &&& self.ticks_per_beat > 0
        &&& LAST_TICK * sample_rate * 60 <= 0x4000_0000_0000_0000
        &&& self.ticks_per_beat * self.beats_per_bar <= u32::MAX
        &&& self.bars * (self.ticks_per_beat * self.beats_per_bar) <= LAST_TICK
        &&& self.ground_repeats * self.ticks_per_statement <= 0x2_0000_0000
        &&& 2 <= self.spine
        &&& self.spine + 2 <= self.slots
        &&& 4 <= self.slots
        &&& 1 <= self.violins <= 3
        &&& self.violins <= self.spine
        &&& 2 <= self.canon_entries@.len()
        &&& self.violins <= self.canon_entries@.len()
        &&& self.violins <= self.canon_tails@.len()
        &&& are_playable(self.canon_line@)
        &&& forall|i: int|
            0 <= i < self.canon_tails@.len() ==> are_playable((#[trigger] self.canon_tails@[i])@)
        &&& are_playable(self.ground@)
        &&& self.ground@.len() > 4
        &&& are_playable(self.ground_coda@)
        &&& forall|i: int|
            0 <= i < self.phases@.len() ==> self.spine + (
            #[trigger] self.phases@[i]).pool_slots <= self.slots
        &&& exists|i: int| 0 <= i < self.phases@.len() && (#[trigger] self.phases@[i]).per_note
    }

    /// The frame of a tick.
    pub open spec fn frame(&self, tick: int, sample_rate: u32) -> int {
        (tick * sample_rate * 60) / (self.tempo_bpm * self.ticks_per_beat)
    }
}

/// The product of two counts.
fn product(a: u32, b: u32) -> (r: u128)
    ensures
        r == a * b,
        r <= u32::MAX * u32::MAX,
{
    assert(0 <= a * b <= u32::MAX * u32::MAX) by (nonlinear_arith)
        requires
            0 <= a <= u32::MAX,
            0 <= b <= u32::MAX,
    ;
    a as u128 * b as u128
}

fn all_playable(notes: &Vec<Note>) -> (r: bool)
    ensures
        r == are_playable(notes@),
{
    let mut at: usize = 0;
    while at < notes.len()
        invariant
            at <= notes.len(),
            forall|i: int| 0 <= i < at ==> 12 <= (#[trigger] notes@[i]).pitch <= 200,
        decreases notes.len() - at,
    {
        if notes[at].pitch < 12 || notes[at].pitch > 200 {
            assert(!(12 <= notes@[at as int].pitch <= 200));
            return false;
        }
        at = at + 1;
    }
    true
}

impl Score {
    /// Whether the lists of the score are as long as its parts need, and hold
    /// only notes that can be played.
    fn has_parts(&self) -> (r: bool)
        ensures
            r == ({
                &&& 2 <= self.canon_entries@.len()
                &&& self.violins <= self.canon_entries@.len()
                &&& self.violins <= self.canon_tails@.len()
                &&& are_playable(self.canon_line@)
                &&& forall|i: int|
                    0 <= i < self.canon_tails@.len() ==> are_playable(
                        (#[trigger] self.canon_tails@[i])@,
                    )
                &&& are_playable(self.ground@)
                &&& self.ground@.len() > 4
                &&& are_playable(self.ground_coda@)
            }),
    {
        let mut at: usize = 0;
        while at < self.canon_tails.len()
            invariant
                at <= self.canon_tails.len(),
                forall|i: int|
                    0 <= i < at ==> are_playable((#[trigger] self.canon_tails@[i])@),
            decreases self.canon_tails.len() - at,
        {
            if !all_playable(&self.canon_tails[at]) {
                assert(!are_playable(self.canon_tails@[at as int]@));
                return false;
            }
            at = at + 1;
        }
        2 <= self.canon_entries.len() && self.violins <= self.canon_entries.len() && self.violins
            <= self.canon_tails.len() && all_playable(&self.canon_line) && all_playable(
            &self.ground,
        ) && self.ground.len() > 4 && all_playable(&self.ground_coda)
    }

    /// Whether every phase fits the slots, and one of them places note by note.
    fn has_phases(&self) -> (r: bool)
        ensures
            r == ({
                &&& forall|i: int|
                    0 <= i < self.phases@.len() ==> self.spine + (
                    #[trigger] self.phases@[i]).pool_slots <= self.slots
                &&& exists|i: int|
                    0 <= i < self.phases@.len() && (#[trigger] self.phases@[i]).per_note
            }),
    {
        let mut found = false;
        let mut at: usize = 0;
        while at < self.phases.len()
            invariant
                at <= self.phases.len(),
                forall|i: int|
                    0 <= i < at ==> self.spine + (#[trigger] self.phases@[i]).pool_slots
                        <= self.slots,
                found == exists|i: int| 0 <= i < at && (#[trigger] self.phases@[i]).per_note,
            decreases self.phases.len() - at,
        {
            let phase = &self.phases[at];
            if self.slots < self.spine || self.slots - self.spine < phase.pool_slots as usize {
                assert(self.spine + self.phases@[at as int].pool_slots > self.slots);
                return false;
            }
            if phase.per_note {
                found = true;
                assert(self.phases@[at as int].per_note);
            }
            at = at + 1;
        }
        found
    }

    /// Whether the score can be arranged at a rate.
    pub fn is_sound(&self, sample_rate: u32) -> (r: bool)
        ensures
            r == self.wf(sample_rate),
    {
        let bar: u128 = product(self.ticks_per_beat, self.beats_per_bar);
        if bar > u32::MAX as u128 {
            return false;
        }
        let ticks: u128 = product(self.bars, bar as u32);
        let statements: u128 = product(self.ground_repeats, self.ticks_per_statement);
        let frames: u128 = LAST_TICK as u128 * sample_rate as u128 * 60;
        let timed = self.tempo_bpm > 0 && self.ticks_per_beat > 0 && frames
            <= 0x4000_0000_0000_0000 && ticks <= LAST_TICK as u128 && statements
            <= 0x2_0000_0000;
        let seated = 2 <= self.spine && 4 <= self.slots && self.slots - 2 >= self.spine && 1
            <= self.violins && self.violins <= 3 && self.violins <= self.spine;
        timed && seated && self.has_parts() && self.has_phases()
    }
}

/// Ticks to frames, by integer arithmetic: each tick is rounded down once, so
/// nothing accumulates. A frame beyond the last countable one is that one.
pub fn frame_of(score: &Score, tick: u64, sample_rate: u32) -> (r: i64)
    requires
        score.tempo_bpm > 0,
        score.ticks_per_beat > 0,
        tick * sample_rate * 60 <= u64::MAX,
    ensures
        r == (if score.frame(tick as int, sample_rate) <= i64::MAX {
            score.frame(tick as int, sample_rate)
        } else {
            i64::MAX as int
        }),
{
    let wide: u128 = tick as u128 * sample_rate as u128 * 60u128;
    proof {
        lemma_mul_strictly_positive(score.tempo_bpm as int, score.ticks_per_beat as int);
        lemma_mul_upper_bound(
            score.tempo_bpm as int,
            u32::MAX as int,
            score.ticks_per_beat as int,
            u32::MAX as int,
        );
    }
    let divisor: u64 = score.tempo_bpm as u64 * score.ticks_per_beat as u64;
    let numerator: u64 = wide as u64;
    let frame: u64 = numerator / divisor;
    if frame <= i64::MAX as u64 {
        frame as i64
    } else {
        i64::MAX
    }
}

/// A tick within the programme, and its frame, are where they can be counted.
pub proof fn lemma_frame_bounds(score: Score, tick: int, sample_rate: u32)
    requires
        score.wf(sample_rate),
        0 <= tick <= LAST_TICK,
    ensures
        0 <= tick * sample_rate * 60 <= 0x4000_0000_0000_0000,
        0 <= score.frame(tick, sample_rate) <= 0x4000_0000_0000_0000,
{
    lemma_mul_inequality(tick, LAST_TICK as int, sample_rate as int);
    lemma_mul_inequality(tick * sample_rate, LAST_TICK * sample_rate, 60);
    lemma_mul_nonnegative(tick, sample_rate as int);
    lemma_mul_strictly_positive(score.tempo_bpm as int, score.ticks_per_beat as int);
    let n = tick * sample_rate * 60;
    let d = (score.tempo_bpm * score.ticks_per_beat) as int;
    lemma_div_pos_is_pos(n, d);
    lemma_div_is_ordered_by_denominator(n, 1, d);
}

/// Later ticks never come at earlier frames.
pub proof fn frames_follow_ticks(score: Score, first: int, second: int, sample_rate: u32)
    requires
        score.tempo_bpm > 0,
        score.ticks_per_beat > 0,
        0 <= first <= second,
    ensures
        score.frame(first, sample_rate) <= score.frame(second, sample_rate),
{
    lemma_mul_inequality(first, second, sample_rate as int);
    lemma_mul_strictly_positive(score.tempo_bpm as int, score.ticks_per_beat as int);
    lemma_div_is_ordered(
        first * sample_rate * 60,
        second * sample_rate * 60,
        (score.tempo_bpm * score.ticks_per_beat) as int,
    );
}

/// Semitones above the tonic for each degree of the major scale.
pub open spec fn scale_step(degree: int) -> int {
    if degree == 0 {
        0
    } else if degree == 1 {
        2
    } else if degree == 2 {
        4
    } else if degree == 3 {
        5
    } else if degree == 4 {
        7
    } else if degree == 5 {
        9
    } else {
        11
    }
}

/// The degree of a pitch class above the tonic; a class outside of the scale
/// counts as the tonic.
pub open spec fn degree_of(class: int) -> int {
    if class == 2 {
        1
    } else if class == 4 {
        2
    } else if class == 5 {
        3
    } else if class == 7 {
        4
    } else if class == 9 {
        5
    } else if class == 11 {
        6
    } else {
        0
    }
}

/// Semitones of a pitch above the tonic below it; the tonic is D.
pub open spec fn class_of(pitch: int) -> int {
    (pitch + 10) % 12
}

/// The pitch `degrees` steps of the scale above another.
pub open spec fn steps_above(pitch: int, degrees: int) -> int {
    let target = degree_of(class_of(pitch)) + degrees;
    pitch - class_of(pitch) + scale_step(target % 7) + 12 * (target / 7)
}

pub fn diatonic_above(pitch: u8, degrees: usize) -> (r: u8)
    requires
        2 <= pitch <= 200,
        degrees <= 7,
    ensures
        r == steps_above(pitch as int, degrees as int),
{
    let class: u8 = (pitch + 10) % 12;
    let degree: usize = match class {
        2 => 1,
        4 => 2,
        5 => 3,
        7 => 4,
        9 => 5,
        11 => 6,
        _ => 0,
    };
    let target: usize = degree + degrees;
    let step: u8 = match target % 7 {
        0 => 0,
        1 => 2,
        2 => 4,
        3 => 5,
        4 => 7,
        5 => 9,
        _ => 11,
    };
    let octaves: u8 = (target / 7) as u8;
    pitch - class + step + 12 * octaves
}

/// A step of the scale leads up, by one octave for every seven.
pub proof fn seven_steps_are_an_octave(pitch: int)
    requires
        pitch >= 2,
        scale_step(degree_of(class_of(pitch))) == class_of(pitch),
    ensures
        steps_above(pitch, 0) == pitch,
        steps_above(pitch, 7) == pitch + 12,
        steps_above(pitch, 2) > pitch,
        steps_above(pitch, 4) > steps_above(pitch, 2),
{
}

/// How an object's position is derived while a note sounds.
#[derive(Debug, Clone, Copy, PartialEq, Eq, Structural)]
pub enum Motion {
    /// Held still.
    Fixed { x: u32, y: u32, z: u32 },
    /// Circling from the bearing of a voice, at the height of a pitch.
    Orbit { voice: usize, pitch: u8 },
    /// Held still where the key of a pitch lies.
    Key { pitch: u8 },
}

/// One note, already assigned to a slot and a place.
#[derive(Debug, Clone, Copy, PartialEq, Eq, Structural)]
pub struct Placement {
    pub slot: usize,
    pub onset: i64,
    /// When the slot is free again.
    pub release: i64,
    pub pitch: u8,
    pub timbre: usize,
    /// The level that is rendered. An object may declare full gain and sound
    /// nothing.
    pub level: u32,
    /// The gain that the metadata declares.
    pub gain: u32,
    pub ramp_frames: u32,
    pub metadata_active: bool,
    pub motion: Motion,
    pub tracking: ContentHeadTracking,
}

impl Placement {
    pub open spec fn plain(slot: int, onset: int, pitch: int, timbre: usize, release: int) -> Placement {
        Placement {
            slot: slot as usize,
            onset: onset as i64,
            release: release as i64,
            pitch: pitch as u8,
            timbre,
            level: OBJECT_PEAK,
            gain: ONE,
            ramp_frames: 0,
            metadata_active: true,
            motion: Motion::Fixed { x: 0, y: 0x3f4c_cccd, z: 0 },
            tracking: ContentHeadTracking::SceneRelative,
        }
    }

    fn new(slot: usize, onset: i64, pitch: u8, timbre: usize, release: i64) -> (r: Self)
        ensures
            r == Placement::plain(slot as int, onset as int, pitch as int, timbre, release as int),
    {
        Placement {
            slot,
            onset,
            release,
            pitch,
            timbre,
            level: OBJECT_PEAK,
            gain: ONE,
            ramp_frames: 0,
            metadata_active: true,
            motion: Motion::Fixed { x: 0, y: 0x3f4c_cccd, z: 0 },
            tracking: ContentHeadTracking::SceneRelative,
        }
    }
}

/// A note at a tick of the programme.
#[derive(Debug, Clone, Copy, PartialEq, Eq, Structural)]
pub struct Strike {
    pub tick: u64,
    pub pitch: u8,
}

/// The notes of a line that starts at `base`.
pub open spec fn strikes(notes: Seq<Note>, base: int) -> Seq<Strike> {
    notes.map_values(|n: Note| Strike { tick: (base + n.onset) as u64, pitch: n.pitch })
}

/// Every note lies within the programme and can be sounded.
pub open spec fn are_sound(strikes: Seq<Strike>) -> bool {
    forall|i: int|
        0 <= i < strikes.len() ==> (#[trigger] strikes[i]).tick <= LAST_TICK && 12
            <= strikes[i].pitch <= 200
}

fn strike_all(out: &mut Vec<Strike>, notes: &Vec<Note>, base: u64)
    requires
        base <= 0x2_0000_0000,
        are_playable(notes@),
        are_sound(old(out)@),
    ensures
        final(out)@ == old(out)@ + strikes(notes@, base as int),
        are_sound(final(out)@),
{
    let mut at: usize = 0;
    assert(old(out)@ + strikes(notes@.take(0), base as int) =~= old(out)@);
    while at < notes.len()
        invariant
            at <= notes.len(),
            base <= 0x2_0000_0000,
            are_playable(notes@),
            are_sound(out@),
            out@ == old(out)@ + strikes(notes@.take(at as int), base as int),
        decreases notes.len() - at,
    {
        let note = notes[at];
        assert(are_playable(notes@) && notes@[at as int] == note);
        out.push(Strike { tick: base + note.onset as u64, pitch: note.pitch });
        assert(out@ =~= old(out)@ + strikes(notes@.take(at + 1), base as int));
        at = at + 1;
    }
    assert(notes@.take(at as int) =~= notes@);
}

/// The tick lies within the phase.
pub open spec fn is_within(tick: u64, phase: Phase) -> bool {
    phase.first <= tick < phase.last
}

pub fn within(tick: u64, phase: &Phase) -> (r: bool)
    ensures
        r == is_within(tick, *phase),
{
    phase.first as u64 <= tick && tick < phase.last as u64
}

/// How long each timbre holds its slot, in frames.
pub open spec fn are_holds(holds: Seq<i64>) -> bool {
    holds.len() == TIMBRES && forall|i: int|
        0 <= i < holds.len() ==> 0 <= #[trigger] holds[i] <= 0x2000_0000_0000_0000
}

impl Score {
    /// A placement of a note on a slot, with everything else plain.
    pub open spec fn placed(
        &self,
        slot: int,
        strike: Strike,
        pitch: int,
        timbre: usize,
        sample_rate: u32,
        holds: Seq<i64>,
    ) -> Placement {
        let onset = self.frame(strike.tick as int, sample_rate);
        Placement::plain(slot, onset, pitch, timbre, onset + holds[timbre as int])
    }

    fn place(
        &self,
        slot: usize,
        strike: &Strike,
        pitch: u8,
        timbre: usize,
        sample_rate: u32,
        holds: &Vec<i64>,
    ) -> (r: Placement)
        requires
            self.wf(sample_rate),
            are_holds(holds@),
            timbre < TIMBRES,
            strike.tick <= LAST_TICK,
        ensures
            r == self.placed(slot as int, *strike, pitch as int, timbre, sample_rate, holds@),
            0 <= r.onset <= 0x4000_0000_0000_0000,
            r.onset <= r.release <= 0x6000_0000_0000_0000,
    {
        proof {
            lemma_frame_bounds(*self, strike.tick as int, sample_rate);
        }
        let onset: i64 = frame_of(self, strike.tick, sample_rate);
        let hold: i64 = holds[timbre];
        Placement::new(slot, onset, pitch, timbre, onset + hold)
    }

    /// The notes of one voice of the canon: the line and the voice's own end.
    pub open spec fn voice(&self, voice: int) -> Seq<Strike> {
        let entry = self.canon_entries@[voice] as int;
        strikes(self.canon_line@, entry) + strikes(
            self.canon_tails@[voice]@,
            entry + self.canon_line_ticks,
        )
    }

    fn voice_strikes(&self, voice: usize, Ghost(sample_rate): Ghost<u32>) -> (r: Vec<Strike>)
        requires
            self.wf(sample_rate),
            voice < self.violins,
        ensures
            r@ == self.voice(voice as int),
            are_sound(r@),
    {
        let mut out: Vec<Strike> = Vec::new();
        let entry: u64 = self.canon_entries[voice] as u64;
        assert(are_playable(self.canon_tails@[voice as int]@));
        strike_all(&mut out, &self.canon_line, entry);
        strike_all(&mut out, &self.canon_tails[voice], entry + self.canon_line_ticks as u64);
        assert(out@ =~= self.voice(voice as int));
        out
    }

    /// The line of a voice, without its end.
    pub open spec fn line(&self, voice: int) -> Seq<Strike> {
        strikes(self.canon_line@, self.canon_entries@[voice] as int)
    }

    fn line_strikes(&self, voice: usize, Ghost(sample_rate): Ghost<u32>) -> (r: Vec<Strike>)
        requires
            self.wf(sample_rate),
            voice < self.canon_entries@.len(),
        ensures
            r@ == self.line(voice as int),
            are_sound(r@),
    {
        let mut out: Vec<Strike> = Vec::new();
        strike_all(&mut out, &self.canon_line, self.canon_entries[voice] as u64);
        assert(out@ =~= self.line(voice as int));
        out
    }
}

/// The placement of a canon note.
pub open spec fn canon_note(
    score: Score,
    voice: int,
    strike: Strike,
    sample_rate: u32,
    holds: Seq<i64>,
) -> Placement {
    Placement {
        motion: Motion::Orbit { voice: voice as usize, pitch: strike.pitch },
        ..score.placed(voice, strike, strike.pitch as int, voice as usize, sample_rate, holds)
    }
}

/// A voice circles on its own slot, with the timbre of its number, and hands
/// the notes of the keyboard phase to the pool.
pub open spec fn canon_part(
    score: Score,
    voice: int,
    notes: Seq<Strike>,
    keyboard: Phase,
    sample_rate: u32,
    holds: Seq<i64>,
) -> Seq<Placement>
    decreases notes.len(),
{
    if notes.len() == 0 {
        Seq::empty()
    } else {
        let rest = canon_part(score, voice, notes.drop_last(), keyboard, sample_rate, holds);
        if is_within(notes.last().tick, keyboard) {
            rest
        } else {
            rest.push(canon_note(score, voice, notes.last(), sample_rate, holds))
        }
    }
}

/// All voices up to `voices`.
pub open spec fn canon(
    score: Score,
    voices: nat,
    keyboard: Phase,
    sample_rate: u32,
    holds: Seq<i64>,
) -> Seq<Placement>
    decreases voices,
{
    if voices == 0 {
        Seq::empty()
    } else {
        canon(score, (voices - 1) as nat, keyboard, sample_rate, holds) + canon_part(
            score,
            voices - 1,
            score.voice(voices - 1),
            keyboard,
            sample_rate,
            holds,
        )
    }
}

/// Onsets and releases that can be counted on, and slots that exist.
pub open spec fn are_placed(placements: Seq<Placement>, slots: usize) -> bool {
    forall|i: int|
        0 <= i < placements.len() ==> is_placed(#[trigger] placements[i], slots)
}

pub open spec fn is_placed(placement: Placement, slots: usize) -> bool {
    &&& placement.slot < slots
    &&& 0 <= placement.onset <= 0x4000_0000_0000_0000
    &&& placement.onset <= placement.release <= 0x6000_0000_0000_0000
}

fn place_voice(
    score: &Score,
    voice: usize,
    keyboard: &Phase,
    sample_rate: u32,
    holds: &Vec<i64>,
    out: &mut Vec<Placement>,
)
    requires
        score.wf(sample_rate),
        are_holds(holds@),
        voice < score.violins,
        are_placed(old(out)@, score.slots),
    ensures
        final(out)@ == old(out)@ + canon_part(
            *score,
            voice as int,
            score.voice(voice as int),
            *keyboard,
            sample_rate,
            holds@,
        ),
        are_placed(final(out)@, score.slots),
{
    let notes = score.voice_strikes(voice, Ghost(sample_rate));
    let ghost before = out@;
    let mut at: usize = 0;
    assert(before + canon_part(
        *score,
        voice as int,
        notes@.take(0),
        *keyboard,
        sample_rate,
        holds@,
    ) =~= before);
    while at < notes.len()
        invariant
            at <= notes.len(),
            score.wf(sample_rate),
            are_holds(holds@),
            voice < score.violins,
            are_sound(notes@),
            are_placed(out@, score.slots),
            out@ == before + canon_part(
                *score,
                voice as int,
                notes@.take(at as int),
                *keyboard,
                sample_rate,
                holds@,
            ),
        decreases notes.len() - at,
    {
        let note = notes[at];
        assert(are_sound(notes@) && notes@[at as int] == note);
        proof {
            let so_far = notes@.take(at + 1);
            assert(so_far.last() == note);
            assert(so_far.drop_last() =~= notes@.take(at as int));
        }
        if !within(note.tick, keyboard) {
            let mut placement = score.place(voice, &note, note.pitch, voice, sample_rate, holds);
            placement.motion = Motion::Orbit { voice, pitch: note.pitch };
            let ghost so_far = out@;
            out.push(placement);
            assert(out@ =~= before + canon_part(
                *score,
                voice as int,
                notes@.take(at as int),
                *keyboard,
                sample_rate,
                holds@,
            ).push(placement));
        }
        at = at + 1;
    }
    assert(notes@.take(at as int) =~= notes@);
}

/// The ground, and the third and the fifth above it an octave up.
pub open spec fn ground_chord(
    score: Score,
    strike: Strike,
    sample_rate: u32,
    holds: Seq<i64>,
) -> Seq<Placement> {
    seq![
        Placement {
            motion: Motion::Fixed { x: 0, y: 0x3f4c_cccd, z: 0xbeb3_3333 },
            ..score.placed(3, strike, strike.pitch as int, GROUND, sample_rate, holds)
        },
        Placement {
            level: CHORD_PEAK,
            motion: Motion::Fixed { x: 0xbf0c_cccd, y: 0x3f00_0000, z: 0xbe19_999a },
            ..score.placed(
                score.spine - 2,
                strike,
                steps_above(strike.pitch as int, 2) + 12,
                CONTINUO,
                sample_rate,
                holds,
            )
        },
        Placement {
            level: CHORD_PEAK,
            motion: Motion::Fixed { x: 0x3f0c_cccd, y: 0x3f00_0000, z: 0xbe19_999a },
            ..score.placed(
                score.spine - 1,
                strike,
                steps_above(strike.pitch as int, 4) + 12,
                CONTINUO,
                sample_rate,
                holds,
            )
        },
    ]
}

pub open spec fn ground_part(
    score: Score,
    notes: Seq<Strike>,
    sample_rate: u32,
    holds: Seq<i64>,
) -> Seq<Placement>
    decreases notes.len(),
{
    if notes.len() == 0 {
        Seq::empty()
    } else {
        ground_part(score, notes.drop_last(), sample_rate, holds) + ground_chord(
            score,
            notes.last(),
            sample_rate,
            holds,
        )
    }
}

/// The first `repeats` statements of the ground.
pub open spec fn ground_line(score: Score, repeats: nat) -> Seq<Strike>
    decreases repeats,
{
    if repeats == 0 {
        Seq::empty()
    } else {
        ground_line(score, (repeats - 1) as nat) + strikes(
            score.ground@,
            (repeats - 1) * score.ticks_per_statement,
        )
    }
}

/// The ground as often as it is stated, and the closing bar.
pub open spec fn ground_notes(score: Score) -> Seq<Strike> {
    ground_line(score, score.ground_repeats as nat) + strikes(
        score.ground_coda@,
        (score.ground_repeats * score.ticks_per_statement) as int,
    )
}

fn ground_strikes(score: &Score, Ghost(sample_rate): Ghost<u32>) -> (r: Vec<Strike>)
    requires
        score.wf(sample_rate),
    ensures
        r@ == ground_notes(*score),
        are_sound(r@),
{
    let mut out: Vec<Strike> = Vec::new();
    let mut statement: u32 = 0;
    while statement < score.ground_repeats
        invariant
            statement <= score.ground_repeats,
            score.wf(sample_rate),
            are_sound(out@),
            out@ == ground_line(*score, statement as nat),
        decreases score.ground_repeats - statement,
    {
        proof {
            lemma_mul_inequality(
                statement as int,
                score.ground_repeats as int,
                score.ticks_per_statement as int,
            );
            lemma_mul_nonnegative(statement as int, score.ticks_per_statement as int);
        }
        let base: u64 = statement as u64 * score.ticks_per_statement as u64;
        strike_all(&mut out, &score.ground, base);
        statement = statement + 1;
    }
    let closing: u64 = score.ground_repeats as u64 * score.ticks_per_statement as u64;
    strike_all(&mut out, &score.ground_coda, closing);
    out
}

fn ground_and_continuo(
    score: &Score,
    sample_rate: u32,
    holds: &Vec<i64>,
    out: &mut Vec<Placement>,
)
    requires
        score.wf(sample_rate),
        are_holds(holds@),
        are_placed(old(out)@, score.slots),
    ensures
        final(out)@ == old(out)@ + ground_part(*score, ground_notes(*score), sample_rate, holds@),
        are_placed(final(out)@, score.slots),
{
    let notes = ground_strikes(score, Ghost(sample_rate));
    let ghost before = out@;
    let mut at: usize = 0;
    assert(before + ground_part(*score, notes@.take(0), sample_rate, holds@) =~= before);
    while at < notes.len()
        invariant
            at <= notes.len(),
            score.wf(sample_rate),
            are_holds(holds@),
            are_sound(notes@),
            are_placed(out@, score.slots),
            out@ == before + ground_part(*score, notes@.take(at as int), sample_rate, holds@),
        decreases notes.len() - at,
    {
        let note = notes[at];
        assert(are_sound(notes@) && notes@[at as int] == note);
        proof {
            let so_far = notes@.take(at + 1);
            assert(so_far.last() == note);
            assert(so_far.drop_last() =~= notes@.take(at as int));
        }
        let mut ground = score.place(3, &note, note.pitch, GROUND, sample_rate, holds);
        ground.motion = Motion::Fixed { x: 0, y: 0x3f4c_cccd, z: 0xbeb3_3333 };
        let third: u8 = diatonic_above(note.pitch, 2) + 12;
        let mut low = score.place(score.spine - 2, &note, third, CONTINUO, sample_rate, holds);
        low.level = CHORD_PEAK;
        low.motion = Motion::Fixed { x: 0xbf0c_cccd, y: 0x3f00_0000, z: 0xbe19_999a };
        let fifth: u8 = diatonic_above(note.pitch, 4) + 12;
        let mut high = score.place(score.spine - 1, &note, fifth, CONTINUO, sample_rate, holds);
        high.level = CHORD_PEAK;
        high.motion = Motion::Fixed { x: 0x3f0c_cccd, y: 0x3f00_0000, z: 0xbe19_999a };
        let ghost so_far = out@;
        out.push(ground);
        out.push(low);
        out.push(high);
        assert(out@ =~= so_far + ground_chord(*score, note, sample_rate, holds@));
        assert(out@ =~= before + ground_part(*score, notes@.take(at + 1), sample_rate, holds@));
        at = at + 1;
    }
    assert(notes@.take(at as int) =~= notes@);
}

/// The first voice an octave up, twice: head locked, and not.
pub open spec fn twins(
    score: Score,
    strike: Strike,
    sample_rate: u32,
    holds: Seq<i64>,
) -> Seq<Placement> {
    seq![
        Placement {
            level: TWIN_PEAK,
            tracking: ContentHeadTracking::HeadRelative,
            motion: Motion::Fixed { x: 0xbf33_3333, y: 0x3f0c_cccd, z: 0x3e4c_cccd },
            ..score.placed(
                score.spine as int,
                strike,
                strike.pitch + 12,
                PLUCKED,
                sample_rate,
                holds,
            )
        },
        Placement {
            level: TWIN_PEAK,
            tracking: ContentHeadTracking::SceneRelative,
            motion: Motion::Fixed { x: 0x3f33_3333, y: 0x3f0c_cccd, z: 0x3e4c_cccd },
            ..score.placed(score.spine + 1, strike, strike.pitch + 12, PLUCKED, sample_rate, holds)
        },
    ]
}

pub open spec fn reference_part(
    score: Score,
    notes: Seq<Strike>,
    phase: Phase,
    sample_rate: u32,
    holds: Seq<i64>,
) -> Seq<Placement>
    decreases notes.len(),
{
    if notes.len() == 0 {
        Seq::empty()
    } else {
        let rest = reference_part(score, notes.drop_last(), phase, sample_rate, holds);
        if is_within(notes.last().tick, phase) {
            rest + twins(score, notes.last(), sample_rate, holds)
        } else {
            rest
        }
    }
}

fn reference(
    score: &Score,
    phase: &Phase,
    sample_rate: u32,
    holds: &Vec<i64>,
    out: &mut Vec<Placement>,
)
    requires
        score.wf(sample_rate),
        are_holds(holds@),
        are_placed(old(out)@, score.slots),
    ensures
        final(out)@ == old(out)@ + reference_part(
            *score,
            score.line(0),
            *phase,
            sample_rate,
            holds@,
        ),
        are_placed(final(out)@, score.slots),
{
    let notes = score.line_strikes(0, Ghost(sample_rate));
    let ghost before = out@;
    let mut at: usize = 0;
    assert(before + reference_part(*score, notes@.take(0), *phase, sample_rate, holds@) =~= before);
    while at < notes.len()
        invariant
            at <= notes.len(),
            score.wf(sample_rate),
            are_holds(holds@),
                are_sound(notes@),
            are_placed(out@, score.slots),
            out@ == before + reference_part(
                *score,
                notes@.take(at as int),
                *phase,
                sample_rate,
                holds@,
            ),
        decreases notes.len() - at,
    {
        let note = notes[at];
        assert(are_sound(notes@) && notes@[at as int] == note);
        proof {
            let so_far = notes@.take(at + 1);
            assert(so_far.last() == note);
            assert(so_far.drop_last() =~= notes@.take(at as int));
        }
        if within(note.tick, phase) {
            let mut left = score.place(
                score.spine,
                &note,
                note.pitch + 12,
                PLUCKED,
                sample_rate,
                holds,
            );
            left.level = TWIN_PEAK;
            left.tracking = ContentHeadTracking::HeadRelative;
            left.motion = Motion::Fixed { x: 0xbf33_3333, y: 0x3f0c_cccd, z: 0x3e4c_cccd };
            let mut right = score.place(
                score.spine + 1,
                &note,
                note.pitch + 12,
                PLUCKED,
                sample_rate,
                holds,
            );
            right.level = TWIN_PEAK;
            right.tracking = ContentHeadTracking::SceneRelative;
            right.motion = Motion::Fixed { x: 0x3f33_3333, y: 0x3f0c_cccd, z: 0x3e4c_cccd };
            let ghost so_far = out@;
            out.push(left);
            out.push(right);
            assert(out@ =~= so_far + twins(*score, note, sample_rate, holds@));
            assert(out@ =~= before + reference_part(
                *score,
                notes@.take(at + 1),
                *phase,
                sample_rate,
                holds@,
            ));
        }
        at = at + 1;
    }
    assert(notes@.take(at as int) =~= notes@);
}

/// Full gain and no sound; every fourth note inactive; and a pair whose gain
/// ramps. `index` counts the notes of the phase.
pub open spec fn ring(
    score: Score,
    index: int,
    strike: Strike,
    sample_rate: u32,
    holds: Seq<i64>,
) -> Seq<Placement> {
    let first = score.spine as int;
    let pair = score.placed(
        first + 2,
        strike,
        strike.pitch - 12,
        CONTINUO,
        sample_rate,
        holds,
    );
    seq![
        Placement {
            level: 0,
            motion: Motion::Fixed { x: 0xbecc_cccd, y: 0x3f40_0000, z: 0x3ee6_6666 },
            ..score.placed(
                first,
                strike,
                strike.pitch as int,
                VIBRAPHONE,
                sample_rate,
                holds,
            )
        },
        Placement {
            timbre: GLOCKENSPIEL,
            level: HALF_PEAK,
            metadata_active: index % 4 != 0,
            motion: Motion::Fixed { x: 0x3ecc_cccd, y: 0x3f40_0000, z: 0x3ee6_6666 },
            ..score.placed(
                first + 1,
                strike,
                strike.pitch as int,
                VIBRAPHONE,
                sample_rate,
                holds,
            )
        },
        Placement {
            level: HALF_PEAK,
            gain: if index % 2 == 0 {
                ONE
            } else {
                QUARTER
            },
            ramp_frames: sample_rate / 4,
            motion: Motion::Fixed { x: 0xbf4c_cccd, y: 0x3e4c_cccd, z: 0xbe99_999a },
            ..pair
        },
        Placement {
            slot: (first + 3) as usize,
            level: HALF_PEAK,
            gain: if (index + 1) % 2 == 0 {
                ONE
            } else {
                QUARTER
            },
            ramp_frames: sample_rate / 4,
            motion: Motion::Fixed { x: 0x3f4c_cccd, y: 0x3e4c_cccd, z: 0xbe99_999a },
            ..pair
        },
    ]
}

/// The notes of the phase that stand before, each with four placements.
pub open spec fn ring_part(
    score: Score,
    notes: Seq<Strike>,
    phase: Phase,
    sample_rate: u32,
    holds: Seq<i64>,
) -> Seq<Placement>
    decreases notes.len(),
{
    if notes.len() == 0 {
        Seq::empty()
    } else {
        let rest = ring_part(score, notes.drop_last(), phase, sample_rate, holds);
        if is_within(notes.last().tick, phase) {
            rest + ring(score, (rest.len() / 4) as int, notes.last(), sample_rate, holds)
        } else {
            rest
        }
    }
}

fn gain_ring(
    score: &Score,
    phase: &Phase,
    sample_rate: u32,
    holds: &Vec<i64>,
    out: &mut Vec<Placement>,
)
    requires
        score.wf(sample_rate),
        are_holds(holds@),
        score.spine + phase.pool_slots <= score.slots,
        are_placed(old(out)@, score.slots),
    ensures
        final(out)@ == old(out)@ + (if phase.pool_slots < 4 {
            Seq::empty()
        } else {
            ring_part(*score, score.line(1), *phase, sample_rate, holds@)
        }),
        are_placed(final(out)@, score.slots),
{
    let ghost before = out@;
    if phase.pool_slots < 4 {
        assert(before + Seq::<Placement>::empty() =~= before);
        return ;
    }
    let notes = score.line_strikes(1, Ghost(sample_rate));
    let mut at: usize = 0;
    let mut index: usize = 0;
    assert(before + ring_part(*score, notes@.take(0), *phase, sample_rate, holds@) =~= before);
    while at < notes.len()
        invariant
            index <= at <= notes.len(),
            score.wf(sample_rate),
            are_holds(holds@),
            score.spine + 4 <= score.slots,
            are_sound(notes@),
            are_placed(out@, score.slots),
            4 * index == ring_part(
                *score,
                notes@.take(at as int),
                *phase,
                sample_rate,
                holds@,
            ).len(),
            out@ == before + ring_part(
                *score,
                notes@.take(at as int),
                *phase,
                sample_rate,
                holds@,
            ),
        decreases notes.len() - at,
    {
        let note = notes[at];
        assert(are_sound(notes@) && notes@[at as int] == note);
        proof {
            let so_far = notes@.take(at + 1);
            assert(so_far.last() == note);
            assert(so_far.drop_last() =~= notes@.take(at as int));
        }
        if within(note.tick, phase) {
            let mut mute = score.place(
                score.spine,
                &note,
                note.pitch,
                VIBRAPHONE,
                sample_rate,
                holds,
            );
            mute.level = 0;
            mute.motion = Motion::Fixed { x: 0xbecc_cccd, y: 0x3f40_0000, z: 0x3ee6_6666 };
            let mut toggled = score.place(
                score.spine + 1,
                &note,
                note.pitch,
                VIBRAPHONE,
                sample_rate,
                holds,
            );
            toggled.timbre = GLOCKENSPIEL;
            toggled.level = HALF_PEAK;
            toggled.metadata_active = index % 4 != 0;
            toggled.motion = Motion::Fixed { x: 0x3ecc_cccd, y: 0x3f40_0000, z: 0x3ee6_6666 };
            let mut left = score.place(
                score.spine + 2,
                &note,
                note.pitch - 12,
                CONTINUO,
                sample_rate,
                holds,
            );
            left.level = HALF_PEAK;
            left.ramp_frames = sample_rate / 4;
            let mut right = left;
            right.slot = score.spine + 3;
            left.gain =
            if index % 2 == 0 {
                ONE
            } else {
                QUARTER
            };
            right.gain =
            if index % 2 == 1 {
                ONE
            } else {
                QUARTER
            };
            left.motion = Motion::Fixed { x: 0xbf4c_cccd, y: 0x3e4c_cccd, z: 0xbe99_999a };
            right.motion = Motion::Fixed { x: 0x3f4c_cccd, y: 0x3e4c_cccd, z: 0xbe99_999a };
            let ghost so_far = out@;
            out.push(mute);
            out.push(toggled);
            out.push(left);
            out.push(right);
            assert(out@ =~= so_far + ring(*score, index as int, note, sample_rate, holds@));
            assert(out@ =~= before + ring_part(
                *score,
                notes@.take(at + 1),
                *phase,
                sample_rate,
                holds@,
            ));
            index = index + 1;
        }
        at = at + 1;
    }
    assert(notes@.take(at as int) =~= notes@);
}

/// What a list of placements is sorted by.
#[derive(Debug, Clone, Copy, PartialEq, Eq, Structural)]
pub enum By {
    Slot,
    Onset,
    Pitch,
}

/// `a` has to stand before `b`: by slot and onset, by onset and slot, or by
/// onset and pitch.
pub open spec fn precedes(by: By, a: Placement, b: Placement) -> bool {
    match by {
        By::Slot => a.slot < b.slot || (a.slot == b.slot && a.onset < b.onset),
        By::Onset => a.onset < b.onset || (a.onset == b.onset && a.slot < b.slot),
        By::Pitch => a.onset < b.onset || (a.onset == b.onset && a.pitch < b.pitch),
    }
}

fn must_precede(by: By, a: &Placement, b: &Placement) -> (r: bool)
    ensures
        r == precedes(by, *a, *b),
{
    match by {
        By::Slot => a.slot < b.slot || (a.slot == b.slot && a.onset < b.onset),
        By::Onset => a.onset < b.onset || (a.onset == b.onset && a.slot < b.slot),
        By::Pitch => a.onset < b.onset || (a.onset == b.onset && a.pitch < b.pitch),
    }
}

/// `p` behind everything that it need not stand before.
pub open spec fn inserted(by: By, sorted: Seq<Placement>, p: Placement) -> Seq<Placement>
    decreases sorted.len(),
{
    if sorted.len() == 0 || !precedes(by, p, sorted.last()) {
        sorted.push(p)
    } else {
        inserted(by, sorted.drop_last(), p).push(sorted.last())
    }
}

/// The placements in order; those that need no order keep the one they had.
pub open spec fn in_order(by: By, placements: Seq<Placement>) -> Seq<Placement>
    decreases placements.len(),
{
    if placements.len() == 0 {
        Seq::empty()
    } else {
        inserted(by, in_order(by, placements.drop_last()), placements.last())
    }
}

/// Nothing stands before what has to precede it.
pub open spec fn is_ordered(by: By, placements: Seq<Placement>) -> bool {
    forall|i: int, j: int|
        0 <= i < j < placements.len() ==> !precedes(
            by,
            #[trigger] placements[j],
            #[trigger] placements[i],
        )
}

proof fn lemma_inserted_at(by: By, sorted: Seq<Placement>, p: Placement, at: int)
    requires
        0 <= at <= sorted.len(),
        at > 0 ==> !precedes(by, p, sorted[at - 1]),
        forall|i: int| at <= i < sorted.len() ==> precedes(by, p, #[trigger] sorted[i]),
    ensures
        inserted(by, sorted, p) == sorted.insert(at, p),
    decreases sorted.len(),
{
    if at < sorted.len() {
        assert(precedes(by, p, sorted[sorted.len() - 1]));
        let front = sorted.drop_last();
        assert forall|i: int| at <= i < front.len() implies precedes(by, p, #[trigger] front[i]) by {
            assert(front[i] == sorted[i]);
        }
        lemma_inserted_at(by, front, p, at);
        assert(front.insert(at, p).push(sorted.last()) =~= sorted.insert(at, p));
    } else {
        assert(sorted.insert(at, p) =~= sorted.push(p));
    }
}

proof fn lemma_inserted(by: By, sorted: Seq<Placement>, p: Placement)
    requires
        is_ordered(by, sorted),
    ensures
        is_ordered(by, inserted(by, sorted, p)),
        inserted(by, sorted, p).len() == sorted.len() + 1,
        inserted(by, sorted, p).to_multiset() == sorted.to_multiset().insert(p),
        forall|x: Placement|
            #[trigger] inserted(by, sorted, p).contains(x) ==> x == p || sorted.contains(x),
    decreases sorted.len(),
{
    broadcast use vstd::seq_lib::group_to_multiset_ensures;

    let all = inserted(by, sorted, p);
    if sorted.len() == 0 || !precedes(by, p, sorted.last()) {
        assert forall|i: int, j: int| 0 <= i < j < all.len() implies !precedes(
            by,
            #[trigger] all[j],
            #[trigger] all[i],
        ) by {
            if j < sorted.len() {
                assert(all[i] == sorted[i] && all[j] == sorted[j]);
            } else {
                assert(all[i] == sorted[i]);
                if i < sorted.len() - 1 {
                    assert(!precedes(by, sorted[sorted.len() - 1], sorted[i]));
                }
            }
        }
        assert forall|x: Placement| #[trigger] all.contains(x) implies x == p || sorted.contains(
            x,
        ) by {
            let k = choose|k: int| 0 <= k < all.len() && all[k] == x;
            if k < sorted.len() {
                assert(sorted[k] == x);
            }
        }
    } else {
        let front = sorted.drop_last();
        let last = sorted.last();
        assert forall|i: int, j: int| 0 <= i < j < front.len() implies !precedes(
            by,
            #[trigger] front[j],
            #[trigger] front[i],
        ) by {
            assert(front[i] == sorted[i] && front[j] == sorted[j]);
        }
        lemma_inserted(by, front, p);
        let rest = inserted(by, front, p);
        assert(all == rest.push(last));
        assert forall|i: int, j: int| 0 <= i < j < all.len() implies !precedes(
            by,
            #[trigger] all[j],
            #[trigger] all[i],
        ) by {
            if j < rest.len() {
                assert(all[i] == rest[i] && all[j] == rest[j]);
            } else {
                assert(all[i] == rest[i]);
                assert(rest.contains(rest[i]));
                if rest[i] != p {
                    let k = choose|k: int| 0 <= k < front.len() && front[k] == rest[i];
                    assert(sorted[k] == rest[i]);
                    assert(!precedes(by, sorted[sorted.len() - 1], sorted[k]));
                }
            }
        }
        assert(sorted =~= front.push(last));
        assert(all.to_multiset() =~= sorted.to_multiset().insert(p));
        assert forall|x: Placement| #[trigger] all.contains(x) implies x == p || sorted.contains(
            x,
        ) by {
            let k = choose|k: int| 0 <= k < all.len() && all[k] == x;
            if k < rest.len() {
                assert(rest[k] == x);
                assert(rest.contains(x));
                if x != p {
                    let m = choose|m: int| 0 <= m < front.len() && front[m] == x;
                    assert(sorted[m] == x);
                }
            } else {
                assert(x == sorted[sorted.len() - 1]);
            }
        }
    }
}

/// Sorting puts the same placements in order.
pub proof fn sorting_orders_the_same_placements(by: By, placements: Seq<Placement>)
    ensures
        is_ordered(by, in_order(by, placements)),
        in_order(by, placements).len() == placements.len(),
        in_order(by, placements).to_multiset() == placements.to_multiset(),
        forall|x: Placement|
            #[trigger] in_order(by, placements).contains(x) ==> placements.contains(x),
    decreases placements.len(),
{
    broadcast use vstd::seq_lib::group_to_multiset_ensures;

    if placements.len() > 0 {
        let front = placements.drop_last();
        sorting_orders_the_same_placements(by, front);
        lemma_inserted(by, in_order(by, front), placements.last());
        assert(placements =~= front.push(placements.last()));
        let all = in_order(by, placements);
        assert forall|x: Placement| #[trigger] all.contains(x) implies placements.contains(x) by {
            if x == placements.last() {
                assert(placements[placements.len() - 1] == x);
            } else {
                assert(in_order(by, front).contains(x));
                assert(front.contains(x));
                let k = choose|k: int| 0 <= k < front.len() && front[k] == x;
                assert(placements[k] == x);
            }
        }
    }
}

proof fn lemma_order_keeps_placed(by: By, placements: Seq<Placement>, slots: usize)
    requires
        are_placed(placements, slots),
    ensures
        are_placed(in_order(by, placements), slots),
{
    sorting_orders_the_same_placements(by, placements);
    let all = in_order(by, placements);
    assert forall|i: int| 0 <= i < all.len() implies is_placed(#[trigger] all[i], slots) by {
        assert(all.contains(all[i]));
        let k = choose|k: int| 0 <= k < placements.len() && placements[k] == all[i];
        assert(is_placed(placements[k], slots));
    }
}

fn sort_by(by: By, placements: &Vec<Placement>) -> (r: Vec<Placement>)
    ensures
        r@ == in_order(by, placements@),
{
    let mut sorted: Vec<Placement> = Vec::new();
    let mut at: usize = 0;
    while at < placements.len()
        invariant
            at <= placements.len(),
            sorted.len() == at,
            sorted@ == in_order(by, placements@.take(at as int)),
        decreases placements.len() - at,
    {
        let p = placements[at];
        proof {
            let so_far = placements@.take(at + 1);
            assert(so_far.last() == p);
            assert(so_far.drop_last() =~= placements@.take(at as int));
        }
        let mut to: usize = sorted.len();
        while to > 0 && must_precede(by, &p, &sorted[to - 1])
            invariant
                to <= sorted.len(),
                forall|i: int| to <= i < sorted.len() ==> precedes(by, p, #[trigger] sorted@[i]),
            decreases to,
        {
            to = to - 1;
        }
        proof {
            lemma_inserted_at(by, sorted@, p, to as int);
        }
        sorted.insert(to, p);
        at = at + 1;
    }
    assert(placements@.take(at as int) =~= placements@);
    sorted
}

/// The slots that a note of its own may take: those of the canon, which has
/// handed its notes over, and those that the music leaves.
pub open spec fn pool_of(score: Score) -> Seq<usize> {
    Seq::new(
        (score.violins + (score.slots - score.spine)) as nat,
        |i: int|
            if i < score.violins {
                i as usize
            } else {
                (score.spine + i - score.violins) as usize
            },
    )
}

fn collect_pool(score: &Score, Ghost(sample_rate): Ghost<u32>) -> (r: Vec<usize>)
    requires
        score.wf(sample_rate),
    ensures
        r@ == pool_of(*score),
        r.len() > 0,
        forall|i: int| 0 <= i < r.len() ==> #[trigger] r@[i] < score.slots,
{
    let mut out: Vec<usize> = Vec::new();
    let mut voice: usize = 0;
    while voice < score.violins
        invariant
            score.wf(sample_rate),
            voice <= score.violins,
            out.len() == voice,
            forall|i: int| 0 <= i < voice ==> #[trigger] out@[i] == i,
        decreases score.violins - voice,
    {
        out.push(voice);
        voice = voice + 1;
    }
    let mut slot: usize = score.spine;
    while slot < score.slots
        invariant
            score.wf(sample_rate),
            score.spine <= slot <= score.slots,
            out.len() == score.violins + (slot - score.spine),
            forall|i: int| 0 <= i < score.violins ==> #[trigger] out@[i] == i,
            forall|i: int|
                score.violins <= i < out.len() ==> #[trigger] out@[i] == score.spine + i
                    - score.violins,
        decreases score.slots - slot,
    {
        out.push(slot);
        slot = slot + 1;
    }
    assert(out@ =~= pool_of(*score));
    out
}

/// The slot that has been free longest; the first of several.
pub open spec fn longest_free(free: Seq<i64>) -> int
    decreases free.len(),
{
    if free.len() <= 1 {
        0
    } else {
        let best = longest_free(free.drop_last());
        if free.last() < free[best] {
            free.len() - 1
        } else {
            best
        }
    }
}

proof fn lemma_longest_free(free: Seq<i64>)
    requires
        free.len() > 0,
    ensures
        0 <= longest_free(free) < free.len(),
        forall|i: int| 0 <= i < free.len() ==> free[longest_free(free)] <= #[trigger] free[i],
    decreases free.len(),
{
    if free.len() > 1 {
        let front = free.drop_last();
        lemma_longest_free(front);
        assert forall|i: int| 0 <= i < free.len() implies free[longest_free(free)]
            <= #[trigger] free[i] by {
            if i < front.len() {
                assert(front[longest_free(front)] <= front[i]);
                assert(front[i] == free[i]);
            }
            assert(front[longest_free(front)] == free[longest_free(front)]);
        }
    }
}

fn find_free(free: &Vec<i64>) -> (r: usize)
    requires
        free.len() > 0,
    ensures
        r == longest_free(free@),
        r < free.len(),
{
    let mut best: usize = 0;
    let mut at: usize = 1;
    while at < free.len()
        invariant
            1 <= at <= free.len(),
            best < at,
            best == longest_free(free@.take(at as int)),
        decreases free.len() - at,
    {
        proof {
            let so_far = free@.take(at + 1);
            assert(so_far.last() == free@[at as int]);
            assert(so_far.drop_last() =~= free@.take(at as int));
            assert(so_far[best as int] == free@[best as int]);
        }
        if free[at] < free[best] {
            best = at;
        }
        at = at + 1;
    }
    assert(free@.take(at as int) =~= free@);
    best
}

/// The pool while the notes of a phase are handed out.
#[verifier::ext_equal]
pub struct PoolState {
    pub free: Seq<i64>,
    pub stolen: nat,
    pub placements: Seq<Placement>,
}

/// A note on the slot of its own.
pub open spec fn keyed(slot: usize, key: Placement) -> Placement {
    Placement { slot, level: KEY_PEAK, motion: Motion::Key { pitch: key.pitch }, ..key }
}

/// Each note takes the slot that has been free longest. One that is not free
/// yet is taken back, which is counted.
pub open spec fn handed_out(keys: Seq<Placement>, pool: Seq<usize>) -> PoolState
    decreases keys.len(),
{
    if keys.len() == 0 {
        PoolState {
            free: Seq::new(pool.len(), |i: int| i64::MIN),
            stolen: 0,
            placements: Seq::empty(),
        }
    } else {
        let before = handed_out(keys.drop_last(), pool);
        let key = keys.last();
        let index = longest_free(before.free);
        PoolState {
            free: before.free.update(index, key.release),
            stolen: before.stolen + (if before.free[index] > key.onset {
                1nat
            } else {
                0nat
            }),
            placements: before.placements.push(keyed(pool[index], key)),
        }
    }
}

/// The notes of a line that fall into the phase, not yet on a slot.
pub open spec fn key_part(
    score: Score,
    notes: Seq<Strike>,
    phase: Phase,
    sample_rate: u32,
    holds: Seq<i64>,
) -> Seq<Placement>
    decreases notes.len(),
{
    if notes.len() == 0 {
        Seq::empty()
    } else {
        let rest = key_part(score, notes.drop_last(), phase, sample_rate, holds);
        let note = notes.last();
        if is_within(note.tick, phase) {
            rest.push(score.placed(0, note, note.pitch as int, HARPSICHORD, sample_rate, holds))
        } else {
            rest
        }
    }
}

/// The notes of all voices in the phase.
pub open spec fn keys_of(
    score: Score,
    voices: nat,
    phase: Phase,
    sample_rate: u32,
    holds: Seq<i64>,
) -> Seq<Placement>
    decreases voices,
{
    if voices == 0 {
        Seq::empty()
    } else {
        keys_of(score, (voices - 1) as nat, phase, sample_rate, holds) + key_part(
            score,
            score.line(voices - 1),
            phase,
            sample_rate,
            holds,
        )
    }
}

/// The keyboard phase: every note on a slot of its own, in the order of onsets.
pub open spec fn keyboard_part(
    score: Score,
    phase: Phase,
    sample_rate: u32,
    holds: Seq<i64>,
) -> PoolState {
    handed_out(
        in_order(By::Pitch, keys_of(score, score.violins as nat, phase, sample_rate, holds)),
        pool_of(score),
    )
}

fn collect_keys(score: &Score, phase: &Phase, sample_rate: u32, holds: &Vec<i64>) -> (r: Vec<
    Placement,
>)
    requires
        score.wf(sample_rate),
        are_holds(holds@),
    ensures
        r@ == keys_of(*score, score.violins as nat, *phase, sample_rate, holds@),
        are_placed(r@, score.slots),
{
    let mut out: Vec<Placement> = Vec::new();
    let mut voice: usize = 0;
    while voice < score.violins
        invariant
            voice <= score.violins,
            score.wf(sample_rate),
            are_holds(holds@),
            are_placed(out@, score.slots),
            out@ == keys_of(*score, voice as nat, *phase, sample_rate, holds@),
        decreases score.violins - voice,
    {
        let notes = score.line_strikes(voice, Ghost(sample_rate));
        let ghost before = out@;
        let mut at: usize = 0;
        assert(before + key_part(*score, notes@.take(0), *phase, sample_rate, holds@) =~= before);
        while at < notes.len()
            invariant
                at <= notes.len(),
                score.wf(sample_rate),
                are_holds(holds@),
                are_sound(notes@),
                are_placed(out@, score.slots),
                out@ == before + key_part(
                    *score,
                    notes@.take(at as int),
                    *phase,
                    sample_rate,
                    holds@,
                ),
            decreases notes.len() - at,
        {
            let note = notes[at];
            assert(are_sound(notes@) && notes@[at as int] == note);
            proof {
                let so_far = notes@.take(at + 1);
                assert(so_far.last() == note);
                assert(so_far.drop_last() =~= notes@.take(at as int));
            }
            if within(note.tick, phase) {
                let key = score.place(0, &note, note.pitch, HARPSICHORD, sample_rate, holds);
                out.push(key);
                assert(out@ =~= before + key_part(
                    *score,
                    notes@.take(at as int),
                    *phase,
                    sample_rate,
                    holds@,
                ).push(key));
            }
            at = at + 1;
        }
        assert(notes@.take(at as int) =~= notes@);
        voice = voice + 1;
    }
    out
}

fn keyboard(
    score: &Score,
    phase: &Phase,
    sample_rate: u32,
    holds: &Vec<i64>,
    out: &mut Vec<Placement>,
) -> (r: usize)
    requires
        score.wf(sample_rate),
        are_holds(holds@),
        are_placed(old(out)@, score.slots),
    ensures
        r == keyboard_part(*score, *phase, sample_rate, holds@).stolen,
        final(out)@ == old(out)@ + keyboard_part(*score, *phase, sample_rate, holds@).placements,
        are_placed(final(out)@, score.slots),
        r <= final(out)@.len() - old(out)@.len(),
{
    let unordered = collect_keys(score, phase, sample_rate, holds);
    let keys = sort_by(By::Pitch, &unordered);
    proof {
        lemma_order_keeps_placed(By::Pitch, unordered@, score.slots);
    }
    let pool = collect_pool(score, Ghost(sample_rate));
    let mut free: Vec<i64> = Vec::new();
    let mut at: usize = 0;
    while at < pool.len()
        invariant
            at <= pool.len(),
            free@ =~= Seq::new(at as nat, |i: int| i64::MIN),
        decreases pool.len() - at,
    {
        free.push(i64::MIN);
        at = at + 1;
    }
    let ghost before = out@;
    let mut stolen: usize = 0;
    let mut next: usize = 0;
    proof {
        assert(keys@.take(0) =~= Seq::<Placement>::empty());
        assert(before + handed_out(keys@.take(0), pool@).placements =~= before);
    }
    while next < keys.len()
        invariant
            next <= keys.len(),
            pool@ == pool_of(*score),
            pool.len() > 0,
            forall|i: int| 0 <= i < pool.len() ==> #[trigger] pool@[i] < score.slots,
            are_placed(keys@, score.slots),
            are_placed(out@, score.slots),
            free.len() == pool.len(),
            stolen <= next,
            free@ == handed_out(keys@.take(next as int), pool@).free,
            stolen == handed_out(keys@.take(next as int), pool@).stolen,
            handed_out(keys@.take(next as int), pool@).placements.len() == next,
            out@ == before + handed_out(keys@.take(next as int), pool@).placements,
        decreases keys.len() - next,
    {
        let key = keys[next];
        assert(is_placed(keys@[next as int], score.slots));
        proof {
            let so_far = keys@.take(next + 1);
            assert(so_far.last() == key);
            assert(so_far.drop_last() =~= keys@.take(next as int));
        }
        let index: usize = find_free(&free);
        if free[index] > key.onset {
            stolen = stolen + 1;
        }
        free.set(index, key.release);
        let mut placement = key;
        placement.slot = pool[index];
        placement.level = KEY_PEAK;
        placement.motion = Motion::Key { pitch: key.pitch };
        out.push(placement);
        assert(out@ =~= before + handed_out(keys@.take(next as int), pool@).placements.push(
            placement,
        ));
        next = next + 1;
    }
    assert(keys@.take(next as int) =~= keys@);
    stolen
}

/// What the phases add to the music, and how often a slot was taken back.
#[verifier::ext_equal]
pub struct Shown {
    pub placements: Seq<Placement>,
    pub stolen: nat,
}

pub open spec fn shown(
    score: Score,
    phases: Seq<Phase>,
    sample_rate: u32,
    holds: Seq<i64>,
) -> Shown
    decreases phases.len(),
{
    if phases.len() == 0 {
        Shown { placements: Seq::empty(), stolen: 0 }
    } else {
        let before = shown(score, phases.drop_last(), sample_rate, holds);
        let phase = phases.last();
        match phase.shows {
            Demonstration::Music => before,
            Demonstration::Reference => Shown {
                placements: before.placements + reference_part(
                    score,
                    score.line(0),
                    phase,
                    sample_rate,
                    holds,
                ),
                ..before
            },
            Demonstration::Keyboard => {
                let keyboard = keyboard_part(score, phase, sample_rate, holds);
                Shown {
                    placements: before.placements + keyboard.placements,
                    stolen: before.stolen + keyboard.stolen,
                }
            },
            Demonstration::GainRing => Shown {
                placements: before.placements + (if phase.pool_slots < 4 {
                    Seq::empty()
                } else {
                    ring_part(score, score.line(1), phase, sample_rate, holds)
                }),
                ..before
            },
        }
    }
}

/// The first phase that gives every note an object of its own.
pub open spec fn keyboard_phase(phases: Seq<Phase>) -> Phase
    decreases phases.len(),
{
    if phases.len() <= 1 || phases[0].per_note {
        phases[0]
    } else {
        keyboard_phase(phases.drop_first())
    }
}

fn find_keyboard(score: &Score, Ghost(sample_rate): Ghost<u32>) -> (r: Phase)
    requires
        score.wf(sample_rate),
    ensures
        r == keyboard_phase(score.phases@),
{
    let mut at: usize = 0;
    assert(score.phases@.skip(0) =~= score.phases@);
    let ghost known = choose|i: int| 0 <= i < score.phases@.len() && (#[trigger] score.phases@[i]).per_note;
    while score.phases.len() - at > 1 && !score.phases[at].per_note
        invariant
            at <= known < score.phases@.len(),
            score.phases@[known].per_note,
            keyboard_phase(score.phases@) == keyboard_phase(score.phases@.skip(at as int)),
        decreases score.phases.len() - at,
    {
        assert(score.phases@.skip(at as int)[0] == score.phases@[at as int]);
        assert(score.phases@.skip(at as int).drop_first() =~= score.phases@.skip(at + 1));
        at = at + 1;
    }
    assert(score.phases@.skip(at as int)[0] == score.phases@[at as int]);
    score.phases[at]
}

/// Every placement before damping: the canon, the ground and what the phases
/// show.
pub open spec fn scored(score: Score, sample_rate: u32, holds: Seq<i64>) -> Seq<Placement> {
    canon(score, score.violins as nat, keyboard_phase(score.phases@), sample_rate, holds)
        + ground_part(score, ground_notes(score), sample_rate, holds) + shown(
        score,
        score.phases@,
        sample_rate,
        holds,
    ).placements
}

/// Each note is damped as the next one on its slot arrives. The placements
/// stand by slot.
pub open spec fn damped(placements: Seq<Placement>, damp: int) -> Seq<Placement> {
    Seq::new(
        placements.len(),
        |i: int|
            if i + 1 < placements.len() && placements[i + 1].slot == placements[i].slot
                && placements[i].release > placements[i + 1].onset + damp {
                Placement { release: (placements[i + 1].onset + damp) as i64, ..placements[i] }
            } else {
                placements[i]
            },
    )
}

/// The latest of a frame and all releases.
pub open spec fn latest(placements: Seq<Placement>, least: int) -> int
    decreases placements.len(),
{
    if placements.len() == 0 {
        least
    } else {
        let rest = latest(placements.drop_last(), least);
        if placements.last().release > rest {
            placements.last().release as int
        } else {
            rest
        }
    }
}

/// The placements of the programme, by onset.
pub open spec fn arranged(score: Score, sample_rate: u32, holds: Seq<i64>, damp: int) -> Seq<
    Placement,
> {
    in_order(By::Onset, damped(in_order(By::Slot, scored(score, sample_rate, holds)), damp))
}

/// The frame of the last bar line.
pub open spec fn notated(score: Score, sample_rate: u32) -> int {
    score.frame(
        (score.bars * (score.ticks_per_beat * score.beats_per_bar)) as int,
        sample_rate,
    )
}

#[derive(Debug)]
pub struct Arrangement {
    pub placements: Vec<Placement>,
    pub duration_frames: u64,
    /// How often a slot of the pool was taken back before its note had faded.
    pub stolen: usize,
}

fn damp_all(placements: &mut Vec<Placement>, damp: i64, Ghost(slots): Ghost<usize>)
    requires
        0 <= damp <= 0x1000_0000_0000_0000,
        are_placed(old(placements)@, slots),
        is_ordered(By::Slot, old(placements)@),
    ensures
        final(placements)@ == damped(old(placements)@, damp as int),
        are_placed(final(placements)@, slots),
{
    let ghost before = placements@;
    let mut index: usize = 1;
    while index < placements.len()
        invariant
            1 <= index,
            index <= placements.len() || placements.len() == 0,
            0 <= damp <= 0x1000_0000_0000_0000,
            placements.len() == before.len(),
            are_placed(before, slots),
            forall|i: int| index - 1 <= i < before.len() ==> #[trigger] placements@[i] == before[i],
            forall|i: int|
                0 <= i < index - 1 ==> #[trigger] placements@[i] == damped(before, damp as int)[i],
        decreases placements.len() - index,
    {
        let previous = placements[index - 1];
        let current = placements[index];
        assert(is_placed(before[index as int], slots));
        assert(is_placed(before[index - 1], slots));
        if current.slot == previous.slot {
            let limit: i64 = current.onset + damp;
            if limit < previous.release {
                let mut shorter = previous;
                shorter.release = limit;
                placements.set(index - 1, shorter);
            }
        }
        index = index + 1;
    }
    assert(placements@ =~= damped(before, damp as int));
    proof {
        let after = placements@;
        assert forall|i: int| 0 <= i < after.len() implies is_placed(#[trigger] after[i], slots) by {
            assert(is_placed(before[i], slots));
            if i + 1 < before.len() {
                assert(is_placed(before[i + 1], slots));
                assert(!precedes(By::Slot, before[i + 1], before[i]));
            }
        }
    }
}

/// Builds the whole programme: every note, on its slot, in its place.
///
/// `holds` says how long each timbre holds its slot, and `damp` how long a note
/// is given to fade when the next one on its slot arrives.
pub fn arrange(score: &Score, sample_rate: u32, holds: &Vec<i64>, damp: i64) -> (r: Arrangement)
    requires
        score.wf(sample_rate),
        are_holds(holds@),
        0 <= damp <= 0x1000_0000_0000_0000,
    ensures
        r.placements@ == arranged(*score, sample_rate, holds@, damp as int),
        r.stolen == shown(*score, score.phases@, sample_rate, holds@).stolen,
        r.duration_frames == latest(r.placements@, notated(*score, sample_rate)),
        are_placed(r.placements@, score.slots),
{
    let keyboard_at = find_keyboard(score, Ghost(sample_rate));
    let mut placements: Vec<Placement> = Vec::new();
    let mut voice: usize = 0;
    while voice < score.violins
        invariant
            voice <= score.violins,
            score.wf(sample_rate),
            are_holds(holds@),
            are_placed(placements@, score.slots),
            placements@ == canon(*score, voice as nat, keyboard_at, sample_rate, holds@),
        decreases score.violins - voice,
    {
        place_voice(score, voice, &keyboard_at, sample_rate, holds, &mut placements);
        voice = voice + 1;
    }
    ground_and_continuo(score, sample_rate, holds, &mut placements);
    let ghost music = placements@;
    let mut stolen: usize = 0;
    let mut at: usize = 0;
    assert(music + shown(*score, score.phases@.take(0), sample_rate, holds@).placements =~= music);
    while at < score.phases.len()
        invariant
            at <= score.phases.len(),
            score.wf(sample_rate),
            are_holds(holds@),
            are_placed(placements@, score.slots),
            stolen <= placements@.len(),
            stolen == shown(*score, score.phases@.take(at as int), sample_rate, holds@).stolen,
            placements@ == music + shown(
                *score,
                score.phases@.take(at as int),
                sample_rate,
                holds@,
            ).placements,
        decreases score.phases.len() - at,
    {
        let phase = score.phases[at];
        let ghost before = placements@;
        proof {
            let so_far = score.phases@.take(at + 1);
            assert(so_far.last() == phase);
            assert(so_far.drop_last() =~= score.phases@.take(at as int));
            assert(score.spine + score.phases@[at as int].pool_slots <= score.slots);
        }
        match phase.shows {
            Demonstration::Music => {},
            Demonstration::Reference => reference(
                score,
                &phase,
                sample_rate,
                holds,
                &mut placements,
            ),
            Demonstration::Keyboard => {
                let taken: usize = keyboard(score, &phase, sample_rate, holds, &mut placements);
                let count: usize = placements.len();
                assert(stolen + taken <= count);
                stolen = stolen + taken;
            },
            Demonstration::GainRing => gain_ring(
                score,
                &phase,
                sample_rate,
                holds,
                &mut placements,
            ),
        }
        assert(placements@ =~= music + shown(
            *score,
            score.phases@.take(at + 1),
            sample_rate,
            holds@,
        ).placements);
        at = at + 1;
    }
    assert(score.phases@.take(at as int) =~= score.phases@);
    assert(placements@ =~= scored(*score, sample_rate, holds@));
    let mut by_slot = sort_by(By::Slot, &placements);
    proof {
        lemma_order_keeps_placed(By::Slot, placements@, score.slots);
        sorting_orders_the_same_placements(By::Slot, placements@);
    }
    damp_all(&mut by_slot, damp, Ghost(score.slots));
    let sorted = sort_by(By::Onset, &by_slot);
    proof {
        lemma_order_keeps_placed(By::Onset, by_slot@, score.slots);
        lemma_mul_nonnegative(score.ticks_per_beat as int, score.beats_per_bar as int);
        lemma_mul_nonnegative(
            score.bars as int,
            (score.ticks_per_beat * score.beats_per_bar) as int,
        );
        lemma_frame_bounds(
            *score,
            (score.bars * (score.ticks_per_beat * score.beats_per_bar)) as int,
            sample_rate,
        );
    }
    let bar: u32 = score.ticks_per_beat * score.beats_per_bar;
    let end: i64 = frame_of(score, score.bars as u64 * bar as u64, sample_rate);
    let mut duration: i64 = end;
    let mut next: usize = 0;
    while next < sorted.len()
        invariant
            next <= sorted.len(),
            0 <= end <= duration,
            end == notated(*score, sample_rate),
            duration == latest(sorted@.take(next as int), notated(*score, sample_rate)),
        decreases sorted.len() - next,
    {
        proof {
            let so_far = sorted@.take(next + 1);
            assert(so_far.last() == sorted@[next as int]);
            assert(so_far.drop_last() =~= sorted@.take(next as int));
        }
        if sorted[next].release > duration {
            duration = sorted[next].release;
        }
        next = next + 1;
    }
    assert(sorted@.take(next as int) =~= sorted@);
    Arrangement { placements: sorted, duration_frames: duration as u64, stolen }
}

/// One stroke on the first beat of a bar: on the ground's first or fifth note,
/// an octave down.
pub open spec fn bed_stroke(score: Score, index: int, sample_rate: u32) -> (i64, u8) {
    let pitch = score.ground@[(index % 2) * 4].pitch;
    (
        score.frame(
            index * (score.ticks_per_beat * score.beats_per_bar),
            sample_rate,
        ) as i64,
        if pitch < 12 {
            0
        } else {
            (pitch - 12) as u8
        },
    )
}

/// The bed: one stroke per bar.
pub fn lfe_onsets(score: &Score, sample_rate: u32) -> (r: Vec<(i64, u8)>)
    requires
        score.wf(sample_rate),
    ensures
        r@ == Seq::new(score.bars as nat, |i: int| bed_stroke(*score, i, sample_rate)),
{
    proof {
        lemma_mul_nonnegative(score.ticks_per_beat as int, score.beats_per_bar as int);
    }
    let bar: u32 = score.ticks_per_beat * score.beats_per_bar;
    let mut out: Vec<(i64, u8)> = Vec::new();
    let mut index: u32 = 0;
    while index < score.bars
        invariant
            index <= score.bars,
            score.wf(sample_rate),
            bar == score.ticks_per_beat * score.beats_per_bar,
            out@ =~= Seq::new(index as nat, |i: int| bed_stroke(*score, i, sample_rate)),
        decreases score.bars - index,
    {
        proof {
            lemma_mul_inequality(index as int, score.bars as int, bar as int);
            lemma_mul_nonnegative(index as int, bar as int);
            lemma_frame_bounds(*score, index * bar, sample_rate);
        }
        let half: usize = (index % 2) as usize * 4;
        let pitch: u8 = score.ground[half].pitch;
        let lower: u8 = if pitch < 12 {
            0
        } else {
            pitch - 12
        };
        let onset: i64 = frame_of(score, index as u64 * bar as u64, sample_rate);
        out.push((onset, lower));
        index = index + 1;
    }
    out
}

/// The element that a slot is for the whole programme.
pub fn element_id(slot: usize) -> (r: u64)
    requires
        slot < u64::MAX,
    ensures
        r == slot + 1,
{
    slot as u64 + 1
}

/// What a placement declares at one instant, at the position that its motion
/// has led to.
pub fn state_of(placement: &Placement, x: u32, y: u32, z: u32) -> (r: SpatialObjectState)
    ensures
        r == (SpatialObjectState {
            metadata_active: placement.metadata_active,
            position: Some(
                SpatialPosition { x: Level::Exact(x), y: Level::Exact(y), z: Level::Exact(z) },
            ),
            linear_gain: Some(Level::Exact(placement.gain)),
            semantic_complete: true,
            tracking: placement.tracking,
        }),
{
    SpatialObjectState::new(
        placement.metadata_active,
        Some(SpatialPosition::new(Level::Exact(x), Level::Exact(y), Level::Exact(z))),
        Some(Level::Exact(placement.gain)),
        true,
    ).with_tracking(placement.tracking)
}

/// A slot that is idle: present, silent, and saying so.
pub fn idle_state() -> (r: SpatialObjectState)
    ensures
        r == (SpatialObjectState {
            metadata_active: false,
            position: Some(
                SpatialPosition { x: Level::Exact(0), y: Level::Exact(0), z: Level::Exact(0) },
            ),
            linear_gain: Some(Level::Exact(0)),
            semantic_complete: true,
            tracking: ContentHeadTracking::SceneRelative,
        }),
{
    SpatialObjectState::new(
        false,
        Some(SpatialPosition::new(Level::Exact(0), Level::Exact(0), Level::Exact(0))),
        Some(Level::Exact(0)),
        true,
    ).with_tracking(ContentHeadTracking::SceneRelative)
}

/// The bed's state: always on, at unity, with no position of its own.
pub fn bed_state() -> (r: SpatialObjectState)
    ensures
        r == (SpatialObjectState {
            metadata_active: true,
            position: None,
            linear_gain: Some(Level::Exact(ONE)),
            semantic_complete: true,
            tracking: ContentHeadTracking::Unspecified,
        }),
{
    SpatialObjectState::new(true, None, Some(Level::Exact(ONE)), true)
}

/// An update of everything that the programme declares.
pub fn update(element: u64, offset_frames: u32, ramp_frames: u32, state: SpatialObjectState) -> (r:
    SceneMetadataUpdate)
    ensures
        r.element_id == element,
        r.offset_frames == offset_frames,
        r.ramp_frames == ramp_frames,
        r.changed_fields == FIELD_ACTIVE + FIELD_GAIN + FIELD_POSITION + FIELD_HEAD_TRACKING,
        r.state == state,
{
    SceneMetadataUpdate::new(
        element,
        offset_frames,
        ramp_frames,
        FIELD_ACTIVE + FIELD_GAIN + FIELD_POSITION + FIELD_HEAD_TRACKING,
        state,
    )
}

pub fn object(slot: usize, state: SpatialObjectState, samples: Vec<u32>) -> (r: SceneObjectPcm)
    requires
        slot < u64::MAX,
    ensures
        r == (SceneObjectPcm {
            element_id: (slot + 1) as u64,
            initial_state: Some(state),
            samples,
        }),
{
    SceneObjectPcm::new(element_id(slot), Some(state), samples)
}

pub fn lfe(state: SpatialObjectState, samples: Vec<u32>) -> (r: SceneLfePcm)
    ensures
        r == (SceneLfePcm { element_id: LFE_ELEMENT_ID, initial_state: Some(state), samples }),
{
    SceneLfePcm::new(LFE_ELEMENT_ID, Some(state), samples)
}

/// One block of the programme.
pub fn block(
    sample_rate: u32,
    start_frame: i64,
    duration_frames: u32,
    objects: Vec<SceneObjectPcm>,
    bed: Option<SceneLfePcm>,
    updates: Vec<SceneMetadataUpdate>,
) -> (r: DecodedSceneBlock)
    ensures
        r == (DecodedSceneBlock {
            sample_rate,
            start_frame,
            duration_frames,
            configuration_generation: 0,
            presentation_index: 0,
            presentation_id: Some(0),
            state_complete: true,
            objects,
            lfe: bed,
            metadata_updates: updates,
        }),
{
    DecodedSceneBlock::new(
        sample_rate,
        start_frame,
        duration_frames,
        0,
        0,
        Some(0),
        true,
        objects,
        bed,
        updates,
    )
}

/// The programme runs until the last note has rung out, and at least to the
/// last bar line.
pub proof fn the_programme_outlasts_every_note(placements: Seq<Placement>, least: int)
    ensures
        latest(placements, least) >= least,
        forall|i: int|
            0 <= i < placements.len() ==> latest(placements, least) >= (
            #[trigger] placements[i]).release,
        latest(placements, least) == least || exists|i: int|
            0 <= i < placements.len() && (#[trigger] placements[i]).release == latest(
                placements,
                least,
            ),
    decreases placements.len(),
{
    if placements.len() > 0 {
        let front = placements.drop_last();
        the_programme_outlasts_every_note(front, least);
        assert forall|i: int| 0 <= i < placements.len() implies latest(placements, least) >= (
        #[trigger] placements[i]).release by {
            if i < front.len() {
                assert(front[i] == placements[i]);
            }
        }
        if latest(placements, least) != least {
            if latest(placements, least) == latest(front, least) {
                let k = choose|k: int|
                    0 <= k < front.len() && (#[trigger] front[k]).release == latest(front, least);
                assert(placements[k].release == latest(placements, least));
            } else {
                assert(placements[placements.len() - 1].release == latest(placements, least));
            }
        }
    }
}

/// The placements of a programme come by onset.
pub proof fn placements_come_by_onset(score: Score, sample_rate: u32, holds: Seq<i64>, damp: int)
    ensures
        is_ordered(By::Onset, arranged(score, sample_rate, holds, damp)),
        arranged(score, sample_rate, holds, damp).len() == scored(score, sample_rate, holds).len(),
{
    let by_slot = in_order(By::Slot, scored(score, sample_rate, holds));
    sorting_orders_the_same_placements(By::Slot, scored(score, sample_rate, holds));
    sorting_orders_the_same_placements(By::Onset, damped(by_slot, damp));
}

/// An object that carries a line is one instrument: a note has faded once the
/// next one on its slot has sounded for the time of a damping.
pub proof fn a_note_is_damped_as_the_next_arrives(placements: Seq<Placement>, damp: int, i: int)
    requires
        0 <= i,
        i + 1 < placements.len(),
        placements[i].slot == placements[i + 1].slot,
        i64::MIN <= placements[i + 1].onset + damp <= i64::MAX,
    ensures
        damped(placements, damp)[i].release <= placements[i + 1].onset + damp,
        damped(placements, damp)[i].release <= placements[i].release,
        damped(placements, damp)[i].onset == placements[i].onset,
{
}

proof fn lemma_pool_distinct(score: Score, i: int, j: int)
    requires
        score.violins <= score.spine <= score.slots,
        0 <= i < j < pool_of(score).len(),
    ensures
        pool_of(score)[i] != pool_of(score)[j],
{
}

/// The slots of the pool are never double-booked as far as it goes: what is on
/// a slot has been released by the time that the pool says.
proof fn lemma_handed_out(keys: Seq<Placement>, score: Score)
    requires
        score.violins <= score.spine < score.slots,
        is_ordered(By::Pitch, keys),
        forall|i: int| 0 <= i < keys.len() ==> (#[trigger] keys[i]).onset <= keys[i].release,
        handed_out(keys, pool_of(score)).stolen == 0,
    ensures
        ({
            let state = handed_out(keys, pool_of(score));
            let pool = pool_of(score);
            &&& state.free.len() == pool.len()
            &&& state.placements.len() == keys.len()
            &&& forall|i: int, k: int|
                0 <= i < state.placements.len() && 0 <= k < pool.len() && (
                #[trigger] state.placements[i]).slot == #[trigger] pool[k]
                    ==> state.placements[i].release <= state.free[k]
            &&& forall|i: int|
                0 <= i < state.placements.len() ==> (#[trigger] state.placements[i]).onset
                    == keys[i].onset && state.placements[i].release == keys[i].release
            &&& forall|i: int, j: int|
                0 <= i < j < state.placements.len() && (#[trigger] state.placements[i]).slot == (
                #[trigger] state.placements[j]).slot ==> state.placements[i].release
                    <= state.placements[j].onset
        }),
    decreases keys.len(),
{
    if keys.len() > 0 {
        let front = keys.drop_last();
        let pool = pool_of(score);
        assert forall|i: int, j: int| 0 <= i < j < front.len() implies !precedes(
            By::Pitch,
            #[trigger] front[j],
            #[trigger] front[i],
        ) by {
            assert(front[i] == keys[i] && front[j] == keys[j]);
        }
        assert forall|i: int| 0 <= i < front.len() implies (#[trigger] front[i]).onset
            <= front[i].release by {
            assert(front[i] == keys[i]);
        }
        let before = handed_out(front, pool);
        let state = handed_out(keys, pool);
        assert(before.stolen == 0);
        lemma_handed_out(front, score);
        let key = keys.last();
        assert(key == keys[keys.len() - 1]);
        lemma_longest_free(before.free);
        let index = longest_free(before.free);
        assert(before.free[index] <= key.onset);
        let last = keyed(pool[index], key);
        assert(state.placements == before.placements.push(last));
        assert forall|i: int, k: int|
            0 <= i < state.placements.len() && 0 <= k < pool.len() && (
            #[trigger] state.placements[i]).slot
                == #[trigger] pool[k] implies state.placements[i].release <= state.free[k] by {
            if i < before.placements.len() {
                assert(before.placements[i].slot == pool[k]);
                assert(before.placements[i].release <= before.free[k]);
            } else {
                if k < index {
                    lemma_pool_distinct(score, k, index);
                } else if index < k {
                    lemma_pool_distinct(score, index, k);
                }
            }
        }
        assert forall|i: int| 0 <= i < state.placements.len() implies (
        #[trigger] state.placements[i]).onset == keys[i].onset && state.placements[i].release
            == keys[i].release by {
            if i < before.placements.len() {
                assert(state.placements[i] == before.placements[i]);
                assert(front[i] == keys[i]);
            }
        }
        assert forall|i: int, j: int|
            0 <= i < j < state.placements.len() && (#[trigger] state.placements[i]).slot == (
            #[trigger] state.placements[j]).slot implies state.placements[i].release
            <= state.placements[j].onset by {
            assert(state.placements[i] == before.placements[i]);
            if j < before.placements.len() {
                assert(state.placements[j] == before.placements[j]);
            } else {
                assert(before.placements[i].slot == pool[index]);
            }
        }
    }
}

/// In the keyboard phase a tail is never dragged to another position: as long
/// as no slot had to be taken back, a slot is free before its next note starts.
pub proof fn a_ringing_key_is_left_where_it_was_struck(
    score: Score,
    phase: Phase,
    sample_rate: u32,
    holds: Seq<i64>,
    i: int,
    j: int,
)
    requires
        score.wf(sample_rate),
        are_holds(holds),
        keyboard_part(score, phase, sample_rate, holds).stolen == 0,
        0 <= i < j < keyboard_part(score, phase, sample_rate, holds).placements.len(),
        keyboard_part(score, phase, sample_rate, holds).placements[i].slot == keyboard_part(
            score,
            phase,
            sample_rate,
            holds,
        ).placements[j].slot,
    ensures
        keyboard_part(score, phase, sample_rate, holds).placements[i].release <= keyboard_part(
            score,
            phase,
            sample_rate,
            holds,
        ).placements[j].onset,
{
    let unordered = keys_of(score, score.violins as nat, phase, sample_rate, holds);
    lemma_keys_placed(score, score.violins as nat, phase, sample_rate, holds);
    let keys = in_order(By::Pitch, unordered);
    sorting_orders_the_same_placements(By::Pitch, unordered);
    lemma_order_keeps_placed(By::Pitch, unordered, score.slots);
    assert forall|k: int| 0 <= k < keys.len() implies (#[trigger] keys[k]).onset
        <= keys[k].release by {
        assert(is_placed(keys[k], score.slots));
    }
    lemma_handed_out(keys, score);
}

proof fn lemma_line_sound(score: Score, voice: int, sample_rate: u32)
    requires
        score.wf(sample_rate),
        0 <= voice < score.canon_entries@.len(),
    ensures
        are_sound(score.line(voice)),
{
    let notes = score.line(voice);
    assert forall|i: int| 0 <= i < notes.len() implies (#[trigger] notes[i]).tick <= LAST_TICK
        && 12 <= notes[i].pitch <= 200 by {
        assert(12 <= score.canon_line@[i].pitch <= 200);
    }
}

proof fn lemma_key_part_placed(
    score: Score,
    notes: Seq<Strike>,
    phase: Phase,
    sample_rate: u32,
    holds: Seq<i64>,
)
    requires
        score.wf(sample_rate),
        are_holds(holds),
        are_sound(notes),
    ensures
        are_placed(key_part(score, notes, phase, sample_rate, holds), score.slots),
    decreases notes.len(),
{
    if notes.len() > 0 {
        let front = notes.drop_last();
        assert forall|i: int| 0 <= i < front.len() implies (#[trigger] front[i]).tick <= LAST_TICK
            && 12 <= front[i].pitch <= 200 by {
            assert(front[i] == notes[i]);
        }
        lemma_key_part_placed(score, front, phase, sample_rate, holds);
        assert(notes.last() == notes[notes.len() - 1]);
        lemma_frame_bounds(score, notes.last().tick as int, sample_rate);
        assert(0 <= holds[HARPSICHORD as int] <= 0x2000_0000_0000_0000);
    }
}

proof fn lemma_keys_placed(
    score: Score,
    voices: nat,
    phase: Phase,
    sample_rate: u32,
    holds: Seq<i64>,
)
    requires
        score.wf(sample_rate),
        are_holds(holds),
        voices <= score.violins,
    ensures
        are_placed(keys_of(score, voices, phase, sample_rate, holds), score.slots),
    decreases voices,
{
    if voices > 0 {
        lemma_keys_placed(score, (voices - 1) as nat, phase, sample_rate, holds);
        lemma_line_sound(score, voices - 1, sample_rate);
        lemma_key_part_placed(score, score.line(voices - 1), phase, sample_rate, holds);
    }
}

/// The notes of D major.
pub open spec fn is_in_key(pitch: int) -> bool {
    let above = (pitch - 2) % 12;
    above == 0 || above == 2 || above == 4 || above == 5 || above == 7 || above == 9 || above == 11
}

/// A step leads from a note of the key to the next one above it, and steps add up. A note
/// outside the key counts as the keynote below it.
pub proof fn a_step_leads_to_the_next_note_of_the_key(pitch: int, between: int, a: int, b: int)
    requires
        0 <= a <= 7,
        0 <= b <= 7,
    ensures
        is_in_key(pitch) ==> steps_above(pitch, 0) == pitch,
        is_in_key(pitch) ==> is_in_key(steps_above(pitch, a)),
        is_in_key(pitch) ==> steps_above(pitch, 1) > pitch,
        is_in_key(pitch) && pitch < between < steps_above(pitch, 1) ==> !is_in_key(between),
        is_in_key(pitch) ==> steps_above(steps_above(pitch, a), b) == steps_above(pitch, a + b),
        !is_in_key(pitch) ==> steps_above(pitch, a) == steps_above(pitch - (pitch - 2) % 12, a),
{
    let class = (pitch - 2) % 12;
    assert(class_of(pitch) == class);
    let higher = steps_above(pitch, a);
    let target = degree_of(class) + a;
    assert(higher == pitch - class + scale_step(target % 7) + 12 * (target / 7));
    assert((pitch - class - 2) % 12 == 0);
    assert((higher - 2) % 12 == scale_step(target % 7));
    assert(class_of(higher) == scale_step(target % 7));
    assert(degree_of(class_of(higher)) == target % 7);
    assert(class_of(pitch - class) == 0);
}

/// A tick lasts a minute, divided by the ticks of all the beats in it: its frame is the last
/// one that does not lie behind it.
pub proof fn a_frame_is_the_last_before_its_tick(score: Score, tick: int, sample_rate: u32)
    requires
        score.tempo_bpm > 0,
        score.ticks_per_beat > 0,
        tick >= 0,
    ensures
        score.frame(tick, sample_rate) * (score.tempo_bpm * score.ticks_per_beat) <= tick
            * sample_rate * 60,
        tick * sample_rate * 60 < (score.frame(tick, sample_rate) + 1) * (score.tempo_bpm
            * score.ticks_per_beat),
{
    let d = (score.tempo_bpm * score.ticks_per_beat) as int;
    let n = tick * sample_rate * 60;
    assert(d > 0) by (nonlinear_arith)
        requires
            d == score.tempo_bpm * score.ticks_per_beat,
            score.tempo_bpm > 0,
            score.ticks_per_beat > 0,
    ;
    lemma_fundamental_div_mod(n, d);
    lemma_mod_bound(n, d);
    let q = n / d;
    assert(d * q == q * d && (q + 1) * d == q * d + d) by (nonlinear_arith);
}

/// Every voice of the canon plays the same line, each from its own entry, and goes on with a
/// tail of its own once the line is over.
pub proof fn every_voice_imitates_the_line(score: Score, voice: int, other: int, i: int)
    requires
        0 <= voice < score.canon_entries@.len(),
        0 <= other < score.canon_entries@.len(),
    ensures
        0 <= i < score.canon_line@.len() ==> {
            &&& score.voice(voice)[i].pitch == score.canon_line@[i].pitch
            &&& score.voice(voice)[i].tick == score.canon_entries@[voice]
                + score.canon_line@[i].onset
            &&& score.voice(voice)[i].tick - score.voice(other)[i].tick
                == score.canon_entries@[voice] - score.canon_entries@[other]
            &&& score.line(voice)[i] == score.voice(voice)[i]
        },
        0 <= i < score.canon_tails@[voice]@.len() ==> {
            let strike = score.voice(voice)[score.canon_line@.len() + i];
            &&& strike.pitch == score.canon_tails@[voice]@[i].pitch
            &&& strike.tick == score.canon_entries@[voice] + score.canon_line_ticks
                + score.canon_tails@[voice]@[i].onset
        },
        score.voice(voice).len() == score.canon_line@.len() + score.canon_tails@[voice]@.len(),
        score.line(voice).len() == score.canon_line@.len(),
{
}

/// A note of the canon circles from its voice on its voice's own slot, with its voice's own
/// timbre, at full gain, while the timbre holds. It is left out while the keyboard plays.
pub proof fn a_voice_plays_on_its_own_slot(
    score: Score,
    voice: int,
    notes: Seq<Strike>,
    strike: Strike,
    keyboard: Phase,
    sample_rate: u32,
    holds: Seq<i64>,
)
    requires
        score.wf(sample_rate),
        are_holds(holds),
        0 <= voice < 3,
        strike.tick <= LAST_TICK,
    ensures
        ({
            let before = canon_part(score, voice, notes, keyboard, sample_rate, holds);
            let after = canon_part(score, voice, notes.push(strike), keyboard, sample_rate, holds);
            let p = after.last();
            &&& keyboard.first <= strike.tick < keyboard.last ==> after == before
            &&& !(keyboard.first <= strike.tick < keyboard.last) ==> {
                &&& after.len() == before.len() + 1
                &&& after.drop_last() == before
                &&& p.slot == voice
                &&& p.timbre == voice
                &&& p.pitch == strike.pitch
                &&& p.onset == score.frame(strike.tick as int, sample_rate)
                &&& p.release - p.onset == holds[voice]
                &&& p.motion == (Motion::Orbit { voice: voice as usize, pitch: strike.pitch })
                &&& p.level == 0x3e00_0000
                &&& p.gain == 0x3f80_0000
                &&& p.ramp_frames == 0
                &&& p.metadata_active
                &&& p.tracking is SceneRelative
            }
        }),
        canon_part(score, voice, Seq::empty(), keyboard, sample_rate, holds).len() == 0,
{
    lemma_frame_bounds(score, strike.tick as int, sample_rate);
    assert(0 <= holds[voice] <= 0x2000_0000_0000_0000);
    let before = canon_part(score, voice, notes, keyboard, sample_rate, holds);
    let after = canon_part(score, voice, notes.push(strike), keyboard, sample_rate, holds);
    assert(notes.push(strike).drop_last() =~= notes);
    if !(keyboard.first <= strike.tick < keyboard.last) {
        assert(after.drop_last() =~= before);
    }
}

/// A note of the ground is a triad: the bass on a slot of its own, and the third and the
/// fifth an octave higher on the last two slots of the music, left and right of the
/// listener.
pub proof fn the_ground_is_played_in_triads(
    score: Score,
    strike: Strike,
    sample_rate: u32,
    holds: Seq<i64>,
)
    requires
        score.wf(sample_rate),
        are_holds(holds),
        strike.tick <= LAST_TICK,
        12 <= strike.pitch <= 200,
    ensures
        ({
            let chord = ground_chord(score, strike, sample_rate, holds);
            &&& chord.len() == 3
            &&& forall|i: int|
                0 <= i < 3 ==> {
                    &&& (#[trigger] chord[i]).onset == score.frame(strike.tick as int, sample_rate)
                    &&& chord[i].motion is Fixed
                    &&& chord[i].metadata_active
                    &&& chord[i].gain == 0x3f80_0000
                    &&& chord[i].ramp_frames == 0
                    &&& chord[i].tracking is SceneRelative
                }
            &&& chord[0].slot == 3
            &&& chord[1].slot == score.spine - 2
            &&& chord[2].slot == score.spine - 1
            &&& chord[0].pitch == strike.pitch
            &&& chord[1].pitch == steps_above(strike.pitch as int, 2) + 12
            &&& chord[2].pitch == steps_above(strike.pitch as int, 4) + 12
            &&& chord[0].timbre == 3
            &&& chord[1].timbre == 4
            &&& chord[2].timbre == 4
            &&& chord[0].release - chord[0].onset == holds[3]
            &&& chord[1].release - chord[1].onset == holds[4]
            &&& chord[2].release == chord[1].release
            &&& chord[1].level == chord[2].level < chord[0].level == 0x3e00_0000
            &&& chord[0].motion->Fixed_x == 0
            &&& chord[1].motion->Fixed_x == 0x8000_0000 + chord[2].motion->Fixed_x
            &&& chord[2].motion->Fixed_x < 0x8000_0000
            &&& chord[1].motion->Fixed_y == chord[2].motion->Fixed_y
            &&& chord[1].motion->Fixed_z == chord[2].motion->Fixed_z
        }),
{
    lemma_frame_bounds(score, strike.tick as int, sample_rate);
    assert(0 <= holds[3] <= 0x2000_0000_0000_0000);
    assert(0 <= holds[4] <= 0x2000_0000_0000_0000);
    assert(0 <= steps_above(strike.pitch as int, 2) <= strike.pitch + 12);
    assert(0 <= steps_above(strike.pitch as int, 4) <= strike.pitch + 12);
}

/// The chords of the ground come in the order of its notes, three placements for each.
pub proof fn each_ground_note_adds_its_chord(
    score: Score,
    notes: Seq<Strike>,
    strike: Strike,
    sample_rate: u32,
    holds: Seq<i64>,
)
    ensures
        ({
            let before = ground_part(score, notes, sample_rate, holds);
            let after = ground_part(score, notes.push(strike), sample_rate, holds);
            &&& after.take(before.len() as int) == before
            &&& after.skip(before.len() as int) == ground_chord(score, strike, sample_rate, holds)
            &&& before.len() == 3 * notes.len()
        }),
    decreases notes.len(),
{
    let before = ground_part(score, notes, sample_rate, holds);
    let after = ground_part(score, notes.push(strike), sample_rate, holds);
    assert(notes.push(strike).drop_last() =~= notes);
    assert(after.take(before.len() as int) =~= before);
    assert(after.skip(before.len() as int) =~= ground_chord(score, strike, sample_rate, holds));
    if notes.len() > 0 {
        each_ground_note_adds_its_chord(
            score,
            notes.drop_last(),
            notes.last(),
            sample_rate,
            holds,
        );
        assert(notes.drop_last().push(notes.last()) =~= notes);
    }
}

/// The ground is repeated, statement after statement, and its coda follows the last one.
pub proof fn the_ground_repeats_statement_after_statement(
    score: Score,
    repeats: nat,
    statement: int,
    i: int,
)
    requires
        0 <= statement < repeats,
        0 <= i < score.ground@.len(),
        repeats * score.ticks_per_statement <= 0x2_0000_0000,
    ensures
        ground_line(score, repeats).len() == repeats * score.ground@.len(),
        0 <= statement * score.ground@.len() + i < ground_line(score, repeats).len(),
        ({
            let strike = ground_line(score, repeats)[statement * score.ground@.len() + i];
            &&& strike.pitch == score.ground@[i].pitch
            &&& strike.tick == statement * score.ticks_per_statement + score.ground@[i].onset
        }),
    decreases repeats,
{
    let n = score.ground@.len();
    let t = score.ticks_per_statement as int;
    let before = (repeats - 1) as nat;
    assert(before * t <= repeats * t && before * t >= 0) by (nonlinear_arith)
        requires
            before == repeats - 1,
            repeats >= 1,
            t >= 0,
    ;
    assert(repeats * n == before * n + n) by (nonlinear_arith)
        requires
            before == repeats - 1,
    ;
    if statement < before {
        the_ground_repeats_statement_after_statement(score, before, statement, i);
    } else {
        assert(statement == before);
        lemma_ground_length(score, before);
    }
    lemma_ground_length(score, before);
}

proof fn lemma_ground_length(score: Score, repeats: nat)
    ensures
        ground_line(score, repeats).len() == repeats * score.ground@.len(),
    decreases repeats,
{
    let n = score.ground@.len();
    if repeats > 0 {
        let before = (repeats - 1) as nat;
        lemma_ground_length(score, before);
        assert(repeats * n == before * n + n) by (nonlinear_arith)
            requires
                before == repeats - 1,
        ;
    } else {
        assert(0 * n == 0) by (nonlinear_arith);
    }
}

/// The coda starts where the last statement is over.
pub proof fn the_coda_follows_the_last_statement(score: Score, i: int)
    requires
        0 <= i < score.ground_coda@.len(),
        score.ground_repeats * score.ticks_per_statement <= 0x2_0000_0000,
    ensures
        ({
            let strike = ground_notes(score)[ground_line(
                score,
                score.ground_repeats as nat,
            ).len() + i];
            &&& strike.pitch == score.ground_coda@[i].pitch
            &&& strike.tick == score.ground_repeats * score.ticks_per_statement
                + score.ground_coda@[i].onset
        }),
        ground_notes(score).len() == ground_line(score, score.ground_repeats as nat).len()
            + score.ground_coda@.len(),
        ground_notes(score).take(ground_line(score, score.ground_repeats as nat).len() as int)
            == ground_line(score, score.ground_repeats as nat),
{
    let line = ground_line(score, score.ground_repeats as nat);
    assert(score.ground_repeats * score.ticks_per_statement >= 0) by (nonlinear_arith);
    assert(ground_notes(score).take(line.len() as int) =~= line);
}

/// The twins are one note at two places that mirror each other, on the first two slots of the
/// pool: the left one turns with the head, and the right one stays in the scene. In every
/// other respect they are alike.
pub proof fn the_twins_differ_in_their_reference(
    score: Score,
    strike: Strike,
    sample_rate: u32,
    holds: Seq<i64>,
)
    requires
        score.wf(sample_rate),
        are_holds(holds),
        strike.tick <= LAST_TICK,
        strike.pitch <= 200,
    ensures
        ({
            let pair = twins(score, strike, sample_rate, holds);
            let left = pair[0];
            let right = pair[1];
            &&& pair.len() == 2
            &&& left.tracking is HeadRelative
            &&& right.tracking is SceneRelative
            &&& left.slot == score.spine
            &&& right.slot == score.spine + 1
            &&& left.motion is Fixed && right.motion is Fixed
            &&& right.motion->Fixed_x < 0x8000_0000
            &&& left.motion->Fixed_x == 0x8000_0000 + right.motion->Fixed_x
            &&& left == Placement {
                slot: left.slot,
                tracking: left.tracking,
                motion: Motion::Fixed {
                    x: left.motion->Fixed_x,
                    y: right.motion->Fixed_y,
                    z: right.motion->Fixed_z,
                },
                ..right
            }
            &&& left.pitch == strike.pitch + 12
            &&& left.onset == score.frame(strike.tick as int, sample_rate)
            &&& left.release - left.onset == holds[0]
            &&& left.timbre == 0
            &&& left.gain == 0x3f80_0000
            &&& left.metadata_active
        }),
{
    lemma_frame_bounds(score, strike.tick as int, sample_rate);
    assert(0 <= holds[0] <= 0x2000_0000_0000_0000);
}

/// Every note of a phase has its twins, and no other note.
pub proof fn a_note_of_the_phase_has_its_twins(
    score: Score,
    notes: Seq<Strike>,
    strike: Strike,
    phase: Phase,
    sample_rate: u32,
    holds: Seq<i64>,
)
    ensures
        ({
            let before = reference_part(score, notes, phase, sample_rate, holds);
            let after = reference_part(score, notes.push(strike), phase, sample_rate, holds);
            &&& phase.first <= strike.tick < phase.last ==> after == before + twins(
                score,
                strike,
                sample_rate,
                holds,
            )
            &&& !(phase.first <= strike.tick < phase.last) ==> after == before
        }),
        reference_part(score, Seq::empty(), phase, sample_rate, holds).len() == 0,
{
    assert(notes.push(strike).drop_last() =~= notes);
}

/// A ring of four: one that declares a gain and sounds nothing, one that sounds and is
/// declared inactive on every fourth note, and two whose declared gains change places from
/// note to note, a quarter against one, over a quarter of a second.
pub proof fn a_ring_tells_declared_from_sounding(
    score: Score,
    index: int,
    strike: Strike,
    sample_rate: u32,
    holds: Seq<i64>,
)
    requires
        score.wf(sample_rate),
        are_holds(holds),
        0 <= index,
        strike.tick <= LAST_TICK,
        12 <= strike.pitch <= 200,
        score.spine + 4 <= score.slots,
    ensures
        ({
            let r = ring(score, index, strike, sample_rate, holds);
            let next = ring(score, index + 1, strike, sample_rate, holds);
            &&& r.len() == 4
            &&& forall|i: int|
                0 <= i < 4 ==> {
                    &&& (#[trigger] r[i]).slot == score.spine + i
                    &&& r[i].onset == score.frame(strike.tick as int, sample_rate)
                    &&& r[i].motion is Fixed
                    &&& r[i].tracking is SceneRelative
                }
            &&& r[0].level == 0 && r[0].gain == 0x3f80_0000 && r[0].metadata_active
            &&& r[1].level == 0x3d80_0000 && r[1].gain == 0x3f80_0000
            &&& !r[1].metadata_active <==> index % 4 == 0
            &&& r[2].metadata_active && r[3].metadata_active
            &&& r[2].level == r[3].level == 0x3d80_0000
            &&& r[2].gain == next[3].gain && r[3].gain == next[2].gain
            &&& r[2].gain != r[3].gain
            &&& index == 0 ==> r[2].gain == 0x3f80_0000 && r[3].gain == 0x3e80_0000
            &&& r[0].ramp_frames == 0 && r[1].ramp_frames == 0
            &&& 4 * r[2].ramp_frames <= sample_rate < 4 * r[2].ramp_frames + 4
            &&& r[3].ramp_frames == r[2].ramp_frames
            &&& r[0].pitch == strike.pitch && r[1].pitch == strike.pitch
            &&& r[2].pitch == strike.pitch - 12 && r[3].pitch == strike.pitch - 12
            &&& r[0].timbre == 1 && r[1].timbre == 2
            &&& r[2].timbre == 4 && r[3].timbre == 4
            &&& r[0].release - r[0].onset == holds[1]
            &&& r[1].release - r[1].onset == holds[1]
            &&& r[2].release - r[2].onset == holds[4]
            &&& r[3].release == r[2].release
            &&& r[0].motion->Fixed_x == 0x8000_0000 + r[1].motion->Fixed_x
            &&& r[2].motion->Fixed_x == 0x8000_0000 + r[3].motion->Fixed_x
            &&& r[0].motion->Fixed_y == r[1].motion->Fixed_y && r[0].motion->Fixed_z
                == r[1].motion->Fixed_z
            &&& r[2].motion->Fixed_y == r[3].motion->Fixed_y && r[2].motion->Fixed_z
                == r[3].motion->Fixed_z
        }),
{
    lemma_frame_bounds(score, strike.tick as int, sample_rate);
    assert(0 <= holds[1] <= 0x2000_0000_0000_0000);
    assert(0 <= holds[4] <= 0x2000_0000_0000_0000);
}

/// The rings of a phase are counted from its first note on.
pub proof fn rings_are_counted_within_the_phase(
    score: Score,
    notes: Seq<Strike>,
    strike: Strike,
    phase: Phase,
    sample_rate: u32,
    holds: Seq<i64>,
)
    ensures
        ({
            let before = ring_part(score, notes, phase, sample_rate, holds);
            let after = ring_part(score, notes.push(strike), phase, sample_rate, holds);
            let count = notes.filter(|s: Strike| phase.first <= s.tick < phase.last).len();
            &&& before.len() == 4 * count
            &&& phase.first <= strike.tick < phase.last ==> after == before + ring(
                score,
                count as int,
                strike,
                sample_rate,
                holds,
            )
            &&& !(phase.first <= strike.tick < phase.last) ==> after == before
        }),
    decreases notes.len(),
{
    reveal(Seq::filter);
    assert(notes.push(strike).drop_last() =~= notes);
    if notes.len() > 0 {
        rings_are_counted_within_the_phase(
            score,
            notes.drop_last(),
            notes.last(),
            phase,
            sample_rate,
            holds,
        );
        assert(notes.drop_last().push(notes.last()) =~= notes);
    }
}

/// A key is struck for every note of the phase, with the sound of a harpsichord, and lies
/// where its pitch does.
pub proof fn a_key_is_struck_for_each_note_of_the_phase(
    score: Score,
    notes: Seq<Strike>,
    strike: Strike,
    phase: Phase,
    sample_rate: u32,
    holds: Seq<i64>,
    slot: usize,
)
    requires
        score.wf(sample_rate),
        are_holds(holds),
        strike.tick <= LAST_TICK,
    ensures
        ({
            let before = key_part(score, notes, phase, sample_rate, holds);
            let after = key_part(score, notes.push(strike), phase, sample_rate, holds);
            let key = after.last();
            let placed = keyed(slot, key);
            &&& !(phase.first <= strike.tick < phase.last) ==> after == before
            &&& phase.first <= strike.tick < phase.last ==> {
                &&& after.len() == before.len() + 1
                &&& after.drop_last() == before
                &&& key.onset == score.frame(strike.tick as int, sample_rate)
                &&& key.release - key.onset == holds[5]
                &&& key.pitch == strike.pitch
                &&& key.timbre == 5
                &&& key.gain == 0x3f80_0000
                &&& placed.slot == slot
                &&& placed.level == 0x3dcc_cccd
                &&& placed.motion == (Motion::Key { pitch: strike.pitch })
                &&& placed.onset == key.onset
                &&& placed.release == key.release
                &&& placed.pitch == key.pitch
                &&& placed.timbre == key.timbre
                &&& placed.gain == key.gain
                &&& placed.metadata_active
            }
        }),
        key_part(score, Seq::empty(), phase, sample_rate, holds).len() == 0,
{
    lemma_frame_bounds(score, strike.tick as int, sample_rate);
    assert(0 <= holds[5] <= 0x2000_0000_0000_0000);
    let before = key_part(score, notes, phase, sample_rate, holds);
    let after = key_part(score, notes.push(strike), phase, sample_rate, holds);
    assert(notes.push(strike).drop_last() =~= notes);
    if phase.first <= strike.tick < phase.last {
        assert(after.drop_last() =~= before);
    }
}

/// The slot that has been free for the longest is handed out, and the first of several. A
/// slot is taken back exactly where its note has not faded yet.
pub proof fn the_slot_that_is_free_longest_is_handed_out(
    keys: Seq<Placement>,
    key: Placement,
    pool: Seq<usize>,
    i: int,
)
    requires
        pool.len() > 0,
        0 <= i < pool.len(),
    ensures
        ({
            let before = handed_out(keys, pool);
            let after = handed_out(keys.push(key), pool);
            let index = longest_free(before.free);
            &&& before.free.len() == pool.len()
            &&& 0 <= index < pool.len()
            &&& before.free[index] <= before.free[i]
            &&& i < index ==> before.free[index] < before.free[i]
            &&& after.free[index] == key.release
            &&& i != index ==> after.free[i] == before.free[i]
            &&& after.placements.len() == before.placements.len() + 1
            &&& after.placements.drop_last() == before.placements
            &&& after.placements.last().slot == pool[index]
            &&& before.free[index] > key.onset ==> after.stolen == before.stolen + 1
            &&& before.free[index] <= key.onset ==> after.stolen == before.stolen
        }),
        handed_out(Seq::empty(), pool).stolen == 0,
        handed_out(Seq::empty(), pool).free[i] == i64::MIN,
{
    lemma_free_length(keys, pool);
    lemma_free_length(keys.push(key), pool);
    lemma_longest(handed_out(keys, pool).free, i);
    assert(keys.push(key).drop_last() =~= keys);
    assert(handed_out(keys.push(key), pool).placements.drop_last() =~= handed_out(
        keys,
        pool,
    ).placements);
}

proof fn lemma_free_length(keys: Seq<Placement>, pool: Seq<usize>)
    requires
        pool.len() > 0,
    ensures
        handed_out(keys, pool).free.len() == pool.len(),
    decreases keys.len(),
{
    if keys.len() > 0 {
        lemma_free_length(keys.drop_last(), pool);
        lemma_longest(handed_out(keys.drop_last(), pool).free, 0);
    }
}

proof fn lemma_longest(free: Seq<i64>, i: int)
    requires
        0 <= i < free.len(),
    ensures
        0 <= longest_free(free) < free.len(),
        free[longest_free(free)] <= free[i],
        i < longest_free(free) ==> free[longest_free(free)] < free[i],
    decreases free.len(),
{
    if free.len() > 1 {
        let front = free.drop_last();
        lemma_longest(front, 0);
        let best = longest_free(front);
        if i < front.len() {
            lemma_longest(front, i);
        }
    }
}

/// The pool holds the slots of the canon and those behind the music, and no other.
pub proof fn the_pool_holds_what_the_keyboard_may_use(score: Score, slot: usize)
    requires
        score.violins <= score.spine <= score.slots,
    ensures
        pool_of(score).contains(slot) <==> slot < score.violins || score.spine <= slot
            < score.slots,
{
    let pool = pool_of(score);
    if slot < score.violins {
        assert(pool[slot as int] == slot);
    } else if score.spine <= slot < score.slots {
        assert(pool[score.violins + (slot - score.spine)] == slot);
    }
    if pool.contains(slot) {
        let i = choose|i: int| 0 <= i < pool.len() && pool[i] == slot;
        assert(pool[i] == slot);
    }
}

/// What a phase shows is added to what the phases before it have shown, and only the
/// keyboard takes slots back.
pub proof fn each_phase_adds_what_it_shows(
    score: Score,
    phases: Seq<Phase>,
    phase: Phase,
    sample_rate: u32,
    holds: Seq<i64>,
)
    ensures
        ({
            let before = shown(score, phases, sample_rate, holds);
            let after = shown(score, phases.push(phase), sample_rate, holds);
            let added = after.placements.skip(before.placements.len() as int);
            &&& after.placements.take(before.placements.len() as int) == before.placements
            &&& phase.shows is Music ==> added.len() == 0 && after.stolen == before.stolen
            &&& phase.shows is Reference ==> after.stolen == before.stolen && added
                == reference_part(score, score.line(0), phase, sample_rate, holds)
            &&& phase.shows is Keyboard ==> added == keyboard_part(
                score,
                phase,
                sample_rate,
                holds,
            ).placements && after.stolen - before.stolen == keyboard_part(
                score,
                phase,
                sample_rate,
                holds,
            ).stolen
            &&& phase.shows is GainRing ==> after.stolen == before.stolen && added == (
            if phase.pool_slots >= 4 {
                ring_part(score, score.line(1), phase, sample_rate, holds)
            } else {
                Seq::empty()
            })
        }),
{
    let before = shown(score, phases, sample_rate, holds);
    let after = shown(score, phases.push(phase), sample_rate, holds);
    assert(phases.push(phase).drop_last() =~= phases);
    let added = after.placements.skip(before.placements.len() as int);
    assert(after.placements.take(before.placements.len() as int) =~= before.placements);
    match phase.shows {
        Demonstration::Music => {},
        Demonstration::Reference => {
            assert(added =~= reference_part(score, score.line(0), phase, sample_rate, holds));
        },
        Demonstration::Keyboard => {
            assert(added =~= keyboard_part(score, phase, sample_rate, holds).placements);
        },
        Demonstration::GainRing => {
            if phase.pool_slots >= 4 {
                assert(added =~= ring_part(score, score.line(1), phase, sample_rate, holds));
            } else {
                assert(added =~= Seq::empty());
            }
        },
    }
}

/// The keyboard plays in the first phase that gives each note an object of its own.
pub proof fn the_keyboard_plays_in_the_first_phase_for_it(phases: Seq<Phase>, at: int)
    requires
        0 <= at < phases.len(),
        phases[at].per_note,
        forall|i: int| 0 <= i < at ==> !(#[trigger] phases[i]).per_note,
    ensures
        keyboard_phase(phases) == phases[at],
    decreases phases.len(),
{
    if at > 0 {
        assert(!phases[0].per_note);
        let rest = phases.drop_first();
        assert forall|i: int| 0 <= i < at - 1 implies !(#[trigger] rest[i]).per_note by {
            assert(rest[i] == phases[i + 1]);
        }
        the_keyboard_plays_in_the_first_phase_for_it(rest, at - 1);
    }
}

/// Damping shortens a note to the time after which the next one on its slot has sounded for
/// the damping, and changes nothing else of it; a note that is over by then, and the last
/// one of a slot, stay as they are.
pub proof fn damping_shortens_and_changes_nothing_else(
    placements: Seq<Placement>,
    damp: int,
    i: int,
)
    requires
        0 <= i < placements.len(),
        forall|k: int|
            0 <= k < placements.len() ==> i64::MIN <= (#[trigger] placements[k]).onset + damp
                <= i64::MAX,
    ensures
        ({
            let r = damped(placements, damp)[i];
            &&& damped(placements, damp).len() == placements.len()
            &&& r == (Placement { release: r.release, ..placements[i] })
            &&& i + 1 == placements.len() || placements[i + 1].slot != placements[i].slot ==> r
                == placements[i]
            &&& i + 1 < placements.len() && placements[i + 1].slot == placements[i].slot ==> (
            if placements[i].release <= placements[i + 1].onset + damp {
                r == placements[i]
            } else {
                r.release == placements[i + 1].onset + damp
            })
        }),
{
    if i + 1 < placements.len() {
        let next = placements[i + 1];
    }
}

/// Sorted placements rise: by slot and by onset within it, by onset and by slot within it,
/// or by onset and by pitch within it.
pub proof fn sorted_placements_rise(by: By, placements: Seq<Placement>, i: int, j: int)
    requires
        0 <= i < j < placements.len(),
    ensures
        ({
            let a = in_order(by, placements)[i];
            let b = in_order(by, placements)[j];
            match by {
                By::Slot => a.slot < b.slot || (a.slot == b.slot && a.onset <= b.onset),
                By::Onset => a.onset < b.onset || (a.onset == b.onset && a.slot <= b.slot),
                By::Pitch => a.onset < b.onset || (a.onset == b.onset && a.pitch <= b.pitch),
            }
        }),
{
    sorting_orders_the_same_placements(by, placements);
    let sorted = in_order(by, placements);
    assert(!precedes(by, sorted[j], sorted[i]));
}

/// The bed is struck at every bar line, in turn with the first and the fifth note of the
/// ground, an octave lower.
pub proof fn the_bed_is_struck_at_every_bar(
    score: Score,
    sample_rate: u32,
    r: Vec<(i64, u8)>,
    bar: int,
)
    requires
        score.wf(sample_rate),
        0 <= bar < score.bars,
        call_ensures(lfe_onsets, (&score, sample_rate), r),
    ensures
        r@.len() == score.bars,
        r@[bar].0 == score.frame(
            bar * (score.ticks_per_beat * score.beats_per_bar),
            sample_rate,
        ),
        r@[bar].1 == score.ground@[if bar % 2 == 0 {
            0
        } else {
            4
        }].pitch - 12,
{
    let ticks = (score.ticks_per_beat * score.beats_per_bar) as int;
    assert(0 <= bar * ticks <= score.bars * ticks) by (nonlinear_arith)
        requires
            0 <= bar < score.bars,
            ticks == score.ticks_per_beat * score.beats_per_bar,
            score.ticks_per_beat >= 0,
            score.beats_per_bar >= 0,
    ;
    lemma_frame_bounds(score, bar * ticks, sample_rate);
    assert(12 <= score.ground@[0].pitch <= 200);
    assert(12 <= score.ground@[4].pitch <= 200);
}

/// The programme ends with its last bar, or with the last note that rings beyond it.
pub proof fn the_last_bar_line_is_where_the_bars_end(score: Score, sample_rate: u32)
    ensures
        notated(score, sample_rate) == score.frame(
            score.bars * score.ticks_per_beat * score.beats_per_bar,
            sample_rate,
        ),
{
    assert(score.bars * (score.ticks_per_beat * score.beats_per_bar) == score.bars
        * score.ticks_per_beat * score.beats_per_bar) by (nonlinear_arith);
}

/// Elements are told apart: the slots by their number, from one on, and the bed by one that
/// no slot of a programme reaches.
pub proof fn elements_are_told_apart(
    first: usize,
    second: usize,
    state: SpatialObjectState,
    samples: Vec<u32>,
    a: u64,
    b: u64,
    o: SceneObjectPcm,
    bed: SceneLfePcm,
)
    requires
        first < second < 0xff,
        call_ensures(element_id, (first,), a),
        call_ensures(element_id, (second,), b),
        call_ensures(object, (first, state, samples), o),
        call_ensures(lfe, (state, samples), bed),
    ensures
        0 < a < b < bed.element_id,
        b - a == second - first,
        first == 0 ==> a == 1,
        o.element_id == a,
        o.initial_state == Some(state),
        o.samples == samples,
        bed.initial_state == Some(state),
        bed.samples == samples,
        bed.element_id == 0x100,
{
}

/// A placement is declared with its own gain, activity and reference, where it is.
pub proof fn a_placement_declares_itself(
    placement: Placement,
    x: u32,
    y: u32,
    z: u32,
    state: SpatialObjectState,
    idle: SpatialObjectState,
    bed: SpatialObjectState,
)
    requires
        call_ensures(state_of, (&placement, x, y, z), state),
        call_ensures(idle_state, (), idle),
        call_ensures(bed_state, (), bed),
    ensures
        state.metadata_active == placement.metadata_active,
        state.linear_gain == Some(Level::Exact(placement.gain)),
        state.position is Some,
        state.position->0.x == Level::Exact(x),
        state.position->0.y == Level::Exact(y),
        state.position->0.z == Level::Exact(z),
        state.tracking == placement.tracking,
        state.semantic_complete && idle.semantic_complete && bed.semantic_complete,
        !idle.metadata_active && bed.metadata_active,
        idle.linear_gain == Some(Level::Exact(0)),
        bed.linear_gain == Some(Level::Exact(0x3f80_0000)),
        idle.position is Some && bed.position is None,
        idle.tracking is SceneRelative && bed.tracking is Unspecified,
{
}

/// The voices of the canon follow one another, each with all of its own notes, and so do the
/// keys that the keyboard strikes for them.
pub proof fn each_voice_joins_with_its_own_notes(
    score: Score,
    voice: nat,
    phase: Phase,
    sample_rate: u32,
    holds: Seq<i64>,
)
    ensures
        ({
            let before = canon(score, voice, phase, sample_rate, holds);
            let after = canon(score, voice + 1, phase, sample_rate, holds);
            &&& after.take(before.len() as int) == before
            &&& after.skip(before.len() as int) == canon_part(
                score,
                voice as int,
                score.voice(voice as int),
                phase,
                sample_rate,
                holds,
            )
        }),
        ({
            let before = keys_of(score, voice, phase, sample_rate, holds);
            let after = keys_of(score, voice + 1, phase, sample_rate, holds);
            &&& after.take(before.len() as int) == before
            &&& after.skip(before.len() as int) == key_part(
                score,
                score.line(voice as int),
                phase,
                sample_rate,
                holds,
            )
        }),
        canon(score, 0, phase, sample_rate, holds).len() == 0,
        keys_of(score, 0, phase, sample_rate, holds).len() == 0,
{
    let before = canon(score, voice, phase, sample_rate, holds);
    let after = canon(score, voice + 1, phase, sample_rate, holds);
    assert(after.take(before.len() as int) =~= before);
    assert(after.skip(before.len() as int) =~= canon_part(
        score,
        voice as int,
        score.voice(voice as int),
        phase,
        sample_rate,
        holds,
    ));
    let fewer = keys_of(score, voice, phase, sample_rate, holds);
    let more = keys_of(score, voice + 1, phase, sample_rate, holds);
    assert(more.take(fewer.len() as int) =~= fewer);
    assert(more.skip(fewer.len() as int) =~= key_part(
        score,
        score.line(voice as int),
        phase,
        sample_rate,
        holds,
    ));
}

/// The programme is the canon, the ground and what its phases show, each whole.
pub proof fn the_programme_holds_all_its_parts(
    score: Score,
    sample_rate: u32,
    holds: Seq<i64>,
    p: Placement,
)
    ensures
        scored(score, sample_rate, holds).contains(p) <==> canon(
            score,
            score.violins as nat,
            keyboard_phase(score.phases@),
            sample_rate,
            holds,
        ).contains(p) || ground_part(score, ground_notes(score), sample_rate, holds).contains(p)
            || shown(score, score.phases@, sample_rate, holds).placements.contains(p),
{
    let a = canon(
        score,
        score.violins as nat,
        keyboard_phase(score.phases@),
        sample_rate,
        holds,
    );
    let b = ground_part(score, ground_notes(score), sample_rate, holds);
    let c = shown(score, score.phases@, sample_rate, holds).placements;
    let all = scored(score, sample_rate, holds);
    if a.contains(p) {
        let i = choose|i: int| 0 <= i < a.len() && a[i] == p;
        assert(all[i] == p);
    }
    if b.contains(p) {
        let i = choose|i: int| 0 <= i < b.len() && b[i] == p;
        assert(all[a.len() + i] == p);
    }
    if c.contains(p) {
        let i = choose|i: int| 0 <= i < c.len() && c[i] == p;
        assert(all[a.len() + b.len() + i] == p);
    }
    if all.contains(p) {
        let i = choose|i: int| 0 <= i < all.len() && all[i] == p;
        if i < a.len() {
            assert(a[i] == p);
        } else if i < a.len() + b.len() {
            assert(b[i - a.len()] == p);
        } else {
            assert(c[i - a.len() - b.len()] == p);
        }
    }
}

} // verus!
