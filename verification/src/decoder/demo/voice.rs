//! Which samples of a block one note reaches.
//!
//! The synthesis itself is the application's; where it starts, where it stops
//! and where its two windows lie is decided here, in whole frames.
use vstd::prelude::*;

verus! {

/// The frames of a block that a note sounds in: from its onset, or from the
/// start of the block, until it has faded or must be silent. The onset window
/// ends at `attack_end`, and a note that is cut short is damped from
/// `damp_start` on.
#[derive(Debug, Clone, Copy, PartialEq, Eq, Structural)]
pub struct NoteWindow {
    pub first: usize,
    pub last: usize,
    pub attack_end: usize,
    pub damp_start: Option<usize>,
}

pub open spec fn bounded(value: int, low: int, high: int) -> int {
    if value < low {
        low
    } else if value > high {
        high
    } else {
        value
    }
}

/// `a + b`, as far as it can be counted.
pub open spec fn saturated(a: int, b: int) -> int {
    bounded(a + b, i64::MIN as int, i64::MAX as int)
}

pub open spec fn smaller(a: int, b: int) -> int {
    if a < b {
        a
    } else {
        b
    }
}

/// Where the note starts within the block.
pub open spec fn first_frame(frames: nat, onset: i64) -> int {
    bounded(onset as int, 0, frames as int)
}

/// Where the note stops within the block.
pub open spec fn last_frame(frames: nat, onset: i64, stop: i64, tail: i64) -> int {
    bounded(smaller(saturated(onset as int, tail as int), stop as int), 0, frames as int)
}

fn bound(value: i64, low: i64, high: i64) -> (r: i64)
    requires
        low <= high,
    ensures
        r == bounded(value as int, low as int, high as int),
{
    if value < low {
        low
    } else if value > high {
        high
    } else {
        value
    }
}

fn saturating(a: i64, b: i64) -> (r: i64)
    ensures
        r == saturated(a as int, b as int),
{
    let wide: i128 = a as i128 + b as i128;
    if wide < i64::MIN as i128 {
        i64::MIN
    } else if wide > i64::MAX as i128 {
        i64::MAX
    } else {
        wide as i64
    }
}

/// The window of a note in a block of `frames` frames. `onset` and `stop` count
/// from the start of the block; `tail`, `attack` and `damp` are lengths.
pub fn note_window(frames: usize, onset: i64, stop: i64, tail: i64, attack: i64, damp: i64) -> (r:
    Option<NoteWindow>)
    requires
        frames <= i64::MAX,
        damp >= 0 ==> stop - damp >= i64::MIN,
    ensures
        r is Some == (first_frame(frames as nat, onset) < last_frame(
            frames as nat,
            onset,
            stop,
            tail,
        )),
        match r {
            Some(window) => {
                &&& window.first == first_frame(frames as nat, onset)
                &&& window.last == last_frame(frames as nat, onset, stop, tail)
                &&& window.attack_end == (if attack > 0 {
                    bounded(
                        saturated(onset as int, attack as int),
                        window.first as int,
                        window.last as int,
                    )
                } else {
                    window.first as int
                })
                &&& window.damp_start is Some == (damp > 0 && stop < saturated(
                    onset as int,
                    tail as int,
                ))
                &&& window.damp_start is Some ==> window.damp_start->0 == bounded(
                    stop - damp,
                    window.first as int,
                    window.last as int,
                )
                &&& window.first <= window.attack_end <= window.last <= frames
            },
            None => true,
        },
{
    let end: i64 = frames as i64;
    let first: i64 = bound(onset, 0, end);
    let faded: i64 = saturating(onset, tail);
    let last: i64 = bound(
        if faded < stop {
            faded
        } else {
            stop
        },
        0,
        end,
    );
    if first >= last {
        return None;
    }
    let attack_end: i64 = if attack > 0 {
        bound(saturating(onset, attack), first, last)
    } else {
        first
    };
    let damp_start = if damp > 0 && stop < faded {
        Some(bound(stop - damp, first, last) as usize)
    } else {
        None
    };
    Some(
        NoteWindow {
            first: first as usize,
            last: last as usize,
            attack_end: attack_end as usize,
            damp_start,
        },
    )
}

/// A note that was picked up in a later block sounds in the same frames of the
/// programme: moving the block by `shift` moves its window by as much.
pub proof fn a_window_does_not_depend_on_the_block(
    frames: nat,
    later: nat,
    shift: nat,
    onset: i64,
    stop: i64,
    tail: i64,
    frame: int,
)
    requires
        shift + later <= frames,
        0 <= frame < later,
        i64::MIN <= onset - shift,
        i64::MIN <= stop - shift,
        i64::MIN <= onset + tail <= i64::MAX,
        i64::MIN <= onset - shift + tail,
    ensures
        (first_frame(frames, onset) <= shift + frame < last_frame(frames, onset, stop, tail)) == (
        first_frame(later, (onset - shift) as i64) <= frame < last_frame(
            later,
            (onset - shift) as i64,
            (stop - shift) as i64,
            tail,
        )),
{
}

/// A note sounds in the frames of the block from its onset on, until it is stopped or has
/// faded. Its attack covers the first of them, and its damping the last.
pub proof fn a_note_sounds_from_its_onset_until_it_is_over(
    frames: usize,
    onset: i64,
    stop: i64,
    tail: i64,
    attack: i64,
    damp: i64,
    frame: int,
    r: Option<NoteWindow>,
)
    requires
        frames <= i64::MAX,
        damp >= 0 ==> stop - damp >= i64::MIN,
        i64::MIN <= onset + tail <= i64::MAX,
        i64::MIN <= onset + attack <= i64::MAX,
        0 <= frame < frames,
        call_ensures(note_window, (frames, onset, stop, tail, attack, damp), r),
    ensures
        ({
            let sounds = onset <= frame && frame < onset + tail && frame < stop;
            &&& sounds ==> r is Some
            &&& r is Some ==> (r->0.first <= frame < r->0.last <==> sounds)
            &&& r is Some && sounds ==> (frame < r->0.attack_end <==> frame < onset + attack)
            &&& r is Some && sounds && r->0.damp_start is Some ==> (frame >= r->0.damp_start->0
                <==> frame >= stop - damp)
            &&& r is Some ==> (r->0.damp_start is Some <==> damp > 0 && stop < onset + tail)
        }),
{
}

} // verus!
