//! Resolving an element's metadata at a point inside a scene block.
//!
//! Every consumer of the scene queue goes through these functions, so their
//! validation, timeline trimming and metadata resolution agree.
use crate::decoder::level::Level;
use crate::decoder::scene::{
    DecodedSceneBlock, SceneMetadataUpdate, SceneObjectPcm, SpatialObjectState,
    SpatialPosition, FIELD_POSITION,
};
use crate::decoder::signature::{
    collect_element_ids, element_ids, identity_of, lfe_id, SceneIdentity, SceneSignature,
};
use crate::numeric::ONE;
use crate::order::{ascending, lemma_ascending, same_ids, sort_ids};
use crate::text::{decimal, push_decimal};
use vstd::prelude::*;
use vstd::string::*;

verus! {

/// The name of the first object whose plane is not `frames` long.
pub open spec fn first_misfit(objects: Seq<SceneObjectPcm>, frames: u32) -> Option<u64>
    decreases objects.len(),
{
    if objects.len() == 0 {
        None
    } else if objects[0].samples@.len() != frames {
        Some(objects[0].element_id)
    } else {
        first_misfit(objects.drop_first(), frames)
    }
}

/// Why a consumer that was set up for a scene turns `block` away, if it does.
pub open spec fn refusal(
    block: DecodedSceneBlock,
    sample_rate: u32,
    dynamic_object_count: u32,
    stream_has_lfe: bool,
    expected: SceneIdentity,
) -> Option<Seq<char>> {
    if block.sample_rate != sample_rate {
        Some(
            "Scene sample rate changed from "@ + decimal(sample_rate as nat) + " to "@ + decimal(
                block.sample_rate as nat,
            ) + " Hz"@,
        )
    } else if block.objects@.len() > u32::MAX {
        Some("Scene object count exceeds the Windows API range"@)
    } else if block.objects@.len() != dynamic_object_count {
        Some(
            "Scene dynamic-object count changed from "@ + decimal(dynamic_object_count as nat)
                + " to "@ + decimal(block.objects@.len()) + " after Spatial Audio activation"@,
        )
    } else if block.lfe is Some != stream_has_lfe {
        Some("Scene LFE layout changed after Spatial Audio activation"@)
    } else if expected.configuration_generation != block.configuration_generation {
        Some(
            "Scene configuration generation changed from "@ + decimal(
                expected.configuration_generation as nat,
            ) + " to "@ + decimal(block.configuration_generation as nat)
                + "; the Spatial Audio stream must be reconfigured"@,
        )
    } else if expected.presentation_index != block.presentation_index || expected.presentation_id
        != block.presentation_id {
        Some("Selected Scene presentation changed during Spatial Audio playback"@)
    } else if ascending(element_ids(block.objects@)) != expected.object_element_ids {
        Some("Scene dynamic-object element IDs changed during playback"@)
    } else if lfe_id(block.lfe) != expected.lfe_element_id {
        Some("Scene LFE element ID changed during playback"@)
    } else if first_misfit(block.objects@, block.duration_frames) is Some {
        Some(
            "Scene object "@ + decimal(
                first_misfit(block.objects@, block.duration_frames)->0 as nat,
            ) + " PCM length does not match its block"@,
        )
    } else if block.lfe is Some && block.lfe->0.samples@.len() != block.duration_frames {
        Some("Scene LFE PCM length does not match its block"@)
    } else {
        None
    }
}

/// The planes of a block that passed are as long as the block.
pub open spec fn planes_fit(block: DecodedSceneBlock) -> bool {
    &&& forall|i: int|
        0 <= i < block.objects@.len() ==> (#[trigger] block.objects@[i]).samples@.len()
            == block.duration_frames
    &&& block.lfe is Some ==> block.lfe->0.samples@.len() == block.duration_frames
}

proof fn lemma_no_misfit(objects: Seq<SceneObjectPcm>, frames: u32)
    ensures
        first_misfit(objects, frames) is None <==> forall|i: int|
            0 <= i < objects.len() ==> (#[trigger] objects[i]).samples@.len() == frames,
    decreases objects.len(),
{
    if objects.len() > 0 {
        let rest = objects.drop_first();
        lemma_no_misfit(rest, frames);
        if first_misfit(objects, frames) is None {
            assert forall|i: int| 0 <= i < objects.len() implies (
            #[trigger] objects[i]).samples@.len() == frames by {
                if i > 0 {
                    assert(objects[i] == rest[i - 1]);
                }
            }
        } else if objects[0].samples@.len() == frames {
            let i = choose|i: int|
                0 <= i < rest.len() && (#[trigger] rest[i]).samples@.len() != frames;
            assert(objects[i + 1] == rest[i]);
        }
    }
}

fn find_misfit(objects: &[SceneObjectPcm], frames: u32) -> (r: Option<u64>)
    ensures
        r == first_misfit(objects@, frames),
{
    let mut index: usize = 0;
    assert(objects@.skip(0) =~= objects@);
    while index < objects.len()
        invariant
            index <= objects@.len(),
            first_misfit(objects@, frames) == first_misfit(objects@.skip(index as int), frames),
        decreases objects.len() - index,
    {
        assert(objects@.skip(index as int)[0] == objects@[index as int]);
        assert(objects@.skip(index as int).drop_first() =~= objects@.skip(index as int + 1));
        if objects[index].samples.len() != frames as usize {
            return Some(objects[index].element_id);
        }
        index = index + 1;
    }
    None
}

/// Check the same scene contract before any consumer accepts a block. The
/// beginnings of these messages are what asks for a reconfiguration.
pub fn validate_block(
    block: &DecodedSceneBlock,
    sample_rate: u32,
    dynamic_object_count: u32,
    stream_has_lfe: bool,
    expected_signature: &SceneSignature,
) -> (r: Result<(), String>)
    ensures
        match refusal(
            *block,
            sample_rate,
            dynamic_object_count,
            stream_has_lfe,
            expected_signature@,
        ) {
            Some(message) => r is Err && r->Err_0@ == message,
            None => r is Ok && planes_fit(*block),
        },
{
    if block.sample_rate != sample_rate {
        let mut message = "Scene sample rate changed from ".to_owned();
        push_decimal(&mut message, sample_rate as u64);
        message.append(" to ");
        push_decimal(&mut message, block.sample_rate as u64);
        message.append(" Hz");
        return Err(message);
    }
    let count: u64 = block.objects.len() as u64;
    if count > u32::MAX as u64 {
        return Err("Scene object count exceeds the Windows API range".to_owned());
    }
    if count != dynamic_object_count as u64 {
        let mut message = "Scene dynamic-object count changed from ".to_owned();
        push_decimal(&mut message, dynamic_object_count as u64);
        message.append(" to ");
        push_decimal(&mut message, count);
        message.append(" after Spatial Audio activation");
        return Err(message);
    }
    if block.lfe.is_some() != stream_has_lfe {
        return Err("Scene LFE layout changed after Spatial Audio activation".to_owned());
    }
    if expected_signature.configuration_generation != block.configuration_generation {
        let mut message = "Scene configuration generation changed from ".to_owned();
        push_decimal(&mut message, expected_signature.configuration_generation as u64);
        message.append(" to ");
        push_decimal(&mut message, block.configuration_generation as u64);
        message.append("; the Spatial Audio stream must be reconfigured");
        return Err(message);
    }
    if expected_signature.presentation_index != block.presentation_index
        || expected_signature.presentation_id != block.presentation_id {
        return Err("Selected Scene presentation changed during Spatial Audio playback".to_owned());
    }
    let actual = sort_ids(collect_element_ids(block.objects()));
    if !same_ids(actual.as_slice(), expected_signature.object_element_ids()) {
        return Err("Scene dynamic-object element IDs changed during playback".to_owned());
    }
    let bed_id = match &block.lfe {
        Some(bed) => Some(bed.element_id),
        None => None,
    };
    if bed_id != expected_signature.lfe_element_id {
        return Err("Scene LFE element ID changed during playback".to_owned());
    }
    proof {
        lemma_no_misfit(block.objects@, block.duration_frames);
    }
    if let Some(id) = find_misfit(block.objects(), block.duration_frames) {
        let mut message = "Scene object ".to_owned();
        push_decimal(&mut message, id);
        message.append(" PCM length does not match its block");
        return Err(message);
    }
    if let Some(bed) = &block.lfe {
        if bed.samples.len() != block.duration_frames as usize {
            return Err("Scene LFE PCM length does not match its block".to_owned());
        }
    }
    Ok(())
}

/// Offset of the first frame on the current presentation timeline. `None` skips
/// an entirely expired block, including preroll before frame zero.
pub fn block_offset_at(block: &DecodedSceneBlock, timeline_frame: i64) -> (r: Result<
    Option<u32>,
    String,
>)
    ensures
        if block.end() > i64::MAX {
            r is Err && r->Err_0@ == "Scene block end position overflow"@
        } else if block.end() <= timeline_frame {
            r == Ok::<_, String>(None::<u32>)
        } else {
            r is Ok && r->Ok_0 is Some && r->Ok_0->0 == (if block.start_frame < timeline_frame {
                timeline_frame - block.start_frame
            } else {
                0
            }) && r->Ok_0->0 <= block.duration_frames
        },
{
    let end: i64 = match block.start_frame.checked_add(block.duration_frames as i64) {
        Some(end) => end,
        None => {
            return Err("Scene block end position overflow".to_owned());
        },
    };
    if end <= timeline_frame {
        return Ok(None);
    }
    if block.start_frame < timeline_frame {
        Ok(Some((timeline_frame - block.start_frame) as u32))
    } else {
        Ok(Some(0))
    }
}

/// What a renderer is told of an element without a usable state.
pub open spec fn nowhere() -> SpatialPosition {
    SpatialPosition { x: Level::Exact(0), y: Level::Exact(0), z: Level::Exact(0) }
}

/// Activity, listener-space position and gain of a dynamic object.
pub open spec fn listener_state(state: Option<SpatialObjectState>) -> (
    bool,
    SpatialPosition,
    Level,
) {
    match state {
        Some(state) => match state.position {
            Some(position) => (
                state.metadata_active && state.semantic_complete,
                SpatialPosition {
                    x: position.x.unit(),
                    y: position.z.unit(),
                    z: position.y.opposite().unit(),
                },
                match state.linear_gain {
                    Some(gain) => gain,
                    None => Level::Exact(ONE),
                },
            ),
            None => (false, nowhere(), Level::Exact(0)),
        },
        None => (false, nowhere(), Level::Exact(0)),
    }
}

/// Flatten a resolved state into listener coordinates: `[x, y, z]` becomes
/// `[x, z, -y]`, clamped to the unit cube.
///
/// This is what a spatial renderer is handed for a dynamic object, and also
/// what the scene view draws in: one conversion, so a picture of a scene and
/// the scene itself cannot disagree about where anything is.
pub fn listener_render_state(state: Option<SpatialObjectState>) -> (r: (
    bool,
    SpatialPosition,
    Level,
))
    ensures
        r == listener_state(state),
{
    match state {
        Some(state) => match state.position {
            Some(position) => {
                let gain = match state.linear_gain {
                    Some(gain) => gain,
                    None => Level::Exact(ONE),
                };
                let placed = SpatialPosition {
                    x: position.x.into_unit(),
                    y: position.z.into_unit(),
                    z: position.y.into_opposite().into_unit(),
                };
                (state.metadata_active && state.semantic_complete, placed, gain)
            },
            None => (
                false,
                SpatialPosition { x: Level::Exact(0), y: Level::Exact(0), z: Level::Exact(0) },
                Level::Exact(0),
            ),
        },
        None => (
            false,
            SpatialPosition { x: Level::Exact(0), y: Level::Exact(0), z: Level::Exact(0) },
            Level::Exact(0),
        ),
    }
}

/// Activity and gain of the low-frequency bed.
pub open spec fn lfe_state(state: Option<SpatialObjectState>) -> (bool, Level) {
    match state {
        Some(state) => (
            state.metadata_active && state.semantic_complete,
            match state.linear_gain {
                Some(gain) => gain,
                None => Level::Exact(ONE),
            },
        ),
        None => (false, Level::Exact(0)),
    }
}

/// The same for the bed, which carries activation and gain but no position.
pub fn lfe_render_state(state: Option<SpatialObjectState>) -> (r: (bool, Level))
    ensures
        r == lfe_state(state),
{
    match state {
        Some(state) => {
            let gain = match state.linear_gain {
                Some(gain) => gain,
                None => Level::Exact(ONE),
            };
            (state.metadata_active && state.semantic_complete, gain)
        },
        None => (false, Level::Exact(0)),
    }
}

/// `update` places element `id` outright, at or behind `from_offset`.
pub open spec fn is_instant(update: SceneMetadataUpdate, id: u64, from_offset: u32) -> bool {
    &&& update.element_id == id
    &&& update.changed_fields & FIELD_POSITION != 0
    &&& update.ramp_frames == 0
    &&& update.offset_frames >= from_offset
}

/// Among the updates before the first one at or behind `to_offset`, one places
/// element `id` outright at or behind `from_offset`.
pub open spec fn jumps_within(
    updates: Seq<SceneMetadataUpdate>,
    id: u64,
    from_offset: u32,
    to_offset: u32,
) -> bool {
    exists|i: int|
        {
            &&& 0 <= i < updates.len()
            &&& is_instant(#[trigger] updates[i], id, from_offset)
            &&& forall|j: int|
                0 <= j <= i ==> (#[trigger] updates[j]).offset_frames < to_offset
        }
}

/// Whether an instant metadata update for `element_id` lands in
/// `[from_offset, to_offset)` of `block`.
///
/// A ramp of no frames is the metadata stating outright that nothing is
/// interpolated: the element is at one position and then at another, with no
/// moment in between at which it was anywhere else.
pub fn has_instant_update(
    block: &DecodedSceneBlock,
    element_id: u64,
    from_offset: u32,
    to_offset: u32,
) -> (r: bool)
    ensures
        r == jumps_within(block.metadata_updates@, element_id, from_offset, to_offset),
{
    let updates = block.metadata_updates();
    let mut index: usize = 0;
    while index < updates.len()
        invariant
            index <= updates@.len(),
            updates@ == block.metadata_updates@,
            forall|j: int| 0 <= j < index ==> (#[trigger] updates@[j]).offset_frames < to_offset,
            forall|j: int|
                0 <= j < index ==> !is_instant(#[trigger] updates@[j], element_id, from_offset),
        decreases updates.len() - index,
    {
        let update = &updates[index];
        if update.offset_frames >= to_offset {
            assert(updates@[index as int].offset_frames >= to_offset);
            return false;
        }
        if update.element_id == element_id && update.changed_fields & FIELD_POSITION != 0
            && update.ramp_frames == 0 && update.offset_frames >= from_offset {
            assert(is_instant(updates@[index as int], element_id, from_offset));
            return true;
        }
        index = index + 1;
    }
    false
}

/// In a list that is ordered by offset, a jump is found exactly where an instant
/// update lies in the half-open window.
pub proof fn jump_window_is_half_open(
    updates: Seq<SceneMetadataUpdate>,
    id: u64,
    from_offset: u32,
    to_offset: u32,
)
    requires
        forall|i: int, j: int|
            0 <= i <= j < updates.len() ==> updates[i].offset_frames <= updates[j].offset_frames,
    ensures
        jumps_within(updates, id, from_offset, to_offset) <==> exists|i: int|
            {
                &&& 0 <= i < updates.len()
                &&& is_instant(#[trigger] updates[i], id, from_offset)
                &&& updates[i].offset_frames < to_offset
            },
{
    if exists|i: int|
        {
            &&& 0 <= i < updates.len()
            &&& is_instant(#[trigger] updates[i], id, from_offset)
            &&& updates[i].offset_frames < to_offset
        } {
        let i = choose|i: int|
            {
                &&& 0 <= i < updates.len()
                &&& is_instant(#[trigger] updates[i], id, from_offset)
                &&& updates[i].offset_frames < to_offset
            };
        assert forall|j: int| 0 <= j <= i implies (#[trigger] updates[j]).offset_frames
            < to_offset by {}
    }
}

/// A consumer that was set up from a block takes that block, and every block of
/// the same identity whose planes fit.
pub proof fn a_block_passes_its_own_identity(set_up: DecodedSceneBlock, next: DecodedSceneBlock)
    requires
        identity_of(set_up) == identity_of(next),
        set_up.sample_rate == next.sample_rate,
        set_up.objects@.len() <= u32::MAX,
        planes_fit(next),
    ensures
        refusal(
            next,
            set_up.sample_rate,
            set_up.objects@.len() as u32,
            set_up.lfe is Some,
            identity_of(set_up),
        ) is None,
{
    lemma_ascending(element_ids(set_up.objects@));
    lemma_ascending(element_ids(next.objects@));
    lemma_no_misfit(next.objects@, next.duration_frames);
}

/// A block that passes has the identity and the rate that the consumer was set
/// up for.
pub proof fn a_block_that_passes_has_the_expected_identity(
    block: DecodedSceneBlock,
    sample_rate: u32,
    count: u32,
    has_lfe: bool,
    expected: SceneIdentity,
)
    requires
        refusal(block, sample_rate, count, has_lfe, expected) is None,
    ensures
        identity_of(block) == expected,
        block.sample_rate == sample_rate,
        planes_fit(block),
{
    lemma_no_misfit(block.objects@, block.duration_frames);
}

/// A placed object sounds exactly where the metadata has it active and its meaning is
/// complete. It stands to the right as far as the scene has it to the right, up as far as
/// it is up, and behind as far as it is behind, within one of the listener.
pub proof fn a_placed_object_is_heard_where_the_scene_puts_it(
    state: SpatialObjectState,
    reading: spec_fn(u32) -> real,
)
    requires
        state.position is Some,
        reading(0x3f80_0000) == 1real,
        reading(0xbf80_0000) == 0real - 1real,
        forall|bits: u32| reading(#[trigger] crate::numeric::negated(bits)) == 0real - reading(bits),
        forall|a: u32, b: u32|
            #![trigger reading(a), reading(b)]
            crate::numeric::below(a, b) <==> reading(a) < reading(b),
    ensures
        ({
            let (active, placed, gain) = listener_state(Some(state));
            let place = state.position->0;
            let x = place.x.value(reading);
            let y = place.y.value(reading);
            let z = place.z.value(reading);
            &&& active <==> state.metadata_active && state.semantic_complete
            &&& state.linear_gain is Some ==> gain == state.linear_gain->0
            &&& state.linear_gain is None ==> gain == Level::Exact(0x3f80_0000)
            &&& 0real - 1real <= x <= 1real ==> placed.x.value(reading) == x
            &&& 0real - 1real <= z <= 1real ==> placed.y.value(reading) == z
            &&& 0real - 1real <= y <= 1real ==> placed.z.value(reading) == 0real - y
            &&& 0real - 1real <= placed.x.value(reading) <= 1real
            &&& 0real - 1real <= placed.y.value(reading) <= 1real
            &&& 0real - 1real <= placed.z.value(reading) <= 1real
            &&& x > 1real ==> placed.x.value(reading) == 1real
            &&& z > 1real ==> placed.y.value(reading) == 1real
            &&& y > 1real ==> placed.z.value(reading) == 0real - 1real
        }),
{
    let place = state.position->0;
    crate::decoder::level::a_unit_level_stays_within_one(place.x, reading);
    crate::decoder::level::a_unit_level_stays_within_one(place.z, reading);
    crate::decoder::level::the_opposite_of_a_level_has_the_opposite_number(place.y, reading);
    crate::decoder::level::a_unit_level_stays_within_one(place.y.opposite(), reading);
}

/// What has no state, or no position, is off and silent; the bed needs no position.
pub proof fn what_has_no_state_is_silent(state: Option<SpatialObjectState>)
    ensures
        state is None || state->0.position is None ==> !listener_state(state).0
            && listener_state(state).2 == Level::Exact(0),
        state is None ==> !lfe_state(state).0 && lfe_state(state).1 == Level::Exact(0),
        lfe_state(state).0 <==> (state is Some && state->0.metadata_active
            && state->0.semantic_complete),
        state is Some && state->0.linear_gain is Some ==> lfe_state(state).1
            == state->0.linear_gain->0,
        state is Some && state->0.linear_gain is None ==> lfe_state(state).1 == Level::Exact(
            0x3f80_0000,
        ),
{
}

/// Only an update of the element's own position that takes no time is a jump.
pub proof fn only_an_untimed_move_is_a_jump(update: SceneMetadataUpdate, id: u64, from_offset: u32)
    ensures
        is_instant(update, id, from_offset) <==> (update.element_id == id && update.changed_fields
            & 8 != 0 && update.ramp_frames == 0 && from_offset <= update.offset_frames),
{
}

} // verus!
