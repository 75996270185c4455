//! Carrying ramps across block boundaries.
use super::level::dup_level;
use super::metadata::{
    a_finished_ramp_is_its_target, running_ramps_aim_at_the_declared_state, state_after,
    timeline_at, MetadataRamp, StateTimeline,
};
use super::scene::{
    dup_position, DecodedSceneBlock, SceneLfePcm, SceneMetadataUpdate, SceneObjectPcm,
    SpatialObjectState, FIELD_ACTIVE, FIELD_GAIN, FIELD_HEAD_TRACKING, FIELD_POSITION,
};
use std::collections::BTreeMap;
use vstd::prelude::*;

verus! {

/// Where an element stood at the end of a block, and what it still runs toward.
#[derive(Debug)]
pub struct EndState {
    pub current: SpatialObjectState,
    pub target: SpatialObjectState,
    /// Frames that the position ramp still has to run.
    pub position_left: u32,
    /// Frames that the gain ramp still has to run.
    pub gain_left: u32,
}

/// What the end of one block hands to the start of the next.
#[derive(Debug)]
pub struct SceneContinuity {
    pub end: Option<i64>,
    pub generation: u32,
    pub sample_rate: u32,
    pub presentation_index: u32,
    pub presentation_id: Option<u32>,
    pub states: BTreeMap<u64, EndState>,
}

/// `declared` with the position and gain of `values`.
pub open spec fn with_continuous_fields(
    declared: SpatialObjectState,
    values: SpatialObjectState,
) -> SpatialObjectState {
    SpatialObjectState { position: values.position, linear_gain: values.linear_gain, ..declared }
}

/// The state an element starts its block with: what the block declares, but
/// with position and gain where the previous block left them.
pub open spec fn resumed_initial(
    states: Map<u64, EndState>,
    id: u64,
    declared: Option<SpatialObjectState>,
) -> Option<SpatialObjectState> {
    match declared {
        Some(raw) if states.contains_key(id) => Some(
            with_continuous_fields(raw, states[id].current),
        ),
        _ => declared,
    }
}

/// The events that carry an element's unfinished ramps into its next block.
pub open spec fn continuation(
    states: Map<u64, EndState>,
    id: u64,
    declared: Option<SpatialObjectState>,
) -> Seq<SceneMetadataUpdate> {
    match declared {
        Some(raw) if states.contains_key(id) => {
            let end = states[id];
            let target = with_continuous_fields(raw, end.target);
            let position = SceneMetadataUpdate {
                element_id: id,
                offset_frames: 0,
                ramp_frames: end.position_left,
                changed_fields: FIELD_POSITION,
                state: target,
            };
            let gain = SceneMetadataUpdate {
                element_id: id,
                offset_frames: 0,
                ramp_frames: end.gain_left,
                changed_fields: FIELD_GAIN,
                state: target,
            };
            (if end.position_left != 0 {
                seq![position]
            } else {
                seq![]
            }) + (if end.gain_left != 0 {
                seq![gain]
            } else {
                seq![]
            })
        },
        _ => Seq::empty(),
    }
}

/// The continuations of every object, in order.
pub open spec fn object_continuations(
    states: Map<u64, EndState>,
    objects: Seq<SceneObjectPcm>,
) -> Seq<SceneMetadataUpdate>
    decreases objects.len(),
{
    if objects.len() == 0 {
        Seq::empty()
    } else {
        object_continuations(states, objects.drop_last()) + continuation(
            states,
            objects.last().element_id,
            objects.last().initial_state,
        )
    }
}

pub open spec fn lfe_continuation(
    states: Map<u64, EndState>,
    lfe: Option<SceneLfePcm>,
) -> Seq<SceneMetadataUpdate> {
    match lfe {
        Some(bed) => continuation(states, bed.element_id, bed.initial_state),
        None => Seq::empty(),
    }
}

/// Where element `id` stands at the end of a block, if it has a state there.
pub open spec fn end_state(
    updates: Seq<SceneMetadataUpdate>,
    id: u64,
    initial: Option<SpatialObjectState>,
    duration: u32,
) -> Option<EndState> {
    let timeline = StateTimeline::starting(initial).followed(updates, id, duration);
    match (timeline.resolved(duration), timeline.state) {
        (Some(current), Some(target)) => Some(
            EndState {
                current,
                target,
                position_left: ramp_left(timeline.position, duration),
                gain_left: ramp_left(timeline.gain, duration),
            },
        ),
        _ => None,
    }
}

pub open spec fn ramp_left(ramp: Option<MetadataRamp>, frame: u32) -> u32 {
    match ramp {
        Some(ramp) => ramp.remaining(frame),
        None => 0,
    }
}

/// `states` with element `id` recorded, where it has a state to record.
pub open spec fn recorded(
    states: Map<u64, EndState>,
    updates: Seq<SceneMetadataUpdate>,
    id: u64,
    initial: Option<SpatialObjectState>,
    duration: u32,
) -> Map<u64, EndState> {
    match end_state(updates, id, initial, duration) {
        Some(end) => states.insert(id, end),
        None => states,
    }
}

pub open spec fn object_end_states(
    objects: Seq<SceneObjectPcm>,
    updates: Seq<SceneMetadataUpdate>,
    duration: u32,
) -> Map<u64, EndState>
    decreases objects.len(),
{
    if objects.len() == 0 {
        Map::empty()
    } else {
        recorded(
            object_end_states(objects.drop_last(), updates, duration),
            updates,
            objects.last().element_id,
            objects.last().initial_state,
            duration,
        )
    }
}

/// Where every element of a block stands at its end.
pub open spec fn end_states(block: DecodedSceneBlock) -> Map<u64, EndState> {
    let objects = object_end_states(
        block.objects@,
        block.metadata_updates@,
        block.duration_frames,
    );
    match block.lfe {
        Some(bed) => recorded(
            objects,
            block.metadata_updates@,
            bed.element_id,
            bed.initial_state,
            block.duration_frames,
        ),
        None => objects,
    }
}

fn left_of(ramp: &Option<MetadataRamp>, frame: u32) -> (r: u32)
    ensures
        r == ramp_left(*ramp, frame),
{
    match ramp {
        Some(ramp) => ramp.start_frame.saturating_add(ramp.duration_frames).saturating_sub(frame),
        None => 0,
    }
}

fn record(
    states: &mut BTreeMap<u64, EndState>,
    updates: &[SceneMetadataUpdate],
    id: u64,
    initial: &Option<SpatialObjectState>,
    duration: u32,
)
    ensures
        final(states)@ == recorded(old(states)@, updates@, id, *initial, duration),
{
    let timeline = timeline_at(updates, id, initial, duration);
    let current = timeline.at(duration);
    match (current, timeline.state) {
        (Some(current), Some(target)) => {
            let end = EndState {
                current,
                target,
                position_left: left_of(&timeline.position, duration),
                gain_left: left_of(&timeline.gain, duration),
            };
            states.insert(id, end);
        },
        _ => {},
    }
}

impl Default for SceneContinuity {
    fn default() -> (r: Self)
        ensures
            r.end is None,
            r.states@ == Map::<u64, EndState>::empty(),
    {
        SceneContinuity {
            end: None,
            generation: 0,
            sample_rate: 0,
            presentation_index: 0,
            presentation_id: None,
            states: BTreeMap::new(),
        }
    }
}

impl SceneContinuity {
    /// The block starts where the previous one ended, and belongs to the same
    /// configuration, sample rate and presentation.
    pub open spec fn continues(&self, block: &DecodedSceneBlock) -> bool {
        &&& self.end == Some(block.start_frame)
        &&& self.generation == block.configuration_generation
        &&& self.sample_rate == block.sample_rate
        &&& self.presentation_index == block.presentation_index
        &&& self.presentation_id == block.presentation_id
    }

    /// The states that `block` inherits.
    pub open spec fn inherited(&self, block: &DecodedSceneBlock) -> Map<u64, EndState> {
        if self.continues(block) {
            self.states@
        } else {
            Map::empty()
        }
    }

    pub fn clear(&mut self)
        ensures
            final(self).end is None,
            final(self).states@ == Map::<u64, EndState>::empty(),
            final(self).generation == old(self).generation,
            final(self).sample_rate == old(self).sample_rate,
            final(self).presentation_index == old(self).presentation_index,
            final(self).presentation_id == old(self).presentation_id,
    {
        self.end = None;
        self.states.clear();
    }

    fn resume(
        &self,
        id: u64,
        initial: &mut Option<SpatialObjectState>,
        updates: &mut Vec<SceneMetadataUpdate>,
    )
        ensures
            *final(initial) == resumed_initial(self.states@, id, *old(initial)),
            final(updates)@ == old(updates)@ + continuation(self.states@, id, *old(initial)),
    {
        let raw = match initial.take() {
            Some(raw) => raw,
            None => {
                assert(updates@ =~= old(updates)@ + continuation(self.states@, id, *old(initial)));
                return ;
            },
        };
        let previous = match self.states.get(&id) {
            Some(previous) => previous,
            None => {
                *initial = Some(raw);
                assert(updates@ =~= old(updates)@ + continuation(self.states@, id, *old(initial)));
                return ;
            },
        };
        if previous.position_left != 0 {
            let target = SpatialObjectState {
                metadata_active: raw.metadata_active,
                position: dup_position(&previous.target.position),
                linear_gain: dup_level(&previous.target.linear_gain),
                semantic_complete: raw.semantic_complete,
                tracking: raw.tracking,
            };
            updates.push(
                SceneMetadataUpdate::new(id, 0, previous.position_left, FIELD_POSITION, target),
            );
        }
        if previous.gain_left != 0 {
            let target = SpatialObjectState {
                metadata_active: raw.metadata_active,
                position: dup_position(&previous.target.position),
                linear_gain: dup_level(&previous.target.linear_gain),
                semantic_complete: raw.semantic_complete,
                tracking: raw.tracking,
            };
            updates.push(SceneMetadataUpdate::new(id, 0, previous.gain_left, FIELD_GAIN, target));
        }
        *initial =
        Some(
            SpatialObjectState {
                metadata_active: raw.metadata_active,
                position: dup_position(&previous.current.position),
                linear_gain: dup_level(&previous.current.linear_gain),
                semantic_complete: raw.semantic_complete,
                tracking: raw.tracking,
            },
        );
        assert(updates@ =~= old(updates)@ + continuation(self.states@, id, *old(initial)));
    }

    /// `block` is `raw` made self-contained: it starts where the frames before it
    /// left off, and carries on what they left running. `after` is what the next
    /// frame may inherit.
    pub open spec fn normalizes(
        before: SceneContinuity,
        raw: DecodedSceneBlock,
        after: SceneContinuity,
        block: DecodedSceneBlock,
    ) -> bool {
        let states = before.inherited(&raw);
        // The elements keep their names and samples.
        &&& block.objects@.len() == raw.objects@.len()
        &&& forall|i: int|
            0 <= i < raw.objects@.len() ==> (#[trigger] block.objects@[i]) == (SceneObjectPcm {
                initial_state: resumed_initial(
                    states,
                    raw.objects@[i].element_id,
                    raw.objects@[i].initial_state,
                ),
                ..raw.objects@[i]
            })
        &&& block.lfe == (match raw.lfe {
            Some(bed) => Some(
                SceneLfePcm {
                    initial_state: resumed_initial(states, bed.element_id, bed.initial_state),
                    ..bed
                },
            ),
            None => None,
        })
        // Inherited ramps come first, so an explicit update overrides only its own
        // field at the same sample.
        &&& block.metadata_updates@ == object_continuations(states, raw.objects@)
            + lfe_continuation(states, raw.lfe) + raw.metadata_updates@
        &&& block.sample_rate == raw.sample_rate
        &&& block.start_frame == raw.start_frame
        &&& block.duration_frames == raw.duration_frames
        &&& block.configuration_generation == raw.configuration_generation
        &&& block.presentation_index == raw.presentation_index
        &&& block.presentation_id == raw.presentation_id
        &&& block.state_complete == raw.state_complete
        &&& after.states@ == end_states(block)
        &&& after.end == (if raw.end() <= i64::MAX {
            Some(raw.end() as i64)
        } else {
            None
        })
        &&& after.generation == raw.configuration_generation
        &&& after.sample_rate == raw.sample_rate
        &&& after.presentation_index == raw.presentation_index
        &&& after.presentation_id == raw.presentation_id
    }

    /// Makes `block` self-contained: it starts where the previous block left
    /// every element, and carries the ramps that were still running as events
    /// before its own. A block that does not continue the previous one inherits
    /// nothing.
    pub fn normalize(&mut self, block: &mut DecodedSceneBlock)
        ensures
            SceneContinuity::normalizes(*old(self), *old(block), *final(self), *final(block)),
    {
        let continues = match self.end {
            Some(end) => end == block.start_frame,
            None => false,
        } && self.generation == block.configuration_generation && self.sample_rate
            == block.sample_rate && self.presentation_index == block.presentation_index
            && self.presentation_id == block.presentation_id;
        if !continues {
            self.states.clear();
        }
        let ghost inherited = old(self).inherited(old(block));
        let ghost before = *block;
        assert(self.states@ == inherited);
        let mut continuations: Vec<SceneMetadataUpdate> = Vec::new();
        let mut index: usize = 0;
        assert(before.objects@.take(0) =~= Seq::empty());
        while index < block.objects.len()
            invariant
                index <= block.objects@.len(),
                self.states@ == inherited,
                block.objects@.len() == before.objects@.len(),
                *block == (DecodedSceneBlock { objects: block.objects, ..before }),
                forall|i: int|
                    index <= i < before.objects@.len() ==> block.objects@[i] == before.objects@[i],
                forall|i: int|
                    0 <= i < index ==> (#[trigger] block.objects@[i]) == (SceneObjectPcm {
                        initial_state: resumed_initial(
                            inherited,
                            before.objects@[i].element_id,
                            before.objects@[i].initial_state,
                        ),
                        ..before.objects@[i]
                    }),
                continuations@ == object_continuations(
                    inherited,
                    before.objects@.take(index as int),
                ),
            decreases block.objects.len() - index,
        {
            proof {
                let prefix = before.objects@.take(index as int + 1);
                assert(prefix.drop_last() =~= before.objects@.take(index as int));
                assert(prefix.last() == before.objects@[index as int]);
            }
            let id: u64 = block.objects[index].element_id;
            let object = &mut block.objects[index];
            self.resume(id, &mut object.initial_state, &mut continuations);
            index = index + 1;
        }
        assert(before.objects@.take(index as int) =~= before.objects@);
        match &mut block.lfe {
            Some(bed) => {
                let id: u64 = bed.element_id;
                self.resume(id, &mut bed.initial_state, &mut continuations);
            },
            None => {
                assert(continuations@ =~= object_continuations(inherited, before.objects@)
                    + lfe_continuation(inherited, before.lfe));
            },
        }
        continuations.append(&mut block.metadata_updates);
        block.metadata_updates = continuations;

        let mut next: BTreeMap<u64, EndState> = BTreeMap::new();
        let mut cursor: usize = 0;
        let ghost after = *block;
        assert(after.objects@.take(0) =~= Seq::empty());
        while cursor < block.objects.len()
            invariant
                cursor <= block.objects@.len(),
                *block == after,
                next@ == object_end_states(
                    after.objects@.take(cursor as int),
                    after.metadata_updates@,
                    after.duration_frames,
                ),
            decreases block.objects.len() - cursor,
        {
            proof {
                let prefix = after.objects@.take(cursor as int + 1);
                assert(prefix.drop_last() =~= after.objects@.take(cursor as int));
                assert(prefix.last() == after.objects@[cursor as int]);
            }
            record(
                &mut next,
                block.metadata_updates.as_slice(),
                block.objects[cursor].element_id,
                &block.objects[cursor].initial_state,
                block.duration_frames,
            );
            cursor = cursor + 1;
        }
        assert(after.objects@.take(cursor as int) =~= after.objects@);
        match &block.lfe {
            Some(bed) => {
                record(
                    &mut next,
                    block.metadata_updates.as_slice(),
                    bed.element_id,
                    &bed.initial_state,
                    block.duration_frames,
                );
            },
            None => {},
        }
        self.states = next;
        self.end = block.start_frame.checked_add(block.duration_frames as i64);
        self.generation = block.configuration_generation;
        self.sample_rate = block.sample_rate;
        self.presentation_index = block.presentation_index;
        self.presentation_id = block.presentation_id;
    }
}

/// A block that does not continue the previous one, after a seek, a gap or a
/// new configuration, inherits neither values nor ramps.
pub proof fn an_interrupted_timeline_inherits_nothing(
    continuity: SceneContinuity,
    block: DecodedSceneBlock,
    id: u64,
    declared: Option<SpatialObjectState>,
)
    requires
        !continuity.continues(&block),
    ensures
        resumed_initial(continuity.inherited(&block), id, declared) == declared,
        continuation(continuity.inherited(&block), id, declared).len() == 0,
        object_continuations(continuity.inherited(&block), block.objects@).len() == 0,
        lfe_continuation(continuity.inherited(&block), block.lfe).len() == 0,
{
    lemma_no_continuations(block.objects@);
}

proof fn lemma_no_continuations(objects: Seq<SceneObjectPcm>)
    ensures
        object_continuations(Map::empty(), objects).len() == 0,
    decreases objects.len(),
{
    if objects.len() > 0 {
        lemma_no_continuations(objects.drop_last());
    }
}

/// An element that a block does not declare a state for gets none from the
/// block before it.
pub proof fn a_missing_state_stays_missing(states: Map<u64, EndState>, id: u64)
    ensures
        resumed_initial(states, id, None) is None,
        continuation(states, id, None).len() == 0,
{
}

/// A ramp that is over at the end of a block has left the element on target.
pub proof fn an_element_without_ramps_ends_on_its_target(
    updates: Seq<SceneMetadataUpdate>,
    id: u64,
    initial: Option<SpatialObjectState>,
    duration: u32,
)
    requires
        duration < u32::MAX,
        end_state(updates, id, initial, duration) is Some,
    ensures
        ({
            let end = end_state(updates, id, initial, duration)->0;
            &&& end.position_left == 0 ==> end.current.position == end.target.position
            &&& end.gain_left == 0 ==> end.current.linear_gain == end.target.linear_gain
        }),
{
    running_ramps_aim_at_the_declared_state(initial, updates, id, duration);
    let timeline = StateTimeline::starting(initial).followed(updates, id, duration);
    if let Some(ramp) = timeline.position {
        if ramp.remaining(duration) == 0 {
            a_finished_ramp_is_its_target(ramp, duration);
        }
    }
    if let Some(ramp) = timeline.gain {
        if ramp.remaining(duration) == 0 {
            a_finished_ramp_is_its_target(ramp, duration);
        }
    }
}

/// A ramp that crosses a block boundary ends on the frame it was to end on:
/// after the frames that were left, the element is exactly on target in each of
/// the two fields, and until then the other field's deadline does not move it.
pub proof fn a_carried_ramp_ends_when_its_remaining_frames_are_over(
    states: Map<u64, EndState>,
    id: u64,
    declared: SpatialObjectState,
    offset: u32,
)
    requires
        states.contains_key(id),
    ensures
        ({
            let end = states[id];
            let state = state_after(
                continuation(states, id, Some(declared)),
                id,
                resumed_initial(states, id, Some(declared)),
                offset,
            );
            &&& state is Some
            &&& end.position_left != 0 && offset >= end.position_left ==> state->0.position
                == end.target.position
            &&& end.gain_left != 0 && offset >= end.gain_left ==> state->0.linear_gain
                == end.target.linear_gain
            &&& end.position_left == 0 ==> state->0.position == end.current.position
            &&& end.gain_left == 0 ==> state->0.linear_gain == end.current.linear_gain
            &&& state->0.metadata_active == declared.metadata_active
            &&& state->0.tracking == declared.tracking
        }),
{
    let end = states[id];
    let events = continuation(states, id, Some(declared));
    let start = StateTimeline::starting(resumed_initial(states, id, Some(declared)));
    reveal_with_fuel(StateTimeline::followed, 3);
    assert(FIELD_POSITION & FIELD_POSITION != 0 && FIELD_POSITION & FIELD_GAIN == 0 && FIELD_GAIN
        & FIELD_GAIN != 0 && FIELD_GAIN & FIELD_POSITION == 0 && FIELD_POSITION & FIELD_ACTIVE == 0
        && FIELD_GAIN & FIELD_ACTIVE == 0 && FIELD_POSITION & FIELD_HEAD_TRACKING == 0 && FIELD_GAIN
        & FIELD_HEAD_TRACKING == 0) by (bit_vector);
    let timeline = start.followed(events, id, offset);
    if end.position_left != 0 && end.gain_left != 0 {
        assert(events.drop_first().len() == 1);
        assert(events.drop_first().drop_first().len() == 0);
        assert(timeline == start.applied(events[0]).applied(events[1]));
    } else if end.position_left != 0 || end.gain_left != 0 {
        assert(events.drop_first().len() == 0);
        assert(timeline == start.applied(events[0]));
    } else {
        assert(timeline == start);
    }
    if let Some(ramp) = timeline.position {
        if offset >= end.position_left {
            a_finished_ramp_is_its_target(ramp, offset);
        }
    }
    if let Some(ramp) = timeline.gain {
        if offset >= end.gain_left {
            a_finished_ramp_is_its_target(ramp, offset);
        }
    }
}

/// A block continues the timeline before it exactly where it starts as that ended, in the
/// same configuration and presentation, at the same rate.
pub proof fn a_block_continues_what_ended_as_it_starts(
    before: SceneContinuity,
    block: DecodedSceneBlock,
)
    ensures
        before.continues(&block) <==> {
            &&& before.end is Some
            &&& before.end->0 == block.start_frame
            &&& before.generation == block.configuration_generation
            &&& before.sample_rate == block.sample_rate
            &&& before.presentation_index == block.presentation_index
            &&& before.presentation_id == block.presentation_id
        },
        before.continues(&block) ==> before.inherited(&block) == before.states@,
        !before.continues(&block) ==> before.inherited(&block).dom() =~= Set::<u64>::empty(),
{
}

/// An object of a continued timeline starts at the position and gain that it ended the
/// block before with, and is otherwise what its own block declares. One that ended
/// nowhere, and every object of an interrupted timeline, starts as declared.
pub proof fn an_object_starts_where_it_ended(
    before: SceneContinuity,
    raw: DecodedSceneBlock,
    after: SceneContinuity,
    block: DecodedSceneBlock,
    i: int,
)
    requires
        SceneContinuity::normalizes(before, raw, after, block),
        0 <= i < raw.objects@.len(),
    ensures
        ({
            let object = raw.objects@[i];
            let id = object.element_id;
            let initial = block.objects@[i].initial_state;
            &&& block.objects@.len() == raw.objects@.len()
            &&& block.objects@[i].element_id == id
            &&& block.objects@[i].samples == object.samples
            &&& initial is Some <==> object.initial_state is Some
            &&& before.continues(&raw) && before.states@.contains_key(id) && object.initial_state is Some
                ==> {
                &&& initial->0.position == before.states@[id].current.position
                &&& initial->0.linear_gain == before.states@[id].current.linear_gain
                &&& initial->0.metadata_active == object.initial_state->0.metadata_active
                &&& initial->0.semantic_complete == object.initial_state->0.semantic_complete
                &&& initial->0.tracking == object.initial_state->0.tracking
            }
            &&& !before.continues(&raw) || !before.states@.contains_key(id) ==> initial
                == object.initial_state
        }),
{
    assert(block.objects@[i].element_id == raw.objects@[i].element_id);
}

/// The bed of a continued timeline starts at the gain that it ended with.
pub proof fn the_bed_starts_where_it_ended(
    before: SceneContinuity,
    raw: DecodedSceneBlock,
    after: SceneContinuity,
    block: DecodedSceneBlock,
)
    requires
        SceneContinuity::normalizes(before, raw, after, block),
    ensures
        block.lfe is Some <==> raw.lfe is Some,
        raw.lfe is Some ==> {
            let id = raw.lfe->0.element_id;
            &&& block.lfe->0.element_id == id
            &&& block.lfe->0.samples == raw.lfe->0.samples
            &&& before.continues(&raw) && before.states@.contains_key(id)
                && raw.lfe->0.initial_state is Some ==> block.lfe->0.initial_state is Some
                && block.lfe->0.initial_state->0.linear_gain
                == before.states@[id].current.linear_gain
                && block.lfe->0.initial_state->0.metadata_active
                == raw.lfe->0.initial_state->0.metadata_active
            &&& !before.continues(&raw) ==> block.lfe->0.initial_state == raw.lfe->0.initial_state
        },
{
}

/// A block keeps its place, its length and its own updates; what it carries on comes
/// before them. The timeline then ends where the block does.
pub proof fn a_block_keeps_its_own_updates(
    before: SceneContinuity,
    raw: DecodedSceneBlock,
    after: SceneContinuity,
    block: DecodedSceneBlock,
)
    requires
        SceneContinuity::normalizes(before, raw, after, block),
    ensures
        block.start_frame == raw.start_frame,
        block.duration_frames == raw.duration_frames,
        block.sample_rate == raw.sample_rate,
        block.configuration_generation == raw.configuration_generation,
        block.state_complete == raw.state_complete,
        block.metadata_updates@.len() >= raw.metadata_updates@.len(),
        block.metadata_updates@.skip(
            block.metadata_updates@.len() - raw.metadata_updates@.len(),
        ) == raw.metadata_updates@,
        raw.start_frame + raw.duration_frames <= i64::MAX ==> after.end == Some(
            (raw.start_frame + raw.duration_frames) as i64,
        ),
        !before.continues(&raw) ==> block.metadata_updates@ == raw.metadata_updates@,
        after.generation == raw.configuration_generation,
        after.sample_rate == raw.sample_rate,
        after.presentation_index == raw.presentation_index,
        after.presentation_id == raw.presentation_id,
{
    let states = before.inherited(&raw);
    let carried = object_continuations(states, raw.objects@) + lfe_continuation(states, raw.lfe);
    assert(block.metadata_updates@ =~= carried + raw.metadata_updates@);
    assert(block.metadata_updates@.skip(carried.len() as int) =~= raw.metadata_updates@);
    if !before.continues(&raw) {
        lemma_nothing_continued(states, raw.objects@);
        assert(lfe_continuation(states, raw.lfe) =~= Seq::empty());
        assert(carried =~= Seq::empty());
        assert(block.metadata_updates@ =~= raw.metadata_updates@);
    }
}

proof fn lemma_nothing_continued(states: Map<u64, EndState>, objects: Seq<SceneObjectPcm>)
    requires
        states == Map::<u64, EndState>::empty(),
    ensures
        object_continuations(states, objects) =~= Seq::empty(),
    decreases objects.len(),
{
    if objects.len() > 0 {
        lemma_nothing_continued(states, objects.drop_last());
    }
}

/// An element that ended inside a movement or a fade goes on with what was left of each,
/// toward the target that it had, at once and not later; one that ended at rest has
/// nothing to go on with.
pub proof fn an_element_goes_on_with_what_was_left(
    states: Map<u64, EndState>,
    id: u64,
    declared: SpatialObjectState,
)
    requires
        states.contains_key(id),
    ensures
        ({
            let events = continuation(states, id, Some(declared));
            let end = states[id];
            let moves = if end.position_left > 0 {
                1int
            } else {
                0
            };
            let fades = if end.gain_left > 0 {
                1int
            } else {
                0
            };
            &&& events.len() == moves + fades
            &&& end.position_left > 0 ==> {
                &&& events[0].element_id == id
                &&& events[0].offset_frames == 0
                &&& events[0].ramp_frames == end.position_left
                &&& events[0].changed_fields == 8
                &&& events[0].state.position == end.target.position
                &&& events[0].state.metadata_active == declared.metadata_active
            }
            &&& end.gain_left > 0 ==> {
                &&& events.last().element_id == id
                &&& events.last().offset_frames == 0
                &&& events.last().ramp_frames == end.gain_left
                &&& events.last().changed_fields == 2
                &&& events.last().state.linear_gain == end.target.linear_gain
            }
        }),
{
}

/// What is recorded of an element at the end of a block is where it is there, what it
/// heads for, and how long its movement and its fade still last.
pub proof fn the_end_of_a_block_is_recorded(
    updates: Seq<SceneMetadataUpdate>,
    id: u64,
    initial: Option<SpatialObjectState>,
    duration: u32,
    states: Map<u64, EndState>,
)
    ensures
        ({
            let end = end_state(updates, id, initial, duration);
            let timeline = StateTimeline::starting(initial).followed(updates, id, duration);
            &&& end is Some <==> timeline.state is Some
            &&& end is Some ==> {
                &&& Some(end->0.current) == crate::decoder::metadata::state_after(
                    updates,
                    id,
                    initial,
                    duration,
                )
                &&& Some(end->0.target) == timeline.state
                &&& timeline.position is None ==> end->0.position_left == 0
                &&& timeline.gain is None ==> end->0.gain_left == 0
                &&& timeline.position is Some ==> end->0.position_left
                    == timeline.position->0.remaining(duration)
                &&& timeline.gain is Some ==> end->0.gain_left == timeline.gain->0.remaining(
                    duration,
                )
            }
            &&& end is Some ==> recorded(states, updates, id, initial, duration).contains_key(id)
                && recorded(states, updates, id, initial, duration)[id] == end->0
            &&& end is None ==> recorded(states, updates, id, initial, duration) == states
        }),
{
}

/// Every object of a block is recorded at its end, under its own name.
pub proof fn every_object_is_recorded(
    objects: Seq<SceneObjectPcm>,
    updates: Seq<SceneMetadataUpdate>,
    duration: u32,
    i: int,
)
    requires
        0 <= i < objects.len(),
        forall|a: int, b: int|
            0 <= a < b < objects.len() ==> (#[trigger] objects[a]).element_id != (
            #[trigger] objects[b]).element_id,
        end_state(updates, objects[i].element_id, objects[i].initial_state, duration) is Some,
    ensures
        object_end_states(objects, updates, duration).contains_key(objects[i].element_id),
        Some(object_end_states(objects, updates, duration)[objects[i].element_id]) == end_state(
            updates,
            objects[i].element_id,
            objects[i].initial_state,
            duration,
        ),
    decreases objects.len(),
{
    if i < objects.len() - 1 {
        let front = objects.drop_last();
        assert forall|a: int, b: int| 0 <= a < b < front.len() implies (
        #[trigger] front[a]).element_id != (#[trigger] front[b]).element_id by {
            assert(objects[a].element_id != objects[b].element_id);
        }
        every_object_is_recorded(front, updates, duration, i);
        assert(objects[i].element_id != objects[objects.len() - 1].element_id);
    }
}

} // verus!
