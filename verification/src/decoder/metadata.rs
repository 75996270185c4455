//! Metadata timing. Each decoded frame becomes a self-contained snapshot with
//! continuation events before it enters the scene queue.
use super::level::{dup_level, Level};
use super::scene::{
    dup_position, dup_state, DecodedSceneBlock, SceneLfePcm, SceneMetadataUpdate, SceneObjectPcm,
    SpatialObjectState, SpatialPosition, FIELD_ACTIVE, FIELD_GAIN, FIELD_HEAD_TRACKING,
    FIELD_POSITION,
};
use crate::numeric::{round_to_single, rounded_to_single};
use vstd::prelude::*;

verus! {

/// `elapsed / duration`, as single precision divides the two, reaches one.
pub open spec fn reaches_one(elapsed: u32, duration: u32) -> bool {
    rounded_to_single(elapsed as nat) == rounded_to_single(duration as nat)
}

/// The value `elapsed / duration` of the way from one level to another.
pub open spec fn blend(from: Level, to: Level, elapsed: u32, duration: u32) -> Level {
    Level::Blend { from: Box::new(from), to: Box::new(to), elapsed, duration }
}

/// The state `elapsed / duration` of the way from one state to another. Either
/// end is the state itself; between them positions and gains are blended, and
/// everything else already is the target's.
pub open spec fn interpolated(
    from: SpatialObjectState,
    to: SpatialObjectState,
    elapsed: u32,
    duration: u32,
) -> SpatialObjectState {
    if duration == 0 {
        to
    } else if elapsed == 0 {
        from
    } else if reaches_one(elapsed, duration) {
        to
    } else {
        SpatialObjectState {
            metadata_active: to.metadata_active,
            position: match (from.position, to.position) {
                (Some(a), Some(b)) => Some(
                    SpatialPosition {
                        x: blend(a.x, b.x, elapsed, duration),
                        y: blend(a.y, b.y, elapsed, duration),
                        z: blend(a.z, b.z, elapsed, duration),
                    },
                ),
                (_, target) => target,
            },
            linear_gain: match (from.linear_gain, to.linear_gain) {
                (Some(a), Some(b)) => Some(blend(a, b, elapsed, duration)),
                (_, target) => target,
            },
            semantic_complete: from.semantic_complete && to.semantic_complete,
            tracking: to.tracking,
        }
    }
}

fn mix(from: &Level, to: &Level, elapsed: u32, duration: u32) -> (r: Level)
    ensures
        r == blend(*from, *to, elapsed, duration),
{
    Level::Blend { from: Box::new(from.dup()), to: Box::new(to.dup()), elapsed, duration }
}

/// Interpolates between two states.
pub fn interpolate_state(
    from: &SpatialObjectState,
    to: &SpatialObjectState,
    elapsed: u32,
    duration: u32,
) -> (r: SpatialObjectState)
    ensures
        r == interpolated(*from, *to, elapsed, duration),
{
    if duration == 0 {
        return to.dup();
    }
    if elapsed == 0 {
        return from.dup();
    }
    if round_to_single(elapsed) == round_to_single(duration) {
        return to.dup();
    }
    let position = match (&from.position, &to.position) {
        (Some(a), Some(b)) => Some(
            SpatialPosition {
                x: mix(&a.x, &b.x, elapsed, duration),
                y: mix(&a.y, &b.y, elapsed, duration),
                z: mix(&a.z, &b.z, elapsed, duration),
            },
        ),
        _ => dup_position(&to.position),
    };
    let linear_gain = match (&from.linear_gain, &to.linear_gain) {
        (Some(a), Some(b)) => Some(mix(a, b, elapsed, duration)),
        _ => dup_level(&to.linear_gain),
    };
    SpatialObjectState {
        metadata_active: to.metadata_active,
        position,
        linear_gain,
        semantic_complete: from.semantic_complete && to.semantic_complete,
        tracking: to.tracking,
    }
}

/// A running change from one state to another.
#[derive(Debug)]
pub struct MetadataRamp {
    pub start_frame: u32,
    pub duration_frames: u32,
    pub from: SpatialObjectState,
    pub to: SpatialObjectState,
}

impl MetadataRamp {
    /// Frames of the ramp that lie before `frame`.
    pub open spec fn elapsed(self, frame: u32) -> u32 {
        if frame <= self.start_frame {
            0
        } else if frame - self.start_frame <= self.duration_frames {
            (frame - self.start_frame) as u32
        } else {
            self.duration_frames
        }
    }

    pub open spec fn resolved(self, frame: u32) -> SpatialObjectState {
        interpolated(self.from, self.to, self.elapsed(frame), self.duration_frames)
    }

    /// Frames left behind `frame`; an end beyond the frame counter stops at its
    /// last value.
    pub open spec fn remaining(self, frame: u32) -> u32 {
        let end = if self.start_frame + self.duration_frames > u32::MAX {
            u32::MAX as int
        } else {
            self.start_frame + self.duration_frames
        };
        if end <= frame {
            0
        } else {
            (end - frame) as u32
        }
    }

    pub fn state_at(&self, frame: u32) -> (r: SpatialObjectState)
        ensures
            r == self.resolved(frame),
    {
        let since: u32 = frame.saturating_sub(self.start_frame);
        let elapsed: u32 = if since < self.duration_frames {
            since
        } else {
            self.duration_frames
        };
        interpolate_state(&self.from, &self.to, elapsed, self.duration_frames)
    }

    fn left(&self, frame: u32) -> (r: u32)
        ensures
            r == self.remaining(frame),
    {
        self.start_frame.saturating_add(self.duration_frames).saturating_sub(frame)
    }
}

/// Continuous fields own their deadlines; discrete and ignored-field events
/// cannot overwrite the coordinates or gain target of a running ramp.
#[derive(Debug)]
pub struct StateTimeline {
    pub state: Option<SpatialObjectState>,
    pub position: Option<MetadataRamp>,
    pub gain: Option<MetadataRamp>,
}

impl StateTimeline {
    pub open spec fn starting(initial: Option<SpatialObjectState>) -> StateTimeline {
        StateTimeline { state: initial, position: None, gain: None }
    }

    /// The state with both running ramps resolved at `offset`.
    pub open spec fn resolved(self, offset: u32) -> Option<SpatialObjectState> {
        match self.state {
            None => None,
            Some(state) => Some(
                SpatialObjectState {
                    metadata_active: state.metadata_active,
                    position: match self.position {
                        Some(ramp) => ramp.resolved(offset).position,
                        None => state.position,
                    },
                    linear_gain: match self.gain {
                        Some(ramp) => ramp.resolved(offset).linear_gain,
                        None => state.linear_gain,
                    },
                    semantic_complete: state.semantic_complete && match self.position {
                        Some(ramp) => ramp.resolved(offset).semantic_complete,
                        None => true,
                    } && match self.gain {
                        Some(ramp) => ramp.resolved(offset).semantic_complete,
                        None => true,
                    },
                    tracking: state.tracking,
                },
            ),
        }
    }

    /// The ramp that `update` starts from the state it finds, if it takes time.
    pub open spec fn ramp_of(
        update: SceneMetadataUpdate,
        found: SpatialObjectState,
    ) -> Option<MetadataRamp> {
        if update.ramp_frames == 0 {
            None
        } else {
            Some(
                MetadataRamp {
                    start_frame: update.offset_frames,
                    duration_frames: update.ramp_frames,
                    from: found,
                    to: update.state,
                },
            )
        }
    }

    /// The timeline behind `update`: each field that it names takes the
    /// update's target, and every other field keeps what it had.
    pub open spec fn applied(self, update: SceneMetadataUpdate) -> StateTimeline {
        match (self.resolved(update.offset_frames), self.state) {
            (Some(found), Some(base)) => StateTimeline {
                position: if update.changed_fields & FIELD_POSITION != 0 {
                    StateTimeline::ramp_of(update, found)
                } else {
                    self.position
                },
                gain: if update.changed_fields & FIELD_GAIN != 0 {
                    StateTimeline::ramp_of(update, found)
                } else {
                    self.gain
                },
                state: Some(
                    SpatialObjectState {
                        metadata_active: if update.changed_fields & FIELD_ACTIVE != 0 {
                            update.state.metadata_active
                        } else {
                            base.metadata_active
                        },
                        position: if update.changed_fields & FIELD_POSITION != 0 {
                            update.state.position
                        } else {
                            base.position
                        },
                        linear_gain: if update.changed_fields & FIELD_GAIN != 0 {
                            update.state.linear_gain
                        } else {
                            base.linear_gain
                        },
                        semantic_complete: update.state.semantic_complete,
                        tracking: if update.changed_fields & FIELD_HEAD_TRACKING != 0 {
                            update.state.tracking
                        } else {
                            base.tracking
                        },
                    },
                ),
            },
            _ => StateTimeline { state: Some(update.state), ..self },
        }
    }

    /// The timeline after every update of element `id` up to `offset`, stopping
    /// at the first one behind it.
    pub open spec fn followed(
        self,
        updates: Seq<SceneMetadataUpdate>,
        id: u64,
        offset: u32,
    ) -> StateTimeline
        decreases updates.len(),
    {
        if updates.len() == 0 {
            self
        } else if updates[0].element_id != id {
            self.followed(updates.drop_first(), id, offset)
        } else if updates[0].offset_frames > offset {
            self
        } else {
            self.applied(updates[0]).followed(updates.drop_first(), id, offset)
        }
    }

    pub fn at(&self, offset: u32) -> (r: Option<SpatialObjectState>)
        ensures
            r == self.resolved(offset),
    {
        let state = match &self.state {
            Some(state) => state,
            None => {
                return None;
            },
        };
        let mut complete = state.semantic_complete;
        let position = match &self.position {
            Some(ramp) => {
                let resolved = ramp.state_at(offset);
                complete = complete && resolved.semantic_complete;
                resolved.position
            },
            None => dup_position(&state.position),
        };
        let linear_gain = match &self.gain {
            Some(ramp) => {
                let resolved = ramp.state_at(offset);
                complete = complete && resolved.semantic_complete;
                resolved.linear_gain
            },
            None => dup_level(&state.linear_gain),
        };
        Some(
            SpatialObjectState {
                metadata_active: state.metadata_active,
                position,
                linear_gain,
                semantic_complete: complete,
                tracking: state.tracking,
            },
        )
    }

    fn start_ramp(update: &SceneMetadataUpdate, found: &SpatialObjectState) -> (r: Option<
        MetadataRamp,
    >)
        ensures
            r == StateTimeline::ramp_of(*update, *found),
    {
        if update.ramp_frames == 0 {
            None
        } else {
            Some(
                MetadataRamp {
                    start_frame: update.offset_frames,
                    duration_frames: update.ramp_frames,
                    from: found.dup(),
                    to: update.state.dup(),
                },
            )
        }
    }

    pub fn apply(&mut self, update: &SceneMetadataUpdate)
        ensures
            *final(self) == old(self).applied(*update),
    {
        let found = match self.at(update.offset_frames) {
            Some(found) => found,
            None => {
                self.state = Some(update.state.dup());
                return ;
            },
        };
        let target = &update.state;
        let base = match self.state.take() {
            Some(base) => base,
            None => found.dup(),
        };
        let fields: u32 = update.changed_fields;
        if fields & FIELD_POSITION != 0 {
            self.position = StateTimeline::start_ramp(update, &found);
        }
        if fields & FIELD_GAIN != 0 {
            self.gain = StateTimeline::start_ramp(update, &found);
        }
        self.state =
        Some(
            SpatialObjectState {
                metadata_active: if fields & FIELD_ACTIVE != 0 {
                    target.metadata_active
                } else {
                    base.metadata_active
                },
                position: if fields & FIELD_POSITION != 0 {
                    dup_position(&target.position)
                } else {
                    base.position
                },
                linear_gain: if fields & FIELD_GAIN != 0 {
                    dup_level(&target.linear_gain)
                } else {
                    base.linear_gain
                },
                semantic_complete: target.semantic_complete,
                tracking: if fields & FIELD_HEAD_TRACKING != 0 {
                    target.tracking
                } else {
                    base.tracking
                },
            },
        );
    }
}

/// The timeline of element `id` at `offset`.
pub fn timeline_at(
    updates: &[SceneMetadataUpdate],
    element_id: u64,
    initial_state: &Option<SpatialObjectState>,
    offset: u32,
) -> (r: StateTimeline)
    ensures
        r == StateTimeline::starting(*initial_state).followed(updates@, element_id, offset),
{
    let mut timeline = StateTimeline {
        state: dup_state(initial_state),
        position: None,
        gain: None,
    };
    let mut index: usize = 0;
    assert(updates@.skip(0) =~= updates@);
    while index < updates.len()
        invariant
            index <= updates@.len(),
            timeline.followed(updates@.skip(index as int), element_id, offset)
                == StateTimeline::starting(*initial_state).followed(updates@, element_id, offset),
        decreases updates.len() - index,
    {
        let update = &updates[index];
        assert(updates@.skip(index as int)[0] == *update);
        assert(updates@.skip(index as int).drop_first() =~= updates@.skip(index as int + 1));
        if update.element_id == element_id {
            if update.offset_frames > offset {
                return timeline;
            }
            timeline.apply(update);
        }
        index = index + 1;
    }
    timeline
}

/// The state of element `id` at `offset`, following `updates` from `initial`.
pub open spec fn state_after(
    updates: Seq<SceneMetadataUpdate>,
    id: u64,
    initial: Option<SpatialObjectState>,
    offset: u32,
) -> Option<SpatialObjectState> {
    StateTimeline::starting(initial).followed(updates, id, offset).resolved(offset)
}

pub fn state_at_updates(
    updates: &[SceneMetadataUpdate],
    element_id: u64,
    initial_state: &Option<SpatialObjectState>,
    offset_frames: u32,
) -> (r: Option<SpatialObjectState>)
    ensures
        r == state_after(updates@, element_id, *initial_state, offset_frames),
{
    timeline_at(updates, element_id, initial_state, offset_frames).at(offset_frames)
}

/// The element's state `offset_frames` into `block`, following every metadata
/// update up to that point and interpolating whichever ramp is still running.
pub fn element_state_at(
    block: &DecodedSceneBlock,
    element_id: u64,
    initial_state: &Option<SpatialObjectState>,
    offset_frames: u32,
) -> (r: Option<SpatialObjectState>)
    ensures
        r == state_after(block.metadata_updates@, element_id, *initial_state, offset_frames),
{
    state_at_updates(block.metadata_updates(), element_id, initial_state, offset_frames)
}

/// The state that a block declares for element `id` at its start: that of the
/// first object of this name, or of the bed where no object declares one.
pub open spec fn initial_of(
    objects: Seq<SceneObjectPcm>,
    lfe: Option<SceneLfePcm>,
    id: u64,
) -> Option<SpatialObjectState>
    decreases objects.len(),
{
    if objects.len() == 0 {
        match lfe {
            Some(bed) => if bed.element_id == id {
                bed.initial_state
            } else {
                None
            },
            None => None,
        }
    } else if objects[0].element_id == id {
        match objects[0].initial_state {
            Some(state) => Some(state),
            None => initial_of(Seq::empty(), lfe, id),
        }
    } else {
        initial_of(objects.drop_first(), lfe, id)
    }
}

fn declared_initial(block: &DecodedSceneBlock, id: u64) -> (r: Option<SpatialObjectState>)
    ensures
        r == initial_of(block.objects@, block.lfe, id),
{
    let bed = match &block.lfe {
        Some(bed) => if bed.element_id == id {
            dup_state(&bed.initial_state)
        } else {
            None
        },
        None => None,
    };
    assert(bed == initial_of(Seq::empty(), block.lfe, id));
    let mut index: usize = 0;
    assert(block.objects@.skip(0) =~= block.objects@);
    while index < block.objects.len()
        invariant
            index <= block.objects@.len(),
            bed == initial_of(Seq::empty(), block.lfe, id),
            initial_of(block.objects@, block.lfe, id) == initial_of(
                block.objects@.skip(index as int),
                block.lfe,
                id,
            ),
        decreases block.objects.len() - index,
    {
        let object = &block.objects[index];
        assert(block.objects@.skip(index as int)[0] == *object);
        assert(block.objects@.skip(index as int).drop_first() =~= block.objects@.skip(
            index as int + 1,
        ));
        if object.element_id == id {
            return match &object.initial_state {
                Some(state) => Some(state.dup()),
                None => bed,
            };
        }
        index = index + 1;
    }
    assert(block.objects@.skip(index as int) =~= Seq::empty());
    bed
}

/// The event that carries a ramp on behind `offset`, if part of it is left.
pub open spec fn resumed_ramp(
    ramp: Option<MetadataRamp>,
    state: Option<SpatialObjectState>,
    id: u64,
    field: u32,
    offset: u32,
) -> Option<SceneMetadataUpdate> {
    match ramp {
        None => None,
        Some(ramp) => if ramp.remaining(offset) != 0 && ramp.start_frame < offset {
            Some(
                SceneMetadataUpdate {
                    element_id: id,
                    offset_frames: 0,
                    ramp_frames: ramp.remaining(offset),
                    changed_fields: field,
                    state: match state {
                        Some(state) => state,
                        None => ramp.to,
                    },
                },
            )
        } else {
            None
        },
    }
}

fn resume_ramp(
    ramp: &Option<MetadataRamp>,
    state: &Option<SpatialObjectState>,
    id: u64,
    field: u32,
    offset: u32,
) -> (r: Option<SceneMetadataUpdate>)
    ensures
        r == resumed_ramp(*ramp, *state, id, field, offset),
{
    match ramp {
        None => None,
        Some(ramp) => {
            let remaining: u32 = ramp.left(offset);
            if remaining != 0 && ramp.start_frame < offset {
                let target = match state {
                    Some(state) => state.dup(),
                    None => ramp.to.dup(),
                };
                Some(SceneMetadataUpdate::new(id, 0, remaining, field, target))
            } else {
                None
            }
        },
    }
}

/// The timeline of element `id` in `block` at `offset`.
pub open spec fn block_timeline(block: DecodedSceneBlock, id: u64, offset: u32) -> StateTimeline {
    StateTimeline::starting(initial_of(block.objects@, block.lfe, id)).followed(
        block.metadata_updates@,
        id,
        offset,
    )
}

/// Resume each running field after a clipped prefix: first the position, then
/// the gain. A later tracking-only event must not hide an earlier target.
pub fn remaining_ramps(block: &DecodedSceneBlock, id: u64, offset: u32) -> (r: (
    Option<SceneMetadataUpdate>,
    Option<SceneMetadataUpdate>,
))
    ensures
        ({
            let timeline = block_timeline(*block, id, offset);
            r == (
                resumed_ramp(timeline.position, timeline.state, id, FIELD_POSITION, offset),
                resumed_ramp(timeline.gain, timeline.state, id, FIELD_GAIN, offset),
            )
        }),
{
    let initial = declared_initial(block, id);
    let timeline = timeline_at(block.metadata_updates(), id, &initial, offset);
    (
        resume_ramp(&timeline.position, &timeline.state, id, FIELD_POSITION, offset),
        resume_ramp(&timeline.gain, &timeline.state, id, FIELD_GAIN, offset),
    )
}

/// Once its frames are over, a ramp is exactly at its target.
pub proof fn a_finished_ramp_is_its_target(ramp: MetadataRamp, frame: u32)
    requires
        frame >= ramp.start_frame + ramp.duration_frames,
    ensures
        ramp.resolved(frame) == ramp.to,
{
    assert(ramp.elapsed(frame) == ramp.duration_frames);
}

/// Until its first frame is over, a ramp that takes time is exactly where it
/// found the element.
pub proof fn a_ramp_starts_where_it_found_the_element(ramp: MetadataRamp, frame: u32)
    requires
        frame <= ramp.start_frame,
        ramp.duration_frames > 0,
    ensures
        ramp.resolved(frame) == ramp.from,
{
}

/// An update leaves every field alone that it does not name: a tracking event
/// does not restart or retarget a running ramp, and position and gain keep
/// their own deadlines.
pub proof fn an_update_changes_only_the_fields_it_names(
    timeline: StateTimeline,
    update: SceneMetadataUpdate,
)
    requires
        timeline.state is Some,
    ensures
        timeline.applied(update).state is Some,
        update.changed_fields & FIELD_POSITION == 0 ==> timeline.applied(update).position
            == timeline.position && timeline.applied(update).state->0.position
            == timeline.state->0.position,
        update.changed_fields & FIELD_GAIN == 0 ==> timeline.applied(update).gain == timeline.gain
            && timeline.applied(update).state->0.linear_gain == timeline.state->0.linear_gain,
        update.changed_fields & FIELD_ACTIVE == 0
            ==> timeline.applied(update).state->0.metadata_active
            == timeline.state->0.metadata_active,
        update.changed_fields & FIELD_HEAD_TRACKING == 0
            ==> timeline.applied(update).state->0.tracking == timeline.state->0.tracking,
{
}

/// A running ramp aims at the position or gain that the timeline declares.
pub open spec fn aims_at_declared_state(timeline: StateTimeline) -> bool {
    &&& timeline.position matches Some(ramp) ==> timeline.state is Some && ramp.to.position
        == timeline.state->0.position
    &&& timeline.gain matches Some(ramp) ==> timeline.state is Some && ramp.to.linear_gain
        == timeline.state->0.linear_gain
}

proof fn lemma_followed_aims(
    timeline: StateTimeline,
    updates: Seq<SceneMetadataUpdate>,
    id: u64,
    offset: u32,
)
    requires
        aims_at_declared_state(timeline),
    ensures
        aims_at_declared_state(timeline.followed(updates, id, offset)),
    decreases updates.len(),
{
    if updates.len() > 0 {
        if updates[0].element_id != id {
            lemma_followed_aims(timeline, updates.drop_first(), id, offset);
        } else if updates[0].offset_frames <= offset {
            lemma_followed_aims(timeline.applied(updates[0]), updates.drop_first(), id, offset);
        }
    }
}

/// Whatever updates an element has seen, its running ramps aim at the position
/// and gain that it declares.
pub proof fn running_ramps_aim_at_the_declared_state(
    initial: Option<SpatialObjectState>,
    updates: Seq<SceneMetadataUpdate>,
    id: u64,
    offset: u32,
)
    ensures
        aims_at_declared_state(StateTimeline::starting(initial).followed(updates, id, offset)),
{
    lemma_followed_aims(StateTimeline::starting(initial), updates, id, offset);
}

/// Updates of other elements do not move an element.
pub proof fn other_elements_do_not_matter(
    initial: Option<SpatialObjectState>,
    updates: Seq<SceneMetadataUpdate>,
    id: u64,
    offset: u32,
)
    ensures
        state_after(updates, id, initial, offset) == state_after(
            updates.filter(|update: SceneMetadataUpdate| update.element_id == id),
            id,
            initial,
            offset,
        ),
{
    lemma_followed_filter(StateTimeline::starting(initial), updates, id, offset);
}

proof fn lemma_followed_filter(
    timeline: StateTimeline,
    updates: Seq<SceneMetadataUpdate>,
    id: u64,
    offset: u32,
)
    ensures
        timeline.followed(updates, id, offset) == timeline.followed(
            updates.filter(|update: SceneMetadataUpdate| update.element_id == id),
            id,
            offset,
        ),
    decreases updates.len(),
{
    let mine = |update: SceneMetadataUpdate| update.element_id == id;
    if updates.len() == 0 {
        reveal(Seq::filter);
        assert(updates.filter(mine) =~= updates);
    } else {
        let rest = updates.drop_first();
        assert(updates =~= seq![updates[0]] + rest);
        Seq::filter_distributes_over_add(seq![updates[0]], rest, mine);
        reveal(Seq::filter);
        assert(seq![updates[0]].drop_last() =~= Seq::<SceneMetadataUpdate>::empty());
        assert(Seq::<SceneMetadataUpdate>::empty().filter(mine) =~= Seq::empty());
        if mine(updates[0]) {
            assert(seq![updates[0]].filter(mine) =~= seq![updates[0]]);
            let kept = updates.filter(mine);
            assert(kept =~= seq![updates[0]] + rest.filter(mine));
            assert(kept.drop_first() =~= rest.filter(mine));
            if updates[0].offset_frames <= offset {
                lemma_followed_filter(timeline.applied(updates[0]), rest, id, offset);
            }
        } else {
            assert(seq![updates[0]].filter(mine) =~= Seq::empty());
            assert(updates.filter(mine) =~= rest.filter(mine));
            lemma_followed_filter(timeline, rest, id, offset);
        }
    }
}

/// Strictly inside a ramp each coordinate, and the gain, lies on the way from its own
/// value at the start to its own value at the target, as far along as the frames that
/// are over: nearer to the start the fewer of them there are.
pub open spec fn is_on_the_way(
    level: Level,
    from: Level,
    to: Level,
    elapsed: int,
    duration: int,
    reading: spec_fn(u32) -> real,
) -> bool {
    let start = from.value(reading);
    let target = to.value(reading);
    let now = level.value(reading);
    &&& (now - start) * (duration as real) == (target - start) * (elapsed as real)
    &&& start <= target ==> start <= now <= target
    &&& target <= start ==> target <= now <= start
}

proof fn lemma_on_the_way(
    from: Level,
    to: Level,
    elapsed: u32,
    duration: u32,
    reading: spec_fn(u32) -> real,
)
    requires
        0 < elapsed <= duration,
    ensures
        is_on_the_way(
            Level::Blend { from: Box::new(from), to: Box::new(to), elapsed, duration },
            from,
            to,
            elapsed as int,
            duration as int,
            reading,
        ),
{
    let level = Level::Blend { from: Box::new(from), to: Box::new(to), elapsed, duration };
    let a = from.value(reading);
    let b = to.value(reading);
    let e = elapsed as real;
    let d = duration as real;
    let k = e / d;
    let now = a + (b - a) * k;
    assert(level.value(reading) == now);
    assert(0real < e <= d);
    assert(0real <= k <= 1real && k * d == e) by (nonlinear_arith)
        requires
            k == e / d,
            0real < e <= d,
    ;
    assert((now - a) * d == (b - a) * e) by (nonlinear_arith)
        requires
            now == a + (b - a) * k,
            k * d == e,
    ;
    assert(a <= b ==> a <= now <= b) by (nonlinear_arith)
        requires
            now == a + (b - a) * k,
            0real <= k <= 1real,
    ;
    assert(b <= a ==> b <= now <= a) by (nonlinear_arith)
        requires
            now == a + (b - a) * k,
            0real <= k <= 1real,
    ;
}

/// Inside a ramp whose two ends have positions, x moves from the x of the start to the x
/// of the target, y from y to y and z from z to z, each by the part of the ramp that is
/// over; the gain fades in the same way.
pub proof fn inside_a_ramp_each_coordinate_moves_toward_its_own_target(
    from: SpatialObjectState,
    to: SpatialObjectState,
    elapsed: u32,
    duration: u32,
    reading: spec_fn(u32) -> real,
)
    requires
        0 < elapsed < duration,
        rounded_to_single(elapsed as nat) < rounded_to_single(duration as nat),
    ensures
        ({
            let now = interpolated(from, to, elapsed, duration);
            let e = elapsed as int;
            let d = duration as int;
            &&& from.position is Some && to.position is Some ==> {
                let a = from.position->0;
                let b = to.position->0;
                let c = now.position->0;
                &&& now.position is Some
                &&& is_on_the_way(c.x, a.x, b.x, e, d, reading)
                &&& is_on_the_way(c.y, a.y, b.y, e, d, reading)
                &&& is_on_the_way(c.z, a.z, b.z, e, d, reading)
                &&& c.x == (Level::Blend {
                    from: Box::new(a.x),
                    to: Box::new(b.x),
                    elapsed,
                    duration,
                })
                &&& c.y == (Level::Blend {
                    from: Box::new(a.y),
                    to: Box::new(b.y),
                    elapsed,
                    duration,
                })
                &&& c.z == (Level::Blend {
                    from: Box::new(a.z),
                    to: Box::new(b.z),
                    elapsed,
                    duration,
                })
            }
            &&& from.position is None || to.position is None ==> now.position == to.position
            &&& from.linear_gain is Some && to.linear_gain is Some ==> {
                &&& now.linear_gain is Some
                &&& is_on_the_way(
                    now.linear_gain->0,
                    from.linear_gain->0,
                    to.linear_gain->0,
                    e,
                    d,
                    reading,
                )
                &&& now.linear_gain->0 == (Level::Blend {
                    from: Box::new(from.linear_gain->0),
                    to: Box::new(to.linear_gain->0),
                    elapsed,
                    duration,
                })
            }
            &&& from.linear_gain is None || to.linear_gain is None ==> now.linear_gain
                == to.linear_gain
            &&& now.metadata_active <==> to.metadata_active
            &&& now.semantic_complete <==> (from.semantic_complete && to.semantic_complete)
            &&& now.tracking == to.tracking
        }),
{
    if from.position is Some && to.position is Some {
        let a = from.position->0;
        let b = to.position->0;
        lemma_on_the_way(a.x, b.x, elapsed, duration, reading);
        lemma_on_the_way(a.y, b.y, elapsed, duration, reading);
        lemma_on_the_way(a.z, b.z, elapsed, duration, reading);
    }
    if from.linear_gain is Some && to.linear_gain is Some {
        lemma_on_the_way(
            from.linear_gain->0,
            to.linear_gain->0,
            elapsed,
            duration,
            reading,
        );
    }
}

/// A change that takes no time is its target at once, and one that has not begun is
/// where it starts from.
pub proof fn the_ends_of_a_change_are_the_states_themselves(
    from: SpatialObjectState,
    to: SpatialObjectState,
    duration: u32,
)
    ensures
        interpolated(from, to, 0, 0) == to,
        duration > 0 ==> interpolated(from, to, 0, duration) == from,
        duration > 0 ==> interpolated(from, to, duration, duration) == to,
{
}

/// A frame strictly inside a ramp sees the coordinates and the gain as far along as the
/// frame lies behind the ramp's first one.
pub proof fn a_running_ramp_is_as_far_along_as_its_frame(
    ramp: MetadataRamp,
    frame: u32,
    reading: spec_fn(u32) -> real,
)
    requires
        ramp.start_frame < frame < ramp.start_frame + ramp.duration_frames,
        rounded_to_single((frame - ramp.start_frame) as nat) < rounded_to_single(
            ramp.duration_frames as nat,
        ),
        ramp.from.position is Some && ramp.to.position is Some,
        ramp.from.linear_gain is Some && ramp.to.linear_gain is Some,
    ensures
        ({
            let now = ramp.resolved(frame);
            let e = frame - ramp.start_frame;
            let d = ramp.duration_frames as int;
            let a = ramp.from.position->0;
            let b = ramp.to.position->0;
            &&& now.position is Some && now.linear_gain is Some
            &&& is_on_the_way(now.position->0.x, a.x, b.x, e, d, reading)
            &&& is_on_the_way(now.position->0.y, a.y, b.y, e, d, reading)
            &&& is_on_the_way(now.position->0.z, a.z, b.z, e, d, reading)
            &&& is_on_the_way(
                now.linear_gain->0,
                ramp.from.linear_gain->0,
                ramp.to.linear_gain->0,
                e,
                d,
                reading,
            )
        }),
{
    inside_a_ramp_each_coordinate_moves_toward_its_own_target(
        ramp.from,
        ramp.to,
        (frame - ramp.start_frame) as u32,
        ramp.duration_frames,
        reading,
    );
}

/// What is left of a ramp and what is over of it make up the whole ramp.
pub proof fn what_is_left_and_what_is_over_make_up_the_ramp(ramp: MetadataRamp, frame: u32)
    requires
        ramp.start_frame + ramp.duration_frames <= u32::MAX,
    ensures
        ramp.start_frame <= frame <= ramp.start_frame + ramp.duration_frames
            ==> ramp.remaining(frame) == ramp.duration_frames - (frame - ramp.start_frame),
        frame >= ramp.start_frame + ramp.duration_frames <==> ramp.remaining(frame) == 0,
{
}

/// An update takes over every field that it names, and the meaning of its target. What
/// takes time starts where the element is and ends at the update's target, `ramp_frames`
/// behind the update; what takes none is there at once.
pub proof fn an_update_takes_over_the_fields_it_names(
    timeline: StateTimeline,
    update: SceneMetadataUpdate,
)
    requires
        timeline.state is Some,
    ensures
        ({
            let next = timeline.applied(update);
            let found = timeline.resolved(update.offset_frames);
            let state = next.state->0;
            &&& next.state is Some && found is Some
            &&& state.semantic_complete == update.state.semantic_complete
            &&& update.changed_fields & 1 != 0 ==> state.metadata_active
                == update.state.metadata_active
            &&& update.changed_fields & 0x100 != 0 ==> state.tracking == update.state.tracking
            &&& update.changed_fields & 8 != 0 ==> {
                &&& state.position == update.state.position
                &&& update.ramp_frames == 0 ==> next.position is None
                    && next.resolved(update.offset_frames)->0.position == update.state.position
                &&& update.ramp_frames > 0 ==> {
                    &&& next.position is Some
                    &&& next.position->0.start_frame == update.offset_frames
                    &&& next.position->0.duration_frames == update.ramp_frames
                    &&& next.position->0.from.position == found->0.position
                    &&& next.position->0.to.position == update.state.position
                    &&& next.resolved(update.offset_frames)->0.position == found->0.position
                }
            }
            &&& update.changed_fields & 2 != 0 ==> {
                &&& state.linear_gain == update.state.linear_gain
                &&& update.ramp_frames == 0 ==> next.gain is None
                    && next.resolved(update.offset_frames)->0.linear_gain
                    == update.state.linear_gain
                &&& update.ramp_frames > 0 ==> {
                    &&& next.gain is Some
                    &&& next.gain->0.start_frame == update.offset_frames
                    &&& next.gain->0.duration_frames == update.ramp_frames
                    &&& next.gain->0.from.linear_gain == found->0.linear_gain
                    &&& next.gain->0.to.linear_gain == update.state.linear_gain
                    &&& next.resolved(update.offset_frames)->0.linear_gain == found->0.linear_gain
                }
            }
        }),
{
}

/// The first update of an element that nothing was known of tells all there is.
pub proof fn a_first_update_tells_everything(timeline: StateTimeline, update: SceneMetadataUpdate)
    requires
        timeline.state is None,
    ensures
        timeline.applied(update).state == Some(update.state),
        timeline.applied(update).position == timeline.position,
        timeline.applied(update).gain == timeline.gain,
{
}

/// Where no ramp runs, an element is what it declares. Where one runs, the position is
/// that of the movement, the gain that of the fade, and the state counts as complete only
/// where each of them does.
pub proof fn an_element_is_its_declared_state_with_its_ramps(timeline: StateTimeline, offset: u32)
    ensures
        timeline.resolved(offset) is Some <==> timeline.state is Some,
        timeline.state is Some ==> {
            let now = timeline.resolved(offset)->0;
            let declared = timeline.state->0;
            &&& now.metadata_active == declared.metadata_active
            &&& now.tracking == declared.tracking
            &&& timeline.position is None ==> now.position == declared.position
            &&& timeline.position is Some ==> now.position == timeline.position->0.resolved(
                offset,
            ).position
            &&& timeline.gain is None ==> now.linear_gain == declared.linear_gain
            &&& timeline.gain is Some ==> now.linear_gain == timeline.gain->0.resolved(
                offset,
            ).linear_gain
            &&& now.semantic_complete ==> declared.semantic_complete
            &&& timeline.position is Some && now.semantic_complete
                ==> timeline.position->0.resolved(offset).semantic_complete
            &&& timeline.gain is Some && now.semantic_complete ==> timeline.gain->0.resolved(
                offset,
            ).semantic_complete
            &&& timeline.position is None && timeline.gain is None ==> now.semantic_complete
                == declared.semantic_complete
        },
{
}

/// Nothing that comes later moves an element: where all of its updates lie behind an
/// offset, it is what it started as.
pub proof fn later_updates_do_not_matter(
    initial: Option<SpatialObjectState>,
    updates: Seq<SceneMetadataUpdate>,
    id: u64,
    offset: u32,
)
    requires
        forall|i: int|
            0 <= i < updates.len() && (#[trigger] updates[i]).element_id == id
                ==> updates[i].offset_frames > offset,
    ensures
        state_after(updates, id, initial, offset) == initial,
{
    lemma_none_followed(StateTimeline::starting(initial), updates, id, offset);
    match initial {
        Some(state) => {
            assert(StateTimeline::starting(initial).resolved(offset)->0 == state);
        },
        None => {},
    }
}

proof fn lemma_none_followed(
    timeline: StateTimeline,
    updates: Seq<SceneMetadataUpdate>,
    id: u64,
    offset: u32,
)
    requires
        forall|i: int|
            0 <= i < updates.len() && (#[trigger] updates[i]).element_id == id
                ==> updates[i].offset_frames > offset,
    ensures
        timeline.followed(updates, id, offset) == timeline,
    decreases updates.len(),
{
    if updates.len() > 0 && updates[0].element_id != id {
        let rest = updates.drop_first();
        assert forall|i: int| 0 <= i < rest.len() && (#[trigger] rest[i]).element_id
            == id implies rest[i].offset_frames > offset by {
            assert(rest[i] == updates[i + 1]);
        }
        lemma_none_followed(timeline, rest, id, offset);
    }
}

/// An update of the element at or before an offset counts there, and counts last of those
/// that come before it.
pub proof fn an_update_up_to_an_offset_counts_there(
    timeline: StateTimeline,
    updates: Seq<SceneMetadataUpdate>,
    next: SceneMetadataUpdate,
    id: u64,
    offset: u32,
)
    requires
        forall|i: int|
            0 <= i < updates.len() && (#[trigger] updates[i]).element_id == id
                ==> updates[i].offset_frames <= offset,
        next.element_id == id,
        next.offset_frames <= offset,
    ensures
        timeline.followed(updates.push(next), id, offset) == timeline.followed(
            updates,
            id,
            offset,
        ).applied(next),
    decreases updates.len(),
{
    let longer = updates.push(next);
    reveal_with_fuel(StateTimeline::followed, 2);
    if updates.len() == 0 {
        assert(longer[0] == next);
        assert(longer.drop_first() =~= Seq::<SceneMetadataUpdate>::empty());
    } else {
        assert(longer[0] == updates[0]);
        assert(longer.drop_first() =~= updates.drop_first().push(next));
        let rest = updates.drop_first();
        assert forall|i: int| 0 <= i < rest.len() && (#[trigger] rest[i]).element_id
            == id implies rest[i].offset_frames <= offset by {
            assert(rest[i] == updates[i + 1]);
        }
        let begun = if updates[0].element_id == id {
            timeline.applied(updates[0])
        } else {
            timeline
        };
        an_update_up_to_an_offset_counts_there(begun, rest, next, id, offset);
    }
}

/// A ramp goes on behind an offset exactly while part of it is over and part of it is
/// left; what goes on is that part, from the offset on, toward what the element declares.
pub proof fn a_ramp_goes_on_while_it_is_running(
    ramp: MetadataRamp,
    state: Option<SpatialObjectState>,
    id: u64,
    field: u32,
    offset: u32,
)
    requires
        ramp.start_frame + ramp.duration_frames <= u32::MAX,
    ensures
        ({
            let event = resumed_ramp(Some(ramp), state, id, field, offset);
            &&& event is Some <==> ramp.start_frame < offset < ramp.start_frame
                + ramp.duration_frames
            &&& event is Some ==> {
                &&& event->0.element_id == id
                &&& event->0.offset_frames == 0
                &&& event->0.ramp_frames + offset == ramp.start_frame + ramp.duration_frames
                &&& event->0.changed_fields == field
                &&& state is Some ==> event->0.state == state->0
                &&& state is None ==> event->0.state == ramp.to
            }
        }),
        resumed_ramp(None, state, id, field, offset) is None,
{
}

/// The state that a block declares for an element is that of its object, and that of the
/// bed for the bed.
pub proof fn a_block_declares_each_element_s_own_state(
    objects: Seq<SceneObjectPcm>,
    lfe: Option<SceneLfePcm>,
    i: int,
)
    requires
        forall|a: int, b: int|
            0 <= a < b < objects.len() ==> (#[trigger] objects[a]).element_id != (
            #[trigger] objects[b]).element_id,
        lfe is Some ==> forall|a: int|
            0 <= a < objects.len() ==> (#[trigger] objects[a]).element_id != lfe->0.element_id,
    ensures
        0 <= i < objects.len() ==> initial_of(objects, lfe, objects[i].element_id)
            == objects[i].initial_state,
        lfe is Some ==> initial_of(objects, lfe, lfe->0.element_id) == lfe->0.initial_state,
    decreases objects.len(),
{
    reveal_with_fuel(initial_of, 2);
    if objects.len() > 0 {
        let rest = objects.drop_first();
        assert forall|a: int, b: int| 0 <= a < b < rest.len() implies (
        #[trigger] rest[a]).element_id != (#[trigger] rest[b]).element_id by {
            assert(objects[a + 1].element_id != objects[b + 1].element_id);
        }
        if lfe is Some {
            assert forall|a: int| 0 <= a < rest.len() implies (#[trigger] rest[a]).element_id
                != lfe->0.element_id by {
                assert(rest[a] == objects[a + 1]);
            }
            assert(objects[0].element_id != lfe->0.element_id);
        }
        a_block_declares_each_element_s_own_state(rest, lfe, i - 1);
        if 0 < i < objects.len() {
            assert(objects[0].element_id != objects[i].element_id);
            assert(rest[i - 1] == objects[i]);
        }
    }
}

} // verus!
