//! Frames for the native renderer: trimming a block, translating its metadata,
//! and bridging a gap.
use super::state::planes_fit;
use crate::decoder::level::Level;
use crate::decoder::metadata::{
    block_timeline, element_state_at, remaining_ramps, resumed_ramp, state_after,
};
use crate::decoder::scene::{
    DecodedSceneBlock, SceneMetadataUpdate, SceneObjectPcm, SpatialObjectState, SpatialPosition,
    FIELD_ACTIVE, FIELD_GAIN, FIELD_POSITION,
};
use crate::decoder::signature::SceneSignature;
use crate::numeric::ONE;
use vstd::prelude::*;
use vstd::slice::*;

verus! {

/// The epoch that every session of the native renderer runs in.
pub const NATIVE_EPOCH: u64 = 1;

/// The renderer's name for a change of activity.
pub const RENDER_ACTIVE: u64 = 1;

/// The renderer's name for a change of gain.
pub const RENDER_GAIN: u64 = 2;

/// The renderer's name for a change of position.
pub const RENDER_POSITION: u64 = 4;

/// An element's state as the renderer takes it.
#[derive(Debug, PartialEq, Eq)]
pub struct ObjectState {
    pub active: bool,
    pub gain: Level,
    pub position: Option<SpatialPosition>,
}

/// One element's samples.
#[derive(Debug)]
pub struct Plane<'a> {
    pub element: u64,
    pub samples: &'a [u32],
}

/// A change of one element, `offset` frames into its frame.
#[derive(Debug)]
pub struct Update {
    pub element: u64,
    pub offset: u32,
    pub ramp: u32,
    pub changed: u64,
    pub state: ObjectState,
}

/// What the renderer is handed at once.
#[derive(Debug)]
pub struct Frame<'a> {
    pub epoch: u64,
    pub generation: u64,
    pub start: i64,
    pub duration: u32,
    pub complete: bool,
    pub planes: Vec<Plane<'a>>,
    pub initial: Vec<(u64, ObjectState)>,
    pub updates: Vec<Update>,
}

/// An element without a state is off; without a gain it plays as it is.
pub open spec fn owned(state: Option<SpatialObjectState>) -> ObjectState {
    match state {
        None => ObjectState { active: false, gain: Level::Exact(0), position: None },
        Some(state) => ObjectState {
            active: state.metadata_active && state.semantic_complete,
            gain: match state.linear_gain {
                Some(gain) => gain,
                None => Level::Exact(ONE),
            },
            position: state.position,
        },
    }
}

pub fn own_state(state: Option<SpatialObjectState>) -> (r: ObjectState)
    ensures
        r == owned(state),
{
    match state {
        None => ObjectState { active: false, gain: Level::Exact(0), position: None },
        Some(state) => {
            let gain = match state.linear_gain {
                Some(gain) => gain,
                None => Level::Exact(ONE),
            };
            ObjectState {
                active: state.metadata_active && state.semantic_complete,
                gain,
                position: state.position,
            }
        },
    }
}

/// The renderer's names for the fields of a change. Fields that it does not
/// know are dropped.
pub open spec fn translated(core: u32) -> u64 {
    ((if core & 1 != 0 {
        RENDER_ACTIVE as int
    } else {
        0
    }) + (if core & 2 != 0 {
        RENDER_GAIN as int
    } else {
        0
    }) + (if core & 8 != 0 {
        RENDER_POSITION as int
    } else {
        0
    })) as u64
}

pub fn renderer_fields(core: u32) -> (r: u64)
    ensures
        r == translated(core),
        r <= 7,
{
    let active: u64 = if core & 1 != 0 {
        RENDER_ACTIVE
    } else {
        0
    };
    let gain: u64 = if core & 2 != 0 {
        RENDER_GAIN
    } else {
        0
    };
    let position: u64 = if core & 8 != 0 {
        RENDER_POSITION
    } else {
        0
    };
    active + gain + position
}

/// The fields of a change that its target actually has: all of them, or all but
/// the position.
pub open spec fn present_fields(changed: u64, state: ObjectState) -> u64 {
    if state.position is Some || changed < RENDER_POSITION {
        changed
    } else {
        (changed - RENDER_POSITION) as u64
    }
}

/// The update that is handed over, if anything is left of it: it names a field
/// that its target has, and falls within the `left` frames of its frame. What
/// lands on the end is carried by the next frame.
pub open spec fn kept(
    element: u64,
    offset: u32,
    ramp: u32,
    source: SceneMetadataUpdate,
    left: u32,
) -> Seq<Update> {
    let state = owned(Some(source.state));
    let changed = present_fields(translated(source.changed_fields), state);
    if changed != 0 && offset < left {
        seq![Update { element, offset, ramp, changed, state }]
    } else {
        Seq::empty()
    }
}

/// Where `update` ends, counted from the start of its block.
pub open spec fn ramp_end(update: SceneMetadataUpdate) -> int {
    if update.offset_frames + update.ramp_frames > u32::MAX {
        u32::MAX as int
    } else {
        update.offset_frames + update.ramp_frames
    }
}

/// The last update of element `id` before `offset`, or -1.
pub open spec fn latest_before(updates: Seq<SceneMetadataUpdate>, id: u64, offset: u32) -> int
    decreases updates.len(),
{
    if updates.len() == 0 {
        -1
    } else if updates.last().element_id == id && updates.last().offset_frames < offset {
        updates.len() - 1
    } else {
        latest_before(updates.drop_last(), id, offset)
    }
}

/// The latest change before `offset`, if its ramp is still running there: its
/// target stands at offset zero, with what is left of the ramp.
pub open spec fn carried(
    updates: Seq<SceneMetadataUpdate>,
    id: u64,
    offset: u32,
    left: u32,
) -> Seq<Update> {
    let at = latest_before(updates, id, offset);
    if at >= 0 && ramp_end(updates[at]) > offset {
        kept(id, 0, (ramp_end(updates[at]) - offset) as u32, updates[at], left)
    } else {
        Seq::empty()
    }
}

/// Whether a change names a field of the renderer.
pub open spec fn names(changed: u64, field: u64) -> bool {
    (changed / field) % 2 == 1
}

/// The update resumes a ramp of `field` of element `id` with `ramp` frames to go.
pub open spec fn is_resumption(update: Update, id: u64, field: u64, ramp: u32) -> bool {
    &&& update.element == id
    &&& update.offset == 0
    &&& update.ramp == ramp
    &&& names(update.changed, field)
}

/// One of the updates resumes that ramp.
pub open spec fn resumes(updates: Seq<Update>, id: u64, field: u64, ramp: u32) -> bool {
    exists|i: int|
        0 <= i < updates.len() && #[trigger] is_resumption(updates[i], id, field, ramp)
}

/// A running ramp that the latest change would hide.
pub open spec fn unhidden(
    before: Seq<Update>,
    ramp: Option<SceneMetadataUpdate>,
    id: u64,
    field: u64,
    left: u32,
) -> Seq<Update> {
    match ramp {
        Some(update) => if resumes(before, id, field, update.ramp_frames) {
            Seq::empty()
        } else {
            kept(id, 0, update.ramp_frames, update, left)
        },
        None => Seq::empty(),
    }
}

/// A trimmed block can begin inside ramps: what is left of each stands at offset
/// zero, instead of freezing at the interpolated initial state. A later change of
/// one field hides no running ramp of another.
pub open spec fn resumed(block: DecodedSceneBlock, id: u64, offset: u32, left: u32) -> Seq<Update> {
    let latest = carried(block.metadata_updates@, id, offset, left);
    let timeline = block_timeline(block, id, offset);
    latest + unhidden(
        latest,
        resumed_ramp(timeline.position, timeline.state, id, FIELD_POSITION, offset),
        id,
        RENDER_POSITION,
        left,
    ) + unhidden(
        latest,
        resumed_ramp(timeline.gain, timeline.state, id, FIELD_GAIN, offset),
        id,
        RENDER_GAIN,
        left,
    )
}

pub open spec fn resumed_all(
    block: DecodedSceneBlock,
    ids: Seq<u64>,
    offset: u32,
    left: u32,
) -> Seq<Update>
    decreases ids.len(),
{
    if ids.len() == 0 {
        Seq::empty()
    } else {
        resumed_all(block, ids.drop_last(), offset, left) + resumed(
            block,
            ids.last(),
            offset,
            left,
        )
    }
}

/// The updates at or behind `offset`, counted from there.
pub open spec fn following(
    updates: Seq<SceneMetadataUpdate>,
    offset: u32,
    left: u32,
) -> Seq<Update>
    decreases updates.len(),
{
    if updates.len() == 0 {
        Seq::empty()
    } else {
        let last = updates.last();
        following(updates.drop_last(), offset, left) + (if last.offset_frames >= offset {
            kept(
                last.element_id,
                (last.offset_frames - offset) as u32,
                last.ramp_frames,
                last,
                left,
            )
        } else {
            Seq::empty()
        })
    }
}

/// The elements of a block in the order of its planes: objects, then the bed.
pub open spec fn elements(block: DecodedSceneBlock) -> Seq<u64> {
    block.objects@.map_values(|object: SceneObjectPcm| object.element_id) + match block.lfe {
        Some(bed) => seq![bed.element_id],
        None => Seq::empty(),
    }
}

/// The plane of the `i`th element of a block.
pub open spec fn element_plane(block: DecodedSceneBlock, i: int) -> Seq<u32> {
    if i < block.objects@.len() {
        block.objects@[i].samples@
    } else {
        block.lfe->0.samples@
    }
}

/// The declared state of the `i`th element of a block.
pub open spec fn element_initial(block: DecodedSceneBlock, i: int) -> Option<SpatialObjectState> {
    if i < block.objects@.len() {
        block.objects@[i].initial_state
    } else {
        block.lfe->0.initial_state
    }
}

/// `frame` is `block` from `offset` on.
pub open spec fn is_trimmed(frame: Frame, block: DecodedSceneBlock, offset: u32) -> bool {
    let ids = elements(block);
    let left = (block.duration_frames - offset) as u32;
    &&& frame.epoch == NATIVE_EPOCH
    &&& frame.generation == block.configuration_generation
    &&& frame.start == (if block.start_frame + offset > i64::MAX {
        i64::MAX as int
    } else {
        block.start_frame + offset
    })
    &&& frame.duration == left
    &&& frame.complete == block.state_complete
    &&& frame.planes@.len() == ids.len()
    &&& forall|i: int|
        0 <= i < ids.len() ==> (#[trigger] frame.planes@[i]).element == ids[i]
            && frame.planes@[i].samples@ == element_plane(block, i).skip(offset as int)
    &&& frame.initial@.len() == ids.len()
    &&& forall|i: int|
        0 <= i < ids.len() ==> #[trigger] frame.initial@[i] == (
            ids[i],
            owned(
                state_after(
                    block.metadata_updates@,
                    ids[i],
                    element_initial(block, i),
                    offset,
                ),
            ),
        )
    &&& frame.updates@ == resumed_all(block, ids, offset, left) + following(
        block.metadata_updates@,
        offset,
        left,
    )
}

fn push_kept(
    out: &mut Vec<Update>,
    element: u64,
    offset: u32,
    ramp: u32,
    source: &SceneMetadataUpdate,
    left: u32,
)
    ensures
        final(out)@ == old(out)@ + kept(element, offset, ramp, *source, left),
{
    let state = own_state(Some(source.state.dup()));
    let mut changed: u64 = renderer_fields(source.changed_fields);
    if state.position.is_none() && changed >= RENDER_POSITION {
        changed = changed - RENDER_POSITION;
    }
    if changed != 0 && offset < left {
        out.push(Update { element, offset, ramp, changed, state });
    }
    assert(out@ =~= old(out)@ + kept(element, offset, ramp, *source, left));
}

fn push_carried(
    out: &mut Vec<Update>,
    updates: &[SceneMetadataUpdate],
    id: u64,
    offset: u32,
    left: u32,
)
    ensures
        final(out)@ == old(out)@ + carried(updates@, id, offset, left),
{
    let mut index: usize = updates.len();
    assert(updates@.take(index as int) =~= updates@);
    while index > 0
        invariant
            index <= updates@.len(),
            out@ == old(out)@,
            latest_before(updates@, id, offset) == latest_before(
                updates@.take(index as int),
                id,
                offset,
            ),
        decreases index,
    {
        index = index - 1;
        proof {
            let prefix = updates@.take(index as int + 1);
            assert(prefix.last() == updates@[index as int]);
            assert(prefix.drop_last() =~= updates@.take(index as int));
        }
        let update = &updates[index];
        if update.element_id == id && update.offset_frames < offset {
            let end: u32 = update.offset_frames.saturating_add(update.ramp_frames);
            if end > offset {
                push_kept(out, id, 0, end - offset, update, left);
            }
            assert(out@ =~= old(out)@ + carried(updates@, id, offset, left));
            return ;
        }
    }
    assert(out@ =~= old(out)@ + carried(updates@, id, offset, left));
}

fn has_resumed(updates: &Vec<Update>, from: usize, id: u64, field: u64, ramp: u32) -> (r: bool)
    requires
        from <= updates@.len(),
        field > 0,
    ensures
        r == resumes(updates@.skip(from as int), id, field, ramp),
{
    let mut at: usize = from;
    let ghost rest = updates@.skip(from as int);
    while at < updates.len()
        invariant
            from <= at <= updates@.len(),
            field > 0,
            rest == updates@.skip(from as int),
            forall|i: int|
                0 <= i < at - from ==> !#[trigger] is_resumption(rest[i], id, field, ramp),
        decreases updates.len() - at,
    {
        let update = &updates[at];
        assert(rest[at - from] == *update);
        if update.element == id && update.offset == 0 && update.ramp == ramp && (update.changed
            / field) % 2 == 1 {
            assert(is_resumption(rest[at - from], id, field, ramp));
            return true;
        }
        at = at + 1;
    }
    false
}

fn push_unhidden(
    out: &mut Vec<Update>,
    hidden: bool,
    ramp: &Option<SceneMetadataUpdate>,
    id: u64,
    left: u32,
)
    ensures
        final(out)@ == old(out)@ + match *ramp {
            Some(update) => if hidden {
                kept(id, 0, update.ramp_frames, update, left)
            } else {
                Seq::empty()
            },
            None => Seq::empty(),
        },
{
    if let Some(update) = ramp {
        if hidden {
            push_kept(out, id, 0, update.ramp_frames, update, left);
        }
    }
    assert(out@ =~= old(out)@ + match *ramp {
        Some(update) => if hidden {
            kept(id, 0, update.ramp_frames, update, left)
        } else {
            Seq::empty()
        },
        None => Seq::empty(),
    });
}

/// Whether a ramp is running that the updates from `from` on do not resume.
fn is_hidden(
    updates: &Vec<Update>,
    from: usize,
    ramp: &Option<SceneMetadataUpdate>,
    id: u64,
    field: u64,
) -> (r: bool)
    requires
        from <= updates@.len(),
        field > 0,
    ensures
        r == (*ramp is Some && !resumes(
            updates@.skip(from as int),
            id,
            field,
            ramp->0.ramp_frames,
        )),
{
    match ramp {
        Some(update) => !has_resumed(updates, from, id, field, update.ramp_frames),
        None => false,
    }
}

fn push_resumed(out: &mut Vec<Update>, block: &DecodedSceneBlock, id: u64, offset: u32, left: u32)
    ensures
        final(out)@ == old(out)@ + resumed(*block, id, offset, left),
{
    let ghost before = out@;
    let from: usize = out.len();
    push_carried(out, block.metadata_updates(), id, offset, left);
    let ghost latest = carried(block.metadata_updates@, id, offset, left);
    assert(out@.skip(from as int) =~= latest);
    let (position, gain) = remaining_ramps(block, id, offset);
    let position_hidden = is_hidden(out, from, &position, id, RENDER_POSITION);
    let gain_hidden = is_hidden(out, from, &gain, id, RENDER_GAIN);
    push_unhidden(out, position_hidden, &position, id, left);
    push_unhidden(out, gain_hidden, &gain, id, left);
    assert(out@ =~= before + (latest + unhidden(latest, position, id, RENDER_POSITION, left)
        + unhidden(latest, gain, id, RENDER_GAIN, left)));
}

/// The frame that hands over `block` from `offset` on.
pub fn trimmed_frame<'a>(block: &'a DecodedSceneBlock, offset: u32) -> (frame: Frame<'a>)
    requires
        planes_fit(*block),
        offset <= block.duration_frames,
    ensures
        is_trimmed(frame, *block, offset),
{
    let from: usize = offset as usize;
    let left: u32 = block.duration_frames - offset;
    let ghost ids = elements(*block);
    let mut planes: Vec<Plane<'a>> = Vec::new();
    let mut initial: Vec<(u64, ObjectState)> = Vec::new();
    let mut index: usize = 0;
    while index < block.objects.len()
        invariant
            index <= block.objects@.len(),
            planes_fit(*block),
            from == offset,
            offset <= block.duration_frames,
            ids == elements(*block),
            planes@.len() == index,
            initial@.len() == index,
            forall|i: int|
                0 <= i < index ==> (#[trigger] planes@[i]).element == ids[i]
                    && planes@[i].samples@ == element_plane(*block, i).skip(offset as int),
            forall|i: int|
                0 <= i < index ==> #[trigger] initial@[i] == (
                    ids[i],
                    owned(
                        state_after(
                            block.metadata_updates@,
                            ids[i],
                            element_initial(*block, i),
                            offset,
                        ),
                    ),
                ),
        decreases block.objects.len() - index,
    {
        let object = &block.objects[index];
        let samples = object.samples.as_slice();
        let rest = slice_subrange(samples, from, samples.len());
        assert(rest@ =~= element_plane(*block, index as int).skip(offset as int));
        planes.push(Plane { element: object.element_id, samples: rest });
        let state = element_state_at(block, object.element_id, &object.initial_state, offset);
        initial.push((object.element_id, own_state(state)));
        index = index + 1;
    }
    if let Some(bed) = &block.lfe {
        let samples = bed.samples.as_slice();
        let rest = slice_subrange(samples, from, samples.len());
        assert(rest@ =~= element_plane(*block, index as int).skip(offset as int));
        planes.push(Plane { element: bed.element_id, samples: rest });
        let state = element_state_at(block, bed.element_id, &bed.initial_state, offset);
        initial.push((bed.element_id, own_state(state)));
    }
    let mut updates: Vec<Update> = Vec::new();
    let mut slot: usize = 0;
    assert(ids.take(0) =~= Seq::empty());
    while slot < initial.len()
        invariant
            slot <= initial@.len(),
            initial@.len() == ids.len(),
            forall|i: int| 0 <= i < ids.len() ==> (#[trigger] initial@[i]).0 == ids[i],
            updates@ == resumed_all(*block, ids.take(slot as int), offset, left),
        decreases initial.len() - slot,
    {
        proof {
            let prefix = ids.take(slot as int + 1);
            assert(prefix.drop_last() =~= ids.take(slot as int));
            assert(prefix.last() == ids[slot as int]);
        }
        let id: u64 = initial[slot].0;
        push_resumed(&mut updates, block, id, offset, left);
        slot = slot + 1;
    }
    assert(ids.take(slot as int) =~= ids);
    let ghost resumed = updates@;
    let changes = block.metadata_updates();
    let mut next: usize = 0;
    assert(changes@.take(0) =~= Seq::empty());
    assert(updates@ =~= resumed + following(changes@.take(0), offset, left));
    while next < changes.len()
        invariant
            next <= changes@.len(),
            updates@ == resumed + following(changes@.take(next as int), offset, left),
        decreases changes.len() - next,
    {
        proof {
            let prefix = changes@.take(next as int + 1);
            assert(prefix.drop_last() =~= changes@.take(next as int));
            assert(prefix.last() == changes@[next as int]);
        }
        let change = &changes[next];
        let ghost before = updates@;
        if change.offset_frames >= offset {
            push_kept(
                &mut updates,
                change.element_id,
                change.offset_frames - offset,
                change.ramp_frames,
                change,
                left,
            );
        }
        assert(updates@ =~= resumed + following(changes@.take(next as int + 1), offset, left));
        next = next + 1;
    }
    assert(changes@.take(next as int) =~= changes@);
    let start: i64 = match block.start_frame.checked_add(offset as i64) {
        Some(start) => start,
        None => i64::MAX,
    };
    Frame {
        epoch: NATIVE_EPOCH,
        generation: block.configuration_generation as u64,
        start,
        duration: left,
        complete: block.state_complete,
        planes,
        initial,
        updates,
    }
}

/// The elements of a signature: objects, then the bed.
pub open spec fn signature_elements(ids: Seq<u64>, lfe: Option<u64>) -> Seq<u64> {
    ids + match lfe {
        Some(id) => seq![id],
        None => Seq::empty(),
    }
}

/// What an element is told during a gap: off, in front of the listener.
pub open spec fn parked() -> ObjectState {
    ObjectState {
        active: false,
        gain: Level::Exact(0),
        position: Some(
            SpatialPosition { x: Level::Exact(0), y: Level::Exact(ONE), z: Level::Exact(0) },
        ),
    }
}

/// The frame that bridges `duration` frames of silence from `start` on.
pub fn gap_frame<'a>(signature: &SceneSignature, start: i64, duration: u32) -> (frame: Frame<'a>)
    ensures
        frame.epoch == NATIVE_EPOCH,
        frame.generation == signature@.configuration_generation,
        frame.start == start,
        frame.duration == duration,
        frame.complete,
        frame.updates@.len() == 0,
        ({
            let ids = signature_elements(
                signature@.object_element_ids,
                signature@.lfe_element_id,
            );
            &&& frame.planes@.len() == ids.len()
            &&& frame.initial@.len() == ids.len()
            &&& forall|i: int|
                0 <= i < ids.len() ==> (#[trigger] frame.planes@[i]).element == ids[i]
                    && frame.planes@[i].samples@.len() == 0
            &&& forall|i: int|
                0 <= i < ids.len() ==> #[trigger] frame.initial@[i] == (ids[i], parked())
        }),
{
    let ghost ids = signature_elements(signature@.object_element_ids, signature@.lfe_element_id);
    let mut planes: Vec<Plane<'a>> = Vec::new();
    let mut initial: Vec<(u64, ObjectState)> = Vec::new();
    let objects = signature.object_element_ids();
    let mut index: usize = 0;
    while index < objects.len()
        invariant
            index <= objects@.len(),
            objects@ == signature@.object_element_ids,
            ids == signature_elements(signature@.object_element_ids, signature@.lfe_element_id),
            planes@.len() == index,
            initial@.len() == index,
            forall|i: int|
                0 <= i < index ==> (#[trigger] planes@[i]).element == ids[i]
                    && planes@[i].samples@.len() == 0,
            forall|i: int|
                0 <= i < index ==> #[trigger] initial@[i] == (ids[i], parked()),
        decreases objects.len() - index,
    {
        push_silent(&mut planes, &mut initial, objects[index]);
        index = index + 1;
    }
    if let Some(id) = signature.lfe_element_id() {
        push_silent(&mut planes, &mut initial, id);
    }
    Frame {
        epoch: NATIVE_EPOCH,
        generation: signature.configuration_generation() as u64,
        start,
        duration,
        complete: true,
        planes,
        initial,
        updates: Vec::new(),
    }
}

fn push_silent<'a>(planes: &mut Vec<Plane<'a>>, initial: &mut Vec<(u64, ObjectState)>, id: u64)
    ensures
        final(planes)@.len() == old(planes)@.len() + 1,
        forall|i: int| 0 <= i < old(planes)@.len() ==> final(planes)@[i] == old(planes)@[i],
        final(planes)@.last().element == id,
        final(planes)@.last().samples@.len() == 0,
        final(initial)@ == old(initial)@.push((id, parked())),
{
    planes.push(Plane { element: id, samples: &[] });
    initial.push(
        (
            id,
            ObjectState {
                active: false,
                gain: Level::Exact(0),
                position: Some(
                    SpatialPosition {
                        x: Level::Exact(0),
                        y: Level::Exact(ONE),
                        z: Level::Exact(0),
                    },
                ),
            },
        ),
    );
}

/// Every update that is handed over names at least one field, only fields that
/// its target has, and a frame within its frame.
pub proof fn submitted_updates_are_within_the_contract(
    block: DecodedSceneBlock,
    ids: Seq<u64>,
    offset: u32,
    left: u32,
    i: int,
)
    requires
        0 <= i < (resumed_all(block, ids, offset, left) + following(
            block.metadata_updates@,
            offset,
            left,
        )).len(),
    ensures
        ({
            let update = (resumed_all(block, ids, offset, left) + following(
                block.metadata_updates@,
                offset,
                left,
            ))[i];
            &&& 0 < update.changed <= 7
            &&& update.state.position is None ==> update.changed < RENDER_POSITION
            &&& update.offset < left
        }),
{
    lemma_resumed_bounds(block, ids, offset, left);
    lemma_following_bounds(block.metadata_updates@, offset, left);
}

/// Every ramp that is running where a block is trimmed goes on in the frame, for as
/// long as is left of it: a movement toward a position, and a fade of the gain.
pub proof fn a_trimmed_block_resumes_every_ramp(
    frame: Frame,
    block: DecodedSceneBlock,
    offset: u32,
    i: int,
)
    requires
        offset < block.duration_frames,
        is_trimmed(frame, block, offset),
        0 <= i < elements(block).len(),
    ensures
        ({
            let id = elements(block)[i];
            let timeline = block_timeline(block, id, offset);
            let position = resumed_ramp(
                timeline.position,
                timeline.state,
                id,
                FIELD_POSITION,
                offset,
            );
            let gain = resumed_ramp(timeline.gain, timeline.state, id, FIELD_GAIN, offset);
            &&& position is Some && position->0.state.position is Some ==> resumes(
                frame.updates@,
                id,
                RENDER_POSITION,
                position->0.ramp_frames,
            )
            &&& gain is Some ==> resumes(frame.updates@, id, RENDER_GAIN, gain->0.ramp_frames)
        }),
{
    let ids = elements(block);
    let left = (block.duration_frames - offset) as u32;
    let timeline = block_timeline(block, ids[i], offset);
    let position = resumed_ramp(
        timeline.position,
        timeline.state,
        ids[i],
        FIELD_POSITION,
        offset,
    );
    let gain = resumed_ramp(timeline.gain, timeline.state, ids[i], FIELD_GAIN, offset);
    let latest = carried(block.metadata_updates@, ids[i], offset, left);
    let moved = unhidden(latest, position, ids[i], RENDER_POSITION, left);
    let faded = unhidden(latest, gain, ids[i], RENDER_GAIN, left);
    let rest = following(block.metadata_updates@, offset, left);
    assert(8u32 & 1 == 0 && 8u32 & 2 == 0 && 8u32 & 8 != 0) by (bit_vector);
    assert(2u32 & 1 == 0 && 2u32 & 2 != 0 && 2u32 & 8 == 0) by (bit_vector);
    if position is Some && position->0.state.position is Some {
        let ramp = position->0.ramp_frames;
        if !resumes(latest, ids[i], RENDER_POSITION, ramp) {
            assert(is_resumption(moved[0], ids[i], RENDER_POSITION, ramp));
        }
        lemma_resumes_in_sum(latest, moved, ids[i], RENDER_POSITION, ramp);
        lemma_resumes_in_sum(latest + moved, faded, ids[i], RENDER_POSITION, ramp);
        lemma_resumes_in_all(block, ids, offset, left, i, RENDER_POSITION, ramp);
        lemma_resumes_in_sum(
            resumed_all(block, ids, offset, left),
            rest,
            ids[i],
            RENDER_POSITION,
            ramp,
        );
    }
    if gain is Some {
        let ramp = gain->0.ramp_frames;
        if !resumes(latest, ids[i], RENDER_GAIN, ramp) {
            assert(is_resumption(faded[0], ids[i], RENDER_GAIN, ramp));
        }
        lemma_resumes_in_sum(latest, moved, ids[i], RENDER_GAIN, ramp);
        lemma_resumes_in_sum(latest + moved, faded, ids[i], RENDER_GAIN, ramp);
        lemma_resumes_in_all(block, ids, offset, left, i, RENDER_GAIN, ramp);
        lemma_resumes_in_sum(
            resumed_all(block, ids, offset, left),
            rest,
            ids[i],
            RENDER_GAIN,
            ramp,
        );
    }
}

/// What resumes a ramp in either part resumes it in both together.
proof fn lemma_resumes_in_sum(a: Seq<Update>, b: Seq<Update>, id: u64, field: u64, ramp: u32)
    ensures
        resumes(a, id, field, ramp) || resumes(b, id, field, ramp) ==> resumes(
            a + b,
            id,
            field,
            ramp,
        ),
{
    if resumes(a, id, field, ramp) {
        let i = choose|i: int|
            0 <= i < a.len() && #[trigger] is_resumption(a[i], id, field, ramp);
        assert((a + b)[i] == a[i]);
        assert(is_resumption((a + b)[i], id, field, ramp));
    } else if resumes(b, id, field, ramp) {
        let i = choose|i: int|
            0 <= i < b.len() && #[trigger] is_resumption(b[i], id, field, ramp);
        assert((a + b)[a.len() + i] == b[i]);
        assert(is_resumption((a + b)[a.len() + i], id, field, ramp));
    }
}

proof fn lemma_resumes_in_all(
    block: DecodedSceneBlock,
    ids: Seq<u64>,
    offset: u32,
    left: u32,
    i: int,
    field: u64,
    ramp: u32,
)
    requires
        0 <= i < ids.len(),
        resumes(resumed(block, ids[i], offset, left), ids[i], field, ramp),
    ensures
        resumes(resumed_all(block, ids, offset, left), ids[i], field, ramp),
    decreases ids.len(),
{
    if i < ids.len() - 1 {
        lemma_resumes_in_all(block, ids.drop_last(), offset, left, i, field, ramp);
    }
    lemma_resumes_in_sum(
        resumed_all(block, ids.drop_last(), offset, left),
        resumed(block, ids.last(), offset, left),
        ids[i],
        field,
        ramp,
    );
}

spec fn acceptable(updates: Seq<Update>, left: u32) -> bool {
    forall|i: int|
        0 <= i < updates.len() ==> {
            let update = #[trigger] updates[i];
            &&& 0 < update.changed <= 7
            &&& update.state.position is None ==> update.changed < RENDER_POSITION
            &&& update.offset < left
        }
}

proof fn lemma_resumed_bounds(
    block: DecodedSceneBlock,
    ids: Seq<u64>,
    offset: u32,
    left: u32,
)
    ensures
        acceptable(resumed_all(block, ids, offset, left), left),
    decreases ids.len(),
{
    if ids.len() > 0 {
        lemma_resumed_bounds(block, ids.drop_last(), offset, left);
        assert(acceptable(resumed(block, ids.last(), offset, left), left));
    }
}

proof fn lemma_following_bounds(updates: Seq<SceneMetadataUpdate>, offset: u32, left: u32)
    ensures
        acceptable(following(updates, offset, left), left),
    decreases updates.len(),
{
    if updates.len() > 0 {
        lemma_following_bounds(updates.drop_last(), offset, left);
    }
}

/// A state that is handed over is heard exactly where there is one, the metadata has it
/// active and its meaning is complete. It plays at its gain, or as it is where it has
/// none, and it stands where the metadata puts it.
pub open spec fn is_heard_as(handed: ObjectState, state: Option<SpatialObjectState>) -> bool {
    &&& handed.active <==> (state is Some && state->0.metadata_active
        && state->0.semantic_complete)
    &&& state is None ==> handed.gain == Level::Exact(0) && handed.position is None
    &&& state is Some && state->0.linear_gain is Some ==> handed.gain == state->0.linear_gain->0
    &&& state is Some && state->0.linear_gain is None ==> handed.gain == Level::Exact(0x3f80_0000)
    &&& state is Some ==> handed.position == state->0.position
}

/// What the renderer is handed of any state is heard as that state asks, and agrees with
/// the scene view on whether a placed object sounds and how loud.
pub proof fn an_active_and_complete_state_is_heard(state: Option<SpatialObjectState>)
    ensures
        is_heard_as(owned(state), state),
        state is Some && state->0.position is Some ==> {
            &&& owned(state).active == super::state::listener_state(state).0
            &&& owned(state).gain == super::state::listener_state(state).2
        },
        owned(state).active == super::state::lfe_state(state).0,
        owned(state).gain == super::state::lfe_state(state).1,
{
}

/// A frame hands over every element of its block: the objects in their order, then the
/// bed. Each gets its own samples from the trim on and is heard as its state there asks.
pub proof fn a_trimmed_frame_hands_over_each_element(
    frame: Frame,
    block: DecodedSceneBlock,
    offset: u32,
    i: int,
)
    requires
        is_trimmed(frame, block, offset),
        planes_fit(block),
        offset <= block.duration_frames,
        0 <= i < block.objects@.len(),
    ensures
        frame.initial@.len() == frame.planes@.len(),
        frame.initial@.len() == block.objects@.len() + (if block.lfe is Some {
            1int
        } else {
            0
        }),
        ({
            let object = block.objects@[i];
            let state = state_after(
                block.metadata_updates@,
                object.element_id,
                object.initial_state,
                offset,
            );
            &&& frame.initial@[i].0 == object.element_id
            &&& frame.planes@[i].element == object.element_id
            &&& frame.initial@[i].1.active <==> state is Some && state->0.metadata_active
                && state->0.semantic_complete
            &&& is_heard_as(frame.initial@[i].1, state)
            &&& state is Some && state->0.position is Some ==> frame.initial@[i].1.active
                == super::state::listener_state(state).0
            &&& frame.planes@[i].samples@.len() == object.samples@.len() - offset
            &&& forall|n: int|
                0 <= n < object.samples@.len() - offset ==> #[trigger] frame.planes@[i].samples@[n]
                    == object.samples@[n + offset]
        }),
{
    let ids = elements(block);
    assert(ids[i] == block.objects@[i].element_id);
    assert(element_initial(block, i) == block.objects@[i].initial_state);
    assert(frame.planes@[i].samples@ == block.objects@[i].samples@.skip(offset as int));
    assert(frame.initial@[i].0 == ids[i]);
}

/// The bed comes behind the objects, with its own samples from the trim on, and is heard
/// as its state there asks.
pub proof fn a_trimmed_frame_hands_over_the_bed(
    frame: Frame,
    block: DecodedSceneBlock,
    offset: u32,
)
    requires
        is_trimmed(frame, block, offset),
        planes_fit(block),
        offset <= block.duration_frames,
        block.lfe is Some,
    ensures
        ({
            let bed = block.lfe->0;
            let last = block.objects@.len() as int;
            let state = state_after(
                block.metadata_updates@,
                bed.element_id,
                bed.initial_state,
                offset,
            );
            &&& frame.initial@.len() == last + 1
            &&& frame.initial@[last].0 == bed.element_id
            &&& frame.planes@[last].element == bed.element_id
            &&& is_heard_as(frame.initial@[last].1, state)
            &&& frame.planes@[last].samples@.len() == bed.samples@.len() - offset
            &&& forall|n: int|
                0 <= n < bed.samples@.len() - offset ==> #[trigger] frame.planes@[last].samples@[n]
                    == bed.samples@[n + offset]
        }),
{
    let ids = elements(block);
    let last = block.objects@.len() as int;
    assert(ids[last] == block.lfe->0.element_id);
    assert(frame.planes@[last].samples@ == block.lfe->0.samples@.skip(offset as int));
    assert(frame.initial@[last].0 == ids[last]);
}

/// A trimmed frame starts where the trim falls and ends where its block does.
pub proof fn a_trimmed_frame_ends_with_its_block(
    frame: Frame,
    block: DecodedSceneBlock,
    offset: u32,
)
    requires
        is_trimmed(frame, block, offset),
        offset <= block.duration_frames,
        block.start_frame + block.duration_frames <= i64::MAX,
    ensures
        frame.start == block.start_frame + offset,
        frame.start + frame.duration == block.start_frame + block.duration_frames,
        frame.generation == block.configuration_generation,
        frame.complete == block.state_complete,
        frame.epoch == 1,
{
}

/// The renderer's fields are those of the change: activity, gain and position, and no
/// other.
pub proof fn the_renderer_is_told_the_fields_that_changed(core: u32)
    ensures
        translated(core) < 8,
        translated(core) % 2 == 1 <==> core & FIELD_ACTIVE != 0,
        (translated(core) / 2) % 2 == 1 <==> core & FIELD_GAIN != 0,
        (translated(core) / 4) % 2 == 1 <==> core & FIELD_POSITION != 0,
{
}

/// The update tells what the change does: the same fields, but for a position that the
/// target has not, and a target that is heard as the change's own.
pub open spec fn tells(update: Update, source: SceneMetadataUpdate) -> bool {
    &&& is_heard_as(update.state, Some(source.state))
    &&& update.changed < 8
    &&& update.changed % 2 == 1 <==> source.changed_fields & FIELD_ACTIVE != 0
    &&& (update.changed / 2) % 2 == 1 <==> source.changed_fields & FIELD_GAIN != 0
    &&& (update.changed / 4) % 2 == 1 <==> (source.changed_fields & FIELD_POSITION != 0
        && source.state.position is Some)
}

/// The change concerns something that the renderer knows.
pub open spec fn concerns_the_renderer(source: SceneMetadataUpdate) -> bool {
    ||| source.changed_fields & FIELD_ACTIVE != 0
    ||| source.changed_fields & FIELD_GAIN != 0
    ||| source.changed_fields & FIELD_POSITION != 0 && source.state.position is Some
}

/// The update hands a change over that lies ahead of the trim.
pub open spec fn is_ahead(update: Update, source: SceneMetadataUpdate, offset: u32) -> bool {
    &&& update.element == source.element_id
    &&& update.offset + offset == source.offset_frames
    &&& update.ramp == source.ramp_frames
    &&& tells(update, source)
}

/// The update carries a change on whose ramp runs across the trim: it stands at the trim
/// and ends when the change does.
pub open spec fn is_carried_on(update: Update, source: SceneMetadataUpdate, offset: u32) -> bool {
    &&& update.element == source.element_id
    &&& update.offset == 0
    &&& source.offset_frames < offset
    &&& source.offset_frames + source.ramp_frames <= u32::MAX ==> update.ramp + offset
        == source.offset_frames + source.ramp_frames
    &&& tells(update, source)
}

/// The update carries on the movement or the fade that element `id` is in at the trim.
pub open spec fn is_running(
    update: Update,
    block: DecodedSceneBlock,
    id: u64,
    offset: u32,
) -> bool {
    let timeline = block_timeline(block, id, offset);
    let movement = resumed_ramp(timeline.position, timeline.state, id, FIELD_POSITION, offset);
    let fade = resumed_ramp(timeline.gain, timeline.state, id, FIELD_GAIN, offset);
    &&& update.element == id
    &&& update.offset == 0
    &&& {
        ||| movement is Some && update.ramp == movement->0.ramp_frames && tells(update, movement->0)
        ||| fade is Some && update.ramp == fade->0.ramp_frames && tells(update, fade->0)
    }
}

proof fn lemma_kept(
    element: u64,
    offset: u32,
    ramp: u32,
    source: SceneMetadataUpdate,
    left: u32,
)
    ensures
        kept(element, offset, ramp, source, left).len() <= 1,
        kept(element, offset, ramp, source, left).len() == 1 <==> offset < left
            && concerns_the_renderer(source),
        kept(element, offset, ramp, source, left).len() == 1 ==> {
            let update = kept(element, offset, ramp, source, left)[0];
            &&& update.element == element
            &&& update.offset == offset
            &&& update.ramp == ramp
            &&& tells(update, source)
        },
{
}

proof fn lemma_ahead(updates: Seq<SceneMetadataUpdate>, offset: u32, left: u32, k: int) -> (j: int)
    requires
        0 <= k < updates.len(),
        offset <= updates[k].offset_frames < offset + left,
        concerns_the_renderer(updates[k]),
    ensures
        0 <= j < following(updates, offset, left).len(),
        is_ahead(following(updates, offset, left)[j], updates[k], offset),
    decreases updates.len(),
{
    let last = updates.last();
    let before = following(updates.drop_last(), offset, left);
    if k == updates.len() - 1 {
        lemma_kept(
            last.element_id,
            (last.offset_frames - offset) as u32,
            last.ramp_frames,
            last,
            left,
        );
        assert(following(updates, offset, left)[before.len() as int] == kept(
            last.element_id,
            (last.offset_frames - offset) as u32,
            last.ramp_frames,
            last,
            left,
        )[0]);
        before.len() as int
    } else {
        let j = lemma_ahead(updates.drop_last(), offset, left, k);
        assert(following(updates, offset, left)[j] == before[j]);
        j
    }
}

proof fn lemma_only_ahead(
    updates: Seq<SceneMetadataUpdate>,
    offset: u32,
    left: u32,
    j: int,
) -> (k: int)
    requires
        0 <= j < following(updates, offset, left).len(),
    ensures
        0 <= k < updates.len(),
        offset <= updates[k].offset_frames < offset + left,
        is_ahead(following(updates, offset, left)[j], updates[k], offset),
    decreases updates.len(),
{
    let last = updates.last();
    let before = following(updates.drop_last(), offset, left);
    if j < before.len() {
        let k = lemma_only_ahead(updates.drop_last(), offset, left, j);
        assert(following(updates, offset, left)[j] == before[j]);
        k
    } else {
        lemma_kept(
            last.element_id,
            (last.offset_frames - offset) as u32,
            last.ramp_frames,
            last,
            left,
        );
        updates.len() - 1
    }
}

/// Every change ahead of the trim that concerns the renderer is handed over: at its own
/// frame, with its own ramp, fields and target.
pub proof fn every_change_ahead_is_handed_over(
    frame: Frame,
    block: DecodedSceneBlock,
    offset: u32,
    k: int,
) -> (j: int)
    requires
        is_trimmed(frame, block, offset),
        offset <= block.duration_frames,
        0 <= k < block.metadata_updates@.len(),
        offset <= block.metadata_updates@[k].offset_frames < block.duration_frames,
        concerns_the_renderer(block.metadata_updates@[k]),
    ensures
        0 <= j < frame.updates@.len(),
        is_ahead(frame.updates@[j], block.metadata_updates@[k], offset),
        frame.updates@[j].state.active <==> block.metadata_updates@[k].state.metadata_active
            && block.metadata_updates@[k].state.semantic_complete,
{
    let left = (block.duration_frames - offset) as u32;
    let resumed = resumed_all(block, elements(block), offset, left);
    let j = lemma_ahead(block.metadata_updates@, offset, left, k);
    assert(frame.updates@[resumed.len() + j] == following(
        block.metadata_updates@,
        offset,
        left,
    )[j]);
    resumed.len() + j
}

proof fn lemma_latest_before(updates: Seq<SceneMetadataUpdate>, id: u64, offset: u32)
    ensures
        ({
            let at = latest_before(updates, id, offset);
            &&& -1 <= at < updates.len()
            &&& at >= 0 ==> updates[at].element_id == id && updates[at].offset_frames < offset
            &&& forall|k: int|
                at < k < updates.len() ==> !((#[trigger] updates[k]).element_id == id
                    && updates[k].offset_frames < offset)
        }),
    decreases updates.len(),
{
    if updates.len() > 0 && !(updates.last().element_id == id && updates.last().offset_frames
        < offset) {
        let front = updates.drop_last();
        lemma_latest_before(front, id, offset);
        let at = latest_before(updates, id, offset);
        assert forall|k: int| at < k < updates.len() implies !((#[trigger] updates[k]).element_id
            == id && updates[k].offset_frames < offset) by {
            if k < front.len() {
                assert(front[k] == updates[k]);
            }
        }
    }
}

/// An update that the resumption of one element holds.
proof fn lemma_resumed_source(
    block: DecodedSceneBlock,
    id: u64,
    offset: u32,
    left: u32,
    j: int,
)
    requires
        0 <= j < resumed(block, id, offset, left).len(),
    ensures
        ({
            let update = resumed(block, id, offset, left)[j];
            let at = latest_before(block.metadata_updates@, id, offset);
            ||| 0 <= at < block.metadata_updates@.len() && is_carried_on(
                update,
                block.metadata_updates@[at],
                offset,
            )
            ||| is_running(update, block, id, offset)
        }),
{
    let updates = block.metadata_updates@;
    let latest = carried(updates, id, offset, left);
    let timeline = block_timeline(block, id, offset);
    let movement = resumed_ramp(timeline.position, timeline.state, id, FIELD_POSITION, offset);
    let fade = resumed_ramp(timeline.gain, timeline.state, id, FIELD_GAIN, offset);
    let moved = unhidden(latest, movement, id, RENDER_POSITION, left);
    let faded = unhidden(latest, fade, id, RENDER_GAIN, left);
    let update = resumed(block, id, offset, left)[j];
    let at = latest_before(updates, id, offset);
    lemma_latest_before(updates, id, offset);
    if j < latest.len() {
        assert(update == latest[j]);
        lemma_kept(id, 0, (ramp_end(updates[at]) - offset) as u32, updates[at], left);
    } else if j < latest.len() + moved.len() {
        assert(update == moved[j - latest.len()]);
        lemma_kept(id, 0, movement->0.ramp_frames, movement->0, left);
    } else {
        assert(update == faded[j - latest.len() - moved.len()]);
        lemma_kept(id, 0, fade->0.ramp_frames, fade->0, left);
    }
}

proof fn lemma_resumed_all_source(
    block: DecodedSceneBlock,
    ids: Seq<u64>,
    offset: u32,
    left: u32,
    j: int,
) -> (i: int)
    requires
        0 <= j < resumed_all(block, ids, offset, left).len(),
    ensures
        0 <= i < ids.len(),
        ({
            let update = resumed_all(block, ids, offset, left)[j];
            let at = latest_before(block.metadata_updates@, ids[i], offset);
            ||| 0 <= at < block.metadata_updates@.len() && is_carried_on(
                update,
                block.metadata_updates@[at],
                offset,
            )
            ||| is_running(update, block, ids[i], offset)
        }),
    decreases ids.len(),
{
    let before = resumed_all(block, ids.drop_last(), offset, left);
    if j < before.len() {
        let i = lemma_resumed_all_source(block, ids.drop_last(), offset, left, j);
        assert(resumed_all(block, ids, offset, left)[j] == before[j]);
        i
    } else {
        lemma_resumed_source(block, ids.last(), offset, left, j - before.len());
        ids.len() - 1
    }
}

/// Nothing is handed over but what the block says: each update is a change ahead of the
/// trim, or carries on a change or a ramp that runs across it.
pub proof fn nothing_is_handed_over_but_what_the_block_says(
    frame: Frame,
    block: DecodedSceneBlock,
    offset: u32,
    j: int,
)
    requires
        is_trimmed(frame, block, offset),
        offset <= block.duration_frames,
        0 <= j < frame.updates@.len(),
    ensures
        ({
            let update = frame.updates@[j];
            ||| exists|k: int|
                0 <= k < block.metadata_updates@.len() && #[trigger] is_ahead(
                    update,
                    block.metadata_updates@[k],
                    offset,
                )
            ||| exists|k: int|
                0 <= k < block.metadata_updates@.len() && #[trigger] is_carried_on(
                    update,
                    block.metadata_updates@[k],
                    offset,
                )
            ||| exists|i: int|
                0 <= i < elements(block).len() && #[trigger] is_running(
                    update,
                    block,
                    elements(block)[i],
                    offset,
                )
        }),
{
    let left = (block.duration_frames - offset) as u32;
    let ids = elements(block);
    let resumed = resumed_all(block, ids, offset, left);
    let update = frame.updates@[j];
    if j < resumed.len() {
        let i = lemma_resumed_all_source(block, ids, offset, left, j);
        assert(update == resumed[j]);
        let at = latest_before(block.metadata_updates@, ids[i], offset);
        if is_running(update, block, ids[i], offset) {
        } else {
            assert(is_carried_on(update, block.metadata_updates@[at], offset));
        }
    } else {
        let k = lemma_only_ahead(block.metadata_updates@, offset, left, j - resumed.len());
        assert(update == following(block.metadata_updates@, offset, left)[j - resumed.len()]);
        assert(is_ahead(update, block.metadata_updates@[k], offset));
    }
}

/// During a gap nothing sounds: every element is off and silent, in front of the
/// listener.
pub proof fn a_gap_is_silent()
    ensures
        !parked().active,
        parked().gain == Level::Exact(0),
        parked().position == Some(
            SpatialPosition {
                x: Level::Exact(0),
                y: Level::Exact(0x3f80_0000),
                z: Level::Exact(0),
            },
        ),
{
}

/// The elements of a scene are its objects in order, and then its bed.
pub proof fn the_bed_comes_after_the_objects(ids: Seq<u64>, bed: u64, i: int)
    ensures
        signature_elements(ids, None) == ids,
        signature_elements(ids, Some(bed)).len() == ids.len() + 1,
        signature_elements(ids, Some(bed)).last() == bed,
        0 <= i < ids.len() ==> signature_elements(ids, Some(bed))[i] == ids[i],
{
    assert(signature_elements(ids, None) =~= ids);
}

/// A ramp is resumed at once, for its own element and field, over what is left of it.
pub proof fn a_ramp_is_resumed_at_once(update: Update, id: u64, field: u64, ramp: u32)
    requires
        is_resumption(update, id, field, ramp),
    ensures
        update.element == id,
        update.offset == 0,
        update.ramp == ramp,
        names(update.changed, field),
{
}

} // verus!
