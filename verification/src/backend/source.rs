//! The render source: it turns queued blocks into quanta for a spatial renderer.
use super::consumer::{
    loaded_at, refused_at, stands_at_refused, stands_before_refused, timeline_position, BlockCursor,
    Course, SceneConsumer,
};
use super::playout::{
    audible, first_live, first_of, heard, heard_lfe, is_onset, last_of, lemma_first_live_is,
    lemma_places, lemma_reach, reach, segment, sounded };
use super::state::{
    has_instant_update, jumps_within, lfe_render_state, lfe_state,
    listener_render_state, listener_state, planes_fit, a_block_that_passes_has_the_expected_identity,
};
use crate::decoder::level::Level;
use crate::decoder::metadata::{element_state_at, state_after};
use crate::decoder::queue::{SceneQueue, SceneQueueReader};
use crate::decoder::scene::{
    DecodedSceneBlock, SceneLfePcm, SceneMetadataUpdate, SceneObjectPcm, SpatialPosition,
};
use crate::decoder::signature::{element_ids, SceneSignature};
use crate::order::{ascending, lemma_ascending};
use crate::scene_view::{ObjectView, SceneViewMirror, MAX_VIEW_OBJECTS};
use std::collections::BTreeMap;
use vstd::prelude::*;
use vstd::string::*;

verus! {

/// One object of a quantum.
#[derive(Debug)]
pub struct DynamicObjectRender {
    pub element_id: u64,
    pub active: bool,
    pub position: SpatialPosition,
    pub gain: Level,
    pub samples: Vec<u32>,
}

/// What an object of a quantum says.
#[verifier::ext_equal]
pub struct RenderModel {
    pub element_id: u64,
    pub state: (bool, SpatialPosition, Level),
    pub samples: Seq<u32>,
}

impl View for DynamicObjectRender {
    type V = RenderModel;

    open spec fn view(&self) -> RenderModel {
        RenderModel {
            element_id: self.element_id,
            state: (self.active, self.position, self.gain),
            samples: self.samples@,
        }
    }
}

/// The bed of a quantum.
#[derive(Debug)]
pub struct LfeObjectRender {
    pub active: bool,
    pub gain: Level,
    pub samples: Vec<u32>,
}

/// What a renderer is handed for one period.
#[derive(Debug)]
pub struct RenderQuantum {
    /// Ascending by element.
    pub objects: Vec<DynamicObjectRender>,
    pub lfe: Option<LfeObjectRender>,
    pub frames_written: u32,
    pub end_of_stream: bool,
    pub underrun: bool,
}

/// `base` with `piece` written over it from `at` on.
pub open spec fn overwritten(base: Seq<u32>, at: int, piece: Seq<u32>) -> Seq<u32> {
    Seq::new(
        base.len(),
        |i: int|
            if at <= i < at + piece.len() {
                piece[i - at]
            } else {
                base[i]
            },
    )
}

pub open spec fn silence(frames: nat) -> Seq<u32> {
    Seq::new(frames, |i: int| 0u32)
}

/// A stretch of a block on its way into a quantum.
pub struct Stretch {
    pub updates: Seq<SceneMetadataUpdate>,
    pub offset: u32,
    pub at: int,
    pub take: int,
    pub requested: nat,
}

/// `renders` with one object's stretch written into it. An object that is new
/// to the quantum starts silent, with its state at the start of the stretch.
pub open spec fn with_object(
    renders: Map<u64, RenderModel>,
    stretch: Stretch,
    object: SceneObjectPcm,
) -> Map<u64, RenderModel> {
    let id = object.element_id;
    let base = if renders.contains_key(id) {
        renders[id]
    } else {
        RenderModel {
            element_id: id,
            state: listener_state(
                state_after(stretch.updates, id, object.initial_state, stretch.offset),
            ),
            samples: silence(stretch.requested),
        }
    };
    renders.insert(
        id,
        RenderModel {
            samples: overwritten(
                base.samples,
                stretch.at,
                object.samples@.subrange(stretch.offset as int, stretch.offset + stretch.take),
            ),
            ..base
        },
    )
}

pub open spec fn with_objects(
    renders: Map<u64, RenderModel>,
    stretch: Stretch,
    objects: Seq<SceneObjectPcm>,
) -> Map<u64, RenderModel>
    decreases objects.len(),
{
    if objects.len() == 0 {
        renders
    } else {
        with_object(
            with_objects(renders, stretch, objects.drop_last()),
            stretch,
            objects.last(),
        )
    }
}

pub open spec fn models(renders: Map<u64, DynamicObjectRender>) -> Map<u64, RenderModel> {
    renders.map_values(|render: DynamicObjectRender| render@)
}

/// Where `ids` lists `id` first, or -1.
pub open spec fn slot_of(ids: Seq<u64>, id: u64) -> int {
    if ids.contains(id) {
        ids.index_of_first(id)->0
    } else {
        -1
    }
}

fn find_slot(ids: &[u64], id: u64) -> (r: Option<usize>)
    ensures
        match r {
            Some(slot) => slot_of(ids@, id) == slot && slot < ids@.len() && ids@[slot as int] == id,
            None => slot_of(ids@, id) == -1,
        },
{
    let mut index: usize = 0;
    while index < ids.len()
        invariant
            index <= ids@.len(),
            forall|i: int| 0 <= i < index ==> ids@[i] != id,
        decreases ids.len() - index,
    {
        if ids[index] == id {
            proof {
                ids@.index_of_first_ensures(id);
            }
            return Some(index);
        }
        index = index + 1;
    }
    None
}

fn zeros(frames: usize) -> (r: Vec<u32>)
    ensures
        r@ == silence(frames as nat),
{
    let mut out: Vec<u32> = Vec::new();
    let mut index: usize = 0;
    while index < frames
        invariant
            index <= frames,
            out@ == silence(index as nat),
        decreases frames - index,
    {
        out.push(0);
        index = index + 1;
        assert(out@ =~= silence(index as nat));
    }
    out
}

fn overwrite(destination: &mut Vec<u32>, at: usize, source: &[u32], from: usize, take: usize)
    requires
        at + take <= old(destination)@.len(),
        from + take <= source@.len(),
    ensures
        final(destination)@ == overwritten(
            old(destination)@,
            at as int,
            source@.subrange(from as int, from + take),
        ),
{
    let mut index: usize = 0;
    let size: usize = destination.len();
    let limit: usize = source.len();
    let ghost before = destination@;
    assert(destination@ =~= overwritten(before, at as int, source@.subrange(from as int, from + 0)));
    while index < take
        invariant
            index <= take,
            at + take <= size,
            from + take <= limit,
            destination@.len() == size,
            source@.len() == limit,
            before.len() == size,
            destination@ == overwritten(
                before,
                at as int,
                source@.subrange(from as int, from + index),
            ),
        decreases take - index,
    {
        destination.set(at + index, source[from + index]);
        index = index + 1;
        assert(destination@ =~= overwritten(
            before,
            at as int,
            source@.subrange(from as int, from + index),
        ));
    }
}

/// Writes one stretch of every object of the cursor's block into `renders`, and
/// notes which of `element_ids` were placed outright within it.
pub fn copy_object_pcm(
    cursor: &BlockCursor,
    destination_offset: usize,
    take: u32,
    requested: usize,
    element_ids: &[u64],
    renders: &mut BTreeMap<u64, DynamicObjectRender>,
    jumped: &mut Vec<bool>,
)
    requires
        planes_fit(cursor.block),
        cursor.offset_frames + take <= cursor.block.duration_frames,
        destination_offset + take <= requested,
        forall|id: u64| #[trigger]
            old(renders)@.contains_key(id) ==> old(renders)@[id].samples@.len() == requested,
    ensures
        models(final(renders)@) == with_objects(
            models(old(renders)@),
            (Stretch {
                updates: cursor.block.metadata_updates@,
                offset: cursor.offset_frames,
                at: destination_offset as int,
                take: take as int,
                requested: requested as nat,
            }),
            cursor.block.objects@,
        ),
        final(jumped)@.len() == old(jumped)@.len(),
        forall|slot: int|
            0 <= slot < old(jumped)@.len() ==> (#[trigger] final(jumped)@[slot] <==> old(jumped)@[slot] || exists|i: int|
                {
                    &&& 0 <= i < cursor.block.objects@.len()
                    &&& slot_of(
                        element_ids@,
                        (#[trigger] cursor.block.objects@[i]).element_id,
                    ) == slot
                    &&& jumps_within(
                        cursor.block.metadata_updates@,
                        cursor.block.objects@[i].element_id,
                        cursor.offset_frames,
                        (cursor.offset_frames + take) as u32,
                    )
                }),
{
    let jump_end: u32 = cursor.offset_frames + take;
    let ghost stretch = Stretch {
        updates: cursor.block.metadata_updates@,
        offset: cursor.offset_frames,
        at: destination_offset as int,
        take: take as int,
        requested: requested as nat,
    };
    let ghost before = models(renders@);
    let ghost flags = jumped@;
    let objects = cursor.block.objects();
    let mut index: usize = 0;
    assert(objects@.take(0) =~= Seq::empty());
    while index < objects.len()
        invariant
            index <= objects@.len(),
            objects@ == cursor.block.objects@,
            planes_fit(cursor.block),
            jump_end == cursor.offset_frames + take,
            cursor.offset_frames + take <= cursor.block.duration_frames,
            destination_offset + take <= requested,
            stretch == (Stretch {
                updates: cursor.block.metadata_updates@,
                offset: cursor.offset_frames,
                at: destination_offset as int,
                take: take as int,
                requested: requested as nat,
            }),
            forall|id: u64| #[trigger]
                renders@.contains_key(id) ==> renders@[id].samples@.len() == requested,
            models(renders@) == with_objects(before, stretch, objects@.take(index as int)),
            jumped@.len() == flags.len(),
            forall|slot: int|
                0 <= slot < flags.len() ==> (#[trigger] jumped@[slot] <==> flags[slot]
                    || exists|i: int|
                    {
                        &&& 0 <= i < index
                        &&& slot_of(element_ids@, (#[trigger] objects@[i]).element_id) == slot
                        &&& jumps_within(
                            cursor.block.metadata_updates@,
                            objects@[i].element_id,
                            cursor.offset_frames,
                            jump_end,
                        )
                    }),
        decreases objects.len() - index,
    {
        proof {
            let prefix = objects@.take(index as int + 1);
            assert(prefix.drop_last() =~= objects@.take(index as int));
            assert(prefix.last() == objects@[index as int]);
        }
        let object = &objects[index];
        let id: u64 = object.element_id;
        let ghost flags_now = jumped@;
        let jumps = has_instant_update(&cursor.block, id, cursor.offset_frames, jump_end);
        let slot = find_slot(element_ids, id);
        if let Some(slot) = slot {
            if slot < jumped.len() && jumps {
                jumped.set(slot, true);
            }
        }
        proof {
            assert forall|slot: int| 0 <= slot < flags.len() implies (#[trigger] jumped@[slot]
                <==> flags[slot] || exists|i: int|
                {
                    &&& 0 <= i < index + 1
                    &&& slot_of(element_ids@, (#[trigger] objects@[i]).element_id) == slot
                    &&& jumps_within(
                        cursor.block.metadata_updates@,
                        objects@[i].element_id,
                        cursor.offset_frames,
                        jump_end,
                    )
                }) by {
                let here = slot_of(element_ids@, id) == slot && jumps;
                assert(jumped@[slot] == (flags_now[slot] || here));
                if here {
                    assert(objects@[index as int].element_id == id);
                }
            }
        }
        let ghost step = renders@;
        let existing = renders.remove(&id);
        let mut render = match existing {
            Some(render) => render,
            None => {
                let state = element_state_at(
                    &cursor.block,
                    id,
                    &object.initial_state,
                    cursor.offset_frames,
                );
                let (active, position, gain) = listener_render_state(state);
                DynamicObjectRender {
                    element_id: id,
                    active,
                    position,
                    gain,
                    samples: zeros(requested),
                }
            },
        };
        overwrite(
            &mut render.samples,
            destination_offset,
            object.samples.as_slice(),
            cursor.offset_frames as usize,
            take as usize,
        );
        renders.insert(id, render);
        assert(models(renders@) =~= with_object(models(step), stretch, *object));
        index = index + 1;
    }
    assert(objects@.take(index as int) =~= objects@);
}

/// The bed of a quantum while it is being filled.
#[derive(Debug)]
pub struct LfeQuantumAccumulator {
    pub render: LfeObjectRender,
    pub state_initialized: bool,
}

impl LfeQuantumAccumulator {
    pub fn new(frame_count: usize) -> (r: Self)
        ensures
            !r.state_initialized,
            !r.render.active,
            r.render.gain == Level::Exact(0),
            r.render.samples@ == silence(frame_count as nat),
    {
        LfeQuantumAccumulator {
            render: LfeObjectRender {
                active: false,
                gain: Level::Exact(0),
                samples: zeros(frame_count),
            },
            state_initialized: false,
        }
    }

    pub fn finish(self) -> (r: LfeObjectRender)
        ensures
            r == self.render,
    {
        self.render
    }
}

/// What one stretch of the bed makes of the accumulator.
pub open spec fn lfe_written(
    before: LfeQuantumAccumulator,
    after: LfeQuantumAccumulator,
    bed: SceneLfePcm,
    stretch: Stretch,
) -> bool {
    &&& after.state_initialized
    &&& (after.render.active, after.render.gain) == (if before.state_initialized {
        (before.render.active, before.render.gain)
    } else {
        lfe_state(state_after(stretch.updates, bed.element_id, bed.initial_state, stretch.offset))
    })
    &&& after.render.samples@ == overwritten(
        before.render.samples@,
        stretch.at,
        bed.samples@.subrange(stretch.offset as int, stretch.offset + stretch.take),
    )
}

/// Writes one stretch of the bed, if the block has one and the quantum wants it.
pub fn copy_lfe_pcm(
    cursor: &BlockCursor,
    destination_offset: usize,
    take: u32,
    destination: &mut Option<LfeQuantumAccumulator>,
)
    requires
        planes_fit(cursor.block),
        cursor.offset_frames + take <= cursor.block.duration_frames,
        *old(destination) is Some ==> destination_offset + take <= (*old(destination))->0.render.samples@.len(),
    ensures
        match (cursor.block.lfe, *old(destination)) {
            (Some(bed), Some(before)) => *final(destination) is Some && lfe_written(
                before,
                (*final(destination))->0,
                bed,
                (Stretch {
                    updates: cursor.block.metadata_updates@,
                    offset: cursor.offset_frames,
                    at: destination_offset as int,
                    take: take as int,
                    requested: 0,
                }),
            ),
            _ => *final(destination) == *old(destination),
        },
{
    if let Some(bed) = &cursor.block.lfe {
        if let Some(lfe) = destination {
            if !lfe.state_initialized {
                let state = element_state_at(
                    &cursor.block,
                    bed.element_id,
                    &bed.initial_state,
                    cursor.offset_frames,
                );
                let (active, gain) = lfe_render_state(state);
                lfe.render.active = active;
                lfe.render.gain = gain;
                lfe.state_initialized = true;
            }
            overwrite(
                &mut lfe.render.samples,
                destination_offset,
                bed.samples.as_slice(),
                cursor.offset_frames as usize,
                take as usize,
            );
        }
    }
}

/// What element `id` is told at the first frame of a quantum that has audio.
pub open spec fn onset_state(
    blocks: Seq<DecodedSceneBlock>,
    t0: int,
    i: int,
    id: u64,
) -> (bool, SpatialPosition, Level) {
    let block = blocks[first_live(blocks, t0 + i)];
    listener_state(
        state_after(
            block.metadata_updates@,
            id,
            block.objects@[first_of(block.objects@, id)].initial_state,
            (t0 + i - block.start_frame) as u32,
        ),
    )
}

/// What the bed is told at the first frame of a quantum that has audio.
pub open spec fn onset_lfe_state(
    blocks: Seq<DecodedSceneBlock>,
    t0: int,
    i: int,
) -> (bool, Level) {
    let block = blocks[first_live(blocks, t0 + i)];
    lfe_state(
        state_after(
            block.metadata_updates@,
            block.lfe->0.element_id,
            block.lfe->0.initial_state,
            (t0 + i - block.start_frame) as u32,
        ),
    )
}

/// One object of a quantum of `requested` frames from `t0` on, `written` of
/// which were available: it plays what is heard, is silent behind that, and has
/// the state it had when the quantum's audio set in.
pub open spec fn object_plays(
    render: RenderModel,
    blocks: Seq<DecodedSceneBlock>,
    t0: int,
    written: int,
    requested: nat,
) -> bool {
    &&& render.samples.len() == requested
    &&& forall|i: int|
        0 <= i < requested ==> #[trigger] render.samples[i] == (if i < written {
            heard(blocks, render.element_id, t0 + i)
        } else {
            0
        })
    &&& forall|i: int|
        0 <= i < written && #[trigger] is_onset(blocks, t0, i) ==> render.state == onset_state(
            blocks,
            t0,
            i,
            render.element_id,
        )
}

/// The bed of such a quantum. Where nothing sounded it is off.
pub open spec fn lfe_plays(
    lfe: LfeObjectRender,
    blocks: Seq<DecodedSceneBlock>,
    t0: int,
    written: int,
    requested: nat,
) -> bool {
    &&& lfe.samples@.len() == requested
    &&& forall|i: int|
        0 <= i < requested ==> #[trigger] lfe.samples@[i] == (if i < written {
            heard_lfe(blocks, t0 + i)
        } else {
            0
        })
    &&& forall|i: int|
        0 <= i < written && #[trigger] is_onset(blocks, t0, i) ==> (lfe.active, lfe.gain)
            == onset_lfe_state(blocks, t0, i)
    &&& !sounded(blocks, t0, written) ==> !lfe.active && lfe.gain == Level::Exact(0)
}

/// Element `id` was placed outright in the audio before frame `limit`.
pub open spec fn jumped_before(
    blocks: Seq<DecodedSceneBlock>,
    t0: int,
    limit: int,
    id: u64,
) -> bool {
    exists|j: int|
        {
            &&& 0 <= j < blocks.len()
            &&& #[trigger] jumped_in(blocks, t0, limit, id, j)
        }
}

/// ... in the stretch that block `j` contributes.
pub open spec fn jumped_in(
    blocks: Seq<DecodedSceneBlock>,
    t0: int,
    limit: int,
    id: u64,
    j: int,
) -> bool {
    let (from, to) = segment(blocks, t0, limit, j);
    from < to && jumps_within(blocks[j].metadata_updates@, id, from as u32, to as u32)
}

/// Slot `slot` of the view is to be marked as placed outright.
pub open spec fn slot_jumped(
    blocks: Seq<DecodedSceneBlock>,
    t0: int,
    limit: int,
    ids: Seq<u64>,
    slot: int,
) -> bool {
    &&& slot < ids.len()
    &&& slot_of(ids, ids[slot]) == slot
    &&& jumped_before(blocks, t0, limit, ids[slot])
}

/// The objects of a quantum that is being filled.
spec fn renders_play(
    renders: Map<u64, RenderModel>,
    blocks: Seq<DecodedSceneBlock>,
    t0: int,
    written: int,
    requested: nat,
    ids: Seq<u64>,
) -> bool {
    &&& forall|id: u64| #[trigger]
        renders.contains_key(id) <==> ids.contains(id) && sounded(blocks, t0, written)
    &&& forall|id: u64| #[trigger]
        renders.contains_key(id) ==> renders[id].element_id == id && object_plays(
            renders[id],
            blocks,
            t0,
            written,
            requested,
        )
}

spec fn lfe_fills(
    lfe: LfeQuantumAccumulator,
    blocks: Seq<DecodedSceneBlock>,
    t0: int,
    written: int,
    requested: nat,
) -> bool {
    &&& lfe.state_initialized == sounded(blocks, t0, written)
    &&& lfe_plays(lfe.render, blocks, t0, written, requested)
}

/// Nothing sounds in the frames before block `k` starts.
proof fn lemma_gap(blocks: Seq<DecodedSceneBlock>, t0: int, k: int, from: int, to: int)
    requires
        0 <= k < blocks.len(),
        0 <= from <= to,
        forall|j: int| 0 <= j < k ==> (#[trigger] blocks[j]).end() <= t0 + from,
        t0 + to <= blocks[k].start_frame,
    ensures
        forall|i: int| from <= i < to ==> !#[trigger] audible(blocks, t0, i),
        forall|i: int, id: u64|
            from <= i < to ==> #[trigger] heard(blocks, id, t0 + i) == 0,
        forall|i: int| from <= i < to ==> #[trigger] heard_lfe(blocks, t0 + i) == 0,
        sounded(blocks, t0, to) == sounded(blocks, t0, from),
{
    assert forall|i: int| from <= i < to implies !#[trigger] audible(blocks, t0, i) by {
        lemma_first_live_is(blocks, t0 + i, k);
    }
    assert forall|i: int, id: u64| from <= i < to implies #[trigger] heard(blocks, id, t0 + i)
        == 0 by {
        assert(!audible(blocks, t0, i));
    }
    assert forall|i: int| from <= i < to implies #[trigger] heard_lfe(blocks, t0 + i) == 0 by {
        assert(!audible(blocks, t0, i));
    }
    if sounded(blocks, t0, to) {
        let i = choose|i: int| 0 <= i < to && #[trigger] audible(blocks, t0, i);
        assert(i < from);
    }
    if sounded(blocks, t0, from) {
        let i = choose|i: int| 0 <= i < from && #[trigger] audible(blocks, t0, i);
        assert(audible(blocks, t0, i));
    }
}

/// A quantum over a gap is the quantum before it.
proof fn lemma_gap_step(
    renders: Map<u64, RenderModel>,
    blocks: Seq<DecodedSceneBlock>,
    t0: int,
    k: int,
    from: int,
    to: int,
    requested: nat,
    ids: Seq<u64>,
)
    requires
        renders_play(renders, blocks, t0, from, requested, ids),
        0 <= k < blocks.len(),
        0 <= from <= to <= requested,
        forall|j: int| 0 <= j < k ==> (#[trigger] blocks[j]).end() <= t0 + from,
        t0 + to <= blocks[k].start_frame,
    ensures
        renders_play(renders, blocks, t0, to, requested, ids),
{
    lemma_gap(blocks, t0, k, from, to);
    assert forall|id: u64| #[trigger] renders.contains_key(id) implies object_plays(
        renders[id],
        blocks,
        t0,
        to,
        requested,
    ) by {
        let render = renders[id];
        assert forall|i: int| 0 <= i < requested implies #[trigger] render.samples[i] == (if i
            < to {
            heard(blocks, render.element_id, t0 + i)
        } else {
            0
        }) by {
            if from <= i < to {
                assert(heard(blocks, render.element_id, t0 + i) == 0);
            }
        }
        assert forall|i: int| 0 <= i < to && #[trigger] is_onset(blocks, t0, i) implies render.state
            == onset_state(blocks, t0, i, render.element_id) by {
            assert(audible(blocks, t0, i));
            assert(i < from);
        }
    }
}

proof fn lemma_lfe_gap_step(
    lfe: LfeQuantumAccumulator,
    blocks: Seq<DecodedSceneBlock>,
    t0: int,
    k: int,
    from: int,
    to: int,
    requested: nat,
)
    requires
        lfe_fills(lfe, blocks, t0, from, requested),
        0 <= k < blocks.len(),
        0 <= from <= to <= requested,
        forall|j: int| 0 <= j < k ==> (#[trigger] blocks[j]).end() <= t0 + from,
        t0 + to <= blocks[k].start_frame,
    ensures
        lfe_fills(lfe, blocks, t0, to, requested),
{
    lemma_gap(blocks, t0, k, from, to);
    let render = lfe.render;
    assert forall|i: int| 0 <= i < requested implies #[trigger] render.samples@[i] == (if i < to {
        heard_lfe(blocks, t0 + i)
    } else {
        0
    }) by {
        if from <= i < to {
            assert(heard_lfe(blocks, t0 + i) == 0);
        }
    }
    assert forall|i: int| 0 <= i < to && #[trigger] is_onset(blocks, t0, i) implies (
        render.active,
        render.gain,
    ) == onset_lfe_state(blocks, t0, i) by {
        assert(audible(blocks, t0, i));
        assert(i < from);
    }
}

/// What writing a stretch of every object makes of one of them.
proof fn lemma_with_objects(
    renders: Map<u64, RenderModel>,
    stretch: Stretch,
    objects: Seq<SceneObjectPcm>,
    id: u64,
)
    requires
        stretch.take >= 0,
        stretch.at >= 0,
        forall|i: int|
            0 <= i < objects.len() ==> stretch.offset + stretch.take <= (
            #[trigger] objects[i]).samples@.len(),
        forall|other: u64| #[trigger]
            renders.contains_key(other) ==> renders[other].samples.len() == stretch.requested,
    ensures
        ({
            let after = with_objects(renders, stretch, objects);
            let base = if renders.contains_key(id) {
                renders[id]
            } else {
                RenderModel {
                    element_id: id,
                    state: listener_state(
                        state_after(
                            stretch.updates,
                            id,
                            objects[first_of(objects, id)].initial_state,
                            stretch.offset,
                        ),
                    ),
                    samples: silence(stretch.requested),
                }
            };
            if last_of(objects, id) < 0 {
                &&& after.contains_key(id) == renders.contains_key(id)
                &&& after.contains_key(id) ==> after[id] == renders[id]
            } else {
                &&& after.contains_key(id)
                &&& after[id] == (RenderModel {
                    samples: overwritten(
                        base.samples,
                        stretch.at,
                        objects[last_of(objects, id)].samples@.subrange(
                            stretch.offset as int,
                            stretch.offset + stretch.take,
                        ),
                    ),
                    ..base
                })
            }
        }),
    decreases objects.len(),
{
    if objects.len() > 0 {
        let rest = objects.drop_last();
        assert forall|i: int| 0 <= i < rest.len() implies stretch.offset + stretch.take <= (
        #[trigger] rest[i]).samples@.len() by {
            assert(rest[i] == objects[i]);
        }
        lemma_with_objects(renders, stretch, rest, id);
        lemma_places(rest, id);
        lemma_places(objects, id);
        let middle = with_objects(renders, stretch, rest);
        let after = with_objects(renders, stretch, objects);
        let last = objects.last();
        if last.element_id == id {
            let piece = last.samples@.subrange(
                stretch.offset as int,
                stretch.offset + stretch.take,
            );
            if last_of(rest, id) >= 0 {
                let earlier = rest[last_of(rest, id)].samples@.subrange(
                    stretch.offset as int,
                    stretch.offset + stretch.take,
                );
                let base = if renders.contains_key(id) {
                    renders[id].samples
                } else {
                    silence(stretch.requested)
                };
                assert(overwritten(overwritten(base, stretch.at, earlier), stretch.at, piece)
                    =~= overwritten(base, stretch.at, piece));
                assert(objects[first_of(objects, id)] == rest[first_of(rest, id)]);
            }
        } else {
            if last_of(rest, id) >= 0 {
                assert(objects[last_of(objects, id)] == rest[last_of(rest, id)]);
                assert(objects[first_of(objects, id)] == rest[first_of(rest, id)]);
            }
        }
    }
}

/// Block `k` plays in the frames behind the blocks before it.
proof fn lemma_live(
    blocks: Seq<DecodedSceneBlock>,
    t0: int,
    k: int,
    from: int,
    to: int,
)
    requires
        0 <= k < blocks.len(),
        0 <= from <= to,
        forall|j: int| 0 <= j < k ==> (#[trigger] blocks[j]).end() <= t0 + from,
        blocks[k].start_frame <= t0 + from,
        t0 + to <= blocks[k].end(),
    ensures
        forall|i: int|
            from <= i < to ==> #[trigger] audible(blocks, t0, i) && first_live(blocks, t0 + i) == k,
{
    assert forall|i: int| from <= i < to implies #[trigger] audible(blocks, t0, i) && first_live(
        blocks,
        t0 + i,
    ) == k by {
        lemma_first_live_is(blocks, t0 + i, k);
    }
}

/// A quantum with one more stretch of block `k`.
proof fn lemma_copy_step(
    renders: Map<u64, RenderModel>,
    blocks: Seq<DecodedSceneBlock>,
    t0: int,
    k: int,
    written: int,
    take: int,
    requested: nat,
    ids: Seq<u64>,
    stretch: Stretch,
)
    requires
        renders_play(renders, blocks, t0, written, requested, ids),
        0 <= k < blocks.len(),
        0 <= written,
        0 < take,
        written + take <= requested,
        forall|j: int| 0 <= j < k ==> (#[trigger] blocks[j]).end() <= t0 + written,
        planes_fit(blocks[k]),
        ids == ascending(element_ids(blocks[k].objects@)),
        stretch == (Stretch {
            updates: blocks[k].metadata_updates@,
            offset: stretch.offset,
            at: written,
            take,
            requested,
        }),
        blocks[k].start_frame + stretch.offset == t0 + written,
        stretch.offset + take <= blocks[k].duration_frames,
    ensures
        renders_play(
            with_objects(renders, stretch, blocks[k].objects@),
            blocks,
            t0,
            written + take,
            requested,
            ids,
        ),
{
    let block = blocks[k];
    let objects = block.objects@;
    let after = with_objects(renders, stretch, objects);
    lemma_live(blocks, t0, k, written, written + take);
    lemma_ascending(element_ids(objects));
    assert(audible(blocks, t0, written));
    assert(sounded(blocks, t0, written + take));
    assert forall|id: u64| #[trigger] after.contains_key(id) <==> ids.contains(id) by {
        lemma_with_objects(renders, stretch, objects, id);
        lemma_places(objects, id);
        if last_of(objects, id) >= 0 {
            assert(element_ids(objects)[last_of(objects, id)] == id);
        }
        if ids.contains(id) {
            let i = choose|i: int| 0 <= i < element_ids(objects).len() && element_ids(objects)[i] == id;
            assert(objects[i].element_id == id);
        }
    }
    assert forall|id: u64| #[trigger] after.contains_key(id) implies after[id].element_id == id
        && object_plays(after[id], blocks, t0, written + take, requested) by {
        lemma_with_objects(renders, stretch, objects, id);
        lemma_places(objects, id);
        let i0 = choose|i: int| 0 <= i < element_ids(objects).len() && element_ids(objects)[i] == id;
        assert(objects[i0].element_id == id);
        let render = after[id];
        let piece = objects[last_of(objects, id)].samples@.subrange(
            stretch.offset as int,
            stretch.offset + take,
        );
        assert forall|i: int| 0 <= i < requested implies #[trigger] render.samples[i] == (if i
            < written + take {
            heard(blocks, id, t0 + i)
        } else {
            0
        }) by {
            if written <= i < written + take {
                assert(audible(blocks, t0, i));
                assert(render.samples[i] == piece[i - written]);
            } else if renders.contains_key(id) {
                assert(render.samples[i] == renders[id].samples[i]);
            } else if i < written {
                assert(!sounded(blocks, t0, written));
                assert(!audible(blocks, t0, i));
            }
        }
        assert forall|i: int|
            0 <= i < written + take && #[trigger] is_onset(blocks, t0, i) implies render.state
            == onset_state(blocks, t0, i, id) by {
            assert(audible(blocks, t0, i));
            if renders.contains_key(id) {
                let first = choose|j: int| 0 <= j < written && #[trigger] audible(blocks, t0, j);
                assert(i < written);
                assert(renders[id].state == onset_state(blocks, t0, i, id));
            } else {
                assert(!sounded(blocks, t0, written));
                assert(i >= written);
                assert(i == written);
            }
        }
    }
}

proof fn lemma_lfe_copy_step(
    before: LfeQuantumAccumulator,
    after: LfeQuantumAccumulator,
    blocks: Seq<DecodedSceneBlock>,
    t0: int,
    k: int,
    written: int,
    take: int,
    requested: nat,
    stretch: Stretch,
)
    requires
        lfe_fills(before, blocks, t0, written, requested),
        0 <= k < blocks.len(),
        0 <= written,
        0 < take,
        written + take <= requested,
        forall|j: int| 0 <= j < k ==> (#[trigger] blocks[j]).end() <= t0 + written,
        planes_fit(blocks[k]),
        blocks[k].lfe is Some,
        stretch.updates == blocks[k].metadata_updates@,
        stretch.at == written,
        stretch.take == take,
        blocks[k].start_frame + stretch.offset == t0 + written,
        stretch.offset + take <= blocks[k].duration_frames,
        lfe_written(before, after, blocks[k].lfe->0, stretch),
    ensures
        lfe_fills(after, blocks, t0, written + take, requested),
{
    lemma_live(blocks, t0, k, written, written + take);
    assert(audible(blocks, t0, written));
    assert(sounded(blocks, t0, written + take));
    let bed = blocks[k].lfe->0;
    let piece = bed.samples@.subrange(stretch.offset as int, stretch.offset + take);
    let render = after.render;
    assert forall|i: int| 0 <= i < requested implies #[trigger] render.samples@[i] == (if i
        < written + take {
        heard_lfe(blocks, t0 + i)
    } else {
        0
    }) by {
        if written <= i < written + take {
            assert(audible(blocks, t0, i));
            assert(render.samples@[i] == piece[i - written]);
        } else {
            assert(render.samples@[i] == before.render.samples@[i]);
        }
    }
    assert forall|i: int| 0 <= i < written + take && #[trigger] is_onset(blocks, t0, i) implies (
        render.active,
        render.gain,
    ) == onset_lfe_state(blocks, t0, i) by {
        assert(audible(blocks, t0, i));
        if before.state_initialized {
            let first = choose|j: int| 0 <= j < written && #[trigger] audible(blocks, t0, j);
            assert(i < written);
        } else {
            assert(!sounded(blocks, t0, written));
            assert(i == written);
        }
    }
}

/// Which slots are marked does not change over a stretch that contributes no
/// audio, and block `k` alone decides over its own.
pub(crate) proof fn lemma_jump_step(
    blocks: Seq<DecodedSceneBlock>,
    t0: int,
    k: int,
    limit: int,
    next: int,
    id: u64,
)
    requires
        0 <= k < blocks.len(),
        t0 <= limit <= next,
        reach(blocks, t0, k) <= limit,
        limit < blocks[k].start_frame ==> next <= blocks[k].start_frame,
        limit >= blocks[k].start_frame ==> next <= blocks[k].end(),
    ensures
        jumped_before(blocks, t0, next, id) == (jumped_before(blocks, t0, limit, id) || jumped_in(
            blocks,
            t0,
            next,
            id,
            k,
        )),
        limit < blocks[k].start_frame ==> !jumped_in(blocks, t0, next, id, k),
{
    lemma_reach(blocks, t0, k);
    assert forall|j: int| 0 <= j < blocks.len() && j != k implies jumped_in(
        blocks,
        t0,
        next,
        id,
        j,
    ) == #[trigger] jumped_in(blocks, t0, limit, id, j) by {
        if j < k {
            assert(blocks[j].end() <= limit);
            assert(segment(blocks, t0, limit, j).1 == segment(blocks, t0, next, j).1);
        } else {
            lemma_reach(blocks, t0, j);
            assert(blocks[k].end() <= reach(blocks, t0, j));
        }
    }
    if jumped_before(blocks, t0, next, id) {
        let j = choose|j: int|
            0 <= j < blocks.len() && #[trigger] jumped_in(blocks, t0, next, id, j);
        if j != k {
            assert(jumped_in(blocks, t0, limit, id, j));
        }
    }
    if jumped_before(blocks, t0, limit, id) {
        let j = choose|j: int|
            0 <= j < blocks.len() && #[trigger] jumped_in(blocks, t0, limit, id, j);
        if j == k {
            assert(segment(blocks, t0, limit, k).0 >= segment(blocks, t0, limit, k).1 || limit
                > blocks[k].start_frame + segment(blocks, t0, limit, k).0);
        }
        if j != k {
            assert(jumped_in(blocks, t0, next, id, j));
        }
    }
}

/// The render source of one stream.
#[derive(Debug)]
pub struct SceneRenderSource {
    pub consumer: SceneConsumer,
}

/// A quantum of `requested` frames from `t0` on, rendered from `blocks`.
pub open spec fn quantum_plays(
    quantum: RenderQuantum,
    blocks: Seq<DecodedSceneBlock>,
    t0: int,
    requested: nat,
    ids: Seq<u64>,
    has_lfe: bool,
) -> bool {
    let written = quantum.frames_written as int;
    // As many frames as the blocks reach, and no more than were asked for.
    &&& written <= requested
    &&& written == requested || reach(blocks, t0, blocks.len() as int) == t0 + written
    &&& written < requested ==> forall|j: int|
        0 <= j < blocks.len() ==> (#[trigger] blocks[j]).end() <= t0 + written
    // Every element of the scene, in ascending order, once anything sounds.
    &&& forall|a: int, b: int|
        0 <= a < b < quantum.objects@.len() ==> (#[trigger] quantum.objects@[a]).element_id < (
        #[trigger] quantum.objects@[b]).element_id
    &&& forall|a: int|
        0 <= a < quantum.objects@.len() ==> ids.contains(
            (#[trigger] quantum.objects@[a]).element_id,
        ) && object_plays(quantum.objects@[a]@, blocks, t0, written, requested)
    &&& quantum.objects@.len() > 0 ==> sounded(blocks, t0, written)
    &&& sounded(blocks, t0, written) ==> forall|id: u64| #[trigger]
        ids.contains(id) ==> exists|a: int|
            0 <= a < quantum.objects@.len() && (#[trigger] quantum.objects@[a]).element_id == id
    &&& quantum.lfe is Some == has_lfe
    &&& quantum.lfe is Some ==> lfe_plays(quantum.lfe->0, blocks, t0, written, requested)
}

/// The picture of a quantum: each of its objects, marked where it was placed
/// outright.
pub open spec fn view_of(
    view: ObjectView,
    render: RenderModel,
    blocks: Seq<DecodedSceneBlock>,
    t0: int,
    limit: int,
    ids: Seq<u64>,
    slot: int,
) -> bool {
    &&& view.element_id == render.element_id
    &&& (view.active, view.position, view.gain) == render.state
    &&& view.jumped == (slot < MAX_VIEW_OBJECTS && slot_jumped(blocks, t0, limit, ids, slot))
}

impl SceneRenderSource {
    pub fn new(
        reader: SceneQueueReader,
        sample_rate: u32,
        dynamic_object_count: u32,
        has_lfe: bool,
        scene_signature: SceneSignature,
        start_frame: u64,
    ) -> (r: Self)
        requires
            scene_signature@.wf(),
        ensures
            r.wf(),
            r.consumer == (SceneConsumer {
                reader,
                sample_rate,
                dynamic_object_count,
                has_lfe,
                scene_signature,
                timeline_frame: timeline_position(start_frame),
                current: None,
            }),
    {
        SceneRenderSource {
            consumer: SceneConsumer::new(
                reader,
                sample_rate,
                dynamic_object_count,
                has_lfe,
                scene_signature,
                start_frame,
            ),
        }
    }

    /// The cursor stands in a block of this scene that is not over, at the timeline or
    /// ahead of it.
    pub open spec fn wf(&self) -> bool {
        &&& self.consumer.timeline_frame >= 0
        &&& self.consumer.scene_signature@.wf()
        &&& self.consumer.current is Some ==> {
            let cursor = self.consumer.current->0;
            let place = cursor.block.start_frame + cursor.offset_frames;
            &&& self.consumer.turns_away(cursor.block) is None
            &&& planes_fit(cursor.block)
            &&& cursor.offset_frames < cursor.block.duration_frames
                || cursor.block.duration_frames == cursor.offset_frames == 0
            &&& place >= self.consumer.timeline_frame
            &&& cursor.offset_frames > 0 ==> place == self.consumer.timeline_frame
        }
    }

    /// What is still to be played: the block at hand, then the queue.
    pub open spec fn pending(&self, queue: &SceneQueue) -> Seq<DecodedSceneBlock> {
        match self.consumer.current {
            Some(cursor) => seq![cursor.block] + self.consumer.bound(queue),
            None => self.consumer.bound(queue),
        }
    }

    /// How far the block at hand carries the timeline.
    pub open spec fn reached(&self) -> int {
        match self.consumer.current {
            Some(cursor) => cursor.block.end(),
            None => self.consumer.timeline_frame as int,
        }
    }

    /// Why the next `frames` frames cannot be rendered, if they cannot.
    pub open spec fn trouble(&self, queue: &SceneQueue, frames: u32) -> Option<Seq<char>> {
        self.consumer.trouble(
            self.consumer.bound(queue),
            self.reached(),
            self.consumer.timeline_frame + frames,
        )
    }

    /// Takes the next block that is not over, if there is one. The number that comes
    /// along is that of the blocks which are used up.
    fn enter(
        &mut self,
        queue: &mut SceneQueue,
        Ghost(course): Ghost<Course>,
        Ghost(done): Ghost<int>,
    ) -> (r: (Result<bool, String>, Ghost<int>))
        requires
            old(self).wf(),
            old(queue).wf(),
            old(self).consumer.current is None,
            old(self).consumer.same_setup(&course.setup),
            old(self).consumer.timeline_frame < course.limit,
            0 <= done <= course.blocks.len(),
            old(self).pending(old(queue)) == course.blocks.skip(done),
            reach(course.blocks, course.t0, done) == old(self).consumer.timeline_frame,
            course.t0 == course.setup.timeline_frame,
            course.is_clear(done),
            course.trouble == course.setup.trouble(
                old(self).consumer.bound(old(queue)),
                old(self).reached(),
                course.limit,
            ),
        ensures
            final(self).wf(),
            final(queue).wf(),
            final(queue).is_drawn_by(old(queue), course.setup.reader.key),
            final(self).consumer.same_setup(&course.setup),
            final(self).consumer.timeline_frame == old(self).consumer.timeline_frame,
            match r.0 {
                Err(message) => {
                    &&& final(self).consumer.current is None
                    &&& course.trouble == Some(message@)
                    &&& stands_before_refused(
                        course.setup,
                        course.blocks,
                        message@,
                        final(self).consumer.timeline_frame as int,
                        final(self).pending(final(queue)),
                    )
                },
                Ok(entered) => {
                    &&& done <= r.1@ <= course.blocks.len()
                    &&& entered == (final(self).consumer.current is Some)
                    &&& entered == (r.1@ < course.blocks.len())
                    &&& final(self).pending(final(queue)) == course.blocks.skip(r.1@)
                    &&& reach(course.blocks, course.t0, r.1@)
                        == final(self).consumer.timeline_frame
                    &&& course.is_clear(r.1@)
                    &&& course.trouble == course.setup.trouble(
                        final(self).consumer.bound(final(queue)),
                        final(self).reached(),
                        course.limit,
                    )
                    &&& entered ==> segment(course.blocks, course.t0, course.limit, r.1@).0
                        == final(self).consumer.current->0.offset_frames
                },
            },
    {
        let ghost before = self.consumer;
        let ghost waiting = self.consumer.bound(queue);
        let ghost t = self.consumer.timeline_frame as int;
        let ghost mut place = done;
        proof {
            reveal(Course::is_clear);
            lemma_same_trouble(before, course.setup, waiting, t, course.limit);
        }
        let r = self.consumer.load_next_block(queue);
        proof {
            assert(before.trouble(waiting, t, course.limit) == course.trouble);
            match &r {
                Err(message) => {
                    let k = choose|k: int| #[trigger]
                        refused_at(before, waiting, self.consumer.bound(queue), k, message@);
                    course.lemma_passed(before, waiting, done, k);
                    assert(waiting[k] == course.blocks[done + k]);
                    assert(self.pending(queue) =~= course.blocks.skip(done + k + 1));
                    assert(stands_at_refused(
                        course.setup,
                        course.blocks,
                        done + k,
                        message@,
                        t,
                        self.pending(queue),
                    ));
                },
                Ok(false) => {
                    course.lemma_passed(before, waiting, done, waiting.len() as int);
                    place = course.blocks.len() as int;
                    assert(self.pending(queue) =~= course.blocks.skip(place));
                },
                Ok(true) => {
                    let k = choose|k: int| #[trigger]
                        loaded_at(before, self.consumer, waiting, self.consumer.bound(queue), k);
                    course.lemma_passed(before, waiting, done, k);
                    place = done + k;
                    lemma_same_trouble(
                        before,
                        course.setup,
                        self.consumer.bound(queue),
                        waiting[k].end(),
                        course.limit,
                    );
                    assert(waiting[k] == course.blocks[place]);
                    assert(self.pending(queue) =~= course.blocks.skip(place));
                    assert(before.trouble(waiting, t, course.limit) == before.trouble(
                        self.consumer.bound(queue),
                        waiting[k].end(),
                        course.limit,
                    ));
                },
            }
        }
        (r, Ghost(place))
    }

    /// Renders the next `frame_count` frames and mirrors the scene they show.
    /// The positions are in world coordinates; turning them into the listener's
    /// head space is left to whoever submits the quantum.
    #[verifier::rlimit(60)]
    pub fn render_quantum(
        &mut self,
        queue: &mut SceneQueue,
        mirror: &mut SceneViewMirror,
        frame_count: u32,
    ) -> (r: Result<RenderQuantum, String>)
        requires
            old(self).wf(),
            old(queue).wf(),
        ensures
            final(self).wf(),
            final(queue).wf(),
            final(queue).is_drawn_by(old(queue), old(self).consumer.reader.key),
            final(self).consumer.same_setup(&old(self).consumer),
            match old(self).trouble(old(queue), frame_count) {
                Some(message) => {
                    &&& r is Err
                    &&& r->Err_0@ == message
                    &&& *final(mirror) == *old(mirror)
                    &&& final(self).consumer.current is None
                    // The timeline stands where the block that was turned away comes in.
                    &&& stands_before_refused(
                        old(self).consumer,
                        old(self).pending(old(queue)),
                        message,
                        final(self).consumer.timeline_frame as int,
                        final(self).pending(final(queue)),
                    )
                },
                None => r is Ok && {
                    let blocks = old(self).pending(old(queue));
                    let t0 = old(self).consumer.timeline_frame as int;
                    let quantum = r->Ok_0;
                    let ids = old(self).consumer.scene_signature@.object_element_ids;
                    &&& quantum_plays(
                        quantum,
                        blocks,
                        t0,
                        frame_count as nat,
                        ids,
                        old(self).consumer.has_lfe,
                    )
                    &&& final(self).consumer.timeline_frame == t0 + quantum.frames_written
                    // What is left is what was there, less blocks that are over.
                    &&& final(self).pending(final(queue)).len() <= blocks.len()
                    &&& final(self).pending(final(queue)) == blocks.skip(
                        blocks.len() - final(self).pending(final(queue)).len(),
                    )
                    &&& forall|j: int|
                        0 <= j < blocks.len() - final(self).pending(final(queue)).len() ==> (
                        #[trigger] blocks[j]).end() <= final(self).consumer.timeline_frame
                    &&& quantum.end_of_stream == (final(self).consumer.current is None && final(queue).ended(old(self).consumer.reader.key))
                    &&& quantum.underrun == (quantum.frames_written < frame_count && !final(queue).ended(old(self).consumer.reader.key))
                    &&& exists|views: Seq<ObjectView>|
                        {
                            &&& #[trigger] final(mirror).shows(
                                old(self).consumer.reader.key,
                                views,
                                final(self).consumer.timeline_frame,
                                old(self).consumer.sample_rate,
                            )
                            &&& views.len() == quantum.objects@.len()
                            &&& forall|a: int|
                                0 <= a < views.len() ==> view_of(
                                    #[trigger] views[a],
                                    quantum.objects@[a]@,
                                    blocks,
                                    t0,
                                    t0 + quantum.frames_written,
                                    ids,
                                    a,
                                )
                        }
                },
            },
    {
        let requested: usize = frame_count as usize;
        let ghost blocks = self.pending(queue);
        let ghost t0 = self.consumer.timeline_frame as int;
        let ghost ids = self.consumer.scene_signature@.object_element_ids;
        let ghost setup = self.consumer;
        let ghost limit = t0 + frame_count;
        let ghost found = self.trouble(queue, frame_count);
        let ghost course = Course { blocks, t0, limit, setup, trouble: found };
        let mut renders: BTreeMap<u64, DynamicObjectRender> = BTreeMap::new();
        let mut jumped: Vec<bool> = Vec::new();
        while jumped.len() < MAX_VIEW_OBJECTS
            invariant
                jumped@.len() <= MAX_VIEW_OBJECTS,
                forall|i: int| 0 <= i < jumped@.len() ==> !jumped@[i],
            decreases MAX_VIEW_OBJECTS - jumped.len(),
        {
            jumped.push(false);
        }
        let mut lfe = if self.consumer.has_lfe {
            Some(LfeQuantumAccumulator::new(requested))
        } else {
            None
        };
        let mut written: usize = 0;
        let mut starved = false;
        let ghost mut done: int = 0;
        assert(blocks.skip(0) =~= blocks);
        assert(course.is_clear(0)) by {
            reveal(Course::is_clear);
        }
        assert(!sounded(blocks, t0, 0));
        assert(models(renders@) =~= Map::empty());
        assert forall|slot: int| 0 <= slot < MAX_VIEW_OBJECTS implies #[trigger] jumped@[slot]
            == slot_jumped(blocks, t0, t0, ids, slot) by {
            lemma_nothing_jumped(blocks, t0, ids[slot]);
        }
        while written < requested && !starved
            invariant
                requested == frame_count,
                written <= requested,
                limit == t0 + frame_count,
                self.wf(),
                queue.wf(),
                queue.is_drawn_by(old(queue), setup.reader.key),
                *mirror == *old(mirror),
                course == (Course { blocks, t0, limit, setup, trouble: found }),
                blocks == old(self).pending(old(queue)),
                t0 == old(self).consumer.timeline_frame,
                course.is_clear(done),
                setup == old(self).consumer,
                found == old(self).trouble(old(queue), frame_count),
                self.consumer.same_setup(&setup),
                ids == setup.scene_signature@.object_element_ids,
                self.consumer.timeline_frame == t0 + written,
                0 <= done <= blocks.len(),
                self.pending(queue) == blocks.skip(done),
                reach(blocks, t0, done) <= t0 + written,
                self.consumer.current is None ==> reach(blocks, t0, done) == t0 + written,
                self.consumer.current is Some && written < requested ==> segment(
                    blocks,
                    t0,
                    limit,
                    done,
                ).0 == self.consumer.current->0.offset_frames,
                found == setup.trouble(self.consumer.bound(queue), self.reached(), limit),
                renders_play(models(renders@), blocks, t0, written as int, requested as nat, ids),
                lfe is Some == setup.has_lfe,
                lfe is Some ==> lfe_fills(lfe->0, blocks, t0, written as int, requested as nat),
                jumped@.len() == MAX_VIEW_OBJECTS,
                forall|slot: int|
                    0 <= slot < MAX_VIEW_OBJECTS ==> #[trigger] jumped@[slot] == slot_jumped(
                        blocks,
                        t0,
                        t0 + written,
                        ids,
                        slot,
                    ),
                starved ==> written < requested && self.consumer.current is None
                    && self.consumer.bound(queue).len() == 0,
            decreases requested - written, (if starved { 0int } else { 1int }), self.pending(queue).len(),
        {
            proof {
                lemma_reach(blocks, t0, done);
            }
            if self.consumer.current.is_none() {
                let (entered, Ghost(place)) = self.enter(queue, Ghost(course), Ghost(done));
                proof {
                    done = place;
                }
                match entered {
                    Err(message) => {
                        return Err(message);
                    },
                    Ok(false) => {
                        starved = true;
                        continue ;
                    },
                    Ok(true) => {},
                }
            }
            let ghost ahead = self.pending(queue);
            let mut cursor = match self.consumer.current.take() {
                Some(cursor) => cursor,
                None => {
                    return Err("Scene block position overflow".to_owned());
                },
            };
            proof {
                lemma_reach(blocks, t0, done);
                assert(blocks[done] == blocks.skip(done)[0]);
                assert(cursor.block == blocks[done]);
                assert(ahead == seq![cursor.block] + self.consumer.bound(queue));
                assert forall|j: int| 0 <= j < self.consumer.bound(queue).len() implies (
                #[trigger] self.consumer.bound(queue)[j]) == blocks[done + 1 + j] by {
                    assert(ahead[j + 1] == blocks.skip(done)[j + 1]);
                }
                assert(ahead.len() == blocks.len() - done);
                a_block_that_passes_has_the_expected_identity(
                    cursor.block,
                    setup.sample_rate,
                    setup.dynamic_object_count,
                    setup.has_lfe,
                    setup.scene_signature@,
                );
            }
            let place: i64 = cursor.block.start_frame + cursor.offset_frames as i64;
            let room: usize = requested - written;
            if place > self.consumer.timeline_frame {
                let gap: u64 = (place - self.consumer.timeline_frame) as u64;
                let available: usize = if gap < room as u64 {
                    gap as usize
                } else {
                    room
                };
                proof {
                    let to = written + available;
                    lemma_gap_step(
                        models(renders@),
                        blocks,
                        t0,
                        done,
                        written as int,
                        to,
                        requested as nat,
                        ids,
                    );
                    if lfe is Some {
                        lemma_lfe_gap_step(
                            lfe->0,
                            blocks,
                            t0,
                            done,
                            written as int,
                            to,
                            requested as nat,
                        );
                    }
                    assert forall|slot: int| 0 <= slot < MAX_VIEW_OBJECTS implies #[trigger] jumped@[slot]
                        == slot_jumped(blocks, t0, t0 + to, ids, slot) by {
                        lemma_jump_step(
                            blocks,
                            t0,
                            done,
                            t0 + written,
                            t0 + to,
                            ids[slot],
                        );
                    }
                }
                self.consumer.timeline_frame = self.consumer.timeline_frame + available as i64;
                written = written + available;
                self.consumer.current = Some(cursor);
                continue ;
            }
            let left: u32 = cursor.block.duration_frames - cursor.offset_frames;
            let take: u32 = if (left as usize) < room {
                left
            } else {
                room as u32
            };
            if take == 0 {
                proof {
                    course.lemma_clear_step(done);
                    done = done + 1;
                    assert(self.pending(queue) =~= blocks.skip(done));
                }
                continue ;
            }
            let ghost stretch = Stretch {
                updates: cursor.block.metadata_updates@,
                offset: cursor.offset_frames,
                at: written as int,
                take: take as int,
                requested: requested as nat,
            };
            let ghost renders_before = models(renders@);
            let ghost lfe_before = lfe;
            let ghost flags = jumped@;
            assert forall|id: u64| #[trigger] renders@.contains_key(id) implies renders@[id].samples@.len()
                == requested by {
                assert(models(renders@).contains_key(id));
            }
            copy_object_pcm(
                &cursor,
                written,
                take,
                requested,
                self.consumer.scene_signature.object_element_ids(),
                &mut renders,
                &mut jumped,
            );
            copy_lfe_pcm(&cursor, written, take, &mut lfe);
            proof {
                lemma_copy_step(
                    renders_before,
                    blocks,
                    t0,
                    done,
                    written as int,
                    take as int,
                    requested as nat,
                    ids,
                    stretch,
                );
                if lfe is Some {
                    lemma_lfe_copy_step(
                        lfe_before->0,
                        lfe->0,
                        blocks,
                        t0,
                        done,
                        written as int,
                        take as int,
                        requested as nat,
                        (Stretch { requested: 0, ..stretch }),
                    );
                }
                lemma_ascending(element_ids(cursor.block.objects@));
                assert forall|slot: int| 0 <= slot < MAX_VIEW_OBJECTS implies #[trigger] jumped@[slot]
                    == slot_jumped(blocks, t0, t0 + written + take, ids, slot) by {
                    lemma_jump_step(
                        blocks,
                        t0,
                        done,
                        t0 + written,
                        t0 + written + take,
                        ids[slot],
                    );
                    lemma_slot_marked(
                        cursor.block.objects@,
                        ids,
                        slot,
                        cursor.block.metadata_updates@,
                        cursor.offset_frames,
                        (cursor.offset_frames + take) as u32,
                    );
                    assert(segment(blocks, t0, t0 + written + take, done) == (
                        cursor.offset_frames as int,
                        cursor.offset_frames + take,
                    ));
                }
            }
            cursor.offset_frames = cursor.offset_frames + take;
            self.consumer.timeline_frame = self.consumer.timeline_frame + take as i64;
            written = written + take as usize;
            if cursor.offset_frames != cursor.block.duration_frames {
                self.consumer.current = Some(cursor);
            } else {
                proof {
                    course.lemma_clear_step(done);
                    done = done + 1;
                    assert(self.pending(queue) =~= blocks.skip(done));
                }
            }
        }
        proof {
            lemma_reach(blocks, t0, done);
            if written < requested {
                lemma_reach(blocks, t0, blocks.len() as int);
                assert(blocks.skip(done).len() == 0);
            }
        }
        let ended = self.consumer.reader.is_end_of_stream(queue);
        let end_of_stream = self.consumer.current.is_none() && ended;
        let (objects, views) = collect_objects(
            renders,
            self.consumer.scene_signature.object_element_ids(),
            &jumped,
        );
        let ghost shown = views@;
        mirror.write(
            self.consumer.reader.key,
            views,
            self.consumer.timeline_frame,
            self.consumer.sample_rate,
        );
        let bed = match lfe {
            Some(lfe) => Some(lfe.finish()),
            None => None,
        };
        let quantum = RenderQuantum {
            objects,
            lfe: bed,
            frames_written: written as u32,
            end_of_stream,
            underrun: starved && !ended,
        };
        assert forall|a: int| 0 <= a < shown.len() implies view_of(
            #[trigger] shown[a],
            quantum.objects@[a]@,
            blocks,
            t0,
            t0 + quantum.frames_written,
            ids,
            a,
        ) by {
            if a < MAX_VIEW_OBJECTS {
                assert(jumped@[a] == slot_jumped(blocks, t0, t0 + written, ids, a));
            }
        }
        assert(quantum_plays(quantum, blocks, t0, frame_count as nat, ids, setup.has_lfe)) by {
            assert(sounded(blocks, t0, written as int) ==> forall|id: u64| #[trigger]
                ids.contains(id) ==> models(renders@).contains_key(id));
            if quantum.objects@.len() > 0 {
                assert(models(renders@).contains_key(quantum.objects@[0].element_id));
            }
        }
        assert(found is None);
        assert(self.pending(queue) == blocks.skip(
            blocks.len() - self.pending(queue).len(),
        ));
        assert(mirror.shows(
            setup.reader.key,
            shown,
            self.consumer.timeline_frame,
            setup.sample_rate,
        ));
        Ok(quantum)
    }
}

/// Lists the objects of a quantum in ascending order, and their views.
fn collect_objects(
    renders: BTreeMap<u64, DynamicObjectRender>,
    ids: &[u64],
    jumped: &Vec<bool>,
) -> (r: (Vec<DynamicObjectRender>, Vec<ObjectView>))
    requires
        jumped@.len() == MAX_VIEW_OBJECTS,
        forall|i: int, j: int| 0 <= i < j < ids@.len() ==> ids@[i] <= ids@[j],
        forall|id: u64| #[trigger] models(renders@).contains_key(id) ==> ids@.contains(id),
        forall|id: u64| #[trigger]
            models(renders@).contains_key(id) ==> models(renders@)[id].element_id == id,
    ensures
        forall|a: int, b: int|
            0 <= a < b < r.0@.len() ==> (#[trigger] r.0@[a]).element_id < (
            #[trigger] r.0@[b]).element_id,
        forall|a: int|
            0 <= a < r.0@.len() ==> models(renders@).contains_key((#[trigger] r.0@[a]).element_id)
                && r.0@[a]@ == models(renders@)[r.0@[a].element_id],
        forall|id: u64| #[trigger]
            models(renders@).contains_key(id) ==> exists|a: int|
                0 <= a < r.0@.len() && (#[trigger] r.0@[a]).element_id == id,
        r.1@.len() == r.0@.len(),
        forall|a: int|
            0 <= a < r.1@.len() ==> {
                let view = #[trigger] r.1@[a];
                &&& view.element_id == r.0@[a].element_id
                &&& (view.active, view.position, view.gain) == r.0@[a]@.state
                &&& view.jumped == (a < MAX_VIEW_OBJECTS && jumped@[a])
            },
{
    let ghost all = models(renders@);
    let mut renders = renders;
    let mut objects: Vec<DynamicObjectRender> = Vec::new();
    let mut views: Vec<ObjectView> = Vec::new();
    let mut index: usize = 0;
    proof {
        reveal(listed);
        reveal(present);
    }
    while index < ids.len()
        invariant
            index <= ids@.len(),
            jumped@.len() == MAX_VIEW_OBJECTS,
            forall|i: int, j: int| 0 <= i < j < ids@.len() ==> ids@[i] <= ids@[j],
            forall|id: u64| #[trigger] all.contains_key(id) ==> all[id].element_id == id,
            forall|id: u64| #[trigger]
                renders@.contains_key(id) <==> all.contains_key(id) && !listed(
                    ids@,
                    index as int,
                    id,
                ),
            forall|id: u64| #[trigger] renders@.contains_key(id) ==> renders@[id]@ == all[id],
            forall|a: int, b: int|
                0 <= a < b < objects@.len() ==> (#[trigger] objects@[a]).element_id < (
                #[trigger] objects@[b]).element_id,
            forall|a: int|
                0 <= a < objects@.len() ==> all.contains_key((#[trigger] objects@[a]).element_id)
                    && objects@[a]@ == all[objects@[a].element_id] && listed(
                    ids@,
                    index as int,
                    objects@[a].element_id,
                ),
            forall|id: u64|
                #[trigger] listed(ids@, index as int, id) && all.contains_key(id) ==> present(
                    objects@,
                    id,
                ),
            views@.len() == objects@.len(),
            forall|a: int|
                0 <= a < views@.len() ==> {
                    let view = #[trigger] views@[a];
                    &&& view.element_id == objects@[a].element_id
                    &&& (view.active, view.position, view.gain) == objects@[a]@.state
                    &&& view.jumped == (a < MAX_VIEW_OBJECTS && jumped@[a])
                },
        decreases ids.len() - index,
    {
        let id: u64 = ids[index];
        let ghost earlier = objects@;
        let ghost held = renders@;
        proof {
            lemma_listed(ids@, index as int);
        }
        match renders.remove(&id) {
            Some(render) => {
                assert(held.contains_key(id));
                let slot: usize = objects.len();
                views.push(
                    ObjectView {
                        element_id: render.element_id,
                        active: render.active,
                        position: render.position.dup(),
                        gain: render.gain.dup(),
                        jumped: slot < MAX_VIEW_OBJECTS && jumped[slot],
                    },
                );
                objects.push(render);
                proof {
                    lemma_present(earlier, render);
                    assert forall|a: int| 0 <= a < earlier.len() implies (
                    #[trigger] objects@[a]).element_id < id by {
                        assert(objects@[a] == earlier[a]);
                        lemma_listed_below(ids@, index as int, earlier[a].element_id);
                    }
                    assert forall|a: int| 0 <= a < objects@.len() implies all.contains_key(
                        (#[trigger] objects@[a]).element_id,
                    ) && objects@[a]@ == all[objects@[a].element_id] && listed(
                        ids@,
                        index as int + 1,
                        objects@[a].element_id,
                    ) by {
                        if a < earlier.len() {
                            assert(objects@[a] == earlier[a]);
                        }
                    }
                }
            },
            None => {
                assert(!held.contains_key(id));
            },
        }
        index = index + 1;
    }
    proof {
        reveal(listed);
        reveal(present);
        assert forall|id: u64| #[trigger] all.contains_key(id) implies exists|a: int|
            0 <= a < objects@.len() && (#[trigger] objects@[a]).element_id == id by {
            assert(listed(ids@, ids@.len() as int, id));
            assert(present(objects@, id));
        }
    }
    (objects, views)
}

/// `id` is among the first `n` of `ids`.
#[verifier::opaque]
spec fn listed(ids: Seq<u64>, n: int, id: u64) -> bool {
    exists|j: int| 0 <= j < n && ids[j] == id
}

/// An object of this name is among `objects`.
#[verifier::opaque]
spec fn present(objects: Seq<DynamicObjectRender>, id: u64) -> bool {
    exists|a: int| 0 <= a < objects.len() && (#[trigger] objects[a]).element_id == id
}

proof fn lemma_listed(ids: Seq<u64>, n: int)
    requires
        0 <= n < ids.len(),
    ensures
        forall|id: u64| #[trigger]
            listed(ids, n + 1, id) <==> listed(ids, n, id) || ids[n] == id,
{
    reveal(listed);
    assert forall|id: u64| #[trigger]
        listed(ids, n + 1, id) <==> listed(ids, n, id) || ids[n] == id by {
        if listed(ids, n, id) {
            let j = choose|j: int| 0 <= j < n && ids[j] == id;
            assert(ids[j] == id && j < n + 1);
        }
    }
}

proof fn lemma_listed_below(ids: Seq<u64>, n: int, id: u64)
    requires
        0 <= n < ids.len(),
        forall|i: int, j: int| 0 <= i < j < ids.len() ==> ids[i] <= ids[j],
        listed(ids, n, id),
        !listed(ids, n, ids[n]),
    ensures
        id < ids[n],
{
    reveal(listed);
    let j = choose|j: int| 0 <= j < n && ids[j] == id;
    assert(ids[j] <= ids[n]);
}

proof fn lemma_present(objects: Seq<DynamicObjectRender>, render: DynamicObjectRender)
    ensures
        forall|id: u64| #[trigger]
            present(objects.push(render), id) <==> present(objects, id) || render.element_id == id,
{
    reveal(present);
    assert forall|id: u64| #[trigger]
        present(objects.push(render), id) <==> present(objects, id) || render.element_id
            == id by {
        let longer = objects.push(render);
        if present(objects, id) {
            let a = choose|a: int|
                0 <= a < objects.len() && (#[trigger] objects[a]).element_id == id;
            assert(longer[a].element_id == id);
        }
        if render.element_id == id {
            assert(longer[objects.len() as int].element_id == id);
        }
        if present(longer, id) {
            let a = choose|a: int|
                0 <= a < longer.len() && (#[trigger] longer[a]).element_id == id;
            if a < objects.len() {
                assert(objects[a].element_id == id);
            }
        }
    }
}

/// A consumer finds the same trouble as another that is set up as it is.
pub(crate) proof fn lemma_same_trouble(
    a: SceneConsumer,
    b: SceneConsumer,
    blocks: Seq<DecodedSceneBlock>,
    reached: int,
    limit: int,
)
    requires
        a.same_setup(&b),
    ensures
        a.trouble(blocks, reached, limit) == b.trouble(blocks, reached, limit),
    decreases blocks.len(),
{
    if blocks.len() > 0 && reached < limit && a.turns_away(blocks[0]) is None {
        lemma_same_trouble(
            a,
            b,
            blocks.drop_first(),
            if blocks[0].end() > reached {
                blocks[0].end()
            } else {
                reached
            },
            limit,
        );
    }
}

/// A slot is marked by the object that it stands for.
proof fn lemma_slot_marked(
    objects: Seq<SceneObjectPcm>,
    ids: Seq<u64>,
    slot: int,
    updates: Seq<SceneMetadataUpdate>,
    from: u32,
    to: u32,
)
    requires
        ids == ascending(element_ids(objects)),
        0 <= slot,
    ensures
        (exists|i: int|
            {
                &&& 0 <= i < objects.len()
                &&& slot_of(ids, (#[trigger] objects[i]).element_id) == slot
                &&& jumps_within(updates, objects[i].element_id, from, to)
            }) <==> slot < ids.len() && slot_of(ids, ids[slot]) == slot && jumps_within(
            updates,
            ids[slot],
            from,
            to,
        ),
{
    lemma_ascending(element_ids(objects));
    if exists|i: int|
        {
            &&& 0 <= i < objects.len()
            &&& slot_of(ids, (#[trigger] objects[i]).element_id) == slot
            &&& jumps_within(updates, objects[i].element_id, from, to)
        } {
        let i = choose|i: int|
            {
                &&& 0 <= i < objects.len()
                &&& slot_of(ids, (#[trigger] objects[i]).element_id) == slot
                &&& jumps_within(updates, objects[i].element_id, from, to)
            };
        ids.index_of_first_ensures(objects[i].element_id);
        assert(ids[slot] == objects[i].element_id);
    }
    if slot < ids.len() && slot_of(ids, ids[slot]) == slot && jumps_within(
        updates,
        ids[slot],
        from,
        to,
    ) {
        assert(ids.contains(ids[slot]));
        assert(element_ids(objects).contains(ids[slot]));
        let i = choose|i: int|
            0 <= i < element_ids(objects).len() && element_ids(objects)[i] == ids[slot];
        assert(objects[i].element_id == ids[slot]);
    }
}

pub(crate) proof fn lemma_nothing_jumped(blocks: Seq<DecodedSceneBlock>, t0: int, id: u64)
    ensures
        !jumped_before(blocks, t0, t0, id),
{
    assert forall|j: int| 0 <= j < blocks.len() implies !#[trigger] jumped_in(
        blocks,
        t0,
        t0,
        id,
        j,
    ) by {
        lemma_reach(blocks, t0, j);
    }
}

/// Each frame of a quantum that a block covers plays that block's own sample of the
/// object; frames that no block covers, and those behind the data, are silent.
pub proof fn a_quantum_plays_the_samples_of_its_blocks(
    quantum: RenderQuantum,
    blocks: Seq<DecodedSceneBlock>,
    t0: int,
    requested: nat,
    ids: Seq<u64>,
    has_lfe: bool,
    a: int,
    i: int,
    k: int,
    o: int,
)
    requires
        quantum_plays(quantum, blocks, t0, requested, ids, has_lfe),
        0 <= a < quantum.objects@.len(),
        0 <= i < requested,
    ensures
        quantum.objects@[a].samples@.len() == requested,
        i >= quantum.frames_written ==> quantum.objects@[a].samples@[i] == 0,
        i < quantum.frames_written && (forall|j: int|
            0 <= j < blocks.len() ==> !((#[trigger] blocks[j]).start_frame <= t0 + i
                < blocks[j].start_frame + blocks[j].duration_frames))
            ==> quantum.objects@[a].samples@[i] == 0,
        i < quantum.frames_written && 0 <= k < blocks.len() && (forall|j: int|
            0 <= j < k ==> (#[trigger] blocks[j]).start_frame + blocks[j].duration_frames <= t0 + i)
            && blocks[k].start_frame <= t0 + i < blocks[k].start_frame + blocks[k].duration_frames
            && 0 <= o < blocks[k].objects@.len() && blocks[k].objects@[o].element_id
            == quantum.objects@[a].element_id && (forall|n: int|
            0 <= n < blocks[k].objects@.len() && n != o ==> (
            #[trigger] blocks[k].objects@[n]).element_id != blocks[k].objects@[o].element_id)
            ==> quantum.objects@[a].samples@[i] == blocks[k].objects@[o].samples@[t0 + i
            - blocks[k].start_frame],
{
    let render = quantum.objects@[a]@;
    assert(object_plays(render, blocks, t0, quantum.frames_written as int, requested));
    assert(render.samples[i] == quantum.objects@[a].samples@[i]);
    if i < quantum.frames_written {
        if forall|j: int|
            0 <= j < blocks.len() ==> !((#[trigger] blocks[j]).start_frame <= t0 + i
                < blocks[j].start_frame + blocks[j].duration_frames) {
            super::playout::nothing_is_heard_between_blocks(blocks, t0 + i, render.element_id);
        }
        if 0 <= k < blocks.len() && (forall|j: int|
            0 <= j < k ==> (#[trigger] blocks[j]).start_frame + blocks[j].duration_frames <= t0 + i)
            && blocks[k].start_frame <= t0 + i < blocks[k].start_frame + blocks[k].duration_frames
            && 0 <= o < blocks[k].objects@.len() && blocks[k].objects@[o].element_id
            == quantum.objects@[a].element_id && (forall|n: int|
            0 <= n < blocks[k].objects@.len() && n != o ==> (
            #[trigger] blocks[k].objects@[n]).element_id != blocks[k].objects@[o].element_id) {
            super::playout::what_is_heard_is_what_the_covering_block_holds(blocks, t0 + i, k, o);
        }
    }
}

/// Where the first frame of a quantum lies in a block, each of its objects is heard as the
/// block's own state there asks: on where the metadata has it active and its meaning is
/// complete, and off where it has no place.
pub proof fn a_quantum_is_heard_as_its_first_block_asks(
    quantum: RenderQuantum,
    blocks: Seq<DecodedSceneBlock>,
    t0: int,
    requested: nat,
    ids: Seq<u64>,
    has_lfe: bool,
    a: int,
    o: int,
)
    requires
        quantum_plays(quantum, blocks, t0, requested, ids, has_lfe),
        quantum.frames_written > 0,
        0 <= a < quantum.objects@.len(),
        blocks.len() > 0,
        blocks[0].start_frame <= t0 < blocks[0].start_frame + blocks[0].duration_frames,
        0 <= o < blocks[0].objects@.len(),
        blocks[0].objects@[o].element_id == quantum.objects@[a].element_id,
        forall|n: int|
            0 <= n < blocks[0].objects@.len() && n != o ==> (
            #[trigger] blocks[0].objects@[n]).element_id != blocks[0].objects@[o].element_id,
    ensures
        ({
            let object = blocks[0].objects@[o];
            let state = state_after(
                blocks[0].metadata_updates@,
                object.element_id,
                object.initial_state,
                (t0 - blocks[0].start_frame) as u32,
            );
            let render = quantum.objects@[a];
            &&& state is Some && state->0.position is Some ==> {
                &&& render.active <==> state->0.metadata_active && state->0.semantic_complete
                &&& render.position.x == state->0.position->0.x.unit()
                &&& render.position.y == state->0.position->0.z.unit()
                &&& render.position.z == state->0.position->0.y.opposite().unit()
                &&& state->0.linear_gain is Some ==> render.gain == state->0.linear_gain->0
            }
            &&& state is None || state->0.position is None ==> !render.active
        }),
{
    let render = quantum.objects@[a]@;
    let id = render.element_id;
    assert(object_plays(render, blocks, t0, quantum.frames_written as int, requested));
    lemma_first_live_is(blocks, t0, 0);
    assert(audible(blocks, t0, 0));
    assert(is_onset(blocks, t0, 0));
    assert(render.state == onset_state(blocks, t0, 0, id));
    lemma_places(blocks[0].objects@, id);
    let place = first_of(blocks[0].objects@, id);
    if place < 0 {
        assert(blocks[0].objects@[o].element_id != id);
    }
    if place != o {
        assert(blocks[0].objects@[place].element_id != id);
    }
}

/// The bed of a quantum plays the bed of the block that covers each frame.
pub proof fn a_quantum_plays_the_bed_of_its_blocks(
    lfe: LfeObjectRender,
    blocks: Seq<DecodedSceneBlock>,
    t0: int,
    written: int,
    requested: nat,
    i: int,
    k: int,
)
    requires
        lfe_plays(lfe, blocks, t0, written, requested),
        0 <= i < requested,
        0 <= k < blocks.len(),
        forall|j: int|
            0 <= j < k ==> (#[trigger] blocks[j]).start_frame + blocks[j].duration_frames <= t0 + i,
        blocks[k].start_frame <= t0 + i < blocks[k].start_frame + blocks[k].duration_frames,
        blocks[k].lfe is Some,
    ensures
        i < written ==> lfe.samples@[i] == blocks[k].lfe->0.samples@[t0 + i - blocks[k].start_frame],
        i >= written ==> lfe.samples@[i] == 0,
{
    lemma_first_live_is(blocks, t0 + i, k);
}

/// A view of the quantum shows what is rendered: the same object, as active, as loud and
/// where it is rendered.
pub proof fn a_view_shows_what_is_rendered(
    view: ObjectView,
    render: DynamicObjectRender,
    blocks: Seq<DecodedSceneBlock>,
    t0: int,
    limit: int,
    ids: Seq<u64>,
    slot: int,
)
    requires
        view_of(view, render@, blocks, t0, limit, ids, slot),
    ensures
        view.element_id == render.element_id,
        view.active == render.active,
        view.position == render.position,
        view.gain == render.gain,
        view.jumped ==> jumped_before(blocks, t0, limit, ids[slot]),
{
}

/// A stretch of an object is written where it plays, and nowhere else. The object's state is
/// told where it first sounds, and other objects are left alone.
pub proof fn a_stretch_is_written_where_it_plays(
    renders: Map<u64, RenderModel>,
    stretch: Stretch,
    objects: Seq<SceneObjectPcm>,
    object: SceneObjectPcm,
    other: u64,
    i: int,
)
    requires
        stretch.offset + stretch.take <= object.samples@.len(),
        0 <= stretch.take,
        0 <= stretch.at,
    ensures
        ({
            let id = object.element_id;
            let before = with_objects(renders, stretch, objects);
            let after = with_objects(renders, stretch, objects.push(object));
            &&& after.contains_key(id)
            &&& after[id].element_id == id || before.contains_key(id)
            &&& other != id ==> (after.contains_key(other) <==> before.contains_key(other))
            &&& other != id ==> after[other] == before[other]
            &&& before.contains_key(id) ==> after[id].state == before[id].state
                && after[id].samples.len() == before[id].samples.len()
            &&& !before.contains_key(id) ==> after[id].samples.len() == stretch.requested
            &&& 0 <= i < after[id].samples.len() ==> after[id].samples[i] == (if stretch.at <= i
                < stretch.at + stretch.take {
                object.samples@[stretch.offset + i - stretch.at]
            } else if before.contains_key(id) {
                before[id].samples[i]
            } else {
                0
            })
        }),
{
    assert(objects.push(object).drop_last() =~= objects);
}

/// A stretch of the bed is written where it plays, and the bed's state is told where it first
/// sounds.
pub proof fn a_stretch_of_the_bed_is_written_where_it_plays(
    before: LfeQuantumAccumulator,
    after: LfeQuantumAccumulator,
    bed: SceneLfePcm,
    stretch: Stretch,
    i: int,
)
    requires
        lfe_written(before, after, bed, stretch),
        stretch.offset + stretch.take <= bed.samples@.len(),
        0 <= stretch.take,
        0 <= stretch.at,
        0 <= i < before.render.samples@.len(),
    ensures
        after.state_initialized,
        before.state_initialized ==> after.render.active == before.render.active
            && after.render.gain == before.render.gain,
        after.render.samples@.len() == before.render.samples@.len(),
        stretch.at <= i < stretch.at + stretch.take ==> after.render.samples@[i]
            == bed.samples@[stretch.offset + i - stretch.at],
        i < stretch.at || stretch.at + stretch.take <= i ==> after.render.samples@[i]
            == before.render.samples@[i],
{
}

/// The bed is off in a quantum in which nothing sounds.
pub proof fn a_bed_is_off_where_nothing_sounds(
    lfe: LfeObjectRender,
    blocks: Seq<DecodedSceneBlock>,
    t0: int,
    written: int,
    requested: nat,
)
    requires
        lfe_plays(lfe, blocks, t0, written, requested),
        forall|k: int|
            0 <= k < blocks.len() ==> (#[trigger] blocks[k]).end() <= t0 || blocks[k].start_frame
                >= t0 + written,
    ensures
        !lfe.active,
        lfe.gain == Level::Exact(0),
        lfe.samples@.len() == requested,
{
    assert forall|i: int| 0 <= i < written implies !#[trigger] audible(blocks, t0, i) by {
        super::playout::lemma_first_live(blocks, t0 + i);
        let k = first_live(blocks, t0 + i);
        if k < blocks.len() {
            assert(blocks[k].end() <= t0 || blocks[k].start_frame >= t0 + written);
        }
    }
}

} // verus!
