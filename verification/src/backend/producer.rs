//! The producer that feeds the native renderer.
//!
//! It decides what to submit next, keeps the metadata of what was submitted
//! until it has been presented, and mirrors the presented scene. Talking to the
//! session, and waiting between two rounds, is the caller's part.
use super::macinrender::{is_trimmed, Frame};
use super::output::{OutputClock, OutputPhase, OutputSnapshot};
use super::state::{listener_render_state, listener_state, refusal, validate_block};
use crate::decoder::metadata::{state_after, state_at_updates};
use crate::decoder::queue::{SceneQueue, SceneQueueReader};
use crate::decoder::scene::{
    dup_state, DecodedSceneBlock, SceneMetadataUpdate, SceneObjectPcm, SpatialObjectState,
};
use crate::decoder::signature::{identity_of, SceneIdentity, SceneSignature};
use crate::scene_view::{ObjectView, SceneViewMirror};
use std::collections::VecDeque;
use vstd::layout;
use vstd::prelude::*;
use vstd::string::*;

verus! {

/// How much metadata may wait for its presentation.
pub const HISTORY_BYTES: u128 = 16_777_216;

/// The longest stretch of silence that is submitted at once.
pub const GAP_FRAMES: i64 = 4096;

/// The rate at which the native renderer counts what it has presented.
pub const NATIVE_RATE: u128 = 48_000;

/// The pattern of a NaN, which no volume has: the first one is always sent.
pub const NO_GAIN: u32 = 0x7fc0_0000;

/// The metadata of one submitted block.
#[derive(Debug)]
pub struct MetadataFrame {
    pub start: i64,
    pub duration: u32,
    pub complete: bool,
    /// Ascending by element.
    pub objects: Vec<(u64, Option<SpatialObjectState>)>,
    pub updates: Vec<SceneMetadataUpdate>,
}

/// The elements of a block with the states it declares for them.
pub open spec fn declared(objects: Seq<SceneObjectPcm>) -> Seq<(u64, Option<SpatialObjectState>)> {
    objects.map_values(|object: SceneObjectPcm| (object.element_id, object.initial_state))
}

pub open spec fn capped(value: int) -> int {
    if value > u64::MAX {
        u64::MAX as int
    } else {
        value
    }
}

fn capped_product(count: usize, size: usize) -> (r: u64)
    ensures
        r == capped(count * size),
{
    match (count as u64).checked_mul(size as u64) {
        Some(product) => product,
        None => u64::MAX,
    }
}

impl MetadataFrame {
    pub open spec fn describes(&self, block: DecodedSceneBlock) -> bool {
        &&& self.start == block.start_frame
        &&& self.duration == block.duration_frames
        &&& self.complete == block.state_complete
        &&& self.objects@.to_multiset() == declared(block.objects@).to_multiset()
        &&& forall|i: int, j: int|
            0 <= i < j < self.objects@.len() ==> (#[trigger] self.objects@[i]).0 <= (
            #[trigger] self.objects@[j]).0
        &&& self.updates@ == block.metadata_updates@
    }

    pub fn new(block: &DecodedSceneBlock) -> (r: Self)
        ensures
            r.describes(*block),
    {
        broadcast use vstd::seq_lib::group_to_multiset_ensures;

        let mut objects: Vec<(u64, Option<SpatialObjectState>)> = Vec::new();
        let ghost all = declared(block.objects@);
        let mut index: usize = 0;
        assert(all.take(0) =~= Seq::empty());
        while index < block.objects.len()
            invariant
                index <= block.objects@.len(),
                all == declared(block.objects@),
                objects@.len() == index,
                objects@.to_multiset() == all.take(index as int).to_multiset(),
                forall|i: int, j: int|
                    0 <= i < j < objects@.len() ==> (#[trigger] objects@[i]).0 <= (
                    #[trigger] objects@[j]).0,
            decreases block.objects.len() - index,
        {
            let id: u64 = block.objects[index].element_id;
            let entry = (id, dup_state(&block.objects[index].initial_state));
            let mut place: usize = objects.len();
            while place > 0 && objects[place - 1].0 > id
                invariant
                    place <= objects@.len(),
                    forall|i: int| place <= i < objects@.len() ==> (#[trigger] objects@[i]).0 > id,
                decreases place,
            {
                place = place - 1;
            }
            let ghost before = objects@;
            proof {
                assert forall|i: int| 0 <= i < place implies (#[trigger] before[i]).0 <= id by {
                    assert(before[place - 1].0 <= id);
                    if i < place - 1 {
                        assert(before[i].0 <= before[place - 1].0);
                    }
                }
                vstd::seq_lib::to_multiset_insert(before, place as int, entry);
                assert(all.take(index as int + 1) =~= all.take(index as int).push(entry));
                vstd::seq_lib::to_multiset_build(all.take(index as int), entry);
            }
            objects.insert(place, entry);
            proof {
                assert forall|i: int, j: int| 0 <= i < j < objects@.len() implies (
                #[trigger] objects@[i]).0 <= (#[trigger] objects@[j]).0 by {
                    let a = if i < place {
                        before[i]
                    } else if i == place {
                        entry
                    } else {
                        before[i - 1]
                    };
                    let b = if j < place {
                        before[j]
                    } else if j == place {
                        entry
                    } else {
                        before[j - 1]
                    };
                    assert(objects@[i] == a && objects@[j] == b);
                }
            }
            index = index + 1;
        }
        assert(all.take(index as int) =~= all);
        let mut updates: Vec<SceneMetadataUpdate> = Vec::new();
        let mut next: usize = 0;
        while next < block.metadata_updates.len()
            invariant
                next <= block.metadata_updates@.len(),
                updates@ == block.metadata_updates@.take(next as int),
            decreases block.metadata_updates.len() - next,
        {
            updates.push(block.metadata_updates[next].dup());
            next = next + 1;
            assert(updates@ =~= block.metadata_updates@.take(next as int));
        }
        assert(block.metadata_updates@.take(next as int) =~= block.metadata_updates@);
        MetadataFrame {
            start: block.start_frame,
            duration: block.duration_frames,
            complete: block.state_complete,
            objects,
            updates,
        }
    }

    /// What the frame occupies, counter-sized.
    pub open spec fn weight(&self) -> int {
        capped(
            capped(
                layout::size_of::<MetadataFrame>() + capped(
                    (self.objects@.len() * layout::size_of::<(u64, Option<SpatialObjectState>)>()) as int,
                ),
            ) + capped((self.updates@.len() * layout::size_of::<SceneMetadataUpdate>()) as int),
        )
    }

    pub fn bytes(&self) -> (r: u64)
        ensures
            r == self.weight(),
    {
        let own: u64 = core::mem::size_of::<MetadataFrame>() as u64;
        let objects: u64 = capped_product(
            self.objects.len(),
            core::mem::size_of::<(u64, Option<SpatialObjectState>)>(),
        );
        let updates: u64 = capped_product(
            self.updates.len(),
            core::mem::size_of::<SceneMetadataUpdate>(),
        );
        own.saturating_add(objects).saturating_add(updates)
    }

    /// The first frame behind the block; the timeline ends at its last one.
    pub open spec fn last(&self) -> int {
        if self.start + self.duration > i64::MAX {
            i64::MAX as int
        } else {
            self.start + self.duration
        }
    }

    pub fn end(&self) -> (r: i64)
        ensures
            r == self.last(),
    {
        match self.start.checked_add(self.duration as i64) {
            Some(end) => end,
            None => i64::MAX,
        }
    }
}

/// What a run of frames occupies.
pub open spec fn total_weight(frames: Seq<MetadataFrame>) -> int
    decreases frames.len(),
{
    if frames.len() == 0 {
        0
    } else {
        frames[0].weight() + total_weight(frames.drop_first())
    }
}

proof fn lemma_weight_push(frames: Seq<MetadataFrame>, frame: MetadataFrame)
    ensures
        total_weight(frames.push(frame)) == total_weight(frames) + frame.weight(),
    decreases frames.len(),
{
    if frames.len() > 0 {
        lemma_weight_push(frames.drop_first(), frame);
        assert(frames.push(frame).drop_first() =~= frames.drop_first().push(frame));
    } else {
        assert(total_weight(frames.push(frame).drop_first()) == 0);
    }
}

proof fn lemma_weight_bounds(frames: Seq<MetadataFrame>)
    ensures
        total_weight(frames) >= 0,
        frames.len() > 0 ==> frames[0].weight() <= total_weight(frames),
    decreases frames.len(),
{
    if frames.len() > 0 {
        lemma_weight_bounds(frames.drop_first());
        assert(frames[0].weight() >= 0) by {
            assert(0 <= frames[0].objects@.len() * layout::size_of::<
                (u64, Option<SpatialObjectState>),
            >()) by (nonlinear_arith);
            assert(0 <= frames[0].updates@.len() * layout::size_of::<SceneMetadataUpdate>())
                by (nonlinear_arith);
        }
    }
}

/// Frames whose presentation is over by frame `t` leave; the newest one stays.
pub open spec fn unpresented(frames: Seq<MetadataFrame>, t: i64) -> Seq<MetadataFrame>
    decreases frames.len(),
{
    if frames.len() > 1 && frames[0].last() <= t {
        unpresented(frames.drop_first(), t)
    } else {
        frames
    }
}

/// What the native renderer reports.
#[derive(Debug, Clone, Copy, PartialEq, Eq, Structural)]
pub enum NativePhase {
    Idle,
    Running,
    Paused,
    Ended,
    Failed,
}

#[derive(Debug, Clone, Copy, PartialEq, Eq, Structural)]
pub struct NativeStatus {
    pub phase: NativePhase,
    pub presented: u64,
    pub consumed: u64,
    pub queued: u64,
    pub underruns: u64,
    pub media_clock: bool,
    pub recovering: bool,
}

/// What to tell the session's controls.
#[derive(Debug, Clone, Copy, PartialEq, Eq, Structural)]
pub struct Controls {
    pub play: Option<bool>,
    pub volume: Option<u32>,
}

/// What to do with the session next.
#[derive(Debug, Clone, Copy, PartialEq, Eq, Structural)]
pub enum Step {
    /// Nothing in this round.
    Idle,
    /// Configure the session for the waiting block's scene, then plan again.
    Configure,
    /// Submit silence.
    Gap { start: i64, duration: u32 },
    /// Submit the waiting block from this offset on.
    Block { offset: u32 },
    /// Tell the session where the programme ends.
    End { at: i64 },
}

#[derive(Debug)]
pub struct SceneProducer {
    pub reader: SceneQueueReader,
    pub start_frame: u64,
    pub sample_rate: u32,
    pub target: i64,
    pub signature: SceneSignature,
    pub pending: Option<DecodedSceneBlock>,
    pub history: VecDeque<MetadataFrame>,
    pub history_bytes: u128,
    pub next_sample: i64,
    pub first: bool,
    pub ended: bool,
    pub playing: bool,
    pub gain: u32,
    pub last_view_time: i64,
    pub iterations: u64,
}

/// The object count that a session of this scene is checked against.
pub open spec fn scene_count(identity: SceneIdentity) -> u32 {
    if identity.object_element_ids.len() > u32::MAX {
        u32::MAX
    } else {
        identity.object_element_ids.len() as u32
    }
}

/// A playhead as a position on the timeline, which ends at its last one.
pub open spec fn view_time(playhead: u64) -> i64 {
    if playhead > i64::MAX {
        i64::MAX
    } else {
        playhead as i64
    }
}

/// How far `t` lies behind `start`, within a block of `duration` frames.
pub open spec fn offset_within(t: i64, start: i64, duration: u32) -> u32 {
    let last = if duration == 0 {
        0
    } else {
        duration - 1
    };
    if t - start > last {
        last as u32
    } else {
        (t - start) as u32
    }
}

/// How far `t` lies behind `start`, counter-sized; 0 before it.
pub open spec fn offset_since(t: i64, start: i64) -> u32 {
    if t <= start {
        0
    } else if t - start > u32::MAX {
        u32::MAX
    } else {
        (t - start) as u32
    }
}

/// What the view shows of one element of a presented frame.
pub open spec fn presented_view(
    view: ObjectView,
    frame: MetadataFrame,
    i: int,
    offset: u32,
    previous: u32,
) -> bool {
    let (id, initial) = frame.objects@[i];
    let state = listener_state(state_after(frame.updates@, id, initial, offset));
    &&& view.element_id == id
    &&& view.active == (state.0 && frame.complete)
    &&& view.position == state.1
    &&& view.gain == state.2
    &&& view.jumped == exists|j: int|
        {
            &&& 0 <= j < frame.updates@.len()
            &&& placed_between(#[trigger] frame.updates@[j], id, previous, offset)
        }
}

/// `update` changes element `id` outright, between two offsets, both included.
pub open spec fn placed_between(
    update: SceneMetadataUpdate,
    id: u64,
    previous: u32,
    offset: u32,
) -> bool {
    &&& update.element_id == id
    &&& update.ramp_frames == 0
    &&& previous <= update.offset_frames <= offset
}

/// How many of the first `n` elements of `frame` are active at `offset`.
pub open spec fn active_count(frame: MetadataFrame, offset: u32, n: int) -> int
    decreases n,
{
    if n <= 0 {
        0
    } else {
        let (id, initial) = frame.objects@[n - 1];
        active_count(frame, offset, n - 1) + (if frame.complete && listener_state(
            state_after(frame.updates@, id, initial, offset),
        ).0 {
            1int
        } else {
            0
        })
    }
}

fn jumped_between(
    updates: &Vec<SceneMetadataUpdate>,
    id: u64,
    previous: u32,
    offset: u32,
) -> (r: bool)
    ensures
        r == exists|j: int|
            {
                &&& 0 <= j < updates@.len()
                &&& placed_between(#[trigger] updates@[j], id, previous, offset)
            },
{
    let mut index: usize = 0;
    while index < updates.len()
        invariant
            index <= updates@.len(),
            forall|j: int|
                0 <= j < index ==> !placed_between(#[trigger] updates@[j], id, previous, offset),
        decreases updates.len() - index,
    {
        let update = &updates[index];
        if update.element_id == id && update.ramp_frames == 0 && update.offset_frames >= previous
            && update.offset_frames <= offset {
            assert(placed_between(updates@[index as int], id, previous, offset));
            return true;
        }
        index = index + 1;
    }
    false
}

fn distance_within(t: i64, start: i64, duration: u32) -> (r: u32)
    requires
        start <= t,
    ensures
        r == offset_within(t, start, duration),
{
    let last: u32 = duration.saturating_sub(1);
    let distance: i128 = t as i128 - start as i128;
    if distance > last as i128 {
        last
    } else {
        distance as u32
    }
}

fn distance_since(t: i64, start: i64) -> (r: u32)
    ensures
        r == offset_since(t, start),
{
    if t <= start {
        return 0;
    }
    let distance: i128 = t as i128 - start as i128;
    if distance > u32::MAX as i128 {
        u32::MAX
    } else {
        distance as u32
    }
}

impl SceneProducer {
    /// The history is counted exactly.
    pub open spec fn wf(&self) -> bool {
        self.history_bytes == total_weight(self.history@)
    }

    /// A producer for a stream that starts at `start_frame`.
    pub fn new(
        reader: SceneQueueReader,
        start_frame: u64,
        sample_rate: u32,
        signature: SceneSignature,
    ) -> (r: Result<Self, String>)
        ensures
            match r {
                Err(message) => start_frame > i64::MAX && message@
                    == "Scene target exceeds signed time"@,
                Ok(producer) => {
                    &&& start_frame <= i64::MAX
                    &&& producer.wf()
                    &&& producer.reader == reader
                    &&& producer.start_frame == start_frame
                    &&& producer.sample_rate == sample_rate
                    &&& producer.target == start_frame
                    &&& producer.signature == signature
                    &&& producer.pending is None
                    &&& producer.history@.len() == 0
                    &&& producer.next_sample == start_frame
                    &&& producer.first
                    &&& !producer.ended
                    &&& !producer.playing
                    &&& producer.gain == NO_GAIN
                    &&& producer.last_view_time == start_frame
                    &&& producer.iterations == 0
                },
            },
    {
        if start_frame > i64::MAX as u64 {
            return Err("Scene target exceeds signed time".to_owned());
        }
        let target: i64 = start_frame as i64;
        Ok(
            SceneProducer {
                reader,
                start_frame,
                sample_rate,
                target,
                signature,
                pending: None,
                history: VecDeque::new(),
                history_bytes: 0,
                next_sample: target,
                first: true,
                ended: false,
                playing: false,
                gain: NO_GAIN,
                last_view_time: target,
                iterations: 0,
            },
        )
    }

    /// The controls that have to be told something new.
    pub fn controls(&mut self, playing: bool, gain: u32) -> (r: Controls)
        ensures
            *final(self) == (SceneProducer { playing, gain, ..*old(self) }),
            r == (Controls {
                play: if playing != old(self).playing {
                    Some(playing)
                } else {
                    None
                },
                volume: if gain != old(self).gain {
                    Some(gain)
                } else {
                    None
                },
            }),
    {
        let play = if playing != self.playing {
            Some(playing)
        } else {
            None
        };
        let volume = if gain != self.gain {
            Some(gain)
        } else {
            None
        };
        self.playing = playing;
        self.gain = gain;
        Controls { play, volume }
    }

    /// The media frame that a presented count stands for; behind the end, the end.
    pub open spec fn media_position(&self, presented: u64) -> u64 {
        let offset = capped(presented * self.sample_rate as int / NATIVE_RATE as int);
        let running = capped(self.start_frame + offset);
        let end = if self.next_sample < 0 {
            self.start_frame as int
        } else {
            self.next_sample as int
        };
        if self.ended && end < running {
            end as u64
        } else {
            running as u64
        }
    }

    pub fn playhead(&self, presented: u64) -> (r: u64)
        ensures
            r == self.media_position(presented),
    {
        assert(presented * self.sample_rate <= u64::MAX * u32::MAX) by (nonlinear_arith);
        let scaled: u128 = (presented as u128 * self.sample_rate as u128) / NATIVE_RATE;
        let offset: u64 = if scaled > u64::MAX as u128 {
            u64::MAX
        } else {
            scaled as u64
        };
        let running: u64 = self.start_frame.saturating_add(offset);
        if !self.ended {
            return running;
        }
        let end: u64 = if self.next_sample < 0 {
            self.start_frame
        } else {
            self.next_sample as u64
        };
        if end < running {
            end
        } else {
            running
        }
    }

    /// The frame that is being presented at frame `t`, if there is one.
    pub open spec fn shown(&self, t: i64) -> Option<MetadataFrame> {
        if self.history@.len() > 0 && self.history@[0].start <= t {
            Some(self.history@[0])
        } else {
            None
        }
    }

    fn drop_presented(&mut self, t: i64)
        requires
            old(self).wf(),
        ensures
            final(self).wf(),
            final(self).history@ == unpresented(old(self).history@, t),
            *final(self) == (SceneProducer {
                history: final(self).history,
                history_bytes: final(self).history_bytes,
                ..*old(self)
            }),
    {
        let mut passed = self.history.len() > 1 && self.history[0].end() <= t;
        while passed
            invariant
                self.wf(),
                passed == (self.history@.len() > 1 && self.history@[0].last() <= t),
                unpresented(self.history@, t) == unpresented(old(self).history@, t),
                *self == (SceneProducer {
                    history: self.history,
                    history_bytes: self.history_bytes,
                    ..*old(self)
                }),
            decreases self.history@.len(),
        {
            let ghost before = self.history@;
            if let Some(frame) = self.history.pop_front() {
                proof {
                    lemma_weight_bounds(before);
                    lemma_weight_bounds(before.drop_first());
                    assert(self.history@ =~= before.drop_first());
                }
                self.history_bytes = self.history_bytes - frame.bytes() as u128;
            }
            passed = self.history.len() > 1 && self.history[0].end() <= t;
        }
    }

    /// What one round of presentation makes of the view and the snapshot.
    pub open spec fn presents(
        before: (SceneProducer, SceneViewMirror, OutputSnapshot),
        after: (SceneProducer, SceneViewMirror, OutputSnapshot),
        status: NativeStatus,
    ) -> bool {
        let playhead = before.0.media_position(status.presented);
        let t = view_time(playhead);
        let drawn = after.0.shown(t) is Some && t != before.0.last_view_time;
        &&& after.0.history@ == unpresented(before.0.history@, t)
        &&& after.0 == (SceneProducer {
            history: after.0.history,
            history_bytes: after.0.history_bytes,
            last_view_time: if drawn {
                t
            } else {
                before.0.last_view_time
            },
            iterations: after.0.iterations,
            ..before.0
        })
        &&& after.0.iterations == capped(before.0.iterations + 1)
        &&& !drawn ==> after.1 == before.1
        &&& drawn ==> exists|views: Seq<ObjectView>|
            {
                let frame = after.0.shown(t)->0;
                &&& #[trigger] after.1.shows(
                    before.0.reader.key,
                    views,
                    t,
                    before.0.sample_rate,
                )
                &&& views.len() == frame.objects@.len()
                &&& forall|i: int|
                    0 <= i < views.len() ==> presented_view(
                        #[trigger] views[i],
                        frame,
                        i,
                        offset_within(t, frame.start, frame.duration),
                        offset_since(before.0.last_view_time, frame.start),
                    )
            }
        &&& after.2 == (OutputSnapshot {
            phase: before.0.output_phase(status.phase),
            playhead_frames: playhead,
            queued_output_frames: Some(status.queued),
            clock: if status.media_clock {
                OutputClock::SystemMedia
            } else {
                OutputClock::Callback
            },
            submitted_frames: status.consumed,
            render_updates: before.0.iterations,
            reserved_dynamic_objects: match after.0.shown(t) {
                Some(frame) => if frame.objects@.len() > u32::MAX {
                    u32::MAX
                } else {
                    frame.objects@.len() as u32
                },
                None => before.2.reserved_dynamic_objects,
            },
            active_dynamic_objects: match after.0.shown(t) {
                Some(frame) => {
                    let active = active_count(
                        frame,
                        offset_within(t, frame.start, frame.duration),
                        frame.objects@.len() as int,
                    );
                    if active > u32::MAX {
                        u32::MAX
                    } else {
                        active as u32
                    }
                },
                None => before.2.active_dynamic_objects,
            },
            underruns: status.underruns,
            error: after.2.error,
            ..before.2
        })
        &&& match after.2.error {
            Some(error) => status.recovering && error@ == "System spatializer is reconnecting"@,
            None => !status.recovering,
        }
    }

    /// The player's phase. An epoch that ends where it started is over at once;
    /// a pause before anything was submitted is readiness.
    pub open spec fn output_phase(&self, phase: NativePhase) -> OutputPhase {
        if self.ended && self.next_sample <= self.target {
            OutputPhase::Ended
        } else if phase == NativePhase::Ended {
            OutputPhase::Ended
        } else if phase == NativePhase::Paused {
            if self.first {
                OutputPhase::Ready
            } else {
                OutputPhase::Paused
            }
        } else if self.playing {
            OutputPhase::Playing
        } else {
            OutputPhase::Ready
        }
    }

    /// Takes in what the renderer reports: the playhead, the picture of what is
    /// presented, and the snapshot.
    pub fn observe(
        &mut self,
        status: NativeStatus,
        mirror: &mut SceneViewMirror,
        snapshot: &mut OutputSnapshot,
    ) -> (r: Result<(), String>)
        requires
            old(self).wf(),
        ensures
            final(self).wf(),
            status.phase == NativePhase::Failed ==> r is Err && r->Err_0@
                == "MacinRender rendering or output device failed"@ && *final(self) == *old(self)
                && *final(mirror) == *old(mirror) && *final(snapshot) == *old(snapshot),
            status.phase != NativePhase::Failed ==> r is Ok && SceneProducer::presents(
                (*old(self), *old(mirror), *old(snapshot)),
                (*final(self), *final(mirror), *final(snapshot)),
                status,
            ),
    {
        if status.phase == NativePhase::Failed {
            return Err("MacinRender rendering or output device failed".to_owned());
        }
        let playhead: u64 = self.playhead(status.presented);
        let t: i64 = if playhead > i64::MAX as u64 {
            i64::MAX
        } else {
            playhead as i64
        };
        self.drop_presented(t);
        let mut reserved: u32 = snapshot.reserved_dynamic_objects;
        let mut active: u32 = snapshot.active_dynamic_objects;
        let mut drawn = false;
        let ghost mut shown_views: Seq<ObjectView> = Seq::empty();
        if self.history.len() > 0 && self.history[0].start <= t {
            let frame = &self.history[0];
            let offset: u32 = distance_within(t, frame.start, frame.duration);
            let previous: u32 = distance_since(self.last_view_time, frame.start);
            let mut views: Vec<ObjectView> = Vec::new();
            let mut count: u64 = 0;
            let mut index: usize = 0;
            let total: usize = frame.objects.len();
            while index < total
                invariant
                    index <= total,
                    total == frame.objects@.len(),
                    count == active_count(*frame, offset, index as int),
                    count <= index,
                    views@.len() == index,
                    forall|i: int|
                        0 <= i < index ==> presented_view(
                            #[trigger] views@[i],
                            *frame,
                            i,
                            offset,
                            previous,
                        ),
                decreases total - index,
            {
                let id: u64 = frame.objects[index].0;
                let state = state_at_updates(
                    frame.updates.as_slice(),
                    id,
                    &frame.objects[index].1,
                    offset,
                );
                let (on, position, gain) = listener_render_state(state);
                if frame.complete && on {
                    count = count + 1;
                }
                views.push(
                    ObjectView {
                        element_id: id,
                        active: on && frame.complete,
                        position,
                        gain,
                        jumped: jumped_between(&frame.updates, id, previous, offset),
                    },
                );
                index = index + 1;
            }
            reserved =
            if total as u64 > u32::MAX as u64 {
                u32::MAX
            } else {
                total as u32
            };
            active =
            if count > u32::MAX as u64 {
                u32::MAX
            } else {
                count as u32
            };
            if t != self.last_view_time {
                proof {
                    shown_views = views@;
                }
                mirror.write(self.reader.key, views, t, self.sample_rate);
                drawn = true;
            }
        }
        if drawn {
            self.last_view_time = t;
        }
        snapshot.phase =
        if self.ended && self.next_sample <= self.target {
            OutputPhase::Ended
        } else {
            match status.phase {
                NativePhase::Ended => OutputPhase::Ended,
                NativePhase::Paused => if self.first {
                    OutputPhase::Ready
                } else {
                    OutputPhase::Paused
                },
                _ => if self.playing {
                    OutputPhase::Playing
                } else {
                    OutputPhase::Ready
                },
            }
        };
        snapshot.playhead_frames = playhead;
        snapshot.queued_output_frames = Some(status.queued);
        snapshot.clock =
        if status.media_clock {
            OutputClock::SystemMedia
        } else {
            OutputClock::Callback
        };
        snapshot.submitted_frames = status.consumed;
        snapshot.render_updates = self.iterations;
        snapshot.reserved_dynamic_objects = reserved;
        snapshot.active_dynamic_objects = active;
        snapshot.underruns = status.underruns;
        snapshot.error =
        if status.recovering {
            Some("System spatializer is reconnecting".to_owned())
        } else {
            None
        };
        self.iterations = self.iterations.saturating_add(1);
        proof {
            let before = (*old(self), *old(mirror), *old(snapshot));
            let after = (*self, *mirror, *snapshot);
            if drawn {
                assert(after.1.shows(before.0.reader.key, shown_views, t, before.0.sample_rate));
            }
            assert(SceneProducer::presents(before, after, status));
        }
        Ok(())
    }

    /// The producer takes nothing more in this round: the programme is over, or
    /// enough metadata waits for its presentation.
    pub open spec fn is_full(&self) -> bool {
        self.ended || self.history_bytes >= HISTORY_BYTES
    }

    /// The block that is dealt with next: the one at hand, or else the oldest
    /// one in the queue.
    pub open spec fn upcoming(&self, queue: &SceneQueue) -> Option<DecodedSceneBlock> {
        match self.pending {
            Some(block) => Some(block),
            None => if queue.key == self.reader.key && queue.blocks@.len() > 0 {
                Some(queue.blocks@[0])
            } else {
                None
            },
        }
    }

    /// Why `block` ends the stream, if it does.
    pub open spec fn turns_away(&self, block: DecodedSceneBlock) -> Option<Seq<char>> {
        if block.configuration_generation != self.signature@.configuration_generation {
            if block.sample_rate != self.sample_rate {
                Some("Scene sample rate changed during playback"@)
            } else {
                None
            }
        } else {
            refusal(
                block,
                self.sample_rate,
                scene_count(self.signature@),
                self.signature@.lfe_element_id is Some,
                self.signature@,
            )
        }
    }

    /// Where the next submission starts. Preroll before the target is rendered
    /// from its own start.
    pub open spec fn cue(&self, block: DecodedSceneBlock) -> i64 {
        if self.first && block.start_frame < self.target {
            block.start_frame
        } else {
            self.next_sample
        }
    }

    /// What to do with `block`.
    pub open spec fn step_for(&self, block: DecodedSceneBlock) -> Step {
        let cue = self.cue(block);
        if block.configuration_generation != self.signature@.configuration_generation {
            Step::Configure
        } else if block.start_frame > cue {
            Step::Gap {
                start: cue,
                duration: if block.start_frame - cue > GAP_FRAMES {
                    GAP_FRAMES as u32
                } else {
                    (block.start_frame - cue) as u32
                },
            }
        } else if offset_since(cue, block.start_frame) >= block.duration_frames {
            Step::Idle
        } else {
            Step::Block { offset: offset_since(cue, block.start_frame) }
        }
    }

    /// What planning comes to.
    pub open spec fn planned(
        before: (SceneProducer, SceneQueue),
        after: (SceneProducer, SceneQueue),
        r: Result<Step, String>,
    ) -> bool {
        let upcoming = before.0.upcoming(&before.1);
        if before.0.is_full() {
            r == Ok::<Step, String>(Step::Idle) && after == before
        } else {
            match upcoming {
                None => {
                    &&& after.0 == before.0
                    &&& after.1.blocks@ == before.1.blocks@
                    &&& r == Ok::<Step, String>(
                        if before.1.ended(before.0.reader.key) {
                            Step::End { at: before.0.next_sample }
                        } else {
                            Step::Idle
                        },
                    )
                },
                Some(block) => {
                    &&& after.1.blocks@ == (if before.0.pending is Some {
                        before.1.blocks@
                    } else {
                        before.1.blocks@.drop_first()
                    })
                    &&& match before.0.turns_away(block) {
                        Some(message) => {
                            &&& r is Err
                            &&& r->Err_0@ == message
                            &&& after.0 == (SceneProducer { pending: Some(block), ..before.0 })
                        },
                        None => {
                            let step = before.0.step_for(block);
                            &&& r == Ok::<Step, String>(step)
                            &&& after.0 == (SceneProducer {
                                pending: if step is Idle {
                                    None
                                } else {
                                    Some(block)
                                },
                                next_sample: if step is Configure {
                                    before.0.next_sample
                                } else {
                                    before.0.cue(block)
                                },
                                ..before.0
                            })
                        },
                    }
                },
            }
        }
    }

    /// Decides what to do with the session next.
    pub fn plan(&mut self, queue: &mut SceneQueue) -> (r: Result<Step, String>)
        requires
            old(self).wf(),
            old(queue).wf(),
        ensures
            final(self).wf(),
            final(queue).wf(),
            final(queue).is_drawn_by(old(queue), old(self).reader.key),
            SceneProducer::planned((*old(self), *old(queue)), (*final(self), *final(queue)), r),
    {
        if self.ended || self.history_bytes >= HISTORY_BYTES {
            return Ok(Step::Idle);
        }
        let waiting = match self.pending.take() {
            Some(block) => Some(block),
            None => self.reader.try_pop(queue),
        };
        let block = match waiting {
            Some(block) => block,
            None => {
                return Ok(
                    if self.reader.is_end_of_stream(queue) {
                        Step::End { at: self.next_sample }
                    } else {
                        Step::Idle
                    },
                );
            },
        };
        if block.configuration_generation != self.signature.configuration_generation {
            let changed_rate = block.sample_rate != self.sample_rate;
            self.pending = Some(block);
            if changed_rate {
                return Err("Scene sample rate changed during playback".to_owned());
            }
            return Ok(Step::Configure);
        }
        let ids: u64 = self.signature.object_element_ids.len() as u64;
        let count: u32 = if ids > u32::MAX as u64 {
            u32::MAX
        } else {
            ids as u32
        };
        let has_lfe = self.signature.lfe_element_id.is_some();
        match validate_block(&block, self.sample_rate, count, has_lfe, &self.signature) {
            Ok(_) => {},
            Err(message) => {
                self.pending = Some(block);
                return Err(message);
            },
        }
        if self.first && block.start_frame < self.target {
            self.next_sample = block.start_frame;
        }
        let step = if block.start_frame > self.next_sample {
            let gap: i128 = block.start_frame as i128 - self.next_sample as i128;
            let duration: u32 = if gap > GAP_FRAMES as i128 {
                GAP_FRAMES as u32
            } else {
                gap as u32
            };
            Step::Gap { start: self.next_sample, duration }
        } else {
            let offset: u32 = distance_since(self.next_sample, block.start_frame);
            if offset >= block.duration_frames {
                Step::Idle
            } else {
                Step::Block { offset }
            }
        };
        if step != Step::Idle {
            self.pending = Some(block);
        }
        Ok(step)
    }

    /// Takes over the scene of the waiting block, for which the session has been
    /// configured.
    pub fn configured(&mut self)
        ensures
            *final(self) == (SceneProducer { signature: final(self).signature, ..*old(self) }),
            final(self).signature@ == (match old(self).pending {
                Some(block) => identity_of(block),
                None => old(self).signature@,
            }),
            old(self).wf() ==> final(self).wf(),
    {
        if let Some(block) = &self.pending {
            self.signature = SceneSignature::from_block(block);
        }
    }

    /// What becomes of the producer when the session took a step.
    pub open spec fn stepped(before: SceneProducer, after: SceneProducer, step: Step) -> bool {
        match step {
            Step::Gap { duration, .. } => after == (SceneProducer {
                next_sample: (before.next_sample + duration) as i64,
                first: false,
                ..before
            }),
            Step::Block { .. } => match before.pending {
                Some(block) => {
                    &&& after.history@.len() == before.history@.len() + 1
                    &&& after.history@.drop_last() == before.history@
                    &&& after.history@.last().describes(block)
                    &&& after == (SceneProducer {
                        pending: None,
                        history: after.history,
                        history_bytes: after.history_bytes,
                        next_sample: block.end() as i64,
                        first: false,
                        ..before
                    })
                },
                None => after == before,
            },
            Step::End { .. } => after == (SceneProducer { ended: true, ..before }),
            _ => after == before,
        }
    }

    /// The time at which a step leaves the producer.
    pub open spec fn time_after(&self, step: Step) -> int {
        match step {
            Step::Gap { duration, .. } => self.next_sample + duration,
            Step::Block { .. } => match self.pending {
                Some(block) => block.end(),
                None => self.next_sample as int,
            },
            _ => self.next_sample as int,
        }
    }

    /// Records whether the session took `step`. What it did not take is planned
    /// again.
    pub fn submitted(&mut self, step: Step, accepted: bool) -> (r: Result<(), String>)
        requires
            old(self).wf(),
            old(self).history_bytes < HISTORY_BYTES,
        ensures
            final(self).wf(),
            !accepted ==> r is Ok && *final(self) == *old(self),
            accepted && old(self).time_after(step) > i64::MAX ==> r is Err && r->Err_0@
                == "Scene time overflow"@ && *final(self) == *old(self),
            accepted && old(self).time_after(step) <= i64::MAX ==> r is Ok
                && SceneProducer::stepped(*old(self), *final(self), step),
    {
        if !accepted {
            return Ok(());
        }
        match step {
            Step::Gap { start: _, duration } => {
                match self.next_sample.checked_add(duration as i64) {
                    Some(next) => {
                        self.next_sample = next;
                        self.first = false;
                    },
                    None => {
                        return Err("Scene time overflow".to_owned());
                    },
                }
            },
            Step::Block { offset: _ } => {
                if let Some(block) = &self.pending {
                    match block.start_frame.checked_add(block.duration_frames as i64) {
                        Some(next) => {
                            let metadata = MetadataFrame::new(block);
                            let ghost before = self.history@;
                            self.history_bytes = self.history_bytes + metadata.bytes() as u128;
                            self.history.push_back(metadata);
                            proof {
                                lemma_weight_push(before, metadata);
                                assert(self.history@.drop_last() =~= before);
                            }
                            self.next_sample = next;
                            self.pending = None;
                            self.first = false;
                        },
                        None => {
                            return Err("Scene time overflow".to_owned());
                        },
                    }
                }
            },
            Step::End { at: _ } => {
                self.ended = true;
            },
            Step::Idle => {},
            Step::Configure => {},
        }
        Ok(())
    }
}

/// Submissions follow each other without a hole or an overlap: a gap starts
/// where the last submission ended and stays short of the next block, and a
/// trimmed block starts where the last submission ended, too.
pub proof fn submissions_are_contiguous(
    producer: SceneProducer,
    block: DecodedSceneBlock,
    frame: Frame,
)
    requires
        producer.turns_away(block) is None,
        block.end() <= i64::MAX,
    ensures
        match producer.step_for(block) {
            Step::Gap { start, duration } => start == producer.cue(block) && 0 < duration
                <= GAP_FRAMES && start + duration <= block.start_frame,
            Step::Block { offset } => is_trimmed(frame, block, offset) ==> frame.start
                == producer.cue(block) && frame.start + frame.duration == block.end(),
            _ => true,
        },
{
}

/// A block that lies wholly before the cue is never submitted, and one that
/// reaches beyond it always is, after its gap.
pub proof fn every_block_beyond_the_cue_is_submitted(
    producer: SceneProducer,
    block: DecodedSceneBlock,
)
    requires
        producer.turns_away(block) is None,
        block.configuration_generation == producer.signature@.configuration_generation,
        block.duration_frames > 0,
    ensures
        producer.step_for(block) is Idle <==> block.end() <= producer.cue(block),
        producer.step_for(block) is Block <==> block.start_frame <= producer.cue(block)
            < block.end(),
        producer.step_for(block) is Gap <==> block.start_frame > producer.cue(block),
{
}

/// The playhead never runs backwards while the presented count grows, and never
/// beyond the end once that is known.
pub proof fn the_playhead_is_monotone(producer: SceneProducer, a: u64, b: u64)
    requires
        a <= b,
        producer.next_sample >= producer.start_frame,
    ensures
        producer.media_position(a) <= producer.media_position(b),
        producer.ended ==> producer.media_position(b) <= producer.next_sample,
{
    let rate = producer.sample_rate as int;
    assert(a * rate <= b * rate) by (nonlinear_arith)
        requires
            a <= b,
            rate >= 0,
    ;
    vstd::arithmetic::div_mod::lemma_div_is_ordered(a * rate, b * rate, NATIVE_RATE as int);
}

/// The playhead stands as many frames behind the start as were presented, counted at the
/// media's own rate.
pub proof fn the_playhead_counts_what_was_presented(producer: SceneProducer, presented: u64)
    requires
        !producer.ended,
        producer.start_frame + presented * producer.sample_rate <= u64::MAX,
    ensures
        ({
            let run = producer.media_position(presented) - producer.start_frame;
            run * 48_000 <= presented * producer.sample_rate < (run + 1) * 48_000
        }),
        producer.media_position(0) == producer.start_frame,
{
    let total = presented * producer.sample_rate as int;
    assert(total / 48_000 <= total) by (nonlinear_arith)
        requires
            total >= 0,
    ;
    assert(total >= 0) by (nonlinear_arith)
        requires
            total == presented * producer.sample_rate,
    ;
}

/// Once the programme has ended, the playhead stops at its end.
pub proof fn the_playhead_stops_at_the_end(producer: SceneProducer, presented: u64)
    requires
        producer.ended,
        producer.next_sample >= 0,
    ensures
        producer.media_position(presented) <= producer.next_sample,
{
}

/// What is said of the output follows what the session does: it has ended where the
/// session has or nothing was left to play, it is ready until something was played, and
/// then paused or playing.
pub proof fn the_output_says_what_the_session_does(producer: SceneProducer, phase: NativePhase)
    ensures
        phase == NativePhase::Ended ==> producer.output_phase(phase) is Ended,
        producer.ended && producer.next_sample <= producer.target ==> producer.output_phase(
            phase,
        ) is Ended,
        !producer.ended && phase == NativePhase::Paused && producer.first ==> producer.output_phase(
            phase,
        ) is Ready,
        !producer.ended && phase == NativePhase::Paused && !producer.first
            ==> producer.output_phase(phase) is Paused,
        !producer.ended && phase == NativePhase::Running && producer.playing
            ==> producer.output_phase(phase) is Playing,
        !producer.ended && phase == NativePhase::Running && !producer.playing
            ==> producer.output_phase(phase) is Ready,
{
}

/// A block that starts where the last submission ended is submitted whole; one that
/// starts earlier from there on; and before one that starts later comes silence, at most
/// four thousand and ninety-six frames at once.
pub proof fn each_block_is_submitted_from_where_the_last_one_ended(
    producer: SceneProducer,
    block: DecodedSceneBlock,
)
    requires
        !producer.first,
        block.configuration_generation == producer.signature@.configuration_generation,
        block.duration_frames > 0,
    ensures
        ({
            let next = producer.next_sample;
            let step = producer.step_for(block);
            let end = block.start_frame + block.duration_frames;
            &&& block.start_frame <= next < end ==> step is Block && block.start_frame
                + step->offset == next
            &&& block.start_frame > next ==> step is Gap && step->start == next
                && step->Gap_duration == (if block.start_frame - next > 4096 {
                4096
            } else {
                block.start_frame - next
            })
            &&& end <= next ==> step is Idle
        }),
{
}

/// The first block of a playback is cued at its own start where that lies before the
/// target, so that what leads up to the target is rendered.
pub proof fn the_first_block_leads_up_to_the_target(
    producer: SceneProducer,
    block: DecodedSceneBlock,
)
    ensures
        producer.first && block.start_frame < producer.target ==> producer.cue(block)
            == block.start_frame,
        !producer.first || block.start_frame >= producer.target ==> producer.cue(block)
            == producer.next_sample,
        block.configuration_generation != producer.signature@.configuration_generation
            ==> producer.step_for(block) is Configure,
{
}

/// What was accepted moves the timeline: silence by its length, a block to its end, and the
/// end of the programme not at all.
pub proof fn what_was_accepted_moves_the_timeline(
    before: SceneProducer,
    after: SceneProducer,
    step: Step,
)
    requires
        SceneProducer::stepped(before, after, step),
        before.time_after(step) <= i64::MAX,
    ensures
        step is Gap ==> after.next_sample == before.next_sample + step->Gap_duration
            && after.pending == before.pending && !after.first && !after.ended == !before.ended,
        step is Block && before.pending is Some ==> {
            let block = before.pending->0;
            &&& after.next_sample == block.start_frame + block.duration_frames
            &&& after.pending is None
            &&& !after.first
            &&& after.history@.len() == before.history@.len() + 1
            &&& after.history@.last().start == block.start_frame
            &&& after.history@.last().duration == block.duration_frames
            &&& after.history@.last().complete == block.state_complete
            &&& after.history@.last().updates@ == block.metadata_updates@
        },
        step is End ==> after.ended && after.next_sample == before.next_sample,
        step is Idle || step is Configure ==> after == before,
{
}

/// What waits is planned first; then what the queue has; and once there is nothing of
/// either and the queue says so, the end.
pub proof fn what_waits_is_planned_first(
    before: (SceneProducer, SceneQueue),
    after: (SceneProducer, SceneQueue),
    r: Result<Step, String>,
)
    requires
        SceneProducer::planned(before, after, r),
        !before.0.ended,
        before.0.history_bytes < 16_777_216,
    ensures
        before.0.pending is Some ==> after.1.blocks@ == before.1.blocks@ && (r is Ok
            ==> r->Ok_0 == before.0.step_for(before.0.pending->0)),
        before.0.pending is None && before.1.key == before.0.reader.key && before.1.blocks@.len()
            > 0 ==> after.1.blocks@ == before.1.blocks@.drop_first() && (r is Ok ==> r->Ok_0
            == before.0.step_for(before.1.blocks@[0])),
        before.0.pending is None && before.1.key == before.0.reader.key && before.1.blocks@.len()
            == 0 && before.1.end_of_stream ==> r is Ok && r->Ok_0 is End && r->Ok_0->at
            == before.0.next_sample,
        before.0.pending is None && before.1.key == before.0.reader.key && before.1.blocks@.len()
            == 0 && !before.1.end_of_stream ==> r is Ok && r->Ok_0 is Idle,
{
}

/// A frame is over once the view has come to its end. Frames that are over are forgotten,
/// oldest first, but for the last one.
pub proof fn frames_that_are_over_are_forgotten(frames: Seq<MetadataFrame>, t: i64)
    ensures
        ({
            let left = unpresented(frames, t);
            &&& left.len() <= frames.len()
            &&& left == frames.skip(frames.len() - left.len())
            &&& frames.len() > 0 ==> left.len() > 0
            &&& left.len() > 1 && left[0].start + left[0].duration <= i64::MAX ==> left[0].start
                + left[0].duration > t
            &&& forall|i: int|
                0 <= i < frames.len() - left.len() ==> (#[trigger] frames[i]).last() <= t
        }),
    decreases frames.len(),
{
    if frames.len() > 1 && frames[0].last() <= t {
        let rest = frames.drop_first();
        frames_that_are_over_are_forgotten(rest, t);
        let left = unpresented(frames, t);
        assert(rest.skip(rest.len() - left.len()) =~= frames.skip(frames.len() - left.len()));
        assert forall|i: int| 0 <= i < frames.len() - left.len() implies (
        #[trigger] frames[i]).last() <= t by {
            if i > 0 {
                assert(rest[i - 1] == frames[i]);
            }
        }
    } else {
        assert(frames.skip(0) =~= frames);
    }
}

/// An object of the view is active exactly where its frame is complete, the metadata has it
/// active and placed, and its meaning is complete; it is drawn where the scene puts it.
pub proof fn a_presented_object_is_drawn_as_its_frame_has_it(
    view: ObjectView,
    frame: MetadataFrame,
    i: int,
    offset: u32,
    previous: u32,
)
    requires
        presented_view(view, frame, i, offset, previous),
        0 <= i < frame.objects@.len(),
    ensures
        ({
            let id = frame.objects@[i].0;
            let state = state_after(frame.updates@, id, frame.objects@[i].1, offset);
            &&& view.element_id == id
            &&& view.active <==> (frame.complete && state is Some && state->0.position is Some
                && state->0.metadata_active && state->0.semantic_complete)
            &&& state is Some && state->0.position is Some ==> {
                &&& view.position.x == state->0.position->0.x.unit()
                &&& view.position.y == state->0.position->0.z.unit()
                &&& view.position.z == state->0.position->0.y.opposite().unit()
                &&& state->0.linear_gain is Some ==> view.gain == state->0.linear_gain->0
            }
            &&& view.jumped <==> exists|j: int|
                0 <= j < frame.updates@.len() && (#[trigger] frame.updates@[j]).element_id == id
                    && frame.updates@[j].ramp_frames == 0 && previous
                    <= frame.updates@[j].offset_frames <= offset
        }),
{
    let id = frame.objects@[i].0;
    if view.jumped {
        let j = choose|j: int|
            0 <= j < frame.updates@.len() && placed_between(
                #[trigger] frame.updates@[j],
                id,
                previous,
                offset,
            );
        assert(frame.updates@[j].element_id == id);
    }
    if exists|j: int|
        0 <= j < frame.updates@.len() && (#[trigger] frame.updates@[j]).element_id == id
            && frame.updates@[j].ramp_frames == 0 && previous <= frame.updates@[j].offset_frames
            <= offset {
        let j = choose|j: int|
            0 <= j < frame.updates@.len() && (#[trigger] frame.updates@[j]).element_id == id
                && frame.updates@[j].ramp_frames == 0 && previous <= frame.updates@[j].offset_frames
                <= offset;
        assert(placed_between(frame.updates@[j], id, previous, offset));
    }
}

/// What is reported is what the session reports: its playhead, what it consumed and holds,
/// how often it ran dry, and whose clock it goes by.
pub proof fn the_session_is_reported_as_it_is(
    before: (SceneProducer, SceneViewMirror, OutputSnapshot),
    after: (SceneProducer, SceneViewMirror, OutputSnapshot),
    status: NativeStatus,
)
    requires
        SceneProducer::presents(before, after, status),
    ensures
        after.2.playhead_frames == before.0.media_position(status.presented),
        after.2.submitted_frames == status.consumed,
        after.2.queued_output_frames == Some(status.queued),
        after.2.underruns == status.underruns,
        after.2.clock is SystemMedia <==> status.media_clock,
        after.2.error is Some <==> status.recovering,
        after.2.phase == before.0.output_phase(status.phase),
        after.2.device_label == before.2.device_label,
        after.0.next_sample == before.0.next_sample,
        after.0.pending == before.0.pending,
        after.0.ended == before.0.ended,
{
}

/// The view's place within a frame is counted from the frame's start, and stays within it.
pub proof fn a_place_in_a_frame_is_counted_from_its_start(t: i64, start: i64, duration: u32)
    requires
        start <= t,
        duration > 0,
    ensures
        t < start + duration ==> start + offset_within(t, start, duration) == t,
        t >= start + duration ==> offset_within(t, start, duration) == duration - 1,
        t - start <= u32::MAX ==> start + offset_since(t, start) == t,
        offset_since(start, t) == 0,
{
}

/// Nothing is planned once the programme is over, or while sixteen mebibytes of metadata wait
/// for their presentation; and neither holds anything back by itself.
pub proof fn nothing_is_planned_while_enough_waits(
    before: (SceneProducer, SceneQueue),
    after: (SceneProducer, SceneQueue),
    r: Result<Step, String>,
)
    requires
        SceneProducer::planned(before, after, r),
    ensures
        before.0.ended ==> r is Ok && r->Ok_0 is Idle && after == before,
        before.0.history_bytes >= 16 * 1024 * 1024 ==> r is Ok && r->Ok_0 is Idle && after
            == before,
        !before.0.ended && before.0.history_bytes < 16 * 1024 * 1024 && before.0.pending is None
            && before.1.key == before.0.reader.key && before.1.blocks@.len() > 0
            ==> after.1.blocks@ == before.1.blocks@.drop_first(),
        !before.0.ended && before.0.history_bytes < 16 * 1024 * 1024 && before.0.pending is None
            && before.1.key == before.0.reader.key && before.1.blocks@.len() == 0
            && before.1.end_of_stream && before.1.ended(before.0.reader.key) ==> r is Ok
            && r->Ok_0 == (Step::End { at: before.0.next_sample }),
        !before.0.ended && before.0.history_bytes < 16 * 1024 * 1024 && before.0.pending is None
            && before.1.key != before.0.reader.key ==> after.1.blocks@ == before.1.blocks@,
{
}

} // verus!
