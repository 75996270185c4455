//! The scene view's clock where nothing renders sound.
//!
//! Without a renderer nothing drains the scene queue. The preview walks the
//! same queue at wall-clock rate and resolves objects through the same
//! functions as the audio path, so the positions it publishes are the ones that
//! would have been submitted. It does not touch the samples.
use super::consumer::{
    first_refused, loaded_at, refused_at, timeline_position, BlockCursor, Course, SceneConsumer,
};
use super::playout::{
    first_of, last_entered, lemma_last_entered, lemma_none_entered, lemma_places, lemma_reach,
    lemma_used_up, reach, segment, used_up,
};
use super::source::{jumped_before, lemma_jump_step, lemma_nothing_jumped, lemma_same_trouble};
use super::state::{
    a_block_that_passes_has_the_expected_identity, has_instant_update, jumps_within,
    listener_render_state, listener_state, planes_fit,
};
use crate::decoder::metadata::{element_state_at, state_after};
use crate::decoder::queue::{SceneQueue, SceneQueueReader};
use crate::decoder::scene::{DecodedSceneBlock, SceneObjectPcm};
use crate::decoder::signature::{element_ids, SceneSignature};
use crate::order::lemma_ascending;
use crate::scene_view::{ObjectView, SceneViewMirror, MAX_VIEW_OBJECTS};
use vstd::prelude::*;
use vstd::string::*;

verus! {

#[derive(Debug)]
pub struct ScenePreview {
    pub consumer: SceneConsumer,
    pub ended: bool,
    pub error: Option<String>,
    /// When the last tick of a running clock was, in nanoseconds. A paused
    /// clock has none, so a resume cannot consume the paused interval.
    pub last_tick: Option<u64>,
}

/// What the view shows of element `id` at `offset` into `block`.
pub open spec fn shown_state(
    view: ObjectView,
    block: DecodedSceneBlock,
    id: u64,
    offset: u32,
) -> bool {
    let object = block.objects@[first_of(block.objects@, id)];
    &&& view.element_id == id
    &&& (view.active, view.position, view.gain) == listener_state(
        state_after(block.metadata_updates@, id, object.initial_state, offset),
    )
}

/// The frame of a block that its last picture shows: where the walk stands, but
/// within the block.
pub open spec fn shown_offset(cursor: BlockCursor) -> u32 {
    if cursor.block.duration_frames == 0 {
        0
    } else if cursor.offset_frames < cursor.block.duration_frames {
        cursor.offset_frames
    } else {
        (cursor.block.duration_frames - 1) as u32
    }
}

fn find_object(objects: &[SceneObjectPcm], id: u64) -> (r: Option<usize>)
    ensures
        match r {
            Some(index) => index < objects@.len() && first_of(objects@, id) == index,
            None => first_of(objects@, id) < 0,
        },
{
    let mut index: usize = 0;
    while index < objects.len()
        invariant
            index <= objects@.len(),
            forall|i: int| 0 <= i < index ==> (#[trigger] objects@[i]).element_id != id,
        decreases objects.len() - index,
    {
        if objects[index].element_id == id {
            proof {
                lemma_first_of_is(objects@, id, index as int);
            }
            return Some(index);
        }
        index = index + 1;
    }
    proof {
        lemma_places(objects@, id);
    }
    None
}

proof fn lemma_first_of_is(objects: Seq<SceneObjectPcm>, id: u64, at: int)
    requires
        0 <= at < objects.len(),
        objects[at].element_id == id,
        forall|i: int| 0 <= i < at ==> (#[trigger] objects[i]).element_id != id,
    ensures
        first_of(objects, id) == at,
    decreases objects.len(),
{
    let rest = objects.drop_last();
    if at == objects.len() - 1 {
        lemma_places(rest, id);
        if first_of(rest, id) >= 0 {
            assert(rest[first_of(rest, id)] == objects[first_of(rest, id)]);
        }
    } else {
        assert forall|i: int| 0 <= i < at implies (#[trigger] rest[i]).element_id != id by {
            assert(rest[i] == objects[i]);
        }
        assert(rest[at] == objects[at]);
        lemma_first_of_is(rest, id, at);
    }
}

/// `flags` marks the slots of the view whose elements were placed outright in
/// the audio before frame `limit`.
pub open spec fn marks(
    flags: Seq<bool>,
    blocks: Seq<DecodedSceneBlock>,
    t0: int,
    limit: int,
    ids: Seq<u64>,
) -> bool {
    &&& flags.len() == MAX_VIEW_OBJECTS
    &&& forall|slot: int|
        0 <= slot < flags.len() ==> #[trigger] flags[slot] == (slot < ids.len() && jumped_before(
            blocks,
            t0,
            limit,
            ids[slot],
        ))
}

/// The cursor of a block that a timeline has entered, where it stands at `t`: ahead of
/// its first frame, within it, or at its end.
pub open spec fn cursor_at(block: DecodedSceneBlock, t: int) -> BlockCursor {
    BlockCursor {
        block,
        offset_frames: if t <= block.start_frame {
            0
        } else if t < block.end() {
            (t - block.start_frame) as u32
        } else {
            block.duration_frames
        },
    }
}

/// Where the cursor stands when the turn of block `b` comes: at the end of the last
/// block that was entered before.
pub open spec fn cursor_before(
    consumer: SceneConsumer,
    blocks: Seq<DecodedSceneBlock>,
    t0: int,
    b: int,
) -> Option<BlockCursor> {
    let t = reach(blocks, t0, b);
    let last = last_entered(blocks, t0, t + 1, b);
    if last < 0 {
        consumer.current
    } else {
        Some(cursor_at(blocks[last], t))
    }
}

/// `flags` marks what was placed outright on the course before frame `t`.
spec fn marks_course(course: Course, flags: Seq<bool>, t: int) -> bool {
    marks(flags, course.blocks, course.t0, t, course.ids())
}

impl ScenePreview {
    pub fn new(
        reader: SceneQueueReader,
        scene_signature: SceneSignature,
        sample_rate: u32,
        start_frame: u64,
    ) -> (r: Self)
        requires
            scene_signature@.wf(),
        ensures
            r.wf(),
            !r.ended,
            r.error is None,
            r.last_tick is None,
            r.consumer.current is None,
            r.consumer.reader == reader,
            r.consumer.sample_rate == sample_rate,
            r.consumer.scene_signature == scene_signature,
            r.consumer.timeline_frame == timeline_position(start_frame),
    {
        let ids: u64 = scene_signature.object_element_ids.len() as u64;
        let count: u32 = if ids > u32::MAX as u64 {
            u32::MAX
        } else {
            ids as u32
        };
        let has_lfe = scene_signature.lfe_element_id.is_some();
        ScenePreview {
            consumer: SceneConsumer::new(
                reader,
                sample_rate,
                count,
                has_lfe,
                scene_signature,
                start_frame,
            ),
            ended: false,
            error: None,
            last_tick: None,
        }
    }

    /// The preview is set up for the whole of its scene.
    pub open spec fn wf_setup(&self) -> bool {
        let identity = self.consumer.scene_signature@;
        let ids = identity.object_element_ids;
        &&& self.consumer.timeline_frame >= 0
        &&& identity.wf()
        &&& self.consumer.dynamic_object_count == (if ids.len() > u32::MAX {
            u32::MAX as int
        } else {
            ids.len() as int
        })
        &&& self.consumer.has_lfe == identity.lfe_element_id is Some
    }

    /// The cursor stands in a block of this scene: used up, or at the timeline,
    /// or ahead of it.
    pub open spec fn wf(&self) -> bool {
        &&& self.wf_setup()
        &&& self.consumer.current is Some ==> {
            let cursor = self.consumer.current->0;
            let place = cursor.block.start_frame + cursor.offset_frames;
            &&& self.consumer.turns_away(cursor.block) is None
            &&& planes_fit(cursor.block)
            &&& cursor.offset_frames <= cursor.block.duration_frames
            &&& cursor.offset_frames < cursor.block.duration_frames ==> {
                &&& place >= self.consumer.timeline_frame
                &&& cursor.offset_frames > 0 ==> place == self.consumer.timeline_frame
            }
        }
    }

    /// The block at hand has frames left.
    pub open spec fn in_block(&self) -> bool {
        self.consumer.current is Some && self.consumer.current->0.offset_frames
            < self.consumer.current->0.block.duration_frames
    }

    /// What is still to be walked: the rest of the block at hand, then the queue.
    pub open spec fn pending(&self, queue: &SceneQueue) -> Seq<DecodedSceneBlock> {
        if self.in_block() {
            seq![self.consumer.current->0.block] + self.consumer.bound(queue)
        } else {
            self.consumer.bound(queue)
        }
    }

    pub open spec fn reached(&self) -> int {
        if self.in_block() {
            self.consumer.current->0.block.end()
        } else {
            self.consumer.timeline_frame as int
        }
    }

    /// The message that stops the walk within the next `frames` frames, if any.
    pub open spec fn trouble(&self, queue: &SceneQueue, frames: i64) -> Option<Seq<char>> {
        self.consumer.trouble(
            self.consumer.bound(queue),
            self.reached(),
            self.consumer.timeline_frame + frames,
        )
    }

    pub fn playhead_frames(&self) -> (r: u64)
        ensures
            r == (if self.consumer.timeline_frame < 0 {
                0
            } else {
                self.consumer.timeline_frame as int
            }),
    {
        if self.consumer.timeline_frame < 0 {
            0
        } else {
            self.consumer.timeline_frame as u64
        }
    }

    pub fn has_ended(&self) -> (r: bool)
        ensures
            r == self.ended,
    {
        self.ended
    }

    pub fn error(&self) -> (r: Option<&str>)
        ensures
            match r {
                Some(error) => self.error is Some && self.error->0@ == error@,
                None => self.error is None,
            },
    {
        match &self.error {
            Some(error) => Some(error.as_str()),
            None => None,
        }
    }

    /// How much time to walk for a clock reading of `now` nanoseconds. The first
    /// reading after a pause only arms the clock.
    pub fn tick(&mut self, playing: bool, now: u64) -> (r: Option<u64>)
        ensures
            *final(self) == (ScenePreview {
                last_tick: if playing {
                    Some(now)
                } else {
                    None
                },
                ..*old(self)
            }),
            r == (if !playing || old(self).last_tick is None {
                None
            } else if now < old(self).last_tick->0 {
                Some(0)
            } else {
                Some((now - old(self).last_tick->0) as u64)
            }),
    {
        if !playing {
            self.last_tick = None;
            return None;
        }
        let previous = self.last_tick;
        self.last_tick = Some(now);
        match previous {
            Some(previous) => Some(now.saturating_sub(previous)),
            None => None,
        }
    }

    /// There is something to show where the walk stands: not before the first block,
    /// and not ahead of a block while a gap is crossed.
    pub open spec fn has_view(&self) -> bool {
        self.consumer.current is Some && self.consumer.current->0.block.start_frame
            <= self.consumer.timeline_frame
    }

    /// The picture published after a walk that `flags` marks.
    pub open spec fn publishes(
        &self,
        flags: Seq<bool>,
        before: SceneViewMirror,
        after: SceneViewMirror,
    ) -> bool {
        let ids = self.consumer.scene_signature@.object_element_ids;
        if !self.has_view() {
            after == before
        } else {
            let cursor = self.consumer.current->0;
            exists|views: Seq<ObjectView>|
                {
                    &&& #[trigger] after.shows(
                        self.consumer.reader.key,
                        views,
                        self.consumer.timeline_frame,
                        self.consumer.sample_rate,
                    )
                    &&& views.len() == ids.len()
                    &&& forall|slot: int|
                        0 <= slot < views.len() ==> shown_state(
                            #[trigger] views[slot],
                            cursor.block,
                            ids[slot],
                            shown_offset(cursor),
                        ) && views[slot].jumped == (slot < flags.len() && flags[slot])
                }
        }
    }

    /// Resolve every element where the walk stopped and hand it to the mirror.
    /// A block that starts behind the timeline is not shown yet.
    fn publish(&self, jumped: &Vec<bool>, mirror: &mut SceneViewMirror) -> (r: bool)
        requires
            self.wf(),
        ensures
            r == self.has_view(),
            self.publishes(jumped@, *old(mirror), *final(mirror)),
    {
        let cursor = match &self.consumer.current {
            Some(cursor) => cursor,
            None => {
                return false;
            },
        };
        if cursor.block.start_frame > self.consumer.timeline_frame {
            return false;
        }
        let last: u32 = cursor.block.duration_frames.saturating_sub(1);
        let offset: u32 = if cursor.offset_frames < last {
            cursor.offset_frames
        } else {
            last
        };
        assert(offset == shown_offset(*cursor));
        let ids = self.consumer.scene_signature.object_element_ids();
        proof {
            a_block_that_passes_has_the_expected_identity(
                cursor.block,
                self.consumer.sample_rate,
                self.consumer.dynamic_object_count,
                self.consumer.has_lfe,
                self.consumer.scene_signature@,
            );
            lemma_ascending(element_ids(cursor.block.objects@));
        }
        let mut views: Vec<ObjectView> = Vec::new();
        let mut slot: usize = 0;
        while slot < ids.len()
            invariant
                slot <= ids@.len(),
                views@.len() == slot,
                ids@ == self.consumer.scene_signature@.object_element_ids,
                forall|id: u64| #[trigger]
                    ids@.contains(id) ==> element_ids(cursor.block.objects@).contains(id),
                forall|i: int|
                    0 <= i < slot ==> shown_state(
                        #[trigger] views@[i],
                        cursor.block,
                        ids@[i],
                        offset,
                    ) && views@[i].jumped == (i < jumped@.len() && jumped@[i]),
            decreases ids.len() - slot,
        {
            let id: u64 = ids[slot];
            proof {
                assert(ids@.contains(id));
                let i = choose|i: int|
                    0 <= i < element_ids(cursor.block.objects@).len() && element_ids(
                        cursor.block.objects@,
                    )[i] == id;
                assert(cursor.block.objects@[i].element_id == id);
                lemma_places(cursor.block.objects@, id);
            }
            if let Some(found) = find_object(cursor.block.objects(), id) {
                let object = &cursor.block.objects[found];
                let state = element_state_at(&cursor.block, id, &object.initial_state, offset);
                let (active, position, gain) = listener_render_state(state);
                views.push(
                    ObjectView {
                        element_id: id,
                        active,
                        position,
                        gain,
                        jumped: slot < jumped.len() && jumped[slot],
                    },
                );
            }
            slot = slot + 1;
        }
        let ghost shown = views@;
        mirror.write(
            self.consumer.reader.key,
            views,
            self.consumer.timeline_frame,
            self.consumer.sample_rate,
        );
        assert(mirror.shows(
            self.consumer.reader.key,
            shown,
            self.consumer.timeline_frame,
            self.consumer.sample_rate,
        ));
        true
    }

    /// What a walk of `frames` frames that nothing stops comes to.
    pub open spec fn walked(
        before: (ScenePreview, SceneQueue, SceneViewMirror),
        after: (ScenePreview, SceneQueue, SceneViewMirror),
        frames: i64,
    ) -> bool {
        let blocks = before.0.pending(&before.1);
        let t0 = before.0.consumer.timeline_frame as int;
        let limit = t0 + frames;
        let end = reach(blocks, t0, blocks.len() as int);
        let last = last_entered(blocks, t0, limit, blocks.len() as int);
        let ids = before.0.consumer.scene_signature@.object_element_ids;
        // The clock runs as far as asked, but not beyond the data.
        &&& after.0.consumer.timeline_frame == (if end < t0 + frames {
            end
        } else {
            t0 + frames
        })
        &&& after.0.error is None
        &&& after.0.ended == (end < t0 + frames && after.1.ended(before.0.consumer.reader.key))
        // What is left is what was there, less the blocks that are over.
        &&& after.0.pending(&after.1) == blocks.skip(used_up(blocks, t0, limit))
        // The block at hand is the last one that was entered, though it may be over.
        &&& after.0.consumer.current == (if last < 0 {
            before.0.consumer.current
        } else {
            Some(cursor_at(blocks[last], limit))
        })
        &&& exists|flags: Seq<bool>|
            {
                &&& #[trigger] after.0.publishes(flags, before.2, after.2)
                &&& marks(flags, blocks, t0, after.0.consumer.timeline_frame as int, ids)
            }
    }

    /// What a walk comes to that a block of another scene stops: the clock stands
    /// at that block's boundary, and the picture stays.
    pub open spec fn stopped(
        before: (ScenePreview, SceneQueue, SceneViewMirror),
        after: (ScenePreview, SceneQueue, SceneViewMirror),
        message: Seq<char>,
    ) -> bool {
        let blocks = before.0.pending(&before.1);
        let t0 = before.0.consumer.timeline_frame as int;
        &&& after.0.error is Some
        &&& after.0.error->0@ == message
        &&& !after.0.ended
        &&& after.2 == before.2
        &&& exists|b: int|
            {
                &&& #[trigger] first_refused(before.0.consumer, blocks, b, message)
                &&& after.0.consumer.timeline_frame == reach(blocks, t0, b)
                &&& after.0.pending(&after.1) == blocks.skip(b + 1)
                &&& after.0.consumer.current == cursor_before(before.0.consumer, blocks, t0, b)
            }
    }

    /// Move the preview forward by `frames` frames and publish what it lands on.
    ///
    /// Returns whether anything was published. An error or the end of the media is
    /// final: the walk then stays where it is.
    pub fn advance(
        &mut self,
        queue: &mut SceneQueue,
        mirror: &mut SceneViewMirror,
        frames: i64,
    ) -> (r: bool)
        requires
            old(self).wf(),
            old(queue).wf(),
        ensures
            final(self).wf(),
            final(queue).wf(),
            final(queue).is_drawn_by(old(queue), old(self).consumer.reader.key),
            final(self).consumer.same_setup(&old(self).consumer),
            final(self).last_tick == old(self).last_tick,
            if old(self).ended || old(self).error is Some || frames <= 0 {
                !r && *final(self) == *old(self) && *final(queue) == *old(queue) && *final(mirror)
                    == *old(mirror)
            } else {
                match old(self).trouble(old(queue), frames) {
                    Some(message) => !r && ScenePreview::stopped(
                        (*old(self), *old(queue), *old(mirror)),
                        (*final(self), *final(queue), *final(mirror)),
                        message,
                    ),
                    None => r == final(self).has_view() && ScenePreview::walked(
                        (*old(self), *old(queue), *old(mirror)),
                        (*final(self), *final(queue), *final(mirror)),
                        frames,
                    ),
                }
            },
    {
        if self.ended || self.error.is_some() || frames <= 0 {
            return false;
        }
        let ghost course = Course {
            blocks: self.pending(queue),
            t0: self.consumer.timeline_frame as int,
            limit: self.consumer.timeline_frame + frames,
            setup: self.consumer,
            trouble: self.trouble(queue, frames),
        };
        let mut jumped: Vec<bool> = Vec::new();
        while jumped.len() < MAX_VIEW_OBJECTS
            invariant
                jumped@.len() <= MAX_VIEW_OBJECTS,
                forall|i: int| 0 <= i < jumped@.len() ==> !jumped@[i],
            decreases MAX_VIEW_OBJECTS - jumped.len(),
        {
            jumped.push(false);
        }
        proof {
            self.lemma_course_begins(queue, course);
            assert forall|slot: int| 0 <= slot < MAX_VIEW_OBJECTS implies #[trigger] jumped@[slot]
                == (slot < course.ids().len() && jumped_before(
                course.blocks,
                course.t0,
                course.t0,
                course.ids()[slot],
            )) by {
                lemma_nothing_jumped(course.blocks, course.t0, course.ids()[slot]);
            }
        }
        let mut remaining: i64 = frames;
        let mut held = false;
        while remaining > 0 && !held
            invariant
                0 <= remaining <= frames,
                frames > 0,
                self.is_on(queue, course),
                self.consumer.timeline_frame == course.limit - remaining,
                marks_course(course, jumped@, self.consumer.timeline_frame as int),
                queue.is_drawn_by(old(queue), course.setup.reader.key),
                *mirror == *old(mirror),
                self.last_tick == old(self).last_tick,
                self.error is None,
                !held ==> !self.ended,
                held ==> remaining > 0 && self.pending(queue).len() == 0 && self.ended
                    == queue.ended(course.setup.reader.key),
                course.setup == old(self).consumer,
                course.blocks == old(self).pending(old(queue)),
                course.t0 == old(self).consumer.timeline_frame,
                course.limit == course.t0 + frames,
                course.trouble == old(self).trouble(old(queue), frames),
                !old(self).ended && old(self).error is None,
            decreases remaining, (if held {
                0int
            } else {
                1int
            }),
        {
            let exhausted = match &self.consumer.current {
                Some(cursor) => cursor.offset_frames >= cursor.block.duration_frames,
                None => true,
            };
            if exhausted {
                match self.enter(queue, Ghost(course)) {
                    Err(message) => {
                        self.error = Some(message);
                        return false;
                    },
                    Ok(false) => {
                        self.ended = self.consumer.reader.is_end_of_stream(queue);
                        held = true;
                        continue ;
                    },
                    Ok(true) => {},
                }
            } else {
                proof {
                    self.lemma_in_block(queue, course);
                }
            }
            let walked = self.pass(remaining, &mut jumped, queue, Ghost(course));
            remaining = remaining - walked;
        }
        proof {
            self.lemma_course_ends(queue, course);
        }
        let published = self.publish(&jumped, mirror);
        proof {
            let before = (*old(self), *old(queue), *old(mirror));
            let after = (*self, *queue, *mirror);
            assert(marks(
                jumped@,
                course.blocks,
                course.t0,
                self.consumer.timeline_frame as int,
                course.ids(),
            ));
            assert(after.0.publishes(jumped@, before.2, after.2));
            assert(ScenePreview::walked(before, after, frames));
        }
        published
    }

    /// The walk keeps to its course: it has used up blocks from the front, and stands
    /// in or behind the last one that it entered.
    spec fn is_on(&self, queue: &SceneQueue, course: Course) -> bool {
        let (blocks, t0, limit) = (course.blocks, course.t0, course.limit);
        let t = self.consumer.timeline_frame as int;
        let done = blocks.len() - self.pending(queue).len();
        let last = self.entered(queue, course);
        &&& self.wf()
        &&& queue.wf()
        &&& self.consumer.same_setup(&course.setup)
        &&& t0 < limit
        &&& t0 <= t <= limit
        &&& 0 <= done
        &&& self.pending(queue) == blocks.skip(done)
        &&& forall|j: int| 0 <= j < done ==> course.setup.turns_away(#[trigger] blocks[j]) is None
        &&& course.trouble == course.setup.trouble(
            self.consumer.bound(queue),
            self.reached(),
            limit,
        )
        &&& reach(blocks, t0, self.seen(queue, course)) >= t
        &&& self.consumer.current == (if last < 0 {
            course.setup.current
        } else {
            Some(cursor_at(blocks[last], t))
        })
        &&& t > t0 ==> last >= 0
        &&& self.in_block() ==> last == done
        &&& t < limit ==> {
            &&& reach(blocks, t0, done) <= t
            &&& self.in_block() ==> segment(blocks, t0, limit, done).0
                == self.consumer.current->0.offset_frames
            &&& !self.in_block() ==> reach(blocks, t0, done) == t && (last >= 0
                ==> blocks[last].end() <= t)
        }
        &&& t == limit && !self.in_block() && last >= 0 ==> {
            &&& last == done - 1
            &&& blocks[last].end() >= t
            &&& blocks[last].duration_frames > 0 ==> blocks[last].end() == t
        }
    }

    /// How many blocks of its course the walk has met.
    spec fn seen(&self, queue: &SceneQueue, course: Course) -> int {
        let done = course.blocks.len() - self.pending(queue).len();
        if self.in_block() {
            done + 1
        } else {
            done
        }
    }

    /// The last block of its course that the walk has entered, or -1.
    spec fn entered(&self, queue: &SceneQueue, course: Course) -> int {
        last_entered(course.blocks, course.t0, course.limit, self.seen(queue, course))
    }

    /// The walk has entered block `b` and stands ahead of it or in it.
    spec fn is_at(&self, queue: &SceneQueue, course: Course, b: int) -> bool {
        let (blocks, t0, limit) = (course.blocks, course.t0, course.limit);
        let t = self.consumer.timeline_frame as int;
        &&& self.consumer.same_setup(&course.setup)
        &&& queue.wf()
        &&& self.wf_setup()
        &&& 0 <= b < blocks.len()
        &&& t0 <= t < limit
        &&& self.consumer.bound(queue) == blocks.skip(b + 1)
        &&& self.consumer.current == Some(cursor_at(blocks[b], t))
        &&& reach(blocks, t0, b) <= t < blocks[b].end()
        &&& last_entered(blocks, t0, limit, b + 1) == b
        &&& segment(blocks, t0, limit, b).0 == self.consumer.current->0.offset_frames
        &&& planes_fit(blocks[b])
        &&& forall|j: int| 0 <= j <= b ==> course.setup.turns_away(#[trigger] blocks[j]) is None
        &&& course.trouble == course.setup.trouble(
            self.consumer.bound(queue),
            blocks[b].end(),
            limit,
        )
    }

    proof fn lemma_course_begins(&self, queue: &SceneQueue, course: Course)
        requires
            self.wf(),
            queue.wf(),
            course.blocks == self.pending(queue),
            course.t0 == self.consumer.timeline_frame,
            course.t0 < course.limit,
            course.setup == self.consumer,
            course.trouble == self.consumer.trouble(
                self.consumer.bound(queue),
                self.reached(),
                course.limit,
            ),
        ensures
            self.is_on(queue, course),
    {
        reveal_with_fuel(last_entered, 2);
        reveal_with_fuel(reach, 2);
        assert(course.blocks.skip(0) =~= course.blocks);
    }

    proof fn lemma_in_block(&self, queue: &SceneQueue, course: Course)
        requires
            self.is_on(queue, course),
            self.in_block(),
            self.consumer.timeline_frame < course.limit,
        ensures
            self.is_at(queue, course, course.blocks.len() - self.pending(queue).len()),
    {
        let blocks = course.blocks;
        let done = blocks.len() - self.pending(queue).len();
        let cursor = self.consumer.current->0;
        let rest = self.consumer.bound(queue);
        assert((seq![cursor.block] + rest)[0] == blocks.skip(done)[0]);
        assert forall|j: int| 0 <= j < rest.len() implies rest[j] == blocks[done + 1 + j] by {
            assert((seq![cursor.block] + rest)[j + 1] == blocks.skip(done)[j + 1]);
        }
        assert(rest =~= blocks.skip(done + 1));
    }

    proof fn lemma_course_ends(&self, queue: &SceneQueue, course: Course)
        requires
            self.is_on(queue, course),
            self.consumer.timeline_frame == course.limit || (self.pending(queue).len() == 0
                && !self.in_block()),
        ensures
            ({
                let (blocks, t0, limit) = (course.blocks, course.t0, course.limit);
                let last = last_entered(blocks, t0, limit, blocks.len() as int);
                let end = reach(blocks, t0, blocks.len() as int);
                &&& self.pending(queue) == blocks.skip(used_up(blocks, t0, limit))
                &&& self.consumer.current == (if last < 0 {
                    course.setup.current
                } else {
                    Some(cursor_at(blocks[last], self.consumer.timeline_frame as int))
                })
                &&& last >= 0 ==> cursor_at(blocks[last], self.consumer.timeline_frame as int)
                    == cursor_at(blocks[last], limit)
                &&& self.consumer.timeline_frame == (if end < limit {
                    end
                } else {
                    limit
                })
            }),
    {
        let (blocks, t0, limit) = (course.blocks, course.t0, course.limit);
        let n = blocks.len() as int;
        let seen = self.seen(queue, course);
        lemma_last_entered(blocks, t0, limit, seen);
        lemma_reach_grows(blocks, t0, seen, n);
        if self.consumer.timeline_frame == limit {
            lemma_none_entered(blocks, t0, limit, seen, n);
        }
    }

    /// Takes the next block that is not over, if there is one.
    fn enter(&mut self, queue: &mut SceneQueue, Ghost(course): Ghost<Course>) -> (r: Result<
        bool,
        String,
    >)
        requires
            old(self).is_on(old(queue), course),
            !old(self).in_block(),
            old(self).consumer.timeline_frame < course.limit,
        ensures
            final(self).last_tick == old(self).last_tick,
            final(self).error == old(self).error,
            final(self).ended == old(self).ended,
            final(self).consumer.same_setup(&course.setup),
            final(self).consumer.timeline_frame == old(self).consumer.timeline_frame,
            final(queue).wf(),
            final(queue).is_drawn_by(old(queue), course.setup.reader.key),
            match r {
                Err(message) => {
                    &&& final(self).wf()
                    &&& course.trouble == Some(message@)
                    &&& exists|b: int|
                        {
                            &&& #[trigger] course.refuses(b, message@)
                            &&& final(self).consumer.timeline_frame == reach(
                                course.blocks,
                                course.t0,
                                b,
                            )
                            &&& final(self).pending(final(queue)) == course.blocks.skip(b + 1)
                            &&& final(self).consumer.current == cursor_before(
                                course.setup,
                                course.blocks,
                                course.t0,
                                b,
                            )
                        }
                },
                Ok(false) => final(self).is_on(final(queue), course) && final(self).pending(
                    final(queue),
                ).len() == 0 && !final(self).in_block(),
                Ok(true) => final(self).is_at(
                    final(queue),
                    course,
                    course.blocks.len() - final(self).consumer.bound(final(queue)).len() - 1,
                ),
            },
    {
        let ghost before = self.consumer;
        let ghost waiting = self.consumer.bound(queue);
        let ghost t = self.consumer.timeline_frame as int;
        let ghost done = course.blocks.len() - self.pending(queue).len();
        let ghost last = self.entered(queue, course);
        proof {
            assert(waiting =~= course.blocks.skip(done));
            lemma_reach(course.blocks, course.t0, done);
            lemma_last_entered(course.blocks, course.t0, course.limit, done);
            lemma_same_trouble(before, course.setup, waiting, t, course.limit);
        }
        let r = self.consumer.load_next_block(queue);
        proof {
            assert(before.trouble(waiting, t, course.limit) == course.trouble);
            match &r {
                Err(message) => {
                    let k = choose|k: int| #[trigger]
                        refused_at(before, waiting, self.consumer.bound(queue), k, message@);
                    course.lemma_passed(before, waiting, done, k);
                    lemma_same_entered(course.blocks, course.t0, course.limit, done + k);
                    assert(waiting[k] == course.blocks[done + k]);
                    assert(course.refuses(done + k, message@));
                    assert(self.pending(queue) =~= course.blocks.skip(done + k + 1));
                },
                Ok(false) => {
                    course.lemma_passed(before, waiting, done, waiting.len() as int);
                    assert(self.pending(queue) =~= course.blocks.skip(course.blocks.len() as int));
                },
                Ok(true) => {
                    let k = choose|k: int| #[trigger]
                        loaded_at(before, self.consumer, waiting, self.consumer.bound(queue), k);
                    course.lemma_passed(before, waiting, done, k);
                    lemma_same_trouble(
                        before,
                        course.setup,
                        self.consumer.bound(queue),
                        waiting[k].end(),
                        course.limit,
                    );
                    assert(waiting[k] == course.blocks[done + k]);
                    assert(self.consumer.bound(queue) =~= course.blocks.skip(done + k + 1));
                    assert(before.trouble(waiting, t, course.limit) == before.trouble(
                        self.consumer.bound(queue),
                        waiting[k].end(),
                        course.limit,
                    ));
                },
            }
        }
        r
    }

    /// Walks on by at most `remaining` frames: across the gap ahead of the block at hand,
    /// or within it.
    fn pass(
        &mut self,
        remaining: i64,
        jumped: &mut Vec<bool>,
        queue: &SceneQueue,
        Ghost(course): Ghost<Course>,
    ) -> (r: i64)
        requires
            old(self).is_at(
                queue,
                course,
                course.blocks.len() - old(self).consumer.bound(queue).len() - 1,
            ),
            remaining == course.limit - old(self).consumer.timeline_frame,
            marks_course(course, old(jumped)@, old(self).consumer.timeline_frame as int),
        ensures
            0 < r <= remaining,
            final(self).is_on(queue, course),
            final(self).consumer.timeline_frame == old(self).consumer.timeline_frame + r,
            marks_course(course, final(jumped)@, final(self).consumer.timeline_frame as int),
            final(self).last_tick == old(self).last_tick,
            final(self).error == old(self).error,
            final(self).ended == old(self).ended,
    {
        let ghost b = course.blocks.len() - self.consumer.bound(queue).len() - 1;
        let ghost (blocks, t0, ids) = (course.blocks, course.t0, course.ids());
        let ghost now = self.consumer.timeline_frame as int;
        let mut cursor = match self.consumer.current.take() {
            Some(cursor) => cursor,
            None => {
                return remaining;
            },
        };
        proof {
            lemma_reach(blocks, t0, b);
            assert(seq![cursor.block] + self.consumer.bound(queue) =~= blocks.skip(b));
        }
        let place: i64 = cursor.block.start_frame + cursor.offset_frames as i64;
        if place > self.consumer.timeline_frame {
            let ahead: i64 = place - self.consumer.timeline_frame;
            let gap: i64 = if ahead < remaining {
                ahead
            } else {
                remaining
            };
            proof {
                assert forall|slot: int| 0 <= slot < MAX_VIEW_OBJECTS implies #[trigger] jumped@[slot]
                    == (slot < ids.len() && jumped_before(blocks, t0, now + gap, ids[slot])) by {
                    lemma_jump_step(blocks, t0, b, now, now + gap, ids[slot]);
                }
            }
            self.consumer.timeline_frame = self.consumer.timeline_frame + gap;
            self.consumer.current = Some(cursor);
            proof {
                self.lemma_passed_on(queue, course, b, now);
            }
            return gap;
        }
        let available: i64 = (cursor.block.duration_frames - cursor.offset_frames) as i64;
        let take: i64 = if available < remaining {
            available
        } else {
            remaining
        };
        let span_end: u32 = cursor.offset_frames + take as u32;
        let ghost flags = jumped@;
        self.mark_jumps(&cursor, span_end, jumped, Ghost(ids));
        proof {
            assert(segment(blocks, t0, now + take, b) == (
                cursor.offset_frames as int,
                span_end as int,
            ));
            assert forall|i: int| 0 <= i < MAX_VIEW_OBJECTS implies #[trigger] jumped@[i] == (i
                < ids.len() && jumped_before(blocks, t0, now + take, ids[i])) by {
                lemma_jump_step(blocks, t0, b, now, now + take, ids[i]);
                assert(flags[i] == (i < ids.len() && jumped_before(blocks, t0, now, ids[i])));
            }
        }
        cursor.offset_frames = span_end;
        self.consumer.timeline_frame = self.consumer.timeline_frame + take;
        self.consumer.current = Some(cursor);
        proof {
            self.lemma_passed_on(queue, course, b, now);
        }
        take
    }

    /// Marks the slots whose elements are placed outright within a stretch of a block.
    fn mark_jumps(
        &self,
        cursor: &BlockCursor,
        span_end: u32,
        jumped: &mut Vec<bool>,
        Ghost(ids): Ghost<Seq<u64>>,
    )
        requires
            ids == self.consumer.scene_signature@.object_element_ids,
            old(jumped)@.len() == MAX_VIEW_OBJECTS,
        ensures
            final(jumped)@.len() == MAX_VIEW_OBJECTS,
            forall|i: int|
                0 <= i < MAX_VIEW_OBJECTS ==> #[trigger] final(jumped)@[i] == (old(jumped)@[i] || (i
                    < ids.len() && jumps_within(
                    cursor.block.metadata_updates@,
                    ids[i],
                    cursor.offset_frames,
                    span_end,
                ))),
    {
        let slots = self.consumer.scene_signature.object_element_ids();
        let mut slot: usize = 0;
        let ghost flags = jumped@;
        while slot < slots.len() && slot < MAX_VIEW_OBJECTS
            invariant
                slot <= slots@.len(),
                slot <= MAX_VIEW_OBJECTS,
                slots@ == ids,
                jumped@.len() == MAX_VIEW_OBJECTS,
                flags.len() == MAX_VIEW_OBJECTS,
                forall|i: int|
                    0 <= i < slot ==> #[trigger] jumped@[i] == (flags[i] || jumps_within(
                        cursor.block.metadata_updates@,
                        ids[i],
                        cursor.offset_frames,
                        span_end,
                    )),
                forall|i: int| slot <= i < MAX_VIEW_OBJECTS ==> jumped@[i] == flags[i],
            decreases slots.len() - slot,
        {
            if has_instant_update(&cursor.block, slots[slot], cursor.offset_frames, span_end) {
                jumped.set(slot, true);
            }
            slot = slot + 1;
        }
    }

    /// A walk that has moved within block `b`, or toward it, is on its course.
    proof fn lemma_passed_on(&self, queue: &SceneQueue, course: Course, b: int, before: int)
        requires
            self.consumer.same_setup(&course.setup),
            queue.wf(),
            self.wf_setup(),
            0 <= b < course.blocks.len(),
            course.t0 <= before < self.consumer.timeline_frame <= course.limit,
            self.consumer.bound(queue) == course.blocks.skip(b + 1),
            self.consumer.current == Some(
                cursor_at(course.blocks[b], self.consumer.timeline_frame as int),
            ),
            reach(course.blocks, course.t0, b) <= before < course.blocks[b].end(),
            self.consumer.timeline_frame <= course.blocks[b].end(),
            self.consumer.timeline_frame == course.limit || self.consumer.timeline_frame
                == course.blocks[b].start_frame || self.consumer.timeline_frame
                == course.blocks[b].end(),
            last_entered(course.blocks, course.t0, course.limit, b + 1) == b,
            planes_fit(course.blocks[b]),
            forall|j: int|
                0 <= j <= b ==> course.setup.turns_away(#[trigger] course.blocks[j]) is None,
            course.trouble == course.setup.trouble(
                self.consumer.bound(queue),
                course.blocks[b].end(),
                course.limit,
            ),
        ensures
            self.is_on(queue, course),
    {
        let (blocks, t0) = (course.blocks, course.t0);
        lemma_reach(blocks, t0, b);
        assert(seq![blocks[b]] + self.consumer.bound(queue) =~= blocks.skip(b));
        assert(reach(blocks, t0, b + 1) == blocks[b].end());
        if self.in_block() {
            assert(self.pending(queue) == blocks.skip(b));
        } else {
            assert(self.pending(queue) == blocks.skip(b + 1));
        }
    }
}

/// A walk loses no block: what it leaves behind is over, or has no frames.
pub proof fn a_walk_leaves_only_what_is_over(
    before: (ScenePreview, SceneQueue, SceneViewMirror),
    after: (ScenePreview, SceneQueue, SceneViewMirror),
    frames: i64,
    j: int,
)
    requires
        frames > 0,
        ScenePreview::walked(before, after, frames),
        0 <= j < before.0.pending(&before.1).len() - after.0.pending(&after.1).len(),
    ensures
        before.0.pending(&before.1)[j].end() <= after.0.consumer.timeline_frame
            || before.0.pending(&before.1)[j].duration_frames == 0,
{
    lemma_used_up(
        before.0.pending(&before.1),
        before.0.consumer.timeline_frame as int,
        before.0.consumer.timeline_frame + frames,
    );
}

/// While a gap is crossed, the future block does not appear: nothing is published, and
/// the picture stays.
pub proof fn nothing_is_shown_inside_a_gap(
    before: (ScenePreview, SceneQueue, SceneViewMirror),
    after: (ScenePreview, SceneQueue, SceneViewMirror),
    frames: i64,
)
    requires
        frames > 0,
        ScenePreview::walked(before, after, frames),
        before.0.pending(&before.1).len() > 0,
        before.0.pending(&before.1)[0].start_frame > before.0.consumer.timeline_frame + frames,
    ensures
        after.0.consumer.timeline_frame == before.0.consumer.timeline_frame + frames,
        !after.0.has_view(),
        after.2 == before.2,
{
    let blocks = before.0.pending(&before.1);
    let t0 = before.0.consumer.timeline_frame as int;
    reveal_with_fuel(reach, 2);
    reveal_with_fuel(last_entered, 2);
    lemma_reach_grows(blocks, t0, 1, blocks.len() as int);
    lemma_none_entered(blocks, t0, t0 + frames, 1, blocks.len() as int);
}

/// More blocks never carry a timeline less far.
proof fn lemma_reach_grows(blocks: Seq<DecodedSceneBlock>, t0: int, from: int, to: int)
    requires
        0 <= from <= to <= blocks.len(),
    ensures
        reach(blocks, t0, from) <= reach(blocks, t0, to),
    decreases to - from,
{
    if from < to {
        lemma_reach_grows(blocks, t0, from, to - 1);
    }
}

/// Up to the block whose turn has come, it does not matter how much further the
/// timeline is to run.
proof fn lemma_same_entered(blocks: Seq<DecodedSceneBlock>, t0: int, limit: int, n: int)
    requires
        0 <= n <= blocks.len(),
        reach(blocks, t0, n) < limit,
    ensures
        last_entered(blocks, t0, limit, n) == last_entered(
            blocks,
            t0,
            reach(blocks, t0, n) + 1,
            n,
        ),
{
    lemma_same_entered_below(blocks, t0, limit, reach(blocks, t0, n) + 1, n, n);
}

proof fn lemma_same_entered_below(
    blocks: Seq<DecodedSceneBlock>,
    t0: int,
    a: int,
    b: int,
    k: int,
    n: int,
)
    requires
        0 <= k <= n <= blocks.len(),
        reach(blocks, t0, n) < a,
        reach(blocks, t0, n) < b,
    ensures
        last_entered(blocks, t0, a, k) == last_entered(blocks, t0, b, k),
    decreases k,
{
    if k > 0 {
        lemma_reach_grows(blocks, t0, k - 1, n);
        lemma_same_entered_below(blocks, t0, a, b, k - 1, n);
    }
}

/// A walk moves the clock as far as it was asked, where there is data that far, and to the
/// end of the data where there is not. It ends only where the data does.
pub proof fn a_walk_moves_as_far_as_it_was_asked(
    before: (ScenePreview, SceneQueue, SceneViewMirror),
    after: (ScenePreview, SceneQueue, SceneViewMirror),
    frames: i64,
    i: int,
)
    requires
        ScenePreview::walked(before, after, frames),
        frames > 0,
        before.0.pending(&before.1).len() > 0,
        0 <= i < before.0.pending(&before.1).len(),
    ensures
        ({
            let blocks = before.0.pending(&before.1);
            let t0 = before.0.consumer.timeline_frame;
            let t1 = after.0.consumer.timeline_frame;
            &&& t0 <= t1 <= t0 + frames
            &&& blocks[i].start_frame + blocks[i].duration_frames >= t0 + frames ==> t1 == t0
                + frames && !after.0.ended
            &&& after.0.ended ==> after.1.ended(before.0.consumer.reader.key)
            &&& after.0.error is None
        }),
{
    let blocks = before.0.pending(&before.1);
    lemma_reach(blocks, before.0.consumer.timeline_frame as int, blocks.len() as int);
    assert(blocks[i].end() == blocks[i].start_frame + blocks[i].duration_frames);
}

/// A walk without data stays where it is.
pub proof fn a_walk_without_data_stays(
    before: (ScenePreview, SceneQueue, SceneViewMirror),
    after: (ScenePreview, SceneQueue, SceneViewMirror),
    frames: i64,
)
    requires
        ScenePreview::walked(before, after, frames),
        frames > 0,
        before.0.pending(&before.1).len() == 0,
    ensures
        after.0.consumer.timeline_frame == before.0.consumer.timeline_frame,
        after.0.consumer.current == before.0.consumer.current,
        after.0.ended == after.1.ended(before.0.consumer.reader.key),
{
}

/// An object is shown as its block has it: active where the metadata has it active and its
/// meaning is complete, and where the scene puts it.
pub proof fn an_object_is_shown_as_its_block_has_it(
    view: ObjectView,
    block: DecodedSceneBlock,
    o: int,
    offset: u32,
)
    requires
        0 <= o < block.objects@.len(),
        forall|n: int|
            0 <= n < block.objects@.len() && n != o ==> (#[trigger] block.objects@[n]).element_id
                != block.objects@[o].element_id,
        shown_state(view, block, block.objects@[o].element_id, offset),
    ensures
        ({
            let object = block.objects@[o];
            let state = state_after(
                block.metadata_updates@,
                object.element_id,
                object.initial_state,
                offset,
            );
            &&& view.element_id == object.element_id
            &&& state is Some && state->0.position is Some ==> {
                &&& view.active <==> state->0.metadata_active && state->0.semantic_complete
                &&& view.position.x == state->0.position->0.x.unit()
                &&& view.position.y == state->0.position->0.z.unit()
                &&& view.position.z == state->0.position->0.y.opposite().unit()
                &&& state->0.linear_gain is Some ==> view.gain == state->0.linear_gain->0
            }
            &&& state is None || state->0.position is None ==> !view.active
        }),
{
    let id = block.objects@[o].element_id;
    lemma_places(block.objects@, id);
    let place = first_of(block.objects@, id);
    if place < 0 {
        assert(block.objects@[o].element_id != id);
    }
    if place != o {
        assert(block.objects@[place].element_id != id);
    }
}

/// A block is shown where the clock stands in it, and at its last frame once it is over.
pub proof fn a_block_is_shown_where_the_clock_stands(block: DecodedSceneBlock, t: int)
    requires
        block.duration_frames > 0,
    ensures
        block.start_frame <= t < block.start_frame + block.duration_frames ==> shown_offset(
            cursor_at(block, t),
        ) == t - block.start_frame,
        t >= block.start_frame + block.duration_frames ==> shown_offset(cursor_at(block, t))
            == block.duration_frames - 1,
        t <= block.start_frame ==> shown_offset(cursor_at(block, t)) == 0,
        cursor_at(block, t).block == block,
{
}

/// A picture is shown only of a block that the clock has come to.
pub proof fn a_picture_is_of_a_block_that_began(
    preview: ScenePreview,
    flags: Seq<bool>,
    before: SceneViewMirror,
    after: SceneViewMirror,
)
    requires
        preview.publishes(flags, before, after),
    ensures
        preview.consumer.current is None || preview.consumer.current->0.block.start_frame
            > preview.consumer.timeline_frame ==> after == before,
        preview.consumer.current is Some && preview.consumer.current->0.block.start_frame
            <= preview.consumer.timeline_frame ==> {
            &&& after.latest is Some
            &&& after.latest->0.key == preview.consumer.reader.key
            &&& after.latest->0.timeline_frame == preview.consumer.timeline_frame
            &&& after.latest->0.sample_rate == preview.consumer.sample_rate
            &&& after.latest->0.objects@.len() + after.latest->0.hidden_objects
                == preview.consumer.scene_signature@.object_element_ids.len()
        },
{
}

/// A walk that is stopped tells why, leaves the picture as it was, and has taken the block
/// that did not pass.
pub proof fn a_stopped_walk_tells_why(
    before: (ScenePreview, SceneQueue, SceneViewMirror),
    after: (ScenePreview, SceneQueue, SceneViewMirror),
    message: Seq<char>,
)
    requires
        ScenePreview::stopped(before, after, message),
    ensures
        after.0.error is Some,
        after.0.error->0@ == message,
        !after.0.ended,
        after.2 == before.2,
        after.0.pending(&after.1).len() < before.0.pending(&before.1).len(),
        ({
            let blocks = before.0.pending(&before.1);
            let b = blocks.len() - after.0.pending(&after.1).len() - 1;
            &&& after.0.pending(&after.1) == blocks.skip(b + 1)
            &&& before.0.consumer.turns_away(blocks[b]) == Some(message)
            &&& forall|j: int|
                0 <= j < b ==> before.0.consumer.turns_away(#[trigger] blocks[j]) is None
            &&& after.0.consumer.timeline_frame == reach(
                blocks,
                before.0.consumer.timeline_frame as int,
                b,
            )
        }),
{
}

/// A walk marks the objects that jumped on the way, and no other.
pub proof fn a_walk_marks_the_objects_that_jumped(
    flags: Seq<bool>,
    blocks: Seq<DecodedSceneBlock>,
    t0: int,
    limit: int,
    ids: Seq<u64>,
    slot: int,
)
    requires
        marks(flags, blocks, t0, limit, ids),
        0 <= slot < flags.len(),
    ensures
        flags[slot] ==> slot < ids.len() && jumped_before(blocks, t0, limit, ids[slot]),
        slot < ids.len() && jumped_before(blocks, t0, limit, ids[slot]) ==> flags[slot],
{
}

/// A walk that is stopped stands in the last block that it entered, and where it was while it
/// has entered none.
pub proof fn a_stopped_walk_stands_in_the_last_block(
    before: (ScenePreview, SceneQueue, SceneViewMirror),
    after: (ScenePreview, SceneQueue, SceneViewMirror),
    message: Seq<char>,
    last: int,
)
    requires
        ScenePreview::stopped(before, after, message),
    ensures
        ({
            let blocks = before.0.pending(&before.1);
            let t0 = before.0.consumer.timeline_frame as int;
            let b = blocks.len() - after.0.pending(&after.1).len() - 1;
            let t = reach(blocks, t0, b);
            &&& (forall|j: int| 0 <= j < b ==> (#[trigger] blocks[j]).end() <= t0)
                ==> after.0.consumer.current == before.0.consumer.current
            &&& 0 <= last < b && last_entered(blocks, t0, t + 1, b) == last
                ==> after.0.consumer.current == Some(cursor_at(blocks[last], t))
        }),
{
    let blocks = before.0.pending(&before.1);
    let t0 = before.0.consumer.timeline_frame as int;
    let b = blocks.len() - after.0.pending(&after.1).len() - 1;
    if forall|j: int| 0 <= j < b ==> (#[trigger] blocks[j]).end() <= t0 {
        lemma_nothing_entered(blocks, t0, reach(blocks, t0, b) + 1, b);
    }
}

proof fn lemma_nothing_entered(blocks: Seq<DecodedSceneBlock>, t0: int, limit: int, n: int)
    requires
        0 <= n <= blocks.len(),
        forall|j: int| 0 <= j < n ==> (#[trigger] blocks[j]).end() <= t0,
    ensures
        last_entered(blocks, t0, limit, n) < 0,
        reach(blocks, t0, n) == t0,
    decreases n,
{
    if n > 0 {
        lemma_nothing_entered(blocks, t0, limit, n - 1);
        assert(blocks[n - 1].end() <= t0);
    }
}

} // verus!
