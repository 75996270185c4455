//! A consumer of the scene queue: it takes blocks in order, turns away those of
//! another scene, and skips those that its timeline has already passed.
use super::playout::{last_entered, lemma_none_entered, reach};
use super::state::{block_offset_at, planes_fit, refusal, validate_block};
use crate::decoder::queue::{SceneQueue, SceneQueueReader};
use crate::decoder::scene::DecodedSceneBlock;
use crate::decoder::signature::SceneSignature;
use vstd::prelude::*;
use vstd::string::*;

verus! {

/// Where a consumer has reached inside one popped block.
#[derive(Debug)]
pub struct BlockCursor {
    pub block: DecodedSceneBlock,
    pub offset_frames: u32,
}

#[derive(Debug)]
pub struct SceneConsumer {
    pub reader: SceneQueueReader,
    pub sample_rate: u32,
    pub dynamic_object_count: u32,
    pub has_lfe: bool,
    pub scene_signature: SceneSignature,
    pub timeline_frame: i64,
    pub current: Option<BlockCursor>,
}

/// `frame` as a position on the timeline, which ends at its last one.
pub open spec fn timeline_position(frame: u64) -> i64 {
    if frame > i64::MAX {
        i64::MAX
    } else {
        frame as i64
    }
}

impl SceneConsumer {
    pub fn new(
        reader: SceneQueueReader,
        sample_rate: u32,
        dynamic_object_count: u32,
        has_lfe: bool,
        scene_signature: SceneSignature,
        start_frame: u64,
    ) -> (r: Self)
        ensures
            r == (SceneConsumer {
                reader,
                sample_rate,
                dynamic_object_count,
                has_lfe,
                scene_signature,
                timeline_frame: timeline_position(start_frame),
                current: None,
            }),
    {
        SceneConsumer {
            reader,
            sample_rate,
            dynamic_object_count,
            has_lfe,
            scene_signature,
            timeline_frame: if start_frame > i64::MAX as u64 {
                i64::MAX
            } else {
                start_frame as i64
            },
            current: None,
        }
    }

    /// Set up for the same scene and the same playback.
    pub open spec fn same_setup(&self, other: &SceneConsumer) -> bool {
        &&& self.reader == other.reader
        &&& self.sample_rate == other.sample_rate
        &&& self.dynamic_object_count == other.dynamic_object_count
        &&& self.has_lfe == other.has_lfe
        &&& self.scene_signature == other.scene_signature
    }

    /// The message that a block is turned away with, if it is.
    pub open spec fn turns_away(&self, block: DecodedSceneBlock) -> Option<Seq<char>> {
        match refusal(
            block,
            self.sample_rate,
            self.dynamic_object_count,
            self.has_lfe,
            self.scene_signature@,
        ) {
            Some(message) => Some(message),
            None => if block.end() > i64::MAX {
                Some("Scene block end position overflow"@)
            } else {
                None
            },
        }
    }

    /// What the queue still holds for this consumer.
    pub open spec fn bound(&self, queue: &SceneQueue) -> Seq<DecodedSceneBlock> {
        if queue.key == self.reader.key {
            queue.blocks@
        } else {
            Seq::empty()
        }
    }

    /// What a consumer finds when its timeline, which has `reached` a frame,
    /// runs on to `limit`: the first block among those it takes on the way that
    /// it turns away.
    pub open spec fn trouble(
        &self,
        blocks: Seq<DecodedSceneBlock>,
        reached: int,
        limit: int,
    ) -> Option<Seq<char>>
        decreases blocks.len(),
    {
        if blocks.len() == 0 || reached >= limit {
            None
        } else if self.turns_away(blocks[0]) is Some {
            self.turns_away(blocks[0])
        } else {
            self.trouble(
                blocks.drop_first(),
                if blocks[0].end() > reached {
                    blocks[0].end()
                } else {
                    reached
                },
                limit,
            )
        }
    }

    /// Takes blocks until one reaches beyond the timeline. `Ok(false)` says that
    /// none did; the cursor then stays where it was.
    pub fn load_next_block(&mut self, queue: &mut SceneQueue) -> (r: Result<bool, String>)
        requires
            old(queue).wf(),
        ensures
            final(queue).wf(),
            final(queue).is_drawn_by(old(queue), old(self).reader.key),
            final(self).same_setup(old(self)),
            final(self).timeline_frame == old(self).timeline_frame,
            match r {
                Err(message) => {
                    &&& final(self).current == old(self).current
                    &&& refused(
                        *old(self),
                        old(self).bound(old(queue)),
                        final(self).bound(final(queue)),
                        message@,
                    )
                    &&& forall|limit: int|
                        limit > old(self).timeline_frame ==> #[trigger] old(self).trouble(
                            old(self).bound(old(queue)),
                            old(self).timeline_frame as int,
                            limit,
                        ) == Some(message@)
                },
                Ok(false) => {
                    &&& final(self).current == old(self).current
                    &&& final(self).bound(final(queue)).len() == 0
                    &&& forall|j: int|
                        0 <= j < old(self).bound(old(queue)).len() ==> passed_over(
                            *old(self),
                            #[trigger] old(self).bound(old(queue))[j],
                        )
                    &&& forall|limit: int|
                        limit > old(self).timeline_frame ==> #[trigger] old(self).trouble(
                            old(self).bound(old(queue)),
                            old(self).timeline_frame as int,
                            limit,
                        ) is None
                },
                Ok(true) => loaded(
                    *old(self),
                    *final(self),
                    old(self).bound(old(queue)),
                    final(self).bound(final(queue)),
                ),
            },
    {
        let ghost all = self.bound(queue);
        let ghost mut taken: int = 0;
        assert(all.skip(0) =~= all);
        loop
            invariant
                queue.wf(),
                queue.is_drawn_by(old(queue), old(self).reader.key),
                *self == *old(self),
                all == old(self).bound(old(queue)),
                0 <= taken <= all.len(),
                self.bound(queue) == all.skip(taken),
                forall|j: int| 0 <= j < taken ==> passed_over(*self, #[trigger] all[j]),
                forall|limit: int|
                    limit > self.timeline_frame ==> #[trigger] self.trouble(
                        all,
                        self.timeline_frame as int,
                        limit,
                    ) == self.trouble(all.skip(taken), self.timeline_frame as int, limit),
            decreases all.len() - taken,
        {
            let block = match self.reader.try_pop(queue) {
                Some(block) => block,
                None => {
                    assert(all.skip(taken).len() == 0);
                    return Ok(false);
                },
            };
            proof {
                assert(all.skip(taken)[0] == all[taken]);
                assert(all.skip(taken).drop_first() =~= all.skip(taken + 1));
                assert(block == all[taken]);
            }
            match validate_block(
                &block,
                self.sample_rate,
                self.dynamic_object_count,
                self.has_lfe,
                &self.scene_signature,
            ) {
                Ok(_) => {},
                Err(message) => {
                    assert(refused_at(*old(self), all, all.skip(taken + 1), taken, message@));
                    return Err(message);
                },
            }
            match block_offset_at(&block, self.timeline_frame) {
                Err(message) => {
                    assert(refused_at(*old(self), all, all.skip(taken + 1), taken, message@));
                    return Err(message);
                },
                Ok(None) => {
                    proof {
                        taken = taken + 1;
                    }
                },
                Ok(Some(offset_frames)) => {
                    self.current = Some(BlockCursor { block, offset_frames });
                    assert(loaded_at(*old(self), *self, all, all.skip(taken + 1), taken));
                    return Ok(true);
                },
            }
        }
    }
}

/// Block `b` is the first that is turned away.
pub open spec fn first_refused(
    consumer: SceneConsumer,
    blocks: Seq<DecodedSceneBlock>,
    b: int,
    message: Seq<char>,
) -> bool {
    &&& 0 <= b < blocks.len()
    &&& forall|j: int| 0 <= j < b ==> consumer.turns_away(#[trigger] blocks[j]) is None
    &&& consumer.turns_away(blocks[b]) == Some(message)
}

/// The timeline stands where block `b` comes in, which is the first that is turned away,
/// and `rest` is what comes behind it.
pub open spec fn stands_at_refused(
    consumer: SceneConsumer,
    blocks: Seq<DecodedSceneBlock>,
    b: int,
    message: Seq<char>,
    timeline: int,
    rest: Seq<DecodedSceneBlock>,
) -> bool {
    &&& first_refused(consumer, blocks, b, message)
    &&& timeline == reach(blocks, consumer.timeline_frame as int, b)
    &&& rest == blocks.skip(b + 1)
}

/// Blocks of this scene, up to the first that is turned away, were used up.
pub open spec fn stands_before_refused(
    consumer: SceneConsumer,
    blocks: Seq<DecodedSceneBlock>,
    message: Seq<char>,
    timeline: int,
    rest: Seq<DecodedSceneBlock>,
) -> bool {
    exists|b: int| #[trigger]
        stands_at_refused(consumer, blocks, b, message, timeline, rest)
}

/// The timeline has passed a block of this scene.
pub open spec fn passed_over(consumer: SceneConsumer, block: DecodedSceneBlock) -> bool {
    block.end() <= consumer.timeline_frame && consumer.turns_away(block) is None
}

/// A block of `before` is turned away, behind blocks that the timeline has
/// passed, and `after` is what the queue holds behind it.
pub open spec fn refused(
    consumer: SceneConsumer,
    before: Seq<DecodedSceneBlock>,
    after: Seq<DecodedSceneBlock>,
    message: Seq<char>,
) -> bool {
    exists|k: int| #[trigger] refused_at(consumer, before, after, k, message)
}

pub open spec fn refused_at(
    consumer: SceneConsumer,
    before: Seq<DecodedSceneBlock>,
    after: Seq<DecodedSceneBlock>,
    k: int,
    message: Seq<char>,
) -> bool {
    &&& 0 <= k < before.len()
    &&& after == before.skip(k + 1)
    &&& forall|j: int| 0 <= j < k ==> passed_over(consumer, #[trigger] before[j])
    &&& consumer.turns_away(before[k]) == Some(message)
}

/// The cursor stands in a block of `before`, behind blocks that the timeline has
/// passed, and `after` is what the queue holds behind it.
pub open spec fn loaded(
    old_consumer: SceneConsumer,
    consumer: SceneConsumer,
    before: Seq<DecodedSceneBlock>,
    after: Seq<DecodedSceneBlock>,
) -> bool {
    exists|k: int| #[trigger] loaded_at(old_consumer, consumer, before, after, k)
}

pub open spec fn loaded_at(
    old_consumer: SceneConsumer,
    consumer: SceneConsumer,
    before: Seq<DecodedSceneBlock>,
    after: Seq<DecodedSceneBlock>,
    k: int,
) -> bool {
    let t = old_consumer.timeline_frame;
    &&& 0 <= k < before.len()
    &&& after == before.skip(k + 1)
    &&& forall|j: int| 0 <= j < k ==> passed_over(old_consumer, #[trigger] before[j])
    &&& before[k].end() > t
    &&& old_consumer.turns_away(before[k]) is None
    &&& planes_fit(before[k])
    &&& consumer.current is Some
    &&& consumer.current->0.block == before[k]
    &&& consumer.current->0.offset_frames == (if before[k].start_frame < t {
        t - before[k].start_frame
    } else {
        0
    })
    &&& forall|limit: int|
        limit > t ==> #[trigger] old_consumer.trouble(before, t as int, limit)
            == old_consumer.trouble(after, before[k].end(), limit)
}

/// What lies before a consumer: its blocks, the frames from which and to which its
/// timeline runs, how it was set up, and what stops it.
pub struct Course {
    pub blocks: Seq<DecodedSceneBlock>,
    pub t0: int,
    pub limit: int,
    pub setup: SceneConsumer,
    pub trouble: Option<Seq<char>>,
}

impl Course {
    pub open spec fn ids(self) -> Seq<u64> {
        self.setup.scene_signature@.object_element_ids
    }

    /// Block `b` is the first that is turned away.
    pub open spec fn refuses(self, b: int, message: Seq<char>) -> bool {
        first_refused(self.setup, self.blocks, b, message)
    }

    /// None of the first `n` blocks is turned away.
    #[verifier::opaque]
    pub open spec fn is_clear(self, n: int) -> bool {
        forall|j: int| 0 <= j < n ==> self.setup.turns_away(#[trigger] self.blocks[j]) is None
    }

    pub proof fn lemma_clear_step(self, n: int)
        requires
            0 <= n < self.blocks.len(),
            self.is_clear(n),
            self.setup.turns_away(self.blocks[n]) is None,
        ensures
            self.is_clear(n + 1),
    {
        reveal(Course::is_clear);
    }

    /// Blocks that were passed over were not entered, and carry the timeline no further.
    pub proof fn lemma_passed(
        self,
        consumer: SceneConsumer,
        waiting: Seq<DecodedSceneBlock>,
        done: int,
        k: int,
    )
        requires
            0 <= done <= self.blocks.len(),
            waiting == self.blocks.skip(done),
            0 <= k <= waiting.len(),
            reach(self.blocks, self.t0, done) == consumer.timeline_frame,
            consumer.timeline_frame < self.limit,
            consumer.same_setup(&self.setup),
            forall|j: int| 0 <= j < k ==> passed_over(consumer, #[trigger] waiting[j]),
            forall|j: int|
                0 <= j < done ==> self.setup.turns_away(#[trigger] self.blocks[j]) is None,
        ensures
            reach(self.blocks, self.t0, done + k) == consumer.timeline_frame,
            last_entered(self.blocks, self.t0, self.limit, done + k) == last_entered(
                self.blocks,
                self.t0,
                self.limit,
                done,
            ),
            forall|j: int|
                0 <= j < done + k ==> self.setup.turns_away(#[trigger] self.blocks[j]) is None,
    {
        assert forall|j: int| 0 <= j < done + k implies self.setup.turns_away(
            #[trigger] self.blocks[j],
        ) is None && (done <= j ==> self.blocks[j].end() <= consumer.timeline_frame) by {
            if j >= done {
                assert(self.blocks[j] == waiting[j - done]);
            }
        }
        lemma_none_entered(self.blocks, self.t0, self.limit, done, done + k);
    }
}

/// A block is taken exactly where it passes for the scene and its end is a frame number.
pub proof fn a_block_is_taken_where_it_passes(consumer: SceneConsumer, block: DecodedSceneBlock)
    ensures
        consumer.turns_away(block) is None <==> refusal(
            block,
            consumer.sample_rate,
            consumer.dynamic_object_count,
            consumer.has_lfe,
            consumer.scene_signature@,
        ) is None && block.start_frame + block.duration_frames <= i64::MAX,
{
}

/// A loaded block is the first that is not over; it is entered where the timeline stands,
/// or at its start where the timeline has not come to it.
pub proof fn a_block_is_entered_where_the_timeline_stands(
    before: SceneConsumer,
    after: SceneConsumer,
    queued: Seq<DecodedSceneBlock>,
    left: Seq<DecodedSceneBlock>,
    k: int,
)
    requires
        loaded_at(before, after, queued, left, k),
    ensures
        after.current is Some,
        ({
            let cursor = after.current->0;
            let place = cursor.block.start_frame + cursor.offset_frames;
            &&& cursor.block == queued[k]
            &&& left.len() == queued.len() - k - 1
            &&& cursor.block.start_frame <= before.timeline_frame ==> place
                == before.timeline_frame
            &&& cursor.block.start_frame > before.timeline_frame ==> cursor.offset_frames == 0
            &&& cursor.block.start_frame + cursor.block.duration_frames > before.timeline_frame
            &&& forall|j: int|
                0 <= j < k ==> (#[trigger] queued[j]).start_frame + queued[j].duration_frames
                    <= before.timeline_frame
        }),
{
    assert forall|j: int| 0 <= j < k implies (#[trigger] queued[j]).start_frame
        + queued[j].duration_frames <= before.timeline_frame by {
        assert(passed_over(before, queued[j]));
    }
}

/// Playback starts at the frame that it was asked for.
pub proof fn playback_starts_where_it_was_asked_to(frame: u64)
    ensures
        frame <= i64::MAX ==> timeline_position(frame) == frame,
        frame > i64::MAX ==> timeline_position(frame) == i64::MAX,
{
}

/// Blocks that all pass make no trouble, and a block that is reached and does not pass
/// does.
pub proof fn blocks_that_pass_make_no_trouble(
    consumer: SceneConsumer,
    blocks: Seq<DecodedSceneBlock>,
    reached: int,
    limit: int,
)
    ensures
        (forall|j: int|
            0 <= j < blocks.len() ==> consumer.turns_away(#[trigger] blocks[j]) is None)
            ==> consumer.trouble(blocks, reached, limit) is None,
        reached >= limit ==> consumer.trouble(blocks, reached, limit) is None,
        blocks.len() > 0 && reached < limit && consumer.turns_away(blocks[0]) is Some
            ==> consumer.trouble(blocks, reached, limit) == consumer.turns_away(blocks[0]),
    decreases blocks.len(),
{
    if blocks.len() > 0 {
        let rest = blocks.drop_first();
        let next = if blocks[0].end() > reached {
            blocks[0].end()
        } else {
            reached
        };
        if forall|j: int|
            0 <= j < blocks.len() ==> consumer.turns_away(#[trigger] blocks[j]) is None {
            assert(consumer.turns_away(blocks[0]) is None);
            assert forall|j: int| 0 <= j < rest.len() implies consumer.turns_away(
                #[trigger] rest[j],
            ) is None by {
                assert(rest[j] == blocks[j + 1]);
            }
        }
        blocks_that_pass_make_no_trouble(consumer, rest, next, limit);
    }
}

/// A queue is read only by the playback that it is for.
pub proof fn only_the_own_queue_is_read(consumer: SceneConsumer, queue: SceneQueue)
    ensures
        queue.key == consumer.reader.key ==> consumer.bound(&queue) == queue.blocks@,
        queue.key != consumer.reader.key ==> consumer.bound(&queue).len() == 0,
{
}

/// Where a block is refused, it is the first that does not pass: it is gone with those before
/// it, and the clock stands where they reached.
pub proof fn the_first_block_that_does_not_pass_is_refused(
    consumer: SceneConsumer,
    blocks: Seq<DecodedSceneBlock>,
    message: Seq<char>,
    timeline: int,
    rest: Seq<DecodedSceneBlock>,
)
    requires
        stands_before_refused(consumer, blocks, message, timeline, rest),
    ensures
        rest.len() < blocks.len(),
        rest == blocks.skip(blocks.len() - rest.len()),
        consumer.turns_away(blocks[blocks.len() - rest.len() - 1]) == Some(message),
        forall|j: int|
            0 <= j < blocks.len() - rest.len() - 1 ==> consumer.turns_away(
                #[trigger] blocks[j],
            ) is None,
        timeline == reach(
            blocks,
            consumer.timeline_frame as int,
            blocks.len() - rest.len() - 1,
        ),
{
}

/// Trouble comes from the first block that does not pass, and only before the limit.
pub proof fn trouble_comes_before_the_limit(
    consumer: SceneConsumer,
    blocks: Seq<DecodedSceneBlock>,
    reached: int,
    limit: int,
)
    ensures
        reached >= limit ==> consumer.trouble(blocks, reached, limit) is None,
        blocks.len() > 0 && reached < limit && consumer.turns_away(blocks[0]) is Some
            ==> consumer.trouble(blocks, reached, limit) == consumer.turns_away(blocks[0]),
        blocks.len() > 0 && consumer.turns_away(blocks[0]) is None && reached <= blocks[0].end()
            && reached < limit ==> consumer.trouble(blocks, reached, limit) == consumer.trouble(
            blocks.drop_first(),
            blocks[0].end(),
            limit,
        ),
        blocks.len() > 0 && consumer.turns_away(blocks[0]) is None && reached > blocks[0].end()
            && reached < limit ==> consumer.trouble(blocks, reached, limit) == consumer.trouble(
            blocks.drop_first(),
            reached,
            limit,
        ),
{
}

/// Two consumers are set up alike where they read the same playback of the same scene.
pub proof fn consumers_are_set_up_alike_for_the_same_scene(a: SceneConsumer, b: SceneConsumer)
    ensures
        a.same_setup(&b) <==> {
            &&& a.reader == b.reader
            &&& a.sample_rate == b.sample_rate
            &&& a.dynamic_object_count == b.dynamic_object_count
            &&& a.has_lfe == b.has_lfe
            &&& a.scene_signature == b.scene_signature
        },
        a.same_setup(&a),
{
}

} // verus!
