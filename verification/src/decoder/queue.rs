//! The bounded scene queue between the decoder and its one consumer.
use super::scene::DecodedSceneBlock;
use crate::text::{decimal, push_decimal};
use std::collections::VecDeque;
use vstd::prelude::*;
use vstd::string::*;

verus! {

/// How much audio is buffered before playback may start.
pub const PREBUFFER_MILLISECONDS: u64 = 300;

/// How much audio the queue holds at most.
pub const MAX_BUFFER_SECONDS: u64 = 2;

/// Names one playback: a source request and an epoch within it.
#[derive(Debug, Clone, Copy, PartialEq, Eq, Structural)]
pub struct PlaybackKey {
    pub request_id: u64,
    pub epoch: u64,
}

impl PlaybackKey {
    pub fn new(request_id: u64, epoch: u64) -> (r: Self)
        ensures
            r == (PlaybackKey { request_id, epoch }),
    {
        PlaybackKey { request_id, epoch }
    }

    pub fn request_id(self) -> (r: u64)
        ensures
            r == self.request_id,
    {
        self.request_id
    }
}

#[derive(Debug, Clone, Copy, PartialEq, Eq, Structural)]
pub struct QueueSnapshot {
    pub buffered_frames: u64,
    pub capacity_frames: u64,
}

#[derive(Debug)]
pub enum QueuePushError {
    /// The block comes back unchanged.
    Full(Box<DecodedSceneBlock>),
    Stale,
    Format(String),
}

/// Frames held by a run of blocks.
pub open spec fn total_frames(blocks: Seq<DecodedSceneBlock>) -> nat
    decreases blocks.len(),
{
    if blocks.len() == 0 {
        0
    } else {
        total_frames(blocks.drop_last()) + blocks.last().duration_frames as nat
    }
}

proof fn lemma_total_frames_first(blocks: Seq<DecodedSceneBlock>)
    requires
        blocks.len() > 0,
    ensures
        total_frames(blocks) == blocks[0].duration_frames + total_frames(
            blocks.subrange(1, blocks.len() as int),
        ),
    decreases blocks.len(),
{
    let rest = blocks.subrange(1, blocks.len() as int);
    if blocks.len() == 1 {
        assert(total_frames(blocks.drop_last()) == 0);
        assert(total_frames(rest) == 0);
    } else {
        lemma_total_frames_first(blocks.drop_last());
        assert(rest.drop_last() =~= blocks.drop_last().subrange(1, blocks.len() - 1));
        assert(rest.last() == blocks.last());
        assert(blocks.drop_last()[0] == blocks[0]);
    }
}

proof fn lemma_total_frames_bounds_each(blocks: Seq<DecodedSceneBlock>, i: int)
    requires
        0 <= i < blocks.len(),
    ensures
        blocks[i].duration_frames <= total_frames(blocks),
    decreases blocks.len(),
{
    if i < blocks.len() - 1 {
        lemma_total_frames_bounds_each(blocks.drop_last(), i);
        assert(blocks.drop_last()[i] == blocks[i]);
    }
}

/// A first-in first-out queue of scene blocks for one playback.
#[derive(Debug)]
pub struct SceneQueue {
    pub key: PlaybackKey,
    pub sample_rate: u32,
    pub buffered_frames: u64,
    pub capacity_frames: u64,
    pub end_of_stream: bool,
    pub blocks: VecDeque<DecodedSceneBlock>,
}

impl SceneQueue {
    /// The frame counter is what the blocks hold, never more than two seconds
    /// of the queue's sample rate, and every block with frames has that rate.
    pub open spec fn wf(&self) -> bool {
        &&& self.buffered_frames == total_frames(self.blocks@)
        &&& self.buffered_frames <= self.capacity_frames
        &&& self.capacity_frames == self.sample_rate * MAX_BUFFER_SECONDS
        &&& forall|i: int|
            0 <= i < self.blocks@.len() ==> (#[trigger] self.blocks@[i]).sample_rate
                == self.sample_rate || self.blocks@[i].duration_frames == 0
    }

    /// Both queues are the same but for the blocks that playback `key` took.
    pub open spec fn is_drawn_by(&self, before: &SceneQueue, key: PlaybackKey) -> bool {
        &&& self.key == before.key
        &&& self.sample_rate == before.sample_rate
        &&& self.capacity_frames == before.capacity_frames
        &&& self.end_of_stream == before.end_of_stream
        &&& before.key != key ==> self.blocks@ == before.blocks@
    }

    /// The queue holds exactly this: nothing, for playback `key`.
    pub open spec fn is_reset_for(&self, key: PlaybackKey) -> bool {
        &&& self.key == key
        &&& self.sample_rate == 0
        &&& self.buffered_frames == 0
        &&& self.capacity_frames == 0
        &&& !self.end_of_stream
        &&& self.blocks@ == Seq::<DecodedSceneBlock>::empty()
    }

    pub fn new() -> (r: Self)
        ensures
            r.is_reset_for(PlaybackKey { request_id: 0, epoch: 0 }),
            r.wf(),
    {
        SceneQueue {
            key: PlaybackKey::new(0, 0),
            sample_rate: 0,
            buffered_frames: 0,
            capacity_frames: 0,
            end_of_stream: false,
            blocks: VecDeque::new(),
        }
    }

    /// Starts an empty queue for `key`; whatever an older playback still pushes
    /// or pops is turned away from here on.
    pub fn reset(&mut self, key: PlaybackKey)
        ensures
            final(self).is_reset_for(key),
            final(self).wf(),
    {
        self.key = key;
        self.sample_rate = 0;
        self.buffered_frames = 0;
        self.capacity_frames = 0;
        self.end_of_stream = false;
        self.blocks.clear();
    }

    /// The capacity once `block` has been offered: the first block of a
    /// playback sets it.
    pub open spec fn capacity_for(&self, block: DecodedSceneBlock) -> int {
        if self.sample_rate == 0 {
            block.sample_rate * MAX_BUFFER_SECONDS
        } else {
            self.capacity_frames as int
        }
    }

    pub fn try_push(&mut self, key: PlaybackKey, block: DecodedSceneBlock) -> (r: Result<
        QueueSnapshot,
        QueuePushError,
    >)
        requires
            old(self).wf(),
        ensures
            final(self).wf(),
            final(self).key == old(self).key,
            final(self).end_of_stream == old(self).end_of_stream,
            // Another playback's block is turned away.
            old(self).key != key ==> r == Err::<QueueSnapshot, _>(QueuePushError::Stale)
                && *final(self) == *old(self),
            // So is one whose rate differs from the queue's.
            old(self).key == key && old(self).sample_rate != 0 && old(self).sample_rate
                != block.sample_rate ==> *final(self) == *old(self) && match r {
                Err(QueuePushError::Format(message)) => message@
                    == "Scene sample rate changed from "@ + decimal(old(self).sample_rate as nat)
                    + " to "@ + decimal(block.sample_rate as nat) + " Hz"@,
                _ => false,
            },
            // Of the rest, a block is taken exactly where it fits.
            old(self).key == key && (old(self).sample_rate == 0 || old(self).sample_rate
                == block.sample_rate) ==> {
                &&& final(self).sample_rate == block.sample_rate
                &&& final(self).capacity_frames == old(self).capacity_for(block)
                &&& if old(self).buffered_frames + block.duration_frames > old(self).capacity_for(
                    block,
                ) {
                    &&& r == Err::<QueueSnapshot, _>(QueuePushError::Full(Box::new(block)))
                    &&& final(self).blocks@ == old(self).blocks@
                    &&& final(self).buffered_frames == old(self).buffered_frames
                } else {
                    &&& r == Ok::<_, QueuePushError>(
                        QueueSnapshot {
                            buffered_frames: final(self).buffered_frames,
                            capacity_frames: final(self).capacity_frames,
                        },
                    )
                    &&& final(self).blocks@ == old(self).blocks@.push(block)
                    &&& final(self).buffered_frames == old(self).buffered_frames
                        + block.duration_frames
                }
            },
    {
        if self.key != key {
            return Err(QueuePushError::Stale);
        }
        if self.sample_rate == 0 {
            assert forall|i: int| 0 <= i < self.blocks@.len() implies (
            #[trigger] self.blocks@[i]).duration_frames == 0 by {
                lemma_total_frames_bounds_each(self.blocks@, i);
            }
            self.sample_rate = block.sample_rate;
            self.capacity_frames = block.sample_rate as u64 * MAX_BUFFER_SECONDS;
        } else if self.sample_rate != block.sample_rate {
            let mut message = "Scene sample rate changed from ".to_owned();
            push_decimal(&mut message, self.sample_rate as u64);
            message.append(" to ");
            push_decimal(&mut message, block.sample_rate as u64);
            message.append(" Hz");
            return Err(QueuePushError::Format(message));
        }
        let duration: u64 = block.duration_frames as u64;
        if self.buffered_frames + duration > self.capacity_frames {
            return Err(QueuePushError::Full(Box::new(block)));
        }
        self.buffered_frames = self.buffered_frames + duration;
        let ghost before = self.blocks@;
        self.blocks.push_back(block);
        assert(self.blocks@.drop_last() =~= before);
        Ok(
            QueueSnapshot {
                buffered_frames: self.buffered_frames,
                capacity_frames: self.capacity_frames,
            },
        )
    }

    /// Takes the oldest block, if the queue belongs to `key` and holds one.
    pub fn try_pop(&mut self, key: PlaybackKey) -> (r: Option<DecodedSceneBlock>)
        requires
            old(self).wf(),
        ensures
            final(self).wf(),
            final(self).key == old(self).key,
            final(self).sample_rate == old(self).sample_rate,
            final(self).capacity_frames == old(self).capacity_frames,
            final(self).end_of_stream == old(self).end_of_stream,
            match r {
                Some(block) => {
                    &&& old(self).key == key
                    &&& old(self).blocks@.len() > 0
                    &&& block == old(self).blocks@[0]
                    &&& final(self).blocks@ == old(self).blocks@.drop_first()
                    &&& final(self).buffered_frames == old(self).buffered_frames
                        - block.duration_frames
                },
                None => {
                    &&& old(self).key != key || old(self).blocks@.len() == 0
                    &&& final(self).blocks@ == old(self).blocks@
                    &&& final(self).buffered_frames == old(self).buffered_frames
                },
            },
    {
        if self.key != key {
            return None;
        }
        let ghost before = self.blocks@;
        match self.blocks.pop_front() {
            Some(block) => {
                proof {
                    lemma_total_frames_first(before);
                    assert(self.blocks@ =~= before.drop_first());
                    assert forall|i: int| 0 <= i < self.blocks@.len() implies (
                    #[trigger] self.blocks@[i]).sample_rate == self.sample_rate
                        || self.blocks@[i].duration_frames == 0 by {
                        assert(self.blocks@[i] == before[i + 1]);
                    }
                }
                self.buffered_frames =
                self.buffered_frames.saturating_sub(block.duration_frames as u64);
                Some(block)
            },
            None => None,
        }
    }

    pub fn mark_end_of_stream(&mut self, key: PlaybackKey)
        ensures
            *final(self) == (SceneQueue {
                end_of_stream: old(self).end_of_stream || old(self).key == key,
                ..*old(self)
            }),
    {
        if self.key == key {
            self.end_of_stream = true;
        }
    }

    /// Nothing more will come out of the queue for `key`.
    pub open spec fn ended(&self, key: PlaybackKey) -> bool {
        self.key != key || (self.end_of_stream && self.blocks@.len() == 0)
    }

    /// Whether the playback is over: superseded, or marked and drained.
    pub fn is_end_of_stream(&self, key: PlaybackKey) -> (r: bool)
        ensures
            r == self.ended(key),
    {
        self.key != key || (self.end_of_stream && self.blocks.len() == 0)
    }
}

/// A consumer bound to one playback.
#[derive(Debug, Clone, Copy, PartialEq, Eq, Structural)]
pub struct SceneQueueReader {
    pub key: PlaybackKey,
}

impl SceneQueueReader {
    pub fn try_pop(&self, queue: &mut SceneQueue) -> (r: Option<DecodedSceneBlock>)
        requires
            old(queue).wf(),
        ensures
            final(queue).wf(),
            final(queue).key == old(queue).key,
            final(queue).sample_rate == old(queue).sample_rate,
            final(queue).capacity_frames == old(queue).capacity_frames,
            final(queue).end_of_stream == old(queue).end_of_stream,
            match r {
                Some(block) => {
                    &&& old(queue).key == self.key
                    &&& old(queue).blocks@.len() > 0
                    &&& block == old(queue).blocks@[0]
                    &&& final(queue).blocks@ == old(queue).blocks@.drop_first()
                    &&& final(queue).buffered_frames == old(queue).buffered_frames
                        - block.duration_frames
                },
                None => {
                    &&& old(queue).key != self.key || old(queue).blocks@.len() == 0
                    &&& final(queue).blocks@ == old(queue).blocks@
                    &&& final(queue).buffered_frames == old(queue).buffered_frames
                },
            },
    {
        queue.try_pop(self.key)
    }

    pub fn is_end_of_stream(&self, queue: &SceneQueue) -> (r: bool)
        ensures
            r == queue.ended(self.key),
    {
        queue.is_end_of_stream(self.key)
    }

    pub fn playback_key(&self) -> (r: PlaybackKey)
        ensures
            r == self.key,
    {
        self.key
    }
}

/// The queue never holds more than two seconds of audio at its sample rate.
pub proof fn a_queue_holds_at_most_two_seconds(queue: SceneQueue)
    requires
        queue.wf(),
    ensures
        total_frames(queue.blocks@) <= 2 * queue.sample_rate,
{
}

/// The end is reported only once every queued block has been taken.
pub proof fn the_end_comes_after_the_last_block(queue: SceneQueue, key: PlaybackKey)
    requires
        queue.key == key,
        queue.ended(key),
    ensures
        queue.end_of_stream,
        queue.blocks@.len() == 0,
{
}

/// A block that was turned away for want of space fits once as many frames have
/// been taken.
pub proof fn taking_blocks_releases_their_space(queue: SceneQueue, block: DecodedSceneBlock)
    requires
        queue.wf(),
        queue.blocks@.len() > 0,
        queue.sample_rate == block.sample_rate,
        block.duration_frames <= queue.blocks@[0].duration_frames,
    ensures
        total_frames(queue.blocks@.drop_first()) + block.duration_frames <= queue.capacity_frames,
{
    lemma_total_frames_first(queue.blocks@);
    assert(queue.blocks@.drop_first() =~= queue.blocks@.subrange(1, queue.blocks@.len() as int));
}

/// The room of a queue is two seconds at its rate; an empty one takes the rate of its
/// first block.
pub proof fn the_room_of_a_queue_is_two_seconds(queue: SceneQueue, block: DecodedSceneBlock)
    requires
        queue.wf(),
    ensures
        queue.sample_rate == 0 ==> queue.capacity_for(block) == 2 * block.sample_rate,
        queue.sample_rate != 0 ==> queue.capacity_for(block) == 2 * queue.sample_rate,
{
}

/// A queue holds as many frames as its blocks last together.
pub proof fn a_queue_counts_the_frames_of_its_blocks(
    blocks: Seq<DecodedSceneBlock>,
    block: DecodedSceneBlock,
)
    ensures
        total_frames(Seq::empty()) == 0,
        total_frames(blocks.push(block)) == total_frames(blocks) + block.duration_frames,
{
    assert(blocks.push(block).drop_last() =~= blocks);
}

/// A playback is at its end once it was marked and every block was taken; a playback that
/// the queue no longer serves is.
pub proof fn a_playback_ends_once_everything_was_taken(queue: SceneQueue, key: PlaybackKey)
    ensures
        queue.key == key && queue.blocks@.len() > 0 ==> !queue.ended(key),
        queue.key == key && !queue.end_of_stream ==> !queue.ended(key),
        queue.key == key && queue.end_of_stream && queue.blocks@.len() == 0 ==> queue.ended(key),
        queue.key != key ==> queue.ended(key),
{
}

/// Drawing from a queue takes blocks and changes nothing else, and takes none of another
/// playback.
pub proof fn drawing_takes_blocks_and_nothing_else(
    before: SceneQueue,
    after: SceneQueue,
    key: PlaybackKey,
)
    requires
        after.is_drawn_by(&before, key),
    ensures
        after.key == before.key,
        after.sample_rate == before.sample_rate,
        after.capacity_frames == before.capacity_frames,
        after.end_of_stream == before.end_of_stream,
        before.key != key ==> after.blocks@ == before.blocks@,
{
}

/// A queue that was reset is empty, without a rate, and for the new playback.
pub proof fn a_reset_queue_is_empty(queue: SceneQueue, key: PlaybackKey)
    requires
        queue.is_reset_for(key),
    ensures
        queue.key == key,
        queue.blocks@.len() == 0,
        queue.buffered_frames == 0,
        queue.capacity_frames == 0,
        queue.sample_rate == 0,
        !queue.end_of_stream,
{
}

} // verus!
