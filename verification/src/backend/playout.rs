//! Which block of a run sounds at which frame.
//!
//! Blocks are consumed in order. At a frame, the block that matters is the first
//! one which ends behind it; before that block starts there is silence.
use crate::decoder::scene::{DecodedSceneBlock, SceneObjectPcm};
use vstd::prelude::*;

verus! {

/// The first block that ends behind frame `p`, or the number of blocks.
pub open spec fn first_live(blocks: Seq<DecodedSceneBlock>, p: int) -> int
    decreases blocks.len(),
{
    if blocks.len() == 0 {
        0
    } else if blocks[0].end() > p {
        0
    } else {
        1 + first_live(blocks.drop_first(), p)
    }
}

/// There is audio at frame `p`.
pub open spec fn sounding(blocks: Seq<DecodedSceneBlock>, p: int) -> bool {
    let k = first_live(blocks, p);
    k < blocks.len() && blocks[k].start_frame <= p
}

/// There is audio at the `i`th frame from `t0` on.
pub open spec fn audible(blocks: Seq<DecodedSceneBlock>, t0: int, i: int) -> bool {
    sounding(blocks, t0 + i)
}

/// There is audio at one of the first `frames` frames from `t0` on.
pub open spec fn sounded(blocks: Seq<DecodedSceneBlock>, t0: int, frames: int) -> bool {
    exists|i: int| 0 <= i < frames && #[trigger] audible(blocks, t0, i)
}

/// `i` is the first of the frames from `t0` on that has audio.
pub open spec fn is_onset(blocks: Seq<DecodedSceneBlock>, t0: int, i: int) -> bool {
    &&& i >= 0
    &&& audible(blocks, t0, i)
    &&& forall|j: int| 0 <= j < i ==> !#[trigger] audible(blocks, t0, j)
}

/// The last object named `id`, or -1.
pub open spec fn last_of(objects: Seq<SceneObjectPcm>, id: u64) -> int
    decreases objects.len(),
{
    if objects.len() == 0 {
        -1
    } else if objects.last().element_id == id {
        objects.len() - 1
    } else {
        last_of(objects.drop_last(), id)
    }
}

/// The first object named `id`, or -1.
pub open spec fn first_of(objects: Seq<SceneObjectPcm>, id: u64) -> int
    decreases objects.len(),
{
    if objects.len() == 0 {
        -1
    } else if first_of(objects.drop_last(), id) >= 0 {
        first_of(objects.drop_last(), id)
    } else if objects.last().element_id == id {
        objects.len() - 1
    } else {
        -1
    }
}

/// The sample of element `id` at frame `p`; silence where nothing sounds.
pub open spec fn heard(blocks: Seq<DecodedSceneBlock>, id: u64, p: int) -> u32 {
    let block = blocks[first_live(blocks, p)];
    let place = last_of(block.objects@, id);
    if sounding(blocks, p) && place >= 0 {
        block.objects@[place].samples@[p - block.start_frame]
    } else {
        0
    }
}

/// The bed's sample at frame `p`; silence where nothing sounds.
pub open spec fn heard_lfe(blocks: Seq<DecodedSceneBlock>, p: int) -> u32 {
    let block = blocks[first_live(blocks, p)];
    if sounding(blocks, p) && block.lfe is Some {
        block.lfe->0.samples@[p - block.start_frame]
    } else {
        0
    }
}

/// How far the first `j` blocks carry a timeline that stands at `t0`.
pub open spec fn reach(blocks: Seq<DecodedSceneBlock>, t0: int, j: int) -> int
    decreases j,
{
    if j <= 0 {
        t0
    } else if blocks[j - 1].end() > reach(blocks, t0, j - 1) {
        blocks[j - 1].end()
    } else {
        reach(blocks, t0, j - 1)
    }
}

/// The last of the first `n` blocks that a timeline enters on its way from `t0` to
/// `limit`, or -1. A block that is over when its turn comes is not entered.
pub open spec fn last_entered(blocks: Seq<DecodedSceneBlock>, t0: int, limit: int, n: int) -> int
    decreases n,
{
    if n <= 0 {
        -1
    } else if reach(blocks, t0, n - 1) < limit && blocks[n - 1].end() > reach(blocks, t0, n - 1) {
        n - 1
    } else {
        last_entered(blocks, t0, limit, n - 1)
    }
}

/// How many blocks are used up on the way from `t0` to `limit`. A block is used up as
/// its last frame is passed, and one without frames as it is entered; where no block
/// reaches that far, they all are.
pub open spec fn used_up(blocks: Seq<DecodedSceneBlock>, t0: int, limit: int) -> int {
    let last = last_entered(blocks, t0, limit, blocks.len() as int);
    if last >= 0 && blocks[last].end() > limit && blocks[last].duration_frames > 0 {
        last
    } else if last >= 0 && blocks[last].end() >= limit {
        last + 1
    } else {
        blocks.len() as int
    }
}

/// Offsets into block `j` of the stretch that sounds before frame `limit`.
pub open spec fn segment(blocks: Seq<DecodedSceneBlock>, t0: int, limit: int, j: int) -> (int, int) {
    let block = blocks[j];
    let from = if reach(blocks, t0, j) > block.start_frame {
        reach(blocks, t0, j) - block.start_frame
    } else {
        0
    };
    let to = if block.end() < limit {
        block.end() - block.start_frame
    } else {
        limit - block.start_frame
    };
    (from, to)
}

pub proof fn lemma_first_live(blocks: Seq<DecodedSceneBlock>, p: int)
    ensures
        0 <= first_live(blocks, p) <= blocks.len(),
        first_live(blocks, p) < blocks.len() ==> blocks[first_live(blocks, p)].end() > p,
        forall|j: int| 0 <= j < first_live(blocks, p) ==> (#[trigger] blocks[j]).end() <= p,
    decreases blocks.len(),
{
    if blocks.len() > 0 && blocks[0].end() <= p {
        let rest = blocks.drop_first();
        lemma_first_live(rest, p);
        assert forall|j: int| 0 <= j < first_live(blocks, p) implies (
        #[trigger] blocks[j]).end() <= p by {
            if j > 0 {
                assert(blocks[j] == rest[j - 1]);
            }
        }
        if first_live(blocks, p) < blocks.len() {
            assert(blocks[first_live(blocks, p)] == rest[first_live(rest, p)]);
        }
    }
}

/// The first live block is the one that ends behind `p` after others that do not.
pub proof fn lemma_first_live_is(blocks: Seq<DecodedSceneBlock>, p: int, k: int)
    requires
        0 <= k <= blocks.len(),
        forall|j: int| 0 <= j < k ==> (#[trigger] blocks[j]).end() <= p,
        k < blocks.len() ==> blocks[k].end() > p,
    ensures
        first_live(blocks, p) == k,
{
    lemma_first_live(blocks, p);
    let f = first_live(blocks, p);
    if f < k {
        assert(blocks[f].end() <= p);
    } else if k < f {
        assert(blocks[k].end() <= p);
    }
}

pub proof fn lemma_reach(blocks: Seq<DecodedSceneBlock>, t0: int, j: int)
    requires
        0 <= j <= blocks.len(),
    ensures
        reach(blocks, t0, j) >= t0,
        forall|i: int| 0 <= i < j ==> (#[trigger] blocks[i]).end() <= reach(blocks, t0, j),
        reach(blocks, t0, j) == t0 || exists|i: int|
            0 <= i < j && (#[trigger] blocks[i]).end() == reach(blocks, t0, j),
    decreases j,
{
    if j > 0 {
        lemma_reach(blocks, t0, j - 1);
        if blocks[j - 1].end() > reach(blocks, t0, j - 1) {
            assert(blocks[j - 1].end() == reach(blocks, t0, j));
        } else if reach(blocks, t0, j) != t0 {
            let i = choose|i: int|
                0 <= i < j - 1 && (#[trigger] blocks[i]).end() == reach(blocks, t0, j - 1);
            assert(blocks[i].end() == reach(blocks, t0, j));
        }
    }
}

pub proof fn lemma_last_entered(blocks: Seq<DecodedSceneBlock>, t0: int, limit: int, n: int)
    requires
        0 <= n <= blocks.len(),
    ensures
        -1 <= last_entered(blocks, t0, limit, n) < n || n == 0,
        n == 0 ==> last_entered(blocks, t0, limit, n) == -1,
    decreases n,
{
    if n > 0 {
        lemma_last_entered(blocks, t0, limit, n - 1);
    }
}

/// Blocks that are over when their turn comes, or whose turn does not come, are not
/// entered.
pub proof fn lemma_none_entered(
    blocks: Seq<DecodedSceneBlock>,
    t0: int,
    limit: int,
    from: int,
    to: int,
)
    requires
        0 <= from <= to <= blocks.len(),
        reach(blocks, t0, from) >= limit || forall|j: int|
            from <= j < to ==> (#[trigger] blocks[j]).end() <= reach(blocks, t0, from),
    ensures
        last_entered(blocks, t0, limit, to) == last_entered(blocks, t0, limit, from),
        reach(blocks, t0, from) <= reach(blocks, t0, to),
        reach(blocks, t0, from) < limit ==> reach(blocks, t0, to) == reach(blocks, t0, from),
    decreases to - from,
{
    if from < to {
        lemma_none_entered(blocks, t0, limit, from, to - 1);
        if reach(blocks, t0, from) < limit {
            assert(blocks[to - 1].end() <= reach(blocks, t0, from));
        }
    }
}

/// Where the last block that was entered does not reach `limit`, it is as far as the
/// blocks reach.
proof fn lemma_reach_of_last(blocks: Seq<DecodedSceneBlock>, t0: int, limit: int, n: int)
    requires
        0 <= n <= blocks.len(),
        t0 < limit,
        ({
            let last = last_entered(blocks, t0, limit, n);
            last < 0 || blocks[last].end() < limit
        }),
    ensures
        ({
            let last = last_entered(blocks, t0, limit, n);
            reach(blocks, t0, n) == (if last < 0 {
                t0
            } else {
                blocks[last].end()
            })
        }),
    decreases n,
{
    if n > 0 {
        lemma_last_entered(blocks, t0, limit, n - 1);
        if last_entered(blocks, t0, limit, n) != n - 1 {
            lemma_reach_of_last(blocks, t0, limit, n - 1);
        }
    }
}

/// Only blocks that are over are used up, and such as have no frames.
pub proof fn lemma_used_up(blocks: Seq<DecodedSceneBlock>, t0: int, limit: int)
    requires
        t0 < limit,
    ensures
        0 <= used_up(blocks, t0, limit) <= blocks.len(),
        forall|j: int|
            0 <= j < used_up(blocks, t0, limit) ==> (#[trigger] blocks[j]).duration_frames == 0 || (
            blocks[j].end() <= limit && blocks[j].end() <= reach(
                blocks,
                t0,
                blocks.len() as int,
            )),
{
    let n = blocks.len() as int;
    let last = last_entered(blocks, t0, limit, n);
    lemma_last_entered(blocks, t0, limit, n);
    lemma_reach(blocks, t0, n);
    if last < 0 || blocks[last].end() < limit {
        lemma_reach_of_last(blocks, t0, limit, n);
    } else {
        lemma_entered_in_time(blocks, t0, limit, n);
        lemma_reach(blocks, t0, last);
    }
}

proof fn lemma_entered_in_time(blocks: Seq<DecodedSceneBlock>, t0: int, limit: int, n: int)
    requires
        0 < n <= blocks.len(),
        last_entered(blocks, t0, limit, n) >= 0,
    ensures
        reach(blocks, t0, last_entered(blocks, t0, limit, n)) < limit,
    decreases n,
{
    lemma_last_entered(blocks, t0, limit, n - 1);
    if last_entered(blocks, t0, limit, n) != n - 1 {
        lemma_entered_in_time(blocks, t0, limit, n - 1);
    }
}

pub proof fn lemma_places(objects: Seq<SceneObjectPcm>, id: u64)
    ensures
        -1 <= last_of(objects, id) < objects.len(),
        -1 <= first_of(objects, id) < objects.len(),
        last_of(objects, id) < 0 <==> first_of(objects, id) < 0,
        last_of(objects, id) < 0 <==> forall|i: int|
            0 <= i < objects.len() ==> (#[trigger] objects[i]).element_id != id,
        last_of(objects, id) >= 0 ==> objects[last_of(objects, id)].element_id == id,
        first_of(objects, id) >= 0 ==> objects[first_of(objects, id)].element_id == id,
    decreases objects.len(),
{
    if objects.len() > 0 {
        let rest = objects.drop_last();
        lemma_places(rest, id);
        if last_of(objects, id) < 0 {
            assert forall|i: int| 0 <= i < objects.len() implies (
            #[trigger] objects[i]).element_id != id by {
                if i < objects.len() - 1 {
                    assert(objects[i] == rest[i]);
                }
            }
        } else {
            assert(objects[last_of(objects, id)].element_id == id);
        }
        if first_of(rest, id) >= 0 {
            assert(objects[first_of(rest, id)] == rest[first_of(rest, id)]);
        }
        if last_of(rest, id) >= 0 {
            assert(objects[last_of(rest, id)] == rest[last_of(rest, id)]);
        }
    }
}

/// The block that covers a frame, after others that are over by then, is the one that is
/// heard there: each object by its own sample, and the bed by its.
pub proof fn what_is_heard_is_what_the_covering_block_holds(
    blocks: Seq<DecodedSceneBlock>,
    p: int,
    k: int,
    o: int,
)
    requires
        0 <= k < blocks.len(),
        forall|j: int|
            0 <= j < k ==> (#[trigger] blocks[j]).start_frame + blocks[j].duration_frames <= p,
        blocks[k].start_frame <= p < blocks[k].start_frame + blocks[k].duration_frames,
        0 <= o < blocks[k].objects@.len(),
        forall|i: int|
            0 <= i < blocks[k].objects@.len() && i != o ==> (
            #[trigger] blocks[k].objects@[i]).element_id != blocks[k].objects@[o].element_id,
    ensures
        sounding(blocks, p),
        heard(blocks, blocks[k].objects@[o].element_id, p) == blocks[k].objects@[o].samples@[p
            - blocks[k].start_frame],
        blocks[k].lfe is Some ==> heard_lfe(blocks, p) == blocks[k].lfe->0.samples@[p
            - blocks[k].start_frame],
{
    lemma_first_live_is(blocks, p, k);
    let id = blocks[k].objects@[o].element_id;
    lemma_places(blocks[k].objects@, id);
    let place = last_of(blocks[k].objects@, id);
    if place < 0 {
        assert(blocks[k].objects@[o].element_id != id);
    }
    if place != o {
        assert(blocks[k].objects@[place].element_id != id);
    }
}

/// Where no block covers a frame, nothing is heard.
pub proof fn nothing_is_heard_between_blocks(blocks: Seq<DecodedSceneBlock>, p: int, id: u64)
    requires
        forall|j: int|
            0 <= j < blocks.len() ==> !((#[trigger] blocks[j]).start_frame <= p
                < blocks[j].start_frame + blocks[j].duration_frames),
    ensures
        !sounding(blocks, p),
        heard(blocks, id, p) == 0,
        heard_lfe(blocks, p) == 0,
{
    lemma_first_live(blocks, p);
}

/// Blocks reach as far as the last of their ends, and no less far than the start.
pub proof fn blocks_reach_to_their_last_end(blocks: Seq<DecodedSceneBlock>, t0: int, i: int)
    requires
        0 <= i < blocks.len(),
    ensures
        reach(blocks, t0, blocks.len() as int) >= t0,
        reach(blocks, t0, blocks.len() as int) >= blocks[i].start_frame + blocks[i].duration_frames,
        reach(blocks, t0, 0) == t0,
        reach(blocks, t0, blocks.len() as int) == t0 || exists|j: int|
            0 <= j < blocks.len() && reach(blocks, t0, blocks.len() as int) == (
            #[trigger] blocks[j]).start_frame + blocks[j].duration_frames,
{
    lemma_reach(blocks, t0, blocks.len() as int);
    if reach(blocks, t0, blocks.len() as int) != t0 {
        let j = choose|j: int|
            0 <= j < blocks.len() && (#[trigger] blocks[j]).end() == reach(
                blocks,
                t0,
                blocks.len() as int,
            );
        assert(blocks[j].start_frame + blocks[j].duration_frames == blocks[j].end());
    }
}

} // verus!
