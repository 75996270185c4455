//! The decisions of the decode worker: where decoding starts, which decoded
//! audio is kept, and what the player is told.
//!
//! The worker's loop reads files, runs the codec and waits for commands. It asks
//! these functions what to do next.
use super::continuity::SceneContinuity;
use super::controller::{WorkerCommand, WorkerEvent};
use super::frame::{frame_refusal, holds, own_scene_frame, CodecFrame};
use super::index::{starts_before, MediaIndex, MediaIndexState};
use super::queue::{
    PlaybackKey, QueuePushError, SceneQueue, MAX_BUFFER_SECONDS, PREBUFFER_MILLISECONDS,
};
use super::scene::{DecodedSceneBlock, SceneMetadataUpdate};
use super::signature::{identity_of, SceneSignature};
use super::snapshot::{
    DecodeContainer, DecodeMetrics, DecodePhase, DecoderSnapshot, MetricsModel, SnapshotModel,
};
use crate::backend::state::planes_fit;
use crate::paths::path_copy;
use crate::text::decimal;
use std::path::PathBuf;
use vstd::prelude::*;
use vstd::string::*;

verus! {

/// The file is a raw stream: it begins with a sync word.
pub fn is_raw_ac4(bytes: &[u8]) -> (r: bool)
    ensures
        r == (bytes@.len() >= 2 && bytes@[0] == 0xAC && (bytes@[1] == 0x40 || bytes@[1] == 0x41)),
{
    bytes.len() >= 2 && bytes[0] == 0xAC && (bytes[1] == 0x40 || bytes[1] == 0x41)
}

/// Enough audio to start playing.
pub open spec fn prebuffered(frames: u64, sample_rate: u32) -> bool {
    frames * 1_000 >= sample_rate * PREBUFFER_MILLISECONDS
}

pub fn has_prebuffer(frames: u64, sample_rate: u32) -> (r: bool)
    ensures
        r == prebuffered(frames, sample_rate),
{
    let wanted: u64 = sample_rate as u64 * PREBUFFER_MILLISECONDS;
    match frames.checked_mul(1_000) {
        Some(scaled) => scaled >= wanted,
        None => true,
    }
}

pub fn is_prebuffered(metrics: &DecodeMetrics) -> (r: bool)
    ensures
        r == prebuffered(metrics@.buffered_frames, metrics@.sample_rate),
{
    has_prebuffer(metrics.buffered_frames, metrics.sample_rate)
}

/// The metrics of a run that has not decoded anything yet.
pub open spec fn fresh_metrics(
    container: DecodeContainer,
    sample_rate: u32,
    duration_frames: Option<u64>,
    seekable_from_frame: Option<u64>,
    indexing: bool,
    target_frame: u64,
) -> MetricsModel {
    MetricsModel {
        container,
        sample_rate,
        presentation_index: 0,
        presentation_id: None,
        object_count: 0,
        has_lfe: false,
        state_complete: false,
        scene_signature: None,
        decoded_access_units: 0,
        decoded_scene_frames: 0,
        decoded_frames: 0,
        buffered_frames: 0,
        buffer_capacity_frames: (sample_rate * MAX_BUFFER_SECONDS) as u64,
        metadata_updates: 0,
        duration_frames,
        seekable_from_frame,
        indexing,
        index_error: None,
        target_frame,
    }
}

pub fn initial_metrics(
    container: DecodeContainer,
    sample_rate: u32,
    duration_frames: Option<u64>,
    seekable_from_frame: Option<u64>,
    indexing: bool,
    target_frame: u64,
) -> (r: DecodeMetrics)
    ensures
        r@ == fresh_metrics(
            container,
            sample_rate,
            duration_frames,
            seekable_from_frame,
            indexing,
            target_frame,
        ),
{
    DecodeMetrics {
        container,
        sample_rate,
        presentation_index: 0,
        presentation_id: None,
        object_count: 0,
        has_lfe: false,
        state_complete: false,
        scene_signature: None,
        decoded_access_units: 0,
        decoded_scene_frames: 0,
        decoded_frames: 0,
        buffered_frames: 0,
        buffer_capacity_frames: sample_rate as u64 * MAX_BUFFER_SECONDS,
        metadata_updates: 0,
        duration_frames,
        seekable_from_frame,
        indexing,
        index_error: None,
        target_frame,
    }
}

/// What the codec says of one access unit.
#[derive(Debug, Clone, Copy, PartialEq, Eq, Structural)]
pub enum UnitStatus {
    Decoded,
    WaitingForRandomAccess,
    Unknown,
}

/// `n` plus `more`, which stops at the last number.
pub open spec fn counted(n: u64, more: int) -> u64 {
    if n + more > u64::MAX {
        u64::MAX
    } else {
        (n + more) as u64
    }
}

/// Counts an access unit. Returns whether its frames are to be taken; a unit
/// that waits for a random-access point has none.
pub fn count_unit(metrics: &mut DecodeMetrics, status: UnitStatus) -> (r: Result<bool, String>)
    ensures
        final(metrics)@ == (MetricsModel {
            decoded_access_units: counted(old(metrics)@.decoded_access_units, 1),
            ..old(metrics)@
        }),
        match status {
            UnitStatus::Decoded => r == Ok::<bool, String>(true),
            UnitStatus::WaitingForRandomAccess => r == Ok::<bool, String>(false),
            UnitStatus::Unknown => r is Err && r->Err_0@
                == "MacinDecode Core returned an unknown decode status"@,
        },
{
    metrics.decoded_access_units = metrics.decoded_access_units.saturating_add(1);
    match status {
        UnitStatus::Decoded => Ok(true),
        UnitStatus::WaitingForRandomAccess => Ok(false),
        UnitStatus::Unknown => Err(
            "MacinDecode Core returned an unknown decode status".to_owned(),
        ),
    }
}

/// Takes a frame from the codec. Before it enters the queue it becomes a snapshot of
/// its own, with the ramps that the frame before it left running.
pub fn take_frame(frame: CodecFrame, continuity: &mut SceneContinuity) -> (r: Result<
    DecodedSceneBlock,
    String,
>)
    ensures
        match frame_refusal(frame) {
            Some(message) => r is Err && r->Err_0@ == message && *final(continuity) == *old(
                continuity,
            ),
            None => r is Ok && planes_fit(r->Ok_0) && exists|raw: DecodedSceneBlock| #[trigger]
                holds(raw, frame) && SceneContinuity::normalizes(
                    *old(continuity),
                    raw,
                    *final(continuity),
                    r->Ok_0,
                ),
        },
{
    match own_scene_frame(frame) {
        Ok(block) => {
            let mut block = block;
            let ghost raw = block;
            continuity.normalize(&mut block);
            assert(holds(raw, frame));
            Ok(block)
        },
        Err(error) => Err(error),
    }
}

/// How many frames of `block` lie before `end`.
pub open spec fn frames_before(block: DecodedSceneBlock, end: i64) -> int {
    if block.end() <= end {
        block.duration_frames as int
    } else if block.start_frame >= end {
        0
    } else {
        end - block.start_frame
    }
}

/// `samples` without what lies behind its first `keep` frames.
pub open spec fn cut(samples: Seq<u32>, keep: int) -> Seq<u32> {
    if samples.len() <= keep {
        samples
    } else {
        samples.take(keep)
    }
}

/// `after` is the part of `before` that lies in its first `keep` frames.
pub open spec fn is_cut(before: DecodedSceneBlock, after: DecodedSceneBlock, keep: int) -> bool {
    &&& after.duration_frames == keep
    &&& after.sample_rate == before.sample_rate
    &&& after.start_frame == before.start_frame
    &&& after.configuration_generation == before.configuration_generation
    &&& after.presentation_index == before.presentation_index
    &&& after.presentation_id == before.presentation_id
    &&& after.state_complete == before.state_complete
    &&& after.objects@.len() == before.objects@.len()
    &&& forall|i: int|
        0 <= i < before.objects@.len() ==> {
            &&& (#[trigger] after.objects@[i]).element_id == before.objects@[i].element_id
            &&& after.objects@[i].initial_state == before.objects@[i].initial_state
            &&& after.objects@[i].samples@ == cut(before.objects@[i].samples@, keep)
        }
    &&& after.lfe is Some == before.lfe is Some
    &&& after.lfe is Some ==> {
        &&& after.lfe->0.element_id == before.lfe->0.element_id
        &&& after.lfe->0.initial_state == before.lfe->0.initial_state
        &&& after.lfe->0.samples@ == cut(before.lfe->0.samples@, keep)
    }
    &&& after.metadata_updates@ == before.metadata_updates@.filter(
        |update: SceneMetadataUpdate| update.offset_frames < keep,
    )
}

fn cut_samples(samples: &mut Vec<u32>, keep: u32)
    ensures
        final(samples)@ == cut(old(samples)@, keep as int),
{
    samples.truncate(keep as usize);
}

fn updates_before(updates: &Vec<SceneMetadataUpdate>, keep: u32) -> (r: Vec<SceneMetadataUpdate>)
    ensures
        r@ == updates@.filter(|update: SceneMetadataUpdate| update.offset_frames < keep as int),
{
    let ghost kept = |update: SceneMetadataUpdate| update.offset_frames < keep as int;
    let mut out: Vec<SceneMetadataUpdate> = Vec::new();
    let mut index: usize = 0;
    proof {
        reveal(Seq::filter);
        assert(updates@.take(0) =~= Seq::empty());
    }
    while index < updates.len()
        invariant
            index <= updates@.len(),
            kept == (|update: SceneMetadataUpdate| update.offset_frames < keep as int),
            out@ == updates@.take(index as int).filter(kept),
        decreases updates.len() - index,
    {
        proof {
            reveal(Seq::filter);
            let prefix = updates@.take(index as int + 1);
            assert(prefix.drop_last() =~= updates@.take(index as int));
            assert(prefix.last() == updates@[index as int]);
        }
        if updates[index].offset_frames < keep {
            out.push(updates[index].dup());
        }
        index = index + 1;
    }
    assert(updates@.take(index as int) =~= updates@);
    out
}

/// Codec frames include encoder padding: what lies behind `end` is cut off.
/// Returns whether anything of the block is left.
pub fn truncate_at(block: &mut DecodedSceneBlock, end: i64) -> (r: bool)
    ensures
        r == (frames_before(*old(block), end) > 0),
        !r || old(block).end() <= end ==> *final(block) == *old(block),
        r && old(block).end() > end ==> is_cut(
            *old(block),
            *final(block),
            frames_before(*old(block), end),
        ),
{
    if block.duration_frames == 0 || block.start_frame >= end {
        return false;
    }
    let room: i128 = end as i128 - block.start_frame as i128;
    if room >= block.duration_frames as i128 {
        return true;
    }
    let keep: u32 = room as u32;
    let ghost before = *block;
    let mut index: usize = 0;
    while index < block.objects.len()
        invariant
            index <= block.objects@.len(),
            block.objects@.len() == before.objects@.len(),
            *block == (DecodedSceneBlock { objects: block.objects, ..before }),
            forall|i: int|
                index <= i < before.objects@.len() ==> block.objects@[i] == before.objects@[i],
            forall|i: int|
                0 <= i < index ==> {
                    &&& (#[trigger] block.objects@[i]).element_id == before.objects@[i].element_id
                    &&& block.objects@[i].initial_state == before.objects@[i].initial_state
                    &&& block.objects@[i].samples@ == cut(
                        before.objects@[i].samples@,
                        keep as int,
                    )
                },
        decreases block.objects.len() - index,
    {
        let object = &mut block.objects[index];
        cut_samples(&mut object.samples, keep);
        index = index + 1;
    }
    if let Some(bed) = &mut block.lfe {
        cut_samples(&mut bed.samples, keep);
    }
    block.metadata_updates = updates_before(&block.metadata_updates, keep);
    block.duration_frames = keep;
    true
}

/// Audio that is kept back until a seek is known to have worked.
///
/// An access point can emit provisional audio before later controls discover
/// missing history. The startup prebuffer stays private, so an earlier access
/// point can still be tried without anything having reached the consumer.
#[derive(Debug)]
pub struct SeekPreroll {
    pub blocks: Vec<DecodedSceneBlock>,
    pub frames: u64,
    pub published: bool,
}

impl Default for SeekPreroll {
    fn default() -> (r: Self)
        ensures
            r.blocks@.len() == 0,
            r.frames == 0,
            !r.published,
    {
        SeekPreroll { blocks: Vec::new(), frames: 0, published: false }
    }
}

impl SeekPreroll {
    pub fn push(&mut self, block: DecodedSceneBlock)
        ensures
            final(self).blocks@ == old(self).blocks@.push(block),
            final(self).frames == counted(old(self).frames, block.duration_frames as int),
            final(self).published == old(self).published,
    {
        self.frames = self.frames.saturating_add(block.duration_frames as u64);
        self.blocks.push(block);
    }

    pub fn ready(&self, sample_rate: u32) -> (r: bool)
        ensures
            r == prebuffered(self.frames, sample_rate),
    {
        has_prebuffer(self.frames, sample_rate)
    }

    /// Gives up what was kept back, oldest first. From then on the attempt is
    /// final.
    pub fn publish(&mut self) -> (r: Vec<DecodedSceneBlock>)
        ensures
            r@ == old(self).blocks@,
            final(self).blocks@.len() == 0,
            final(self).frames == old(self).frames,
            final(self).published == (old(self).published || old(self).blocks@.len() > 0),
    {
        self.published = self.published || self.blocks.len() > 0;
        let mut blocks: Vec<DecodedSceneBlock> = Vec::new();
        blocks.append(&mut self.blocks);
        assert(blocks@ =~= old(self).blocks@);
        blocks
    }
}

/// What becomes of one decoded frame.
#[derive(Debug)]
pub enum Admission {
    /// It lies behind the end or before the target.
    Skip,
    /// It is kept back.
    Hold,
    /// These blocks go to the queue, in this order.
    Queue(Vec<DecodedSceneBlock>),
}

/// The metrics with one more frame counted, and the changes that the decoder sent with it.
/// What an earlier frame left running is none of them.
pub open spec fn with_frame_counted(
    metrics: MetricsModel,
    block: DecodedSceneBlock,
    sent_updates: int,
) -> MetricsModel {
    MetricsModel {
        decoded_scene_frames: counted(metrics.decoded_scene_frames, 1),
        decoded_frames: counted(metrics.decoded_frames, block.duration_frames as int),
        metadata_updates: counted(metrics.metadata_updates, sent_updates),
        ..metrics
    }
}

/// The metrics with the scene of the first block that counts.
pub open spec fn with_scene(metrics: MetricsModel, block: DecodedSceneBlock) -> MetricsModel {
    if metrics.scene_signature is Some {
        metrics
    } else {
        MetricsModel {
            presentation_index: block.presentation_index,
            presentation_id: block.presentation_id,
            object_count: block.objects@.len() as usize,
            has_lfe: block.lfe is Some,
            state_complete: block.state_complete,
            scene_signature: Some(identity_of(block)),
            ..metrics
        }
    }
}

/// What is left of `block` for the player: cut at the end of the media.
pub open spec fn kept_part(
    block: DecodedSceneBlock,
    kept: DecodedSceneBlock,
    duration: Option<u64>,
) -> bool {
    if duration is None || block.end() <= duration->0 {
        kept == block
    } else {
        is_cut(block, kept, frames_before(block, duration->0 as i64))
    }
}

/// How `block` fares, as far as its place decides: an error, nothing left of it
/// that is wanted, or `Ok(true)` where it is.
pub open spec fn placement(
    block: DecodedSceneBlock,
    duration: Option<u64>,
    target_frame: i64,
) -> Result<bool, Seq<char>> {
    if duration is Some && duration->0 > i64::MAX {
        Err("Media duration exceeds signed sample time"@)
    } else if duration is Some && frames_before(block, duration->0 as i64) == 0 {
        Ok(false)
    } else {
        let end = match duration {
            Some(limit) if limit < block.end() => limit as int,
            _ => block.end(),
        };
        if end > i64::MAX {
            Err("Decoded Scene block timeline overflow"@)
        } else {
            Ok(end > target_frame)
        }
    }
}

/// Admits one decoded frame, with which the decoder sent so many changes: it is counted, cut at the end of the media, dropped
/// before the target, and then queued, or kept back while a seek is provisional.
pub fn admit_frame(
    metrics: &mut DecodeMetrics,
    block: DecodedSceneBlock,
    sent_updates: usize,
    target_frame: i64,
    preroll: &mut Option<SeekPreroll>,
) -> (r: Result<Admission, String>)
    ensures
        *old(preroll) is Some == *final(preroll) is Some,
        match placement(block, old(metrics)@.duration_frames, target_frame) {
            Err(message) => {
                &&& r is Err
                &&& r->Err_0@ == message
                &&& final(metrics)@ == with_frame_counted(old(metrics)@, block, sent_updates as int)
                &&& *final(preroll) == *old(preroll)
            },
            Ok(false) => {
                &&& r == Ok::<Admission, String>(Admission::Skip)
                &&& final(metrics)@ == with_frame_counted(old(metrics)@, block, sent_updates as int)
                &&& *final(preroll) == *old(preroll)
            },
            Ok(true) => exists|kept: DecodedSceneBlock|
                {
                    &&& #[trigger] kept_part(block, kept, old(metrics)@.duration_frames)
                    &&& final(metrics)@ == with_scene(
                        with_frame_counted(old(metrics)@, block, sent_updates as int),
                        kept,
                    )
                    &&& admitted(*old(preroll), *final(preroll), kept, old(metrics)@.sample_rate, r)
                },
        },
{
    let mut block = block;
    metrics.decoded_scene_frames = metrics.decoded_scene_frames.saturating_add(1);
    metrics.decoded_frames = metrics.decoded_frames.saturating_add(block.duration_frames as u64);
    metrics.metadata_updates = metrics.metadata_updates.saturating_add(sent_updates as u64);
    let ghost given = block;
    let duration = metrics.duration_frames;
    if let Some(duration) = duration {
        if duration > i64::MAX as u64 {
            return Err("Media duration exceeds signed sample time".to_owned());
        }
        if !truncate_at(&mut block, duration as i64) {
            return Ok(Admission::Skip);
        }
    }
    let end: i64 = match block.start_frame.checked_add(block.duration_frames as i64) {
        Some(end) => end,
        None => {
            return Err("Decoded Scene block timeline overflow".to_owned());
        },
    };
    if end <= target_frame {
        return Ok(Admission::Skip);
    }
    assert(kept_part(given, block, duration));
    if metrics.scene_signature.is_none() {
        metrics.presentation_index = block.presentation_index;
        metrics.presentation_id = block.presentation_id;
        metrics.object_count = block.objects.len();
        metrics.has_lfe = block.lfe.is_some();
        metrics.state_complete = block.state_complete;
        metrics.scene_signature = Some(SceneSignature::from_block(&block));
    }
    let ghost kept = block;
    let held_back = match preroll {
        Some(held) => !held.published,
        None => false,
    };
    if held_back {
        if let Some(held) = preroll {
            held.push(block);
            if !held.ready(metrics.sample_rate) {
                return Ok(Admission::Hold);
            }
            let blocks = held.publish();
            return Ok(Admission::Queue(blocks));
        }
        return Ok(Admission::Skip);
    }
    let mut blocks: Vec<DecodedSceneBlock> = Vec::new();
    blocks.push(block);
    assert(blocks@ =~= seq![kept]);
    Ok(Admission::Queue(blocks))
}

/// What becomes of a block that is wanted.
pub open spec fn admitted(
    before: Option<SeekPreroll>,
    after: Option<SeekPreroll>,
    block: DecodedSceneBlock,
    sample_rate: u32,
    r: Result<Admission, String>,
) -> bool {
    match before {
        Some(held) if !held.published => {
            let blocks = held.blocks@.push(block);
            let frames = counted(held.frames, block.duration_frames as int);
            &&& after is Some
            &&& after->0.frames == frames
            &&& if prebuffered(frames, sample_rate) {
                &&& r is Ok
                &&& r->Ok_0 matches Admission::Queue(queued) && queued@ == blocks
                &&& after->0.published
                &&& after->0.blocks@.len() == 0
            } else {
                &&& r == Ok::<Admission, String>(Admission::Hold)
                &&& !after->0.published
                &&& after->0.blocks@ == blocks
            }
        },
        _ => {
            &&& after == before
            &&& r is Ok
            &&& r->Ok_0 matches Admission::Queue(queued) && queued@ == seq![block]
        },
    }
}

/// What offering a block to the queue comes to.
#[derive(Debug)]
pub enum Offer {
    /// It was taken; tell the player this phase.
    Taken(DecodePhase),
    /// There is no room yet; tell the player it is ready, and offer it again.
    Full(Box<DecodedSceneBlock>),
    /// Another playback owns the queue.
    Stale,
}

/// How a queue and the metrics of a run come out of an offer. A queue that another
/// playback owns takes nothing, and neither does one that runs at another rate. Of
/// the rest, a block is taken exactly where it fits.
pub open spec fn offered(
    key: PlaybackKey,
    block: DecodedSceneBlock,
    before: (SceneQueue, MetricsModel),
    after: (SceneQueue, MetricsModel),
    r: Result<Offer, String>,
) -> bool {
    let (queue, metrics) = before;
    if queue.key != key {
        after == before && r == Ok::<Offer, String>(Offer::Stale)
    } else if queue.sample_rate != 0 && queue.sample_rate != block.sample_rate {
        after == before && r is Err && r->Err_0@ == "Scene sample rate changed from "@ + decimal(
            queue.sample_rate as nat,
        ) + " to "@ + decimal(block.sample_rate as nat) + " Hz"@
    } else {
        &&& after.0.key == key
        &&& after.0.end_of_stream == queue.end_of_stream
        &&& after.0.sample_rate == block.sample_rate
        &&& after.0.capacity_frames == queue.capacity_for(block)
        &&& if queue.buffered_frames + block.duration_frames > queue.capacity_for(block) {
            &&& r == Ok::<Offer, String>(Offer::Full(Box::new(block)))
            &&& after.0.blocks@ == queue.blocks@
            &&& after.0.buffered_frames == queue.buffered_frames
            &&& after.1 == metrics
        } else {
            &&& after.0.blocks@ == queue.blocks@.push(block)
            &&& after.0.buffered_frames == queue.buffered_frames + block.duration_frames
            &&& after.1 == (MetricsModel {
                buffered_frames: after.0.buffered_frames,
                buffer_capacity_frames: after.0.capacity_frames,
                ..metrics
            })
            &&& r == Ok::<Offer, String>(
                Offer::Taken(
                    if prebuffered(after.0.buffered_frames, metrics.sample_rate) {
                        DecodePhase::Ready
                    } else {
                        DecodePhase::Buffering
                    },
                ),
            )
        }
    }
}

/// Offers `block` to the queue of playback `key`.
pub fn offer_block(
    queue: &mut SceneQueue,
    key: PlaybackKey,
    block: DecodedSceneBlock,
    metrics: &mut DecodeMetrics,
) -> (r: Result<Offer, String>)
    requires
        old(queue).wf(),
    ensures
        final(queue).wf(),
        offered(
            key,
            block,
            (*old(queue), old(metrics)@),
            (*final(queue), final(metrics)@),
            r,
        ),
{
    match queue.try_push(key, block) {
        Ok(snapshot) => {
            metrics.buffered_frames = snapshot.buffered_frames;
            metrics.buffer_capacity_frames = snapshot.capacity_frames;
            let phase = if is_prebuffered(metrics) {
                DecodePhase::Ready
            } else {
                DecodePhase::Buffering
            };
            Ok(Offer::Taken(phase))
        },
        Err(QueuePushError::Full(returned)) => Ok(Offer::Full(returned)),
        Err(QueuePushError::Stale) => Ok(Offer::Stale),
        Err(QueuePushError::Format(error)) => Err(error),
    }
}

/// The event that reports progress.
pub fn progress_event(
    key: PlaybackKey,
    path: &PathBuf,
    phase: DecodePhase,
    metrics: &DecodeMetrics,
) -> (r: WorkerEvent)
    requires
        phase == DecodePhase::Buffering || phase == DecodePhase::Ready || phase
            == DecodePhase::EndOfStream,
    ensures
        r matches WorkerEvent::Snapshot { key: k, snapshot } && k == key && snapshot@ == (
        SnapshotModel { phase, path: Some(*path), metrics: Some(metrics@), detail: None }),
{
    WorkerEvent::Snapshot {
        key,
        snapshot: DecoderSnapshot::progress(phase, path_copy(path), metrics.dup()),
    }
}

/// The event that reports a failure.
pub fn failure_event(key: PlaybackKey, path: &PathBuf, error: String) -> (r: WorkerEvent)
    ensures
        r matches WorkerEvent::Snapshot { key: k, snapshot } && k == key && snapshot@
            == SnapshotModel::failed(*path, error@),
{
    WorkerEvent::Snapshot { key, snapshot: DecoderSnapshot::failed(path_copy(path), error) }
}

/// Ends a run: the queue is marked, and the player is told.
pub fn finish(
    key: PlaybackKey,
    path: &PathBuf,
    metrics: &DecodeMetrics,
    queue: &mut SceneQueue,
) -> (r: Result<WorkerEvent, String>)
    ensures
        metrics@.decoded_scene_frames == 0 ==> r is Err && r->Err_0@
            == "MacinDecode Core produced no scene PCM"@ && *final(queue) == *old(queue),
        metrics@.decoded_scene_frames != 0 ==> {
            &&& r is Ok
            &&& r->Ok_0 matches WorkerEvent::Snapshot { key: k, snapshot } && k == key
                && snapshot@ == (SnapshotModel {
                phase: DecodePhase::EndOfStream,
                path: Some(*path),
                metrics: Some(metrics@),
                detail: None,
            })
            &&& *final(queue) == (SceneQueue {
                end_of_stream: old(queue).end_of_stream || old(queue).key == key,
                ..*old(queue)
            })
        },
{
    if metrics.decoded_scene_frames == 0 {
        return Err("MacinDecode Core produced no scene PCM".to_owned());
    }
    queue.mark_end_of_stream(key);
    Ok(progress_event(key, path, DecodePhase::EndOfStream, metrics))
}

/// How a run of decoding goes on.
#[derive(Debug)]
pub enum RunControl {
    Complete,
    Command(WorkerCommand),
    Shutdown,
}

/// What the command channel holds at the moment.
#[derive(Debug)]
pub enum Polled {
    Command(WorkerCommand),
    Empty,
    Disconnected,
}

/// Whether a command interrupts the run. A lost player ends the worker.
pub fn pending_command(polled: Polled) -> (r: Option<RunControl>)
    ensures
        match polled {
            Polled::Empty => r is None,
            Polled::Disconnected => r == Some(RunControl::Shutdown),
            Polled::Command(WorkerCommand::Shutdown) => r == Some(RunControl::Shutdown),
            Polled::Command(command) => r == Some(RunControl::Command(command)),
        },
{
    match polled {
        Polled::Empty => None,
        Polled::Disconnected => Some(RunControl::Shutdown),
        Polled::Command(command) => match command {
            WorkerCommand::Shutdown => Some(RunControl::Shutdown),
            other => Some(RunControl::Command(other)),
        },
    }
}

/// Where decoding starts.
#[derive(Debug, Clone, Copy, PartialEq, Eq, Structural)]
pub enum DecodeStart {
    /// At the first access unit of the file. Presentation frame zero can follow
    /// priming units, and a replay has to include those.
    Initial { reset: bool },
    /// Nowhere: the target is the end.
    End,
    /// At this access unit of the index, toward this frame.
    Unit { start: usize, target: i64 },
}

/// Where a run toward `target_frame` starts.
pub fn plan_start(discontinuity: bool, target_frame: u64, index: &MediaIndexState) -> (r: Result<
    DecodeStart,
    String,
>)
    ensures
        if !discontinuity || target_frame == 0 {
            r == Ok::<DecodeStart, String>(DecodeStart::Initial { reset: discontinuity })
        } else {
            match *index {
                MediaIndexState::Building => r is Err && r->Err_0@
                    == "Media indexing has not completed yet"@,
                MediaIndexState::Failed(error) => r is Err && r->Err_0@
                    == "Media seek index failed: "@ + error@,
                MediaIndexState::Ready(index) => if target_frame == index.duration_frames {
                    r == Ok::<DecodeStart, String>(DecodeStart::End)
                } else if target_frame > i64::MAX {
                    r is Err && r->Err_0@ == "Seek target exceeds the signed Scene timeline"@
                } else {
                    match r {
                        Ok(DecodeStart::Unit { start, target }) => {
                            &&& target == target_frame
                            &&& is_last_start(index, target, index.access_units@.len() as int, start)
                        },
                        Ok(_) => false,
                        Err(message) => {
                            &&& has_no_start(
                                index,
                                target_frame as i64,
                                index.access_units@.len() as int,
                            )
                            &&& message@
                                == "No usable complete random-access point exists at or before the seek target"@
                        },
                    }
                },
            }
        },
{
    if !discontinuity || target_frame == 0 {
        return Ok(DecodeStart::Initial { reset: discontinuity });
    }
    let index = match index.ready() {
        Ok(index) => index,
        Err(error) => {
            return Err(error);
        },
    };
    if target_frame == index.duration_frames {
        return Ok(DecodeStart::End);
    }
    if target_frame > i64::MAX as u64 {
        return Err("Seek target exceeds the signed Scene timeline".to_owned());
    }
    let target: i64 = target_frame as i64;
    match index.seek_start_before(target, index.access_units.len()) {
        Some(start) => Ok(DecodeStart::Unit { start, target }),
        None => Err(
            "No usable complete random-access point exists at or before the seek target".to_owned(),
        ),
    }
}

/// `start` is the last unit before `limit` that decoding toward `target` can
/// start from.
pub open spec fn is_last_start(index: MediaIndex, target: i64, limit: int, start: usize) -> bool {
    &&& start < limit
    &&& starts_before(index.access_units@, target, start as int)
    &&& forall|i: int|
        start < i < limit ==> !#[trigger] starts_before(index.access_units@, target, i)
}

pub open spec fn has_no_start(index: MediaIndex, target: i64, limit: int) -> bool {
    forall|i: int| 0 <= i < limit ==> !#[trigger] starts_before(index.access_units@, target, i)
}

/// Where to try again after an attempt from unit `start` failed: at the last
/// usable unit before it. Once audio has been published, or where there is no
/// such unit, the error stands.
pub fn plan_retry(
    index: &MediaIndex,
    target: i64,
    start: usize,
    published: bool,
    error: String,
) -> (r: Result<usize, String>)
    ensures
        match r {
            Ok(earlier) => !published && is_last_start(*index, target, start as int, earlier),
            Err(message) => message == error && (published || has_no_start(
                *index,
                target,
                start as int,
            )),
        },
{
    if published {
        return Err(error);
    }
    match index.seek_start_before(target, start) {
        Some(earlier) => Ok(earlier),
        None => Err(error),
    }
}

/// What the worker does with a command.
#[derive(Debug)]
pub enum WorkerAction {
    /// Decode the loaded media from its start with a new session.
    Replay { key: PlaybackKey },
    /// Load this file, then decode it from its start.
    Load { key: PlaybackKey, path: PathBuf },
    /// Decode the loaded media toward this frame.
    Seek { key: PlaybackKey, target_frame: u64 },
    /// Report that there is nothing to seek in.
    RefuseSeek { key: PlaybackKey, message: String },
    Unload,
    Stop,
}

/// Decides what to do with a command. `same_path` says whether media is loaded
/// from the path that the command names.
pub fn worker_action(command: WorkerCommand, loaded: bool, same_path: bool) -> (r: WorkerAction)
    ensures
        match command {
            WorkerCommand::Open { key, path, reuse_cached } => if loaded && same_path
                && reuse_cached {
                r == (WorkerAction::Replay { key })
            } else {
                r == (WorkerAction::Load { key, path })
            },
            WorkerCommand::Seek { key, target_frame } => if loaded {
                r == (WorkerAction::Seek { key, target_frame })
            } else {
                r matches WorkerAction::RefuseSeek { key: k, message } && k == key && message@
                    == "Seek requested without a loaded source"@
            },
            WorkerCommand::Close => r == WorkerAction::Unload,
            WorkerCommand::Shutdown => r == WorkerAction::Stop,
        },
{
    match command {
        WorkerCommand::Open { key, path, reuse_cached } => if loaded && same_path && reuse_cached {
            WorkerAction::Replay { key }
        } else {
            WorkerAction::Load { key, path }
        },
        WorkerCommand::Seek { key, target_frame } => if loaded {
            WorkerAction::Seek { key, target_frame }
        } else {
            WorkerAction::RefuseSeek {
                key,
                message: "Seek requested without a loaded source".to_owned(),
            }
        },
        WorkerCommand::Close => WorkerAction::Unload,
        WorkerCommand::Shutdown => WorkerAction::Stop,
    }
}

/// A seek never starts behind its target, and each retry starts strictly
/// earlier, so the attempts end.
pub proof fn retries_move_toward_the_start(
    index: MediaIndex,
    target: i64,
    start: usize,
    earlier: usize,
)
    requires
        is_last_start(index, target, index.access_units@.len() as int, start),
        is_last_start(index, target, start as int, earlier),
    ensures
        earlier < start,
        index.access_units@[earlier as int].safe_random_access,
        index.access_units@[earlier as int].presentation_start <= target,
{
}

/// A seek that the player is told to be possible finds a unit to start from.
pub proof fn a_seekable_frame_has_a_start(index: MediaIndex, target: u64)
    requires
        index.seekable_from_frame == super::index::first_safe_frame(index.access_units@),
        index.seekable_from_frame is Some,
        index.seekable_from_frame->0 <= target <= i64::MAX,
    ensures
        !has_no_start(index, target as i64, index.access_units@.len() as int),
{
    lemma_first_safe_frame_is_a_start(index.access_units@, target);
}

proof fn lemma_first_safe_frame_is_a_start(
    units: Seq<super::index::IndexedAccessUnit>,
    target: u64,
)
    requires
        super::index::first_safe_frame(units) is Some,
        super::index::first_safe_frame(units)->0 <= target <= i64::MAX,
    ensures
        exists|i: int| #[trigger] starts_before(units, target as i64, i),
    decreases units.len(),
{
    let rest = units.drop_last();
    let last = units.last();
    if last.safe_random_access && last.presented_from() <= target {
        assert(starts_before(units, target as i64, units.len() - 1));
    } else {
        lemma_first_safe_frame_is_a_start(rest, target);
        let i = choose|i: int| #[trigger] starts_before(rest, target as i64, i);
        assert(units[i] == rest[i]);
        assert(starts_before(units, target as i64, i));
    }
}

/// Playback may start once three tenths of a second are buffered.
pub proof fn three_tenths_of_a_second_are_a_prebuffer(frames: u64, sample_rate: u32)
    ensures
        prebuffered(frames, sample_rate) <==> 10 * frames >= 3 * sample_rate,
{
}

/// Of a block that reaches beyond an end, the part before the end is kept: no frame of it
/// lies behind the end, and none before it is lost.
pub proof fn a_block_is_kept_up_to_the_end(block: DecodedSceneBlock, end: i64)
    ensures
        ({
            let keep = frames_before(block, end);
            &&& 0 <= keep <= block.duration_frames
            &&& keep > 0 ==> block.start_frame + keep <= end
            &&& keep < block.duration_frames ==> block.start_frame + keep >= end
            &&& block.start_frame + block.duration_frames <= end ==> keep == block.duration_frames
            &&& block.start_frame >= end && block.duration_frames > 0 ==> keep == 0
        }),
{
}

/// What is cut from a block is its tail: the first samples of each element stay as they
/// are, and so do the updates before the cut.
pub proof fn a_cut_takes_the_tail(before: DecodedSceneBlock, after: DecodedSceneBlock, keep: int)
    requires
        is_cut(before, after, keep),
        0 <= keep <= before.duration_frames,
        planes_fit(before),
    ensures
        after.duration_frames == keep,
        after.start_frame == before.start_frame,
        after.sample_rate == before.sample_rate,
        after.configuration_generation == before.configuration_generation,
        after.state_complete == before.state_complete,
        after.objects@.len() == before.objects@.len(),
        forall|i: int|
            0 <= i < before.objects@.len() ==> {
                &&& (#[trigger] before.objects@[i]).element_id == after.objects@[i].element_id
                &&& before.objects@[i].initial_state == after.objects@[i].initial_state
                &&& after.objects@[i].samples@.len() == keep
                &&& before.objects@[i].samples@.take(keep) == after.objects@[i].samples@
            },
        before.lfe is Some ==> after.lfe is Some && after.lfe->0.samples@
            == before.lfe->0.samples@.take(keep) && after.lfe->0.element_id
            == before.lfe->0.element_id,
        forall|k: int|
            0 <= k < after.metadata_updates@.len() ==> (
            #[trigger] after.metadata_updates@[k]).offset_frames < keep
                && before.metadata_updates@.contains(after.metadata_updates@[k]),
        forall|k: int|
            0 <= k < before.metadata_updates@.len() && (
            #[trigger] before.metadata_updates@[k]).offset_frames < keep
                ==> after.metadata_updates@.contains(before.metadata_updates@[k]),
{
    broadcast use vstd::seq_lib::group_filter_ensures;

    let early = |update: SceneMetadataUpdate| update.offset_frames < keep;
    assert forall|k: int| 0 <= k < after.metadata_updates@.len() implies (
    #[trigger] after.metadata_updates@[k]).offset_frames < keep
        && before.metadata_updates@.contains(after.metadata_updates@[k]) by {
        before.metadata_updates@.lemma_filter_contains_rev(early, after.metadata_updates@[k]);
        assert(after.metadata_updates@.contains(after.metadata_updates@[k]));
    }
    assert forall|k: int| 0 <= k < before.metadata_updates@.len() && (
    #[trigger] before.metadata_updates@[k]).offset_frames < keep implies after.metadata_updates@.contains(
        before.metadata_updates@[k]) by {
        assert(early(before.metadata_updates@[k]));
    }
    assert forall|i: int| 0 <= i < before.objects@.len() implies {
        &&& (#[trigger] before.objects@[i]).element_id == after.objects@[i].element_id
        &&& before.objects@[i].initial_state == after.objects@[i].initial_state
        &&& after.objects@[i].samples@.len() == keep
        &&& before.objects@[i].samples@.take(keep) == after.objects@[i].samples@
    } by {
        assert(after.objects@[i].samples@ == cut(before.objects@[i].samples@, keep));
        if before.objects@[i].samples@.len() <= keep {
            assert(before.objects@[i].samples@.take(keep) =~= before.objects@[i].samples@);
        }
    }
    if before.lfe is Some && before.lfe->0.samples@.len() <= keep {
        assert(before.lfe->0.samples@.take(keep) =~= before.lfe->0.samples@);
    }
}

/// A block is placed where part of it lies behind the target and before the end of the
/// media; one that is over by the target, or behind the end, is passed over.
pub proof fn a_block_is_placed_between_the_target_and_the_end(
    block: DecodedSceneBlock,
    duration: u64,
    target_frame: i64,
)
    requires
        duration <= i64::MAX,
        block.start_frame + block.duration_frames <= i64::MAX,
        block.duration_frames > 0,
    ensures
        ({
            let end = block.start_frame + block.duration_frames;
            &&& placement(block, None, target_frame) == Ok::<bool, Seq<char>>(end > target_frame)
            &&& block.start_frame >= duration ==> placement(block, Some(duration), target_frame)
                == Ok::<bool, Seq<char>>(false)
            &&& block.start_frame < duration && end <= duration ==> placement(
                block,
                Some(duration),
                target_frame,
            ) == Ok::<bool, Seq<char>>(end > target_frame)
            &&& block.start_frame < duration < end ==> placement(
                block,
                Some(duration),
                target_frame,
            ) == Ok::<bool, Seq<char>>(duration > target_frame)
        }),
{
}

/// Each frame that is decoded counts once, with its length and the changes that came with
/// it; nothing else of the metrics changes.
pub proof fn a_decoded_frame_is_counted(
    metrics: MetricsModel,
    block: DecodedSceneBlock,
    sent_updates: int,
)
    requires
        0 <= sent_updates,
        metrics.decoded_scene_frames < u64::MAX,
        metrics.decoded_frames + block.duration_frames <= u64::MAX,
        metrics.metadata_updates + sent_updates <= u64::MAX,
    ensures
        ({
            let next = with_frame_counted(metrics, block, sent_updates);
            &&& next.decoded_scene_frames == metrics.decoded_scene_frames + 1
            &&& next.decoded_frames == metrics.decoded_frames + block.duration_frames
            &&& next.metadata_updates == metrics.metadata_updates + sent_updates
            &&& next.decoded_access_units == metrics.decoded_access_units
            &&& next.buffered_frames == metrics.buffered_frames
            &&& next.scene_signature == metrics.scene_signature
            &&& next.duration_frames == metrics.duration_frames
            &&& next.sample_rate == metrics.sample_rate
        }),
{
}

/// The first block that is kept tells the scene; later ones change nothing of it.
pub proof fn the_first_block_tells_the_scene(metrics: MetricsModel, block: DecodedSceneBlock)
    requires
        block.objects@.len() <= usize::MAX,
    ensures
        metrics.scene_signature is Some ==> with_scene(metrics, block) == metrics,
        metrics.scene_signature is None ==> {
            let next = with_scene(metrics, block);
            &&& next.object_count == block.objects@.len()
            &&& next.has_lfe <==> block.lfe is Some
            &&& next.presentation_index == block.presentation_index
            &&& next.presentation_id == block.presentation_id
            &&& next.state_complete == block.state_complete
            &&& next.scene_signature is Some
            &&& next.scene_signature->0.configuration_generation == block.configuration_generation
            &&& next.decoded_frames == metrics.decoded_frames
            &&& next.sample_rate == metrics.sample_rate
        },
{
}

/// A seek keeps its blocks back until they are a prebuffer, and then hands them all over
/// in their order; from then on each block goes to the queue by itself.
pub proof fn a_seek_hands_over_a_whole_prebuffer(
    before: Option<SeekPreroll>,
    after: Option<SeekPreroll>,
    block: DecodedSceneBlock,
    sample_rate: u32,
    r: Result<Admission, String>,
)
    requires
        admitted(before, after, block, sample_rate, r),
    ensures
        r is Ok,
        before is None || before->0.published ==> after == before && r->Ok_0 is Queue
            && r->Ok_0->Queue_0@ == seq![block],
        before is Some && !before->0.published && before->0.frames + block.duration_frames
            <= u64::MAX ==> {
            let frames = before->0.frames + block.duration_frames;
            &&& after is Some
            &&& after->0.frames == frames
            &&& 10 * frames >= 3 * sample_rate ==> r->Ok_0 is Queue && r->Ok_0->Queue_0@
                == before->0.blocks@.push(block) && after->0.published && after->0.blocks@.len()
                == 0
            &&& 10 * frames < 3 * sample_rate ==> r->Ok_0 is Hold && !after->0.published
                && after->0.blocks@ == before->0.blocks@.push(block)
        },
{
}

/// A block is taken where the queue serves its playback, has its rate, and has room for
/// it; a taken block stands last, and the player is ready once a prebuffer stands there.
pub proof fn a_block_is_taken_where_there_is_room(
    key: PlaybackKey,
    block: DecodedSceneBlock,
    before: (SceneQueue, MetricsModel),
    after: (SceneQueue, MetricsModel),
    r: Result<Offer, String>,
)
    requires
        offered(key, block, before, after, r),
        before.0.wf(),
    ensures
        before.0.key != key ==> r is Ok && r->Ok_0 is Stale && after == before,
        before.0.key == key && before.0.sample_rate != 0 && before.0.sample_rate
            != block.sample_rate ==> r is Err && after == before,
        before.0.key == key && (before.0.sample_rate == 0 || before.0.sample_rate
            == block.sample_rate) ==> {
            &&& r is Ok
            &&& before.0.buffered_frames + block.duration_frames > 2 * block.sample_rate
                ==> r->Ok_0 is Full && after.0.blocks@ == before.0.blocks@ && after.1 == before.1
            &&& before.0.buffered_frames + block.duration_frames <= 2 * block.sample_rate ==> {
                &&& r->Ok_0 is Taken
                &&& after.0.blocks@ == before.0.blocks@.push(block)
                &&& after.0.buffered_frames == before.0.buffered_frames + block.duration_frames
                &&& after.1.buffered_frames == after.0.buffered_frames
                &&& after.1.buffer_capacity_frames == 2 * block.sample_rate
                &&& after.1.decoded_frames == before.1.decoded_frames
                &&& r->Ok_0->Taken_0 is Ready <==> 10 * after.0.buffered_frames >= 3
                    * before.1.sample_rate
                &&& r->Ok_0->Taken_0 is Ready || r->Ok_0->Taken_0 is Buffering
            }
        },
{
}

/// Fresh metrics say what the container says and count nothing yet.
pub proof fn fresh_metrics_count_nothing(
    container: DecodeContainer,
    sample_rate: u32,
    duration_frames: Option<u64>,
    seekable_from_frame: Option<u64>,
    indexing: bool,
    target_frame: u64,
)
    ensures
        ({
            let fresh = fresh_metrics(
                container,
                sample_rate,
                duration_frames,
                seekable_from_frame,
                indexing,
                target_frame,
            );
            &&& fresh.container == container
            &&& fresh.sample_rate == sample_rate
            &&& fresh.duration_frames == duration_frames
            &&& fresh.seekable_from_frame == seekable_from_frame
            &&& fresh.indexing == indexing
            &&& fresh.target_frame == target_frame
            &&& fresh.index_error is None
            &&& fresh.scene_signature is None
            &&& fresh.decoded_access_units == 0
            &&& fresh.decoded_frames == 0
            &&& fresh.decoded_scene_frames == 0
            &&& fresh.metadata_updates == 0
            &&& fresh.buffered_frames == 0
            &&& fresh.buffer_capacity_frames == 2 * sample_rate
        }),
{
}

/// Decoding from the start, and to frame zero, needs no index; decoding to the end needs
/// no access unit. Anything between them starts at the last unit that decoding can start
/// from and that is presented by then.
pub proof fn decoding_starts_as_late_as_it_can(
    discontinuity: bool,
    target_frame: u64,
    index: MediaIndex,
    r: Result<DecodeStart, String>,
)
    requires
        call_ensures(
            plan_start,
            (discontinuity, target_frame, &MediaIndexState::Ready(index)),
            r,
        ),
    ensures
        !discontinuity || target_frame == 0 ==> r == Ok::<DecodeStart, String>(
            DecodeStart::Initial { reset: discontinuity },
        ),
        discontinuity && target_frame > 0 && target_frame == index.duration_frames ==> r == Ok::<
            DecodeStart,
            String,
        >(DecodeStart::End),
        discontinuity && 0 < target_frame <= i64::MAX && target_frame != index.duration_frames
            && r is Ok ==> {
            let unit = index.access_units@[r->Ok_0->start as int];
            &&& r->Ok_0 is Unit
            &&& r->Ok_0->target == target_frame
            &&& r->Ok_0->start < index.access_units@.len()
            &&& unit.safe_random_access
            &&& unit.presentation_start <= target_frame
            &&& forall|i: int|
                r->Ok_0->start < i < index.access_units@.len() ==> !(
                (#[trigger] index.access_units@[i]).safe_random_access
                    && index.access_units@[i].presentation_start <= target_frame)
        },
        discontinuity && 0 < target_frame <= i64::MAX && target_frame != index.duration_frames
            && r is Err ==> forall|i: int|
            0 <= i < index.access_units@.len() ==> !(
            (#[trigger] index.access_units@[i]).safe_random_access
                && index.access_units@[i].presentation_start <= target_frame),
{
    if discontinuity && 0 < target_frame <= i64::MAX && target_frame != index.duration_frames {
        let units = index.access_units@;
        if r is Ok {
            let start = r->Ok_0->start as int;
            assert forall|i: int| start < i < units.len() implies !(
            (#[trigger] units[i]).safe_random_access && units[i].presentation_start
                <= target_frame) by {
                assert(!starts_before(units, target_frame as i64, i));
            }
        } else {
            assert forall|i: int| 0 <= i < units.len() implies !(
            (#[trigger] units[i]).safe_random_access && units[i].presentation_start
                <= target_frame) by {
                assert(!starts_before(units, target_frame as i64, i));
            }
        }
    }
}

/// A command is carried out on the media that is loaded, and only there.
pub proof fn a_command_is_carried_out_on_what_is_loaded(
    command: WorkerCommand,
    loaded: bool,
    same_path: bool,
    r: WorkerAction,
)
    requires
        call_ensures(worker_action, (command, loaded, same_path), r),
    ensures
        command is Close ==> r is Unload,
        command is Shutdown ==> r is Stop,
        command is Seek && loaded ==> r is Seek && r->Seek_key == command->Seek_key
            && r->Seek_target_frame == command->Seek_target_frame,
        command is Seek && !loaded ==> r is RefuseSeek,
        command is Open && loaded && same_path && command->reuse_cached ==> r is Replay
            && r->Replay_key == command->Open_key,
        command is Open && (!loaded || !same_path || !command->reuse_cached) ==> r is Load
            && r->Load_path == command->path && r->Load_key == command->Open_key,
{
}

/// A cut leaves the presentation that a block is of.
pub proof fn a_cut_keeps_the_presentation(
    before: DecodedSceneBlock,
    after: DecodedSceneBlock,
    keep: int,
)
    requires
        is_cut(before, after, keep),
    ensures
        after.presentation_index == before.presentation_index,
        after.presentation_id == before.presentation_id,
        before.lfe is None ==> after.lfe is None,
        before.lfe is Some ==> after.lfe->0.initial_state == before.lfe->0.initial_state,
{
}

} // verus!
