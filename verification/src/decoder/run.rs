//! One run of the decoder toward a frame of the media.
//!
//! The worker's loop reads access units and runs the codec. A run says what comes
//! next, takes what was decoded, and hands over what the player wants of it.
use super::continuity::SceneContinuity;
use super::controller::WorkerEvent;
use super::frame::{frame_refusal, holds, CodecFrame};
use super::index::MediaIndex;
use super::queue::{PlaybackKey, SceneQueue};
use super::scene::DecodedSceneBlock;
use super::snapshot::{DecodeMetrics, DecodePhase, MetricsModel};
use super::worker::{
    admit_frame, count_unit, counted, finish, has_no_start, is_last_start, kept_part, offer_block,
    offered, placement, plan_retry, prebuffered, take_frame, with_frame_counted, with_scene,
    Admission, Offer, SeekPreroll, UnitStatus,
};
use std::path::PathBuf;
use vstd::prelude::*;
use vstd::string::*;

verus! {

#[derive(Debug)]
pub struct DecodeRun {
    pub key: PlaybackKey,
    /// The frame that the player wants to hear first.
    pub target: i64,
    pub metrics: DecodeMetrics,
    /// What a seek keeps back until it is known to work.
    pub preroll: Option<SeekPreroll>,
    /// What the last frame left running.
    pub continuity: SceneContinuity,
    /// Decoded frames that are still to be taken, oldest first.
    pub frames: Vec<CodecFrame>,
    /// Blocks that are still to be handed over, oldest first.
    pub blocks: Vec<DecodedSceneBlock>,
    /// There may be more access units.
    pub units_left: bool,
}

/// What a run has to do next.
#[derive(Debug, Clone, Copy, PartialEq, Eq, Structural)]
pub enum RunStep {
    /// Offer the oldest block to the queue.
    Offer,
    /// Take the oldest decoded frame.
    Take,
    /// Decode the next access unit, or learn that there is none.
    Decode,
    /// The media is over.
    Finish,
}

/// What an offer came to.
#[derive(Debug, Clone, Copy, PartialEq, Eq, Structural)]
pub enum Handover {
    /// The block was taken; tell the player this phase.
    Taken(DecodePhase),
    /// There is no room yet; tell the player it is ready, and offer it again.
    Full,
    /// Another playback owns the queue: the run is over.
    Stale,
}

impl DecodeRun {
    /// The run may still turn out to have started too late in the media.
    pub open spec fn provisional(&self) -> bool {
        self.preroll is Some && !self.preroll->0.published
    }

    /// What a seek keeps back.
    pub open spec fn held(&self) -> Seq<DecodedSceneBlock> {
        match self.preroll {
            Some(preroll) => preroll.blocks@,
            None => Seq::empty(),
        }
    }

    /// How many frames a seek has kept back so far.
    pub open spec fn kept_frames(&self) -> u64 {
        match self.preroll {
            Some(preroll) => preroll.frames,
            None => 0,
        }
    }

    /// What the player is owed, oldest first.
    pub open spec fn owed(&self) -> Seq<DecodedSceneBlock> {
        self.blocks@ + self.held()
    }

    /// A provisional run has handed nothing over, and any other keeps nothing back.
    pub open spec fn wf(&self) -> bool {
        if self.provisional() {
            self.blocks@.len() == 0 && self.metrics@.buffered_frames == 0
        } else {
            self.held().len() == 0
        }
    }

    /// What comes next: what is decoded is handed over before anything more is
    /// decoded, and what was kept back is handed over at the end of the media.
    pub open spec fn step(&self) -> RunStep {
        if self.blocks@.len() > 0 {
            RunStep::Offer
        } else if self.frames@.len() > 0 {
            RunStep::Take
        } else if self.units_left {
            RunStep::Decode
        } else if self.held().len() > 0 {
            RunStep::Offer
        } else {
            RunStep::Finish
        }
    }

    /// Both are the same but for what they keep, what they owe and what they count.
    pub open spec fn same_aim(&self, other: &DecodeRun) -> bool {
        &&& self.key == other.key
        &&& self.target == other.target
        &&& self.preroll is Some == other.preroll is Some
    }

    /// A run that has decoded nothing. A seek is provisional at first.
    pub fn new(key: PlaybackKey, target: i64, metrics: DecodeMetrics, seek: bool) -> (r: Self)
        ensures
            r.key == key,
            r.target == target,
            r.metrics == metrics,
            r.preroll is Some == seek,
            r.provisional() == seek,
            r.kept_frames() == 0,
            r.continuity.end is None,
            r.continuity.states@ == Map::<u64, super::continuity::EndState>::empty(),
            r.frames@.len() == 0,
            r.owed().len() == 0,
            r.units_left,
            !seek || metrics@.buffered_frames == 0 ==> r.wf(),
    {
        DecodeRun {
            key,
            target,
            metrics,
            preroll: if seek {
                Some(SeekPreroll::default())
            } else {
                None
            },
            continuity: SceneContinuity::default(),
            frames: Vec::new(),
            blocks: Vec::new(),
            units_left: true,
        }
    }

    /// Says what comes next.
    pub fn next(&mut self) -> (r: RunStep)
        requires
            old(self).wf(),
        ensures
            final(self).wf(),
            r == old(self).step(),
            r == final(self).step(),
            final(self).owed() == old(self).owed(),
            final(self).kept_frames() == old(self).kept_frames(),
            r is Offer == (final(self).blocks@.len() > 0),
            final(self).same_aim(old(self)),
            final(self).metrics == old(self).metrics,
            final(self).continuity == old(self).continuity,
            final(self).frames == old(self).frames,
            final(self).units_left == old(self).units_left,
            final(self).provisional() == (old(self).provisional() && r !is Offer),
    {
        if self.blocks.len() > 0 {
            return RunStep::Offer;
        }
        if self.frames.len() > 0 {
            return RunStep::Take;
        }
        if self.units_left {
            return RunStep::Decode;
        }
        if let Some(preroll) = &mut self.preroll {
            if preroll.blocks.len() > 0 {
                let blocks = preroll.publish();
                self.blocks = blocks;
                assert(self.owed() =~= old(self).owed());
                return RunStep::Offer;
            }
        }
        RunStep::Finish
    }

    /// An access unit was decoded.
    pub fn decoded(&mut self, status: UnitStatus, frames: Vec<CodecFrame>) -> (r: Result<
        (),
        String,
    >)
        requires
            old(self).wf(),
        ensures
            final(self).wf(),
            final(self).key == old(self).key,
            final(self).target == old(self).target,
            final(self).preroll == old(self).preroll,
            final(self).continuity == old(self).continuity,
            final(self).blocks == old(self).blocks,
            final(self).units_left == old(self).units_left,
            final(self).metrics@ == (MetricsModel {
                decoded_access_units: counted(old(self).metrics@.decoded_access_units, 1),
                ..old(self).metrics@
            }),
            match status {
                UnitStatus::Decoded => r is Ok && final(self).frames@ == old(self).frames@
                    + frames@,
                UnitStatus::WaitingForRandomAccess => r is Ok && final(self).frames@ == old(
                    self,
                ).frames@,
                UnitStatus::Unknown => r is Err && r->Err_0@
                    == "MacinDecode Core returned an unknown decode status"@ && final(self).frames@
                    == old(self).frames@,
            },
    {
        let mut frames = frames;
        match count_unit(&mut self.metrics, status) {
            Ok(true) => {
                self.frames.append(&mut frames);
                Ok(())
            },
            Ok(false) => Ok(()),
            Err(error) => Err(error),
        }
    }

    /// There are no more access units. A raw stream tells its length only now.
    pub fn exhausted(&mut self, duration_frames: Option<u64>)
        requires
            old(self).wf(),
        ensures
            final(self).wf(),
            !final(self).units_left,
            final(self).key == old(self).key,
            final(self).target == old(self).target,
            final(self).preroll == old(self).preroll,
            final(self).continuity == old(self).continuity,
            final(self).frames == old(self).frames,
            final(self).blocks == old(self).blocks,
            final(self).metrics@ == (MetricsModel {
                duration_frames: if duration_frames is Some {
                    duration_frames
                } else {
                    old(self).metrics@.duration_frames
                },
                ..old(self).metrics@
            }),
    {
        self.units_left = false;
        if duration_frames.is_some() {
            self.metrics.duration_frames = duration_frames;
        }
    }

    /// `after` has taken `block`, with which the decoder sent so many changes: it is counted, and owed to the player as far as it
    /// is wanted. A seek stops being provisional with a full prebuffer.
    pub open spec fn takes(
        before: DecodeRun,
        after: DecodeRun,
        block: DecodedSceneBlock,
        sent_updates: int,
        r: Result<(), String>,
    ) -> bool {
        let metrics = with_frame_counted(before.metrics@, block, sent_updates);
        match placement(block, before.metrics@.duration_frames, before.target) {
            Err(message) => {
                &&& r is Err
                &&& r->Err_0@ == message
                &&& after.metrics@ == metrics
                &&& after.owed() == before.owed()
                &&& after.preroll == before.preroll
            },
            Ok(false) => {
                &&& r is Ok
                &&& after.metrics@ == metrics
                &&& after.owed() == before.owed()
                &&& after.preroll == before.preroll
            },
            Ok(true) => exists|kept: DecodedSceneBlock|
                {
                    &&& #[trigger] kept_part(block, kept, before.metrics@.duration_frames)
                    &&& r is Ok
                    &&& after.metrics@ == with_scene(metrics, kept)
                    &&& after.owed() == before.owed().push(kept)
                    &&& after.kept_frames() == (if before.provisional() {
                        counted(before.kept_frames(), kept.duration_frames as int)
                    } else {
                        before.kept_frames()
                    })
                    &&& after.provisional() == (before.provisional() && !prebuffered(
                        after.kept_frames(),
                        before.metrics@.sample_rate,
                    ))
                },
        }
    }

    /// Takes the oldest decoded frame.
    pub fn take(&mut self) -> (r: Result<(), String>)
        requires
            old(self).wf(),
            old(self).frames@.len() > 0,
        ensures
            final(self).wf(),
            final(self).same_aim(old(self)),
            final(self).units_left == old(self).units_left,
            final(self).frames@ == old(self).frames@.drop_first(),
            match frame_refusal(old(self).frames@[0]) {
                Some(message) => {
                    &&& r is Err
                    &&& r->Err_0@ == message
                    &&& final(self).metrics == old(self).metrics
                    &&& final(self).preroll == old(self).preroll
                    &&& final(self).continuity == old(self).continuity
                    &&& final(self).blocks == old(self).blocks
                },
                None => exists|raw: DecodedSceneBlock, block: DecodedSceneBlock|
                    {
                        &&& #[trigger] holds(raw, old(self).frames@[0])
                        &&& #[trigger] SceneContinuity::normalizes(
                            old(self).continuity,
                            raw,
                            final(self).continuity,
                            block,
                        )
                        &&& DecodeRun::takes(
                            *old(self),
                            *final(self),
                            block,
                            old(self).frames@[0].metadata_updates@.len() as int,
                            r,
                        )
                    },
            },
    {
        let ghost before = *self;
        let frame = self.frames.remove(0);
        assert(self.frames@ =~= before.frames@.drop_first());
        let sent_updates: usize = frame.metadata_updates.len();
        let block = match take_frame(frame, &mut self.continuity) {
            Ok(block) => block,
            Err(error) => {
                return Err(error);
            },
        };
        let ghost taken = block;
        let ghost raw = choose|raw: DecodedSceneBlock| #[trigger]
            holds(raw, frame) && SceneContinuity::normalizes(
                before.continuity,
                raw,
                self.continuity,
                taken,
            );
        let admission = admit_frame(
            &mut self.metrics,
            block,
            sent_updates,
            self.target,
            &mut self.preroll,
        );
        let r = match admission {
            Ok(Admission::Queue(blocks)) => {
                let mut blocks = blocks;
                self.blocks.append(&mut blocks);
                Ok(())
            },
            Ok(_) => Ok(()),
            Err(error) => Err(error),
        };
        proof {
            match placement(taken, before.metrics@.duration_frames, before.target) {
                Ok(true) => {
                    let kept = choose|kept: DecodedSceneBlock|
                        {
                            &&& #[trigger] kept_part(taken, kept, before.metrics@.duration_frames)
                            &&& self.metrics@ == with_scene(
                                with_frame_counted(before.metrics@, taken, sent_updates as int),
                                kept,
                            )
                            &&& super::worker::admitted(
                                before.preroll,
                                self.preroll,
                                kept,
                                before.metrics@.sample_rate,
                                admission,
                            )
                        };
                    assert(self.owed() =~= before.owed().push(kept));
                },
                _ => {
                    assert(self.owed() =~= before.owed());
                },
            }
            assert(DecodeRun::takes(before, *self, taken, sent_updates as int, r));
            assert(holds(raw, before.frames@[0]) && SceneContinuity::normalizes(
                before.continuity,
                raw,
                self.continuity,
                taken,
            ));
        }
        r
    }

    /// How a run and the queue come out of an offer of the oldest block.
    pub open spec fn offers(
        before: (DecodeRun, SceneQueue),
        after: (DecodeRun, SceneQueue),
        r: Result<Handover, String>,
    ) -> bool {
        let block = before.0.blocks@[0];
        let outcome = match r {
            Ok(Handover::Taken(phase)) => Ok::<Offer, String>(Offer::Taken(phase)),
            Ok(Handover::Full) => Ok(Offer::Full(Box::new(block))),
            Ok(Handover::Stale) => Ok(Offer::Stale),
            Err(error) => Err(error),
        };
        &&& offered(
            before.0.key,
            block,
            (before.1, before.0.metrics@),
            (after.1, after.0.metrics@),
            outcome,
        )
        // A block that there is no room for stays the oldest.
        &&& after.0.blocks@ == (if r == Ok::<Handover, String>(Handover::Full) {
            before.0.blocks@
        } else {
            before.0.blocks@.drop_first()
        })
        &&& after.0.same_aim(&before.0)
        &&& after.0.preroll == before.0.preroll
        &&& after.0.continuity == before.0.continuity
        &&& after.0.frames == before.0.frames
        &&& after.0.units_left == before.0.units_left
    }

    /// Offers the oldest block to the queue.
    pub fn offer(&mut self, queue: &mut SceneQueue) -> (r: Result<Handover, String>)
        requires
            old(self).wf(),
            old(self).blocks@.len() > 0,
            old(queue).wf(),
        ensures
            final(self).wf(),
            final(queue).wf(),
            DecodeRun::offers((*old(self), *old(queue)), (*final(self), *final(queue)), r),
    {
        let ghost before = self.blocks@;
        let block = self.blocks.remove(0);
        assert(block == before[0]);
        assert(self.blocks@ =~= before.drop_first());
        match offer_block(queue, self.key, block, &mut self.metrics) {
            Ok(Offer::Taken(phase)) => Ok(Handover::Taken(phase)),
            Ok(Offer::Stale) => Ok(Handover::Stale),
            Ok(Offer::Full(returned)) => {
                self.blocks.insert(0, *returned);
                assert(self.blocks@ =~= before);
                Ok(Handover::Full)
            },
            Err(error) => Err(error),
        }
    }

    /// Ends the run: the queue is marked, and the player is told.
    pub fn finish(&self, path: &PathBuf, queue: &mut SceneQueue) -> (r: Result<WorkerEvent, String>)
        ensures
            self.metrics@.decoded_scene_frames == 0 ==> r is Err && r->Err_0@
                == "MacinDecode Core produced no scene PCM"@ && *final(queue) == *old(queue),
            self.metrics@.decoded_scene_frames != 0 ==> {
                &&& r is Ok
                &&& r->Ok_0 matches WorkerEvent::Snapshot { key, snapshot } && key == self.key
                    && snapshot@ == (super::snapshot::SnapshotModel {
                    phase: DecodePhase::EndOfStream,
                    path: Some(*path),
                    metrics: Some(self.metrics@),
                    detail: None,
                })
                &&& *final(queue) == (SceneQueue {
                    end_of_stream: old(queue).end_of_stream || old(queue).key == self.key,
                    ..*old(queue)
                })
            },
    {
        finish(self.key, path, &self.metrics, queue)
    }

    /// Where to try again after the run from unit `start` failed. Only a run that has
    /// handed nothing over is tried again.
    pub fn retry(&self, index: &MediaIndex, start: usize, error: String) -> (r: Result<
        usize,
        String,
    >)
        requires
            self.wf(),
        ensures
            match r {
                Ok(earlier) => {
                    &&& self.provisional()
                    &&& self.blocks@.len() == 0
                    &&& self.metrics@.buffered_frames == 0
                    &&& is_last_start(*index, self.target, start as int, earlier)
                },
                Err(message) => message == error && (!self.provisional() || has_no_start(
                    *index,
                    self.target,
                    start as int,
                )),
            },
    {
        let provisional = match &self.preroll {
            Some(preroll) => !preroll.published,
            None => false,
        };
        plan_retry(index, self.target, start, !provisional, error)
    }
}

/// What is decoded and wanted reaches the queue once, in its order: an offer moves the
/// oldest block that is owed to the end of the queue, or changes nothing of either.
pub proof fn blocks_are_handed_over_in_order(
    before: (DecodeRun, SceneQueue),
    after: (DecodeRun, SceneQueue),
    r: Result<Handover, String>,
)
    requires
        before.0.wf(),
        before.0.blocks@.len() > 0,
        DecodeRun::offers(before, after, r),
        r is Ok,
        r !== Ok::<Handover, String>(Handover::Stale),
    ensures
        after.1.blocks@ + after.0.owed() == before.1.blocks@ + before.0.owed(),
        r->Ok_0 is Taken ==> after.1.blocks@ == before.1.blocks@.push(before.0.owed()[0]),
{
    assert(after.1.blocks@ + after.0.owed() =~= before.1.blocks@ + before.0.owed());
}

/// While a seek is provisional, the queue is left alone: there is nothing to offer, so
/// an earlier start can still be tried without anything having reached the player.
pub proof fn a_provisional_run_leaks_nothing(run: DecodeRun)
    requires
        run.wf(),
        run.provisional(),
    ensures
        run.blocks@.len() == 0,
        run.metrics@.buffered_frames == 0,
        run.units_left || run.frames@.len() > 0 ==> run.step() !is Offer,
{
}

/// A run hands over what it has before it takes more, takes what was decoded before it
/// decodes more, and is over once there is nothing of either and nothing kept back.
pub proof fn a_run_does_what_is_oldest_first(run: DecodeRun)
    ensures
        run.blocks@.len() > 0 ==> run.step() is Offer,
        run.blocks@.len() == 0 && run.frames@.len() > 0 ==> run.step() is Take,
        run.blocks@.len() == 0 && run.frames@.len() == 0 && run.units_left ==> run.step() is Decode,
        run.step() is Finish ==> run.blocks@.len() == 0 && run.frames@.len() == 0
            && !run.units_left && run.owed().len() == 0,
        run.blocks@.len() == 0 && run.frames@.len() == 0 && !run.units_left && run.owed().len() > 0
            ==> run.step() is Offer,
{
}

/// A frame that belongs between the target and the end is owed to the queue behind what
/// was owed before; any other frame is only counted.
pub proof fn a_taken_frame_is_owed_last(
    before: DecodeRun,
    after: DecodeRun,
    block: DecodedSceneBlock,
    sent_updates: int,
    r: Result<(), String>,
)
    requires
        DecodeRun::takes(before, after, block, sent_updates, r),
        before.metrics@.duration_frames is None,
        block.start_frame + block.duration_frames <= i64::MAX,
    ensures
        r is Ok,
        block.start_frame + block.duration_frames > before.target ==> {
            &&& after.owed() == before.owed().push(block)
            &&& before.preroll is Some && !before.preroll->0.published && before.preroll->0.frames
                + block.duration_frames <= u64::MAX ==> {
                let frames = before.preroll->0.frames + block.duration_frames;
                &&& after.kept_frames() == frames
                &&& after.provisional() <==> 10 * frames < 3 * before.metrics@.sample_rate
            }
        },
        block.start_frame + block.duration_frames <= before.target ==> after.owed()
            == before.owed() && after.preroll == before.preroll,
{
    if block.start_frame + block.duration_frames > before.target {
        let kept = choose|kept: DecodedSceneBlock|
            #[trigger] kept_part(block, kept, before.metrics@.duration_frames) && after.owed()
                == before.owed().push(kept) && after.kept_frames() == (if before.provisional() {
                counted(before.kept_frames(), kept.duration_frames as int)
            } else {
                before.kept_frames()
            }) && after.provisional() == (before.provisional() && !prebuffered(
                after.kept_frames(),
                before.metrics@.sample_rate,
            ));
        assert(kept == block);
    }
}

/// The oldest block is offered. Where there is no room it stays the oldest; otherwise it
/// is gone, and where the queue took it, it stands last there.
pub proof fn an_offered_block_is_in_one_place(
    before: (DecodeRun, SceneQueue),
    after: (DecodeRun, SceneQueue),
    r: Result<Handover, String>,
)
    requires
        DecodeRun::offers(before, after, r),
        before.0.blocks@.len() > 0,
        before.1.wf(),
    ensures
        r is Ok && r->Ok_0 is Full ==> after.0.blocks@ == before.0.blocks@ && after.1.blocks@
            == before.1.blocks@,
        r is Ok && r->Ok_0 is Taken ==> after.0.blocks@ == before.0.blocks@.drop_first()
            && after.1.blocks@ == before.1.blocks@.push(before.0.blocks@[0]),
        r is Ok && r->Ok_0 is Stale ==> after.1 == before.1 && before.1.key != before.0.key,
{
}

/// Offering a block changes nothing of how the run goes on.
pub proof fn an_offer_does_not_move_the_run(
    before: (DecodeRun, SceneQueue),
    after: (DecodeRun, SceneQueue),
    r: Result<Handover, String>,
)
    requires
        DecodeRun::offers(before, after, r),
    ensures
        after.0.key == before.0.key,
        after.0.target == before.0.target,
        after.0.preroll == before.0.preroll,
        after.0.continuity == before.0.continuity,
        after.0.frames == before.0.frames,
        after.0.units_left == before.0.units_left,
{
}

/// A run is provisional while what it keeps back has not been published, and what it keeps
/// back comes behind what is ready.
pub proof fn a_run_is_provisional_until_published(run: DecodeRun)
    ensures
        run.preroll is None ==> !run.provisional() && run.owed() == run.blocks@
            && run.kept_frames() == 0,
        run.preroll is Some && run.preroll->0.published ==> !run.provisional(),
        run.preroll is Some && !run.preroll->0.published ==> run.provisional(),
        run.preroll is Some ==> run.owed() == run.blocks@ + run.preroll->0.blocks@
            && run.kept_frames() == run.preroll->0.frames,
{
    assert(run.preroll is None ==> run.owed() =~= run.blocks@);
}

} // verus!
