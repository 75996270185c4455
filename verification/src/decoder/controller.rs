//! The player's side of the decode worker: what is asked of it, and what its
//! answers change.
//!
//! The controller only decides. It hands out the command that is to be sent,
//! and takes the events that came back.
use super::queue::{PlaybackKey, SceneQueue, SceneQueueReader};
use super::scene::DecodedSceneBlock;
use super::snapshot::{
    apply_index_state, inherit_scene_identity, with_inherited_identity, ControllerIndexState,
    DecodePhase, DecoderSnapshot, MetricsModel, SnapshotModel,
};
use crate::paths::{path_copy, path_same};
use crate::text::{decimal, push_decimal};
use std::path::PathBuf;
use vstd::prelude::*;
use vstd::string::*;

verus! {

#[derive(Debug)]
pub enum WorkerCommand {
    /// Open `path`; what is loaded from it already may serve again.
    Open { key: PlaybackKey, path: PathBuf, reuse_cached: bool },
    Seek { key: PlaybackKey, target_frame: u64 },
    Close,
    Shutdown,
}

#[derive(Debug)]
pub enum WorkerEvent {
    Snapshot { key: PlaybackKey, snapshot: DecoderSnapshot },
    IndexFinished {
        request_id: u64,
        duration_frames: Option<u64>,
        seekable_from_frame: Option<u64>,
        error: Option<String>,
    },
}

/// What an event says.
pub enum EventModel {
    Snapshot { key: PlaybackKey, snapshot: SnapshotModel },
    IndexFinished {
        request_id: u64,
        duration_frames: Option<u64>,
        seekable_from_frame: Option<u64>,
        error: Option<String>,
    },
}

impl View for WorkerEvent {
    type V = EventModel;

    open spec fn view(&self) -> EventModel {
        match *self {
            WorkerEvent::Snapshot { key, snapshot } => EventModel::Snapshot {
                key,
                snapshot: snapshot@,
            },
            WorkerEvent::IndexFinished {
                request_id,
                duration_frames,
                seekable_from_frame,
                error,
            } => EventModel::IndexFinished {
                request_id,
                duration_frames,
                seekable_from_frame,
                error,
            },
        }
    }
}

#[derive(Debug)]
pub struct DecoderController {
    /// There is a worker to send commands to.
    pub available: bool,
    pub snapshot: DecoderSnapshot,
    pub active_path: Option<PathBuf>,
    pub request_id: u64,
    pub playback_epoch: u64,
    pub index_state: ControllerIndexState,
    pub revision: u64,
}

/// What a controller knows.
#[verifier::ext_equal]
pub struct ControllerModel {
    pub available: bool,
    pub snapshot: SnapshotModel,
    pub active_path: Option<PathBuf>,
    pub request_id: u64,
    pub playback_epoch: u64,
    pub index_state: ControllerIndexState,
    pub revision: u64,
}

impl View for DecoderController {
    type V = ControllerModel;

    open spec fn view(&self) -> ControllerModel {
        ControllerModel {
            available: self.available,
            snapshot: self.snapshot@,
            active_path: self.active_path,
            request_id: self.request_id,
            playback_epoch: self.playback_epoch,
            index_state: self.index_state,
            revision: self.revision,
        }
    }
}

/// The number after `n`; behind the last one comes 1, so 0 is never used again.
pub open spec fn succeeding(n: u64) -> u64 {
    if n == u64::MAX {
        1
    } else {
        (n + 1) as u64
    }
}

/// The revision after `n`, which stops at the last one.
pub open spec fn revised(n: u64) -> u64 {
    if n == u64::MAX {
        n
    } else {
        (n + 1) as u64
    }
}

fn succeed(n: u64) -> (r: u64)
    ensures
        r == succeeding(n),
{
    match n.checked_add(1) {
        Some(next) => next,
        None => 1,
    }
}

impl ControllerModel {
    pub open spec fn key(self) -> PlaybackKey {
        PlaybackKey { request_id: self.request_id, epoch: self.playback_epoch }
    }

    /// A new request for `path`, which is being opened and indexed.
    pub open spec fn opened(self, path: PathBuf) -> ControllerModel {
        ControllerModel {
            active_path: Some(path),
            request_id: succeeding(self.request_id),
            playback_epoch: 0,
            index_state: ControllerIndexState::Building,
            snapshot: SnapshotModel::opening(path),
            revision: revised(self.revision),
            ..self
        }
    }

    /// No media. Without a worker the snapshot keeps saying why.
    pub open spec fn closed(self) -> ControllerModel {
        let closed = ControllerModel {
            active_path: None,
            request_id: succeeding(self.request_id),
            playback_epoch: 0,
            index_state: ControllerIndexState::Inactive,
            ..self
        };
        if self.available {
            ControllerModel {
                snapshot: SnapshotModel::idle(),
                revision: revised(self.revision),
                ..closed
            }
        } else {
            closed
        }
    }

    /// A new epoch of the same request, on its way to `target_frame`.
    pub open spec fn sought(
        self,
        path: PathBuf,
        metrics: MetricsModel,
        target_frame: u64,
    ) -> ControllerModel {
        ControllerModel {
            playback_epoch: succeeding(self.playback_epoch),
            snapshot: SnapshotModel::seeking(path, metrics, target_frame),
            revision: revised(self.revision),
            ..self
        }
    }

    /// What one event changes. An event of a superseded playback or request
    /// changes nothing.
    pub open spec fn after_event(self, event: EventModel) -> ControllerModel {
        match event {
            EventModel::Snapshot { key, snapshot } => if key != self.key() {
                self
            } else {
                ControllerModel {
                    snapshot: self.index_state.shown_in(
                        with_inherited_identity(self.snapshot, snapshot),
                    ),
                    revision: revised(self.revision),
                    ..self
                }
            },
            EventModel::IndexFinished {
                request_id,
                duration_frames,
                seekable_from_frame,
                error,
            } => if request_id != self.request_id {
                self
            } else {
                let index_state = match error {
                    Some(error) => ControllerIndexState::Failed(error),
                    None => ControllerIndexState::Ready { duration_frames, seekable_from_frame },
                };
                ControllerModel {
                    index_state,
                    snapshot: index_state.shown_in(self.snapshot),
                    revision: revised(self.revision),
                    ..self
                }
            },
        }
    }

    /// What a run of events changes, in order.
    pub open spec fn after_events(self, events: Seq<EventModel>) -> ControllerModel
        decreases events.len(),
    {
        if events.len() == 0 {
            self
        } else {
            self.after_event(events[0]).after_events(events.drop_first())
        }
    }

    /// Why `target_frame` cannot be sought, if it cannot.
    pub open spec fn seek_refusal(self, target_frame: u64) -> Option<Seq<char>> {
        if self.active_path is None {
            Some("No active media is loaded"@)
        } else if self.snapshot.metrics is None || self.snapshot.metrics->0.indexing {
            Some("Media indexing has not completed yet"@)
        } else if self.snapshot.metrics->0.index_error is Some {
            Some("Media seek index failed: "@ + self.snapshot.metrics->0.index_error->0@)
        } else if !self.snapshot.metrics->0.seekable_to(target_frame)
            || !self.snapshot.metrics->0.has_start_for(target_frame) {
            match self.snapshot.metrics->0.duration_frames {
                Some(duration) if target_frame > duration => Some(
                    "Seek target "@ + decimal(target_frame as nat) + " exceeds duration "@
                        + decimal(duration as nat),
                ),
                _ => Some("No complete random-access point exists at or before the seek target"@),
            }
        } else if !self.available {
            Some("The Windows decoder is unavailable"@)
        } else {
            None
        }
    }
}

/// What a request to open `path` leads to: nothing where it is open already; a
/// note of the path where there is no worker; and a fresh playback otherwise.
pub open spec fn open_outcome(
    already_open: bool,
    path: PathBuf,
    before: (DecoderController, SceneQueue),
    after: (DecoderController, SceneQueue),
    command: Option<WorkerCommand>,
) -> bool {
    if already_open {
        command is None && after == before
    } else if !before.0.available {
        &&& command is None
        &&& after.0@ == (ControllerModel { active_path: Some(path), ..before.0@ })
        &&& after.1 == before.1
    } else {
        &&& after.0@ == before.0@.opened(path)
        &&& after.1.is_reset_for(after.0@.key())
        &&& after.1.wf()
        &&& command == Some(WorkerCommand::Open { key: after.0@.key(), path, reuse_cached: false })
    }
}

impl DecoderController {
    /// A controller over a worker, or over the reason why there is none.
    pub fn new(worker: Result<(), String>) -> (r: Self)
        ensures
            r.request_id == 0,
            r.playback_epoch == 0,
            r.revision == 0,
            r.active_path is None,
            r.index_state is Inactive,
            r.available == worker is Ok,
            match worker {
                Ok(_) => r@.snapshot == SnapshotModel::idle(),
                Err(error) => r@.snapshot == (SnapshotModel {
                    phase: DecodePhase::Unavailable,
                    path: None,
                    metrics: None,
                    detail: Some(error@),
                }),
            },
    {
        let available = worker.is_ok();
        let snapshot = match worker {
            Ok(_) => DecoderSnapshot::idle(),
            Err(error) => DecoderSnapshot::unavailable(error),
        };
        DecoderController {
            available,
            snapshot,
            active_path: None,
            request_id: 0,
            playback_epoch: 0,
            index_state: ControllerIndexState::Inactive,
            revision: 0,
        }
    }

    /// Opens `path` unless it is the active media already. The command is to be
    /// sent to the worker; where that fails, `worker_stopped` records it. Whether
    /// two spellings of a path are one is the platform's to decide.
    pub fn ensure_open(&mut self, path: &PathBuf, queue: &mut SceneQueue) -> (r: Option<
        WorkerCommand,
    >)
        ensures
            open_outcome(
                old(self).active_path == Some(*path),
                *path,
                (*old(self), *old(queue)),
                (*final(self), *final(queue)),
                r,
            ) || (old(self).active_path is Some && open_outcome(
                true,
                *path,
                (*old(self), *old(queue)),
                (*final(self), *final(queue)),
                r,
            )),
    {
        let already_open = match &self.active_path {
            Some(active) => path_same(active, path),
            None => false,
        };
        self.open_unless(already_open, path, queue)
    }

    /// Opens `path` unless the caller found it open already.
    pub fn open_unless(
        &mut self,
        already_open: bool,
        path: &PathBuf,
        queue: &mut SceneQueue,
    ) -> (r: Option<WorkerCommand>)
        ensures
            open_outcome(
                already_open,
                *path,
                (*old(self), *old(queue)),
                (*final(self), *final(queue)),
                r,
            ),
    {
        if already_open {
            return None;
        }
        self.active_path = Some(path_copy(path));
        if !self.available {
            return None;
        }
        self.request_id = succeed(self.request_id);
        self.playback_epoch = 0;
        self.index_state = ControllerIndexState::Building;
        let key = self.playback_key();
        queue.reset(key);
        self.snapshot = DecoderSnapshot::opening(path_copy(path));
        self.revision = self.revision.saturating_add(1);
        Some(WorkerCommand::Open { key, path: path_copy(path), reuse_cached: false })
    }

    /// Records that a command for `path` could not be delivered.
    pub fn worker_stopped(&mut self, path: &PathBuf)
        ensures
            final(self)@ == (ControllerModel {
                snapshot: SnapshotModel::failed(
                    *path,
                    "MacinDecode Core worker stopped unexpectedly"@,
                ),
                revision: revised(old(self).revision),
                ..old(self)@
            }),
    {
        self.snapshot =
        DecoderSnapshot::failed(
            path_copy(path),
            "MacinDecode Core worker stopped unexpectedly".to_owned(),
        );
        self.revision = self.revision.saturating_add(1);
    }

    /// Closes the active media, if there is any.
    pub fn close(&mut self, queue: &mut SceneQueue) -> (r: Option<WorkerCommand>)
        ensures
            old(self).active_path is None ==> r is None && *final(self) == *old(self)
                && *final(queue) == *old(queue),
            old(self).active_path is Some ==> {
                &&& final(self)@ == old(self)@.closed()
                &&& final(queue).is_reset_for(final(self)@.key())
                &&& final(queue).wf()
                &&& r == (if old(self).available {
                    Some(WorkerCommand::Close)
                } else {
                    None
                })
            },
    {
        if self.active_path.is_none() {
            return None;
        }
        self.active_path = None;
        self.request_id = succeed(self.request_id);
        self.playback_epoch = 0;
        self.index_state = ControllerIndexState::Inactive;
        queue.reset(self.playback_key());
        if !self.available {
            return None;
        }
        self.snapshot = DecoderSnapshot::idle();
        self.revision = self.revision.saturating_add(1);
        Some(WorkerCommand::Close)
    }

    /// Takes in one event of the worker.
    pub fn receive(&mut self, event: WorkerEvent)
        ensures
            final(self)@ == old(self)@.after_event(event@),
    {
        match event {
            WorkerEvent::Snapshot { key, snapshot } => {
                if key != self.playback_key() {
                    return ;
                }
                let mut next = snapshot;
                inherit_scene_identity(&self.snapshot, &mut next);
                apply_index_state(&self.index_state, &mut next);
                self.snapshot = next;
                self.revision = self.revision.saturating_add(1);
            },
            WorkerEvent::IndexFinished {
                request_id,
                duration_frames,
                seekable_from_frame,
                error,
            } => {
                if request_id != self.request_id {
                    return ;
                }
                self.index_state =
                match error {
                    Some(error) => ControllerIndexState::Failed(error),
                    None => ControllerIndexState::Ready { duration_frames, seekable_from_frame },
                };
                apply_index_state(&self.index_state, &mut self.snapshot);
                self.revision = self.revision.saturating_add(1);
            },
        }
    }

    /// Takes in every event that has arrived, oldest first.
    pub fn poll(&mut self, events: Vec<WorkerEvent>)
        ensures
            final(self)@ == old(self)@.after_events(events@.map_values(|e: WorkerEvent| e@)),
    {
        let mut events = events;
        let ghost all = events@.map_values(|e: WorkerEvent| e@);
        let ghost mut taken: int = 0;
        assert(all.skip(0) =~= all);
        while events.len() > 0
            invariant
                0 <= taken <= all.len(),
                events@.map_values(|e: WorkerEvent| e@) =~= all.skip(taken),
                self@.after_events(all.skip(taken)) == old(self)@.after_events(all),
            decreases events.len(),
        {
            let ghost rest = events@.map_values(|e: WorkerEvent| e@);
            assert(rest[0] == events@[0]@);
            let event = events.remove(0);
            assert(all.skip(taken)[0] == event@);
            assert(all.skip(taken).drop_first() =~= all.skip(taken + 1));
            assert(events@.map_values(|e: WorkerEvent| e@) =~= rest.drop_first());
            self.receive(event);
            proof {
                taken = taken + 1;
            }
        }
        assert(all.skip(taken).len() == 0);
    }

    pub fn snapshot(&self) -> (r: &DecoderSnapshot)
        ensures
            *r == self.snapshot,
    {
        &self.snapshot
    }

    pub fn revision(&self) -> (r: u64)
        ensures
            r == self@.revision,
    {
        self.revision
    }

    pub fn active_path(&self) -> (r: Option<&PathBuf>)
        ensures
            match r {
                Some(path) => self@.active_path == Some(*path),
                None => self@.active_path is None,
            },
    {
        match &self.active_path {
            Some(path) => Some(path),
            None => None,
        }
    }

    pub fn is_working(&self) -> (r: bool)
        ensures
            r == (self@.snapshot.phase is Opening || self@.snapshot.phase is Seeking
                || self@.snapshot.phase is Buffering || self@.snapshot.phase is Ready),
    {
        matches!(
            self.snapshot.phase,
            DecodePhase::Opening | DecodePhase::Seeking | DecodePhase::Buffering | DecodePhase::Ready
        )
    }

    /// Takes the oldest block of the current playback.
    pub fn try_pop_scene_block(&self, queue: &mut SceneQueue) -> (r: Option<DecodedSceneBlock>)
        requires
            old(queue).wf(),
        ensures
            final(queue).wf(),
            final(queue).key == old(queue).key,
            match r {
                Some(block) => old(queue).key == self@.key() && old(queue).blocks@.len() > 0
                    && block == old(queue).blocks@[0] && final(queue).blocks@ == old(queue).blocks@.drop_first(),
                None => (old(queue).key != self@.key() || old(queue).blocks@.len() == 0) && final(queue).blocks@ == old(queue).blocks@,
            },
    {
        queue.try_pop(self.playback_key())
    }

    /// A reader bound to the current playback.
    pub fn scene_reader(&self) -> (r: SceneQueueReader)
        ensures
            r.key == self@.key(),
    {
        SceneQueueReader { key: self.playback_key() }
    }

    pub fn request_id(&self) -> (r: u64)
        ensures
            r == self@.request_id,
    {
        self.request_id
    }

    pub fn playback_epoch(&self) -> (r: u64)
        ensures
            r == self@.playback_epoch,
    {
        self.playback_epoch
    }

    pub fn playback_key(&self) -> (r: PlaybackKey)
        ensures
            r == self@.key(),
    {
        PlaybackKey::new(self.request_id, self.playback_epoch)
    }

    /// Starts a new playback epoch at an absolute presentation frame without
    /// rereading the file. A refusal changes nothing.
    pub fn seek(&mut self, target_frame: u64, queue: &mut SceneQueue) -> (r: Result<
        WorkerCommand,
        String,
    >)
        ensures
            match old(self)@.seek_refusal(target_frame) {
                Some(message) => r is Err && r->Err_0@ == message && final(self)@ == old(self)@
                    && *final(queue) == *old(queue),
                None => {
                    &&& final(self)@ == old(self)@.sought(
                        old(self).active_path->0,
                        old(self)@.snapshot.metrics->0,
                        target_frame,
                    )
                    &&& final(queue).is_reset_for(final(self)@.key())
                    &&& final(queue).wf()
                    &&& r == Ok::<_, String>(
                        WorkerCommand::Seek { key: final(self)@.key(), target_frame },
                    )
                },
            },
    {
        let path = match &self.active_path {
            Some(path) => path_copy(path),
            None => {
                return Err("No active media is loaded".to_owned());
            },
        };
        let metrics = match &self.snapshot.metrics {
            Some(metrics) => metrics.dup(),
            None => {
                return Err("Media indexing has not completed yet".to_owned());
            },
        };
        if metrics.is_indexing() {
            return Err("Media indexing has not completed yet".to_owned());
        }
        if let Some(error) = metrics.index_error() {
            let mut message = "Media seek index failed: ".to_owned();
            message.append(error);
            return Err(message);
        }
        if !metrics.can_seek_to(target_frame) || !metrics.has_start(target_frame) {
            return Err(
                match metrics.duration_frames() {
                    Some(duration) if target_frame > duration => {
                        let mut message = "Seek target ".to_owned();
                        push_decimal(&mut message, target_frame);
                        message.append(" exceeds duration ");
                        push_decimal(&mut message, duration);
                        message
                    },
                    _ =>
                        "No complete random-access point exists at or before the seek target".to_owned(),
                },
            );
        }
        if !self.available {
            return Err("The Windows decoder is unavailable".to_owned());
        }
        self.playback_epoch = succeed(self.playback_epoch);
        let key = self.playback_key();
        queue.reset(key);
        self.snapshot = DecoderSnapshot::seeking(path, metrics, target_frame);
        self.revision = self.revision.saturating_add(1);
        Ok(WorkerCommand::Seek { key, target_frame })
    }

    /// Plays the active media from its start again, where that can be sought.
    pub fn reopen(&mut self, queue: &mut SceneQueue) -> (r: Option<WorkerCommand>)
        ensures
            match old(self)@.seek_refusal(0) {
                Some(_) => r is None && final(self)@ == old(self)@ && *final(queue) == *old(queue),
                None => {
                    &&& final(self)@ == old(self)@.sought(
                        old(self).active_path->0,
                        old(self)@.snapshot.metrics->0,
                        0,
                    )
                    &&& final(queue).is_reset_for(final(self)@.key())
                    &&& final(queue).wf()
                    &&& r == Some(WorkerCommand::Seek { key: final(self)@.key(), target_frame: 0 })
                },
            },
    {
        match self.seek(0, queue) {
            Ok(command) => Some(command),
            Err(_) => None,
        }
    }
}

/// What a superseded playback or request still reports has no effect.
pub proof fn superseded_events_change_nothing(controller: ControllerModel, event: EventModel)
    requires
        match event {
            EventModel::Snapshot { key, .. } => key != controller.key(),
            EventModel::IndexFinished { request_id, .. } => request_id != controller.request_id,
        },
    ensures
        controller.after_event(event) == controller,
{
}

/// Opening, closing and seeking each start a playback that no event or queue
/// access of the one before can reach.
pub proof fn each_request_starts_a_fresh_playback(
    controller: ControllerModel,
    path: PathBuf,
    target_frame: u64,
)
    requires
        controller.snapshot.metrics is Some,
    ensures
        controller.opened(path).key() != controller.key(),
        controller.closed().key() != controller.key(),
        controller.sought(path, controller.snapshot.metrics->0, target_frame).key()
            != controller.key(),
        controller.sought(path, controller.snapshot.metrics->0, target_frame).request_id
            == controller.request_id,
{
}

/// A seek that is granted, to the end of the media too, has a complete random-access
/// point at or before its frame.
pub proof fn a_granted_seek_has_a_random_access_point(
    controller: ControllerModel,
    target_frame: u64,
)
    requires
        controller.seek_refusal(target_frame) is None,
    ensures
        controller.snapshot.metrics is Some,
        controller.snapshot.metrics->0.seekable_from_frame is Some,
        controller.snapshot.metrics->0.seekable_from_frame->0 <= target_frame,
        controller.snapshot.metrics->0.duration_frames is Some,
        target_frame <= controller.snapshot.metrics->0.duration_frames->0,
{
}

/// While the index is being built, snapshots of the current playback arrive
/// with the index shown as running, so nothing can be sought before it is done.
pub proof fn no_seek_before_the_index_is_done(
    controller: ControllerModel,
    snapshot: SnapshotModel,
    target_frame: u64,
)
    requires
        controller.index_state is Building,
    ensures
        controller.after_event(
            EventModel::Snapshot { key: controller.key(), snapshot },
        ).seek_refusal(target_frame) is Some,
{
}

/// Opening media takes a number of its own, so that nothing of the media before is taken
/// for it, and starts indexing.
pub proof fn opened_media_is_a_request_of_its_own(controller: ControllerModel, path: PathBuf)
    ensures
        ({
            let next = controller.opened(path);
            &&& next.active_path == Some(path)
            &&& next.request_id != controller.request_id
            &&& next.request_id != 0
            &&& next.playback_epoch == 0
            &&& next.index_state is Building
            &&& next.snapshot.phase is Opening
            &&& next.snapshot.path == Some(path)
            &&& next.snapshot.metrics is None
            &&& next.available == controller.available
            &&& controller.revision < u64::MAX ==> next.revision == controller.revision + 1
        }),
{
}

/// Closing media leaves none active, and what its worker still says is not taken in.
pub proof fn closed_media_is_forgotten(controller: ControllerModel)
    ensures
        ({
            let next = controller.closed();
            &&& next.active_path is None
            &&& next.request_id != controller.request_id
            &&& next.index_state is Inactive
            &&& controller.available ==> next.snapshot.phase is Idle && next.snapshot.metrics is None
            &&& !controller.available ==> next.snapshot == controller.snapshot
        }),
{
}

/// A seek starts another playback of the same media, toward its target.
pub proof fn a_seek_is_another_playback_of_the_same_media(
    controller: ControllerModel,
    path: PathBuf,
    metrics: MetricsModel,
    target_frame: u64,
)
    ensures
        ({
            let next = controller.sought(path, metrics, target_frame);
            &&& next.request_id == controller.request_id
            &&& next.playback_epoch != controller.playback_epoch
            &&& next.playback_epoch != 0
            &&& next.active_path == controller.active_path
            &&& next.index_state == controller.index_state
            &&& next.snapshot.phase is Seeking
            &&& next.snapshot.metrics is Some
            &&& next.snapshot.metrics->0.target_frame == target_frame
            &&& next.key() != controller.key()
        }),
{
}

/// What the worker says of this playback is shown, as far as it says it, with what is
/// known of the index.
pub proof fn what_the_worker_says_of_this_playback_is_shown(
    controller: ControllerModel,
    snapshot: SnapshotModel,
)
    ensures
        ({
            let key = PlaybackKey {
                request_id: controller.request_id,
                epoch: controller.playback_epoch,
            };
            let next = controller.after_event(EventModel::Snapshot { key, snapshot });
            &&& next.snapshot.phase == snapshot.phase
            &&& next.snapshot.path == snapshot.path
            &&& next.snapshot.detail == snapshot.detail
            &&& next.snapshot.metrics is Some <==> snapshot.metrics is Some
            &&& snapshot.metrics is Some ==> next.snapshot.metrics->0.buffered_frames
                == snapshot.metrics->0.buffered_frames && next.snapshot.metrics->0.sample_rate
                == snapshot.metrics->0.sample_rate
            &&& next.active_path == controller.active_path
            &&& next.request_id == controller.request_id
            &&& next.playback_epoch == controller.playback_epoch
            &&& next.index_state == controller.index_state
        }),
{
}

/// Once the media of this request is indexed, it can be sought as the index found; an
/// index that failed says why. An index of other media changes nothing.
pub proof fn a_finished_index_permits_seeking(
    controller: ControllerModel,
    request_id: u64,
    duration: u64,
    from: u64,
    error: String,
    target: u64,
)
    requires
        controller.snapshot.metrics is Some,
        controller.active_path is Some,
        controller.available,
        from <= target <= duration,
    ensures
        ({
            let done = controller.after_event(
                EventModel::IndexFinished {
                    request_id,
                    duration_frames: Some(duration),
                    seekable_from_frame: Some(from),
                    error: None,
                },
            );
            let failed = controller.after_event(
                EventModel::IndexFinished {
                    request_id,
                    duration_frames: Some(duration),
                    seekable_from_frame: Some(from),
                    error: Some(error),
                },
            );
            &&& request_id == controller.request_id ==> done.seek_refusal(target) is None
            &&& request_id == controller.request_id ==> failed.index_state
                == ControllerIndexState::Failed(error) && failed.seek_refusal(target) is Some
            &&& request_id != controller.request_id ==> done == controller && failed == controller
        }),
{
}

/// A seek is granted exactly where media is active, its index is done without an error,
/// the target lies within it and behind a random-access point, and there is a worker.
pub proof fn a_seek_is_granted_where_it_can_be_served(controller: ControllerModel, target: u64)
    ensures
        controller.seek_refusal(target) is None <==> {
            &&& controller.active_path is Some
            &&& controller.available
            &&& controller.snapshot.metrics is Some
            &&& !controller.snapshot.metrics->0.indexing
            &&& controller.snapshot.metrics->0.index_error is None
            &&& controller.snapshot.metrics->0.duration_frames is Some
            &&& target <= controller.snapshot.metrics->0.duration_frames->0
            &&& controller.snapshot.metrics->0.seekable_from_frame is Some
            &&& controller.snapshot.metrics->0.seekable_from_frame->0 <= target
        },
{
}

/// Events are taken in one after the other, in their order.
pub proof fn events_are_taken_in_order(
    controller: ControllerModel,
    first: Seq<EventModel>,
    second: Seq<EventModel>,
)
    ensures
        controller.after_events(first + second) == controller.after_events(first).after_events(
            second,
        ),
    decreases first.len(),
{
    if first.len() == 0 {
        assert(first + second =~= second);
    } else {
        assert((first + second)[0] == first[0]);
        assert((first + second).drop_first() =~= first.drop_first() + second);
        events_are_taken_in_order(
            controller.after_event(first[0]),
            first.drop_first(),
            second,
        );
    }
}

/// Opening what is open already does nothing. Opening anything else empties the queue for
/// it and asks the worker to load it.
pub proof fn what_is_open_is_not_opened_again(
    path: PathBuf,
    before: (DecoderController, SceneQueue),
    after: (DecoderController, SceneQueue),
    command: Option<WorkerCommand>,
)
    ensures
        open_outcome(true, path, before, after, command) ==> command is None && after == before,
        open_outcome(false, path, before, after, command) && before.0.available ==> {
            &&& after.0@.active_path == Some(path)
            &&& after.1.blocks@.len() == 0
            &&& after.1.key.request_id == after.0.request_id
            &&& after.1.key.epoch == after.0.playback_epoch
            &&& command == Some(
                WorkerCommand::Open {
                    key: PlaybackKey {
                        request_id: after.0.request_id,
                        epoch: after.0.playback_epoch,
                    },
                    path,
                    reuse_cached: false,
                },
            )
        },
        open_outcome(false, path, before, after, command) && !before.0.available ==> command is None
            && after.0@.active_path == Some(path) && after.1 == before.1,
{
}

/// Requests are counted on, from one again after the last.
pub proof fn requests_are_counted_on(n: u64)
    ensures
        n < u64::MAX ==> succeeding(n) == n + 1,
        succeeding(n) > 0,
        succeeding(n) != n,
{
}

} // verus!
