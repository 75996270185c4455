//! What the decoder tells the rest of the player about its progress.
use super::signature::{dup_signature, identity, SceneIdentity, SceneSignature};
use std::path::PathBuf;
use vstd::prelude::*;

verus! {

#[derive(Debug, Clone, Copy, PartialEq, Eq, Structural)]
pub enum DecodeContainer {
    RawAc4,
    IsoBmff,
}

impl DecodeContainer {
    pub fn label(self) -> (r: &'static str)
        ensures
            r@ == match self {
                DecodeContainer::RawAc4 => "raw AC-4"@,
                DecodeContainer::IsoBmff => "ISO BMFF"@,
            },
    {
        match self {
            DecodeContainer::RawAc4 => "raw AC-4",
            DecodeContainer::IsoBmff => "ISO BMFF",
        }
    }
}

#[derive(Debug, Clone, Copy, PartialEq, Eq, Structural)]
pub enum DecodePhase {
    Unavailable,
    Idle,
    Opening,
    Seeking,
    Buffering,
    Ready,
    EndOfStream,
    Failed,
}

#[derive(Debug)]
pub struct DecodeMetrics {
    pub container: DecodeContainer,
    pub sample_rate: u32,
    pub presentation_index: u32,
    pub presentation_id: Option<u32>,
    pub object_count: usize,
    pub has_lfe: bool,
    pub state_complete: bool,
    pub scene_signature: Option<SceneSignature>,
    pub decoded_access_units: u64,
    pub decoded_scene_frames: u64,
    pub decoded_frames: u64,
    pub buffered_frames: u64,
    pub buffer_capacity_frames: u64,
    pub metadata_updates: u64,
    pub duration_frames: Option<u64>,
    pub seekable_from_frame: Option<u64>,
    pub indexing: bool,
    pub index_error: Option<String>,
    pub target_frame: u64,
}

/// What a set of metrics says.
#[verifier::ext_equal]
pub struct MetricsModel {
    pub container: DecodeContainer,
    pub sample_rate: u32,
    pub presentation_index: u32,
    pub presentation_id: Option<u32>,
    pub object_count: usize,
    pub has_lfe: bool,
    pub state_complete: bool,
    pub scene_signature: Option<SceneIdentity>,
    pub decoded_access_units: u64,
    pub decoded_scene_frames: u64,
    pub decoded_frames: u64,
    pub buffered_frames: u64,
    pub buffer_capacity_frames: u64,
    pub metadata_updates: u64,
    pub duration_frames: Option<u64>,
    pub seekable_from_frame: Option<u64>,
    pub indexing: bool,
    pub index_error: Option<String>,
    pub target_frame: u64,
}

impl View for DecodeMetrics {
    type V = MetricsModel;

    open spec fn view(&self) -> MetricsModel {
        MetricsModel {
            container: self.container,
            sample_rate: self.sample_rate,
            presentation_index: self.presentation_index,
            presentation_id: self.presentation_id,
            object_count: self.object_count,
            has_lfe: self.has_lfe,
            state_complete: self.state_complete,
            scene_signature: identity(self.scene_signature),
            decoded_access_units: self.decoded_access_units,
            decoded_scene_frames: self.decoded_scene_frames,
            decoded_frames: self.decoded_frames,
            buffered_frames: self.buffered_frames,
            buffer_capacity_frames: self.buffer_capacity_frames,
            metadata_updates: self.metadata_updates,
            duration_frames: self.duration_frames,
            seekable_from_frame: self.seekable_from_frame,
            indexing: self.indexing,
            index_error: self.index_error,
            target_frame: self.target_frame,
        }
    }
}

impl MetricsModel {
    /// The index is complete, and `target_frame` is the end of the media or lies
    /// within it behind a safe starting point.
    pub open spec fn seekable_to(self, target_frame: u64) -> bool {
        &&& !self.indexing
        &&& self.index_error is None
        &&& self.duration_frames is Some
        &&& target_frame <= self.duration_frames->0
        &&& target_frame == self.duration_frames->0 || (self.seekable_from_frame is Some
            && target_frame >= self.seekable_from_frame->0)
    }

    /// A complete random-access point exists at or before `target_frame`.
    pub open spec fn has_start_for(self, target_frame: u64) -> bool {
        self.seekable_from_frame is Some && self.seekable_from_frame->0 <= target_frame
    }
}

/// `frames` in whole milliseconds, where the product fits the counter.
pub open spec fn milliseconds(frames: u64, sample_rate: u32) -> int {
    if sample_rate == 0 {
        0
    } else if frames * 1_000 > u64::MAX {
        u64::MAX as int / sample_rate as int
    } else {
        frames * 1_000 / sample_rate as int
    }
}

pub fn frames_to_milliseconds(frames: u64, sample_rate: u32) -> (r: u64)
    ensures
        r == milliseconds(frames, sample_rate),
{
    if sample_rate == 0 {
        return 0;
    }
    let scaled: u64 = match frames.checked_mul(1_000) {
        Some(scaled) => scaled,
        None => u64::MAX,
    };
    scaled / (sample_rate as u64)
}

impl DecodeMetrics {
    pub fn container(&self) -> (r: DecodeContainer)
        ensures
            r == self@.container,
    {
        self.container
    }

    pub fn sample_rate(&self) -> (r: u32)
        ensures
            r == self@.sample_rate,
    {
        self.sample_rate
    }

    pub fn presentation_index(&self) -> (r: u32)
        ensures
            r == self@.presentation_index,
    {
        self.presentation_index
    }

    pub fn presentation_id(&self) -> (r: Option<u32>)
        ensures
            r == self@.presentation_id,
    {
        self.presentation_id
    }

    pub fn object_count(&self) -> (r: usize)
        ensures
            r == self@.object_count,
    {
        self.object_count
    }

    pub fn has_lfe(&self) -> (r: bool)
        ensures
            r == self@.has_lfe,
    {
        self.has_lfe
    }

    pub fn state_complete(&self) -> (r: bool)
        ensures
            r == self@.state_complete,
    {
        self.state_complete
    }

    pub fn scene_signature(&self) -> (r: Option<&SceneSignature>)
        ensures
            match r {
                Some(signature) => self.scene_signature == Some(*signature),
                None => self.scene_signature is None,
            },
    {
        match &self.scene_signature {
            Some(signature) => Some(signature),
            None => None,
        }
    }

    pub fn decoded_access_units(&self) -> (r: u64)
        ensures
            r == self@.decoded_access_units,
    {
        self.decoded_access_units
    }

    pub fn decoded_scene_frames(&self) -> (r: u64)
        ensures
            r == self@.decoded_scene_frames,
    {
        self.decoded_scene_frames
    }

    pub fn decoded_frames(&self) -> (r: u64)
        ensures
            r == self@.decoded_frames,
    {
        self.decoded_frames
    }

    pub fn buffered_frames(&self) -> (r: u64)
        ensures
            r == self@.buffered_frames,
    {
        self.buffered_frames
    }

    pub fn buffer_capacity_frames(&self) -> (r: u64)
        ensures
            r == self@.buffer_capacity_frames,
    {
        self.buffer_capacity_frames
    }

    pub fn metadata_updates(&self) -> (r: u64)
        ensures
            r == self@.metadata_updates,
    {
        self.metadata_updates
    }

    pub fn duration_frames(&self) -> (r: Option<u64>)
        ensures
            r == self@.duration_frames,
    {
        self.duration_frames
    }

    pub fn seekable_from_frame(&self) -> (r: Option<u64>)
        ensures
            r == self@.seekable_from_frame,
    {
        self.seekable_from_frame
    }

    pub fn is_indexing(&self) -> (r: bool)
        ensures
            r == self@.indexing,
    {
        self.indexing
    }

    pub fn index_error(&self) -> (r: Option<&str>)
        ensures
            match r {
                Some(error) => self.index_error is Some && self.index_error->0@ == error@,
                None => self.index_error is None,
            },
    {
        match &self.index_error {
            Some(error) => Some(error.as_str()),
            None => None,
        }
    }

    pub fn target_frame(&self) -> (r: u64)
        ensures
            r == self@.target_frame,
    {
        self.target_frame
    }

    /// Whether a complete random-access point exists at or before `target_frame`.
    pub fn has_start(&self, target_frame: u64) -> (r: bool)
        ensures
            r == self@.has_start_for(target_frame),
    {
        match self.seekable_from_frame {
            Some(first) => first <= target_frame,
            None => false,
        }
    }

    pub fn can_seek_to(&self, target_frame: u64) -> (r: bool)
        ensures
            r == self@.seekable_to(target_frame),
    {
        if self.indexing || self.index_error.is_some() {
            return false;
        }
        match self.duration_frames {
            None => false,
            Some(duration) => {
                if target_frame > duration {
                    return false;
                }
                target_frame == duration || match self.seekable_from_frame {
                    Some(first) => target_frame >= first,
                    None => false,
                }
            },
        }
    }

    pub fn buffered_milliseconds(&self) -> (r: u64)
        ensures
            r == milliseconds(self@.buffered_frames, self@.sample_rate),
    {
        frames_to_milliseconds(self.buffered_frames, self.sample_rate)
    }

    pub fn decoded_milliseconds(&self) -> (r: u64)
        ensures
            r == milliseconds(self@.decoded_frames, self@.sample_rate),
    {
        frames_to_milliseconds(self.decoded_frames, self.sample_rate)
    }

    pub fn dup(&self) -> (r: Self)
        ensures
            r@ == self@,
    {
        DecodeMetrics {
            container: self.container,
            sample_rate: self.sample_rate,
            presentation_index: self.presentation_index,
            presentation_id: self.presentation_id,
            object_count: self.object_count,
            has_lfe: self.has_lfe,
            state_complete: self.state_complete,
            scene_signature: dup_signature(&self.scene_signature),
            decoded_access_units: self.decoded_access_units,
            decoded_scene_frames: self.decoded_scene_frames,
            decoded_frames: self.decoded_frames,
            buffered_frames: self.buffered_frames,
            buffer_capacity_frames: self.buffer_capacity_frames,
            metadata_updates: self.metadata_updates,
            duration_frames: self.duration_frames,
            seekable_from_frame: self.seekable_from_frame,
            indexing: self.indexing,
            index_error: match &self.index_error {
                Some(error) => Some(error.clone()),
                None => None,
            },
            target_frame: self.target_frame,
        }
    }
}

#[derive(Debug)]
pub struct DecoderSnapshot {
    pub phase: DecodePhase,
    pub path: Option<PathBuf>,
    pub metrics: Option<DecodeMetrics>,
    pub detail: Option<String>,
}

/// What a snapshot says.
#[verifier::ext_equal]
pub struct SnapshotModel {
    pub phase: DecodePhase,
    pub path: Option<PathBuf>,
    pub metrics: Option<MetricsModel>,
    pub detail: Option<Seq<char>>,
}

impl View for DecoderSnapshot {
    type V = SnapshotModel;

    open spec fn view(&self) -> SnapshotModel {
        SnapshotModel {
            phase: self.phase,
            path: self.path,
            metrics: match self.metrics {
                Some(metrics) => Some(metrics@),
                None => None,
            },
            detail: match self.detail {
                Some(detail) => Some(detail@),
                None => None,
            },
        }
    }
}

impl SnapshotModel {
    pub open spec fn failed(path: PathBuf, error: Seq<char>) -> SnapshotModel {
        SnapshotModel {
            phase: DecodePhase::Failed,
            path: Some(path),
            metrics: None,
            detail: Some(error),
        }
    }

    pub open spec fn opening(path: PathBuf) -> SnapshotModel {
        SnapshotModel {
            phase: DecodePhase::Opening,
            path: Some(path),
            metrics: None,
            detail: None,
        }
    }

    pub open spec fn idle() -> SnapshotModel {
        SnapshotModel { phase: DecodePhase::Idle, path: None, metrics: None, detail: None }
    }

    /// The decoder is on its way to `target_frame`, with nothing buffered yet.
    pub open spec fn seeking(
        path: PathBuf,
        metrics: MetricsModel,
        target_frame: u64,
    ) -> SnapshotModel {
        SnapshotModel {
            phase: DecodePhase::Seeking,
            path: Some(path),
            metrics: Some(MetricsModel { target_frame, buffered_frames: 0, ..metrics }),
            detail: None,
        }
    }
}

impl DecoderSnapshot {
    pub fn unavailable(reason: String) -> (r: Self)
        ensures
            r@ == (SnapshotModel {
                phase: DecodePhase::Unavailable,
                path: None,
                metrics: None,
                detail: Some(reason@),
            }),
    {
        DecoderSnapshot {
            phase: DecodePhase::Unavailable,
            path: None,
            metrics: None,
            detail: Some(reason),
        }
    }

    pub fn idle() -> (r: Self)
        ensures
            r@ == SnapshotModel::idle(),
    {
        DecoderSnapshot { phase: DecodePhase::Idle, path: None, metrics: None, detail: None }
    }

    pub fn opening(path: PathBuf) -> (r: Self)
        ensures
            r@ == SnapshotModel::opening(path),
    {
        DecoderSnapshot {
            phase: DecodePhase::Opening,
            path: Some(path),
            metrics: None,
            detail: None,
        }
    }

    pub fn seeking(path: PathBuf, metrics: DecodeMetrics, target_frame: u64) -> (r: Self)
        ensures
            r@ == SnapshotModel::seeking(path, metrics@, target_frame),
    {
        let mut metrics = metrics;
        metrics.target_frame = target_frame;
        metrics.buffered_frames = 0;
        DecoderSnapshot {
            phase: DecodePhase::Seeking,
            path: Some(path),
            metrics: Some(metrics),
            detail: None,
        }
    }

    pub fn progress(phase: DecodePhase, path: PathBuf, metrics: DecodeMetrics) -> (r: Self)
        requires
            phase == DecodePhase::Buffering || phase == DecodePhase::Ready || phase
                == DecodePhase::EndOfStream,
        ensures
            r@ == (SnapshotModel {
                phase,
                path: Some(path),
                metrics: Some(metrics@),
                detail: None,
            }),
    {
        DecoderSnapshot { phase, path: Some(path), metrics: Some(metrics), detail: None }
    }

    pub fn failed(path: PathBuf, error: String) -> (r: Self)
        ensures
            r@ == SnapshotModel::failed(path, error@),
    {
        DecoderSnapshot {
            phase: DecodePhase::Failed,
            path: Some(path),
            metrics: None,
            detail: Some(error),
        }
    }

    pub fn phase(&self) -> (r: DecodePhase)
        ensures
            r == self@.phase,
    {
        self.phase
    }

    pub fn path(&self) -> (r: Option<&PathBuf>)
        ensures
            match r {
                Some(path) => self@.path == Some(*path),
                None => self@.path is None,
            },
    {
        match &self.path {
            Some(path) => Some(path),
            None => None,
        }
    }

    pub fn metrics(&self) -> (r: Option<&DecodeMetrics>)
        ensures
            match r {
                Some(metrics) => self.metrics == Some(*metrics),
                None => self.metrics is None,
            },
    {
        match &self.metrics {
            Some(metrics) => Some(metrics),
            None => None,
        }
    }

    pub fn detail(&self) -> (r: Option<&str>)
        ensures
            match r {
                Some(detail) => self@.detail == Some(detail@),
                None => self@.detail is None,
            },
    {
        match &self.detail {
            Some(detail) => Some(detail.as_str()),
            None => None,
        }
    }
}

/// How far the seek index of the open media has come.
#[derive(Debug)]
pub enum ControllerIndexState {
    Inactive,
    Building,
    Ready { duration_frames: Option<u64>, seekable_from_frame: Option<u64> },
    Failed(String),
}

impl ControllerIndexState {
    /// Metrics as this index state makes them.
    pub open spec fn applied_to(self, metrics: MetricsModel) -> MetricsModel {
        match self {
            ControllerIndexState::Inactive => MetricsModel {
                indexing: false,
                index_error: None,
                ..metrics
            },
            ControllerIndexState::Building => MetricsModel {
                indexing: true,
                index_error: None,
                ..metrics
            },
            ControllerIndexState::Ready { duration_frames, seekable_from_frame } => MetricsModel {
                indexing: false,
                index_error: None,
                duration_frames: match duration_frames {
                    Some(frames) => Some(frames),
                    None => metrics.duration_frames,
                },
                seekable_from_frame,
                ..metrics
            },
            ControllerIndexState::Failed(error) => MetricsModel {
                indexing: false,
                index_error: Some(error),
                seekable_from_frame: None,
                ..metrics
            },
        }
    }

    pub open spec fn shown_in(self, snapshot: SnapshotModel) -> SnapshotModel {
        match snapshot.metrics {
            Some(metrics) => SnapshotModel {
                metrics: Some(self.applied_to(metrics)),
                ..snapshot
            },
            None => snapshot,
        }
    }
}

/// Puts the state of the seek index into a snapshot that has metrics.
pub fn apply_index_state(state: &ControllerIndexState, snapshot: &mut DecoderSnapshot)
    ensures
        final(snapshot)@ == state.shown_in(old(snapshot)@),
{
    match &mut snapshot.metrics {
        None => {},
        Some(metrics) => match state {
            ControllerIndexState::Inactive => {
                metrics.indexing = false;
                metrics.index_error = None;
            },
            ControllerIndexState::Building => {
                metrics.indexing = true;
                metrics.index_error = None;
            },
            ControllerIndexState::Ready { duration_frames, seekable_from_frame } => {
                metrics.indexing = false;
                metrics.index_error = None;
                if duration_frames.is_some() {
                    metrics.duration_frames = *duration_frames;
                }
                metrics.seekable_from_frame = *seekable_from_frame;
            },
            ControllerIndexState::Failed(error) => {
                metrics.indexing = false;
                metrics.index_error = Some(error.clone());
                metrics.seekable_from_frame = None;
            },
        },
    }
}

/// `next` with the scene identity of `previous`, where it has none of its own.
pub open spec fn with_inherited_identity(
    previous: SnapshotModel,
    next: SnapshotModel,
) -> SnapshotModel {
    match (previous.metrics, next.metrics) {
        (Some(before), Some(after)) => if after.scene_signature is Some {
            next
        } else {
            SnapshotModel {
                metrics: Some(
                    MetricsModel {
                        presentation_index: before.presentation_index,
                        presentation_id: before.presentation_id,
                        object_count: before.object_count,
                        has_lfe: before.has_lfe,
                        state_complete: before.state_complete,
                        scene_signature: before.scene_signature,
                        ..after
                    },
                ),
                ..next
            }
        },
        _ => next,
    }
}

/// Keeps showing the scene that is already known until a new one is decoded.
pub fn inherit_scene_identity(previous: &DecoderSnapshot, next: &mut DecoderSnapshot)
    ensures
        final(next)@ == with_inherited_identity(previous@, old(next)@),
{
    match (&previous.metrics, &mut next.metrics) {
        (Some(before), Some(after)) => {
            if after.scene_signature.is_some() {
                return ;
            }
            after.presentation_index = before.presentation_index;
            after.presentation_id = before.presentation_id;
            after.object_count = before.object_count;
            after.has_lfe = before.has_lfe;
            after.state_complete = before.state_complete;
            after.scene_signature = dup_signature(&before.scene_signature);
        },
        _ => {},
    }
}

/// The state of the index survives later snapshots: showing it once more, or
/// after an identity was inherited, changes nothing else and stays the same.
pub proof fn index_state_survives_later_snapshots(
    state: ControllerIndexState,
    previous: SnapshotModel,
    next: SnapshotModel,
)
    ensures
        state.shown_in(state.shown_in(next)) == state.shown_in(next),
        state.shown_in(with_inherited_identity(previous, next)) == with_inherited_identity(
            previous,
            state.shown_in(next),
        ),
{
}

/// While the index is being built, or once it has failed, no frame can be
/// sought; when it is ready, every frame of the media from the first complete
/// random-access point on can be, the end among them.
pub proof fn only_a_complete_index_permits_seeking(
    state: ControllerIndexState,
    metrics: MetricsModel,
    target: u64,
)
    ensures
        state is Building || state is Failed ==> !state.applied_to(metrics).seekable_to(target),
        state is Ready && state.applied_to(metrics).has_start_for(target) && state.applied_to(
            metrics,
        ).duration_frames is Some && target <= state.applied_to(metrics).duration_frames->0
            ==> state.applied_to(metrics).seekable_to(target),
{
}

/// Every frame from the first safe starting point to the end can be sought, and
/// nothing behind the end.
pub proof fn seekability_is_monotone_up_to_the_end(metrics: MetricsModel, a: u64, b: u64)
    requires
        metrics.seekable_to(a),
        a <= b,
    ensures
        metrics.seekable_to(b) <==> b <= metrics.duration_frames->0,
{
}

/// A number of frames in milliseconds, rounded down.
pub proof fn milliseconds_are_frames_over_the_rate(frames: u64, sample_rate: u32)
    requires
        sample_rate > 0,
        frames * 1_000 <= u64::MAX,
    ensures
        milliseconds(frames, sample_rate) * sample_rate <= frames * 1_000 < (milliseconds(
            frames,
            sample_rate,
        ) + 1) * sample_rate,
{
    let total = frames * 1_000;
    let rate = sample_rate as int;
    vstd::arithmetic::div_mod::lemma_fundamental_div_mod(total, rate);
    vstd::arithmetic::div_mod::lemma_mod_bound(total, rate);
    let quotient = total / rate;
    assert(rate * quotient == quotient * rate) by (nonlinear_arith);
    assert((quotient + 1) * rate == quotient * rate + rate) by (nonlinear_arith);
}

/// Media can be sought up to its end, from its first random-access point on, once it is
/// indexed without an error.
pub proof fn media_can_be_sought_between_its_first_start_and_its_end(
    metrics: MetricsModel,
    target: u64,
    from: u64,
    duration: u64,
)
    requires
        metrics.duration_frames == Some(duration),
        metrics.seekable_from_frame == Some(from),
    ensures
        from <= target <= duration && !metrics.indexing && metrics.index_error is None
            ==> metrics.seekable_to(target),
        target < from && target != duration ==> !metrics.seekable_to(target),
        target > duration ==> !metrics.seekable_to(target),
        metrics.indexing || metrics.index_error is Some ==> !metrics.seekable_to(target),
        metrics.has_start_for(target) <==> from <= target,
{
}

/// What is known of the index is shown: that it is being built, what it found, or why it
/// failed. Everything else of the metrics stays.
pub proof fn the_state_of_the_index_is_shown(
    metrics: MetricsModel,
    duration_frames: Option<u64>,
    seekable_from_frame: Option<u64>,
    error: String,
)
    ensures
        ({
            let building = ControllerIndexState::Building.applied_to(metrics);
            let ready = ControllerIndexState::Ready {
                duration_frames,
                seekable_from_frame,
            }.applied_to(metrics);
            let failed = ControllerIndexState::Failed(error).applied_to(metrics);
            let inactive = ControllerIndexState::Inactive.applied_to(metrics);
            &&& building.indexing && building.index_error is None
            &&& !ready.indexing && ready.index_error is None
            &&& ready.seekable_from_frame == seekable_from_frame
            &&& duration_frames is Some ==> ready.duration_frames == duration_frames
            &&& duration_frames is None ==> ready.duration_frames == metrics.duration_frames
            &&& !failed.indexing && failed.index_error == Some(error)
            &&& failed.seekable_from_frame is None
            &&& failed.duration_frames == metrics.duration_frames
            &&& !inactive.indexing && inactive.index_error is None
            &&& ready.sample_rate == metrics.sample_rate
            &&& ready.buffered_frames == metrics.buffered_frames
            &&& ready.target_frame == metrics.target_frame
            &&& ready.decoded_frames == metrics.decoded_frames
            &&& ready.scene_signature == metrics.scene_signature
            &&& building.seekable_from_frame == metrics.seekable_from_frame
        }),
{
}

/// A snapshot that knows its scene is shown as it is. One that does not yet keeps the
/// scene of the snapshot before, and nothing else of it.
pub proof fn a_scene_is_kept_until_the_next_one_is_known(
    previous: SnapshotModel,
    next: SnapshotModel,
)
    ensures
        ({
            let shown = with_inherited_identity(previous, next);
            &&& shown.phase == next.phase
            &&& shown.path == next.path
            &&& shown.detail == next.detail
            &&& shown.metrics is Some <==> next.metrics is Some
            &&& next.metrics is Some && next.metrics->0.scene_signature is Some ==> shown == next
            &&& previous.metrics is None ==> shown == next
            &&& previous.metrics is Some && next.metrics is Some
                && next.metrics->0.scene_signature is None ==> {
                &&& shown.metrics->0.scene_signature == previous.metrics->0.scene_signature
                &&& shown.metrics->0.object_count == previous.metrics->0.object_count
                &&& shown.metrics->0.has_lfe == previous.metrics->0.has_lfe
                &&& shown.metrics->0.presentation_index == previous.metrics->0.presentation_index
                &&& shown.metrics->0.presentation_id == previous.metrics->0.presentation_id
                &&& shown.metrics->0.state_complete == previous.metrics->0.state_complete
                &&& shown.metrics->0.buffered_frames == next.metrics->0.buffered_frames
                &&& shown.metrics->0.decoded_frames == next.metrics->0.decoded_frames
                &&& shown.metrics->0.target_frame == next.metrics->0.target_frame
                &&& shown.metrics->0.sample_rate == next.metrics->0.sample_rate
            }
        }),
{
}

/// While media is sought, the target is shown, nothing is buffered, and the rest stays.
pub proof fn a_seek_shows_its_target(path: PathBuf, metrics: MetricsModel, target_frame: u64)
    ensures
        ({
            let shown = SnapshotModel::seeking(path, metrics, target_frame);
            &&& shown.phase is Seeking
            &&& shown.path == Some(path)
            &&& shown.metrics is Some
            &&& shown.metrics->0.target_frame == target_frame
            &&& shown.metrics->0.buffered_frames == 0
            &&& shown.metrics->0.duration_frames == metrics.duration_frames
            &&& shown.metrics->0.seekable_from_frame == metrics.seekable_from_frame
            &&& shown.metrics->0.scene_signature == metrics.scene_signature
            &&& shown.detail is None
        }),
        SnapshotModel::opening(path).phase is Opening && SnapshotModel::opening(path).path == Some(
            path,
        ) && SnapshotModel::opening(path).metrics is None,
        SnapshotModel::idle().phase is Idle && SnapshotModel::idle().path is None,
{
}

} // verus!
