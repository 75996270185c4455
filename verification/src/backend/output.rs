//! What an output is asked for, and what it reports.
use crate::decoder::signature::SceneSignature;
use vstd::prelude::*;
use vstd::string::*;

verus! {

#[derive(Debug, Clone, Copy, PartialEq, Eq, Structural)]
pub enum OutputPhase {
    Unavailable,
    Idle,
    Initializing,
    Ready,
    Playing,
    Paused,
    Ended,
    Failed,
}

/// What an output derives its playhead from.
#[derive(Debug, Clone, Copy, PartialEq, Eq, Structural)]
pub enum OutputClock {
    Callback,
    SystemMedia,
}

#[derive(Debug, Clone, Copy, PartialEq, Eq, Structural)]
pub enum SpatialBackendKind {
    Automatic,
    WindowsSpatialAudio,
    SystemSpatial,
    SafBinaural,
}

/// What the machine that the player runs on offers.
#[derive(Debug, Clone, Copy, PartialEq, Eq, Structural)]
pub struct Platform {
    /// The mode that "automatic" stands for.
    pub automatic: SpatialBackendKind,
    pub windows: bool,
    pub macos: bool,
    /// The native renderer is part of this build.
    pub renderer: bool,
    /// This build can read PoseBridge sensors.
    pub bridge: bool,
}

impl SpatialBackendKind {
    /// The mode that is used: "automatic" is whatever the platform makes of it.
    pub open spec fn resolves_to(self, platform: Platform) -> SpatialBackendKind {
        if self == SpatialBackendKind::Automatic {
            platform.automatic
        } else {
            self
        }
    }

    pub fn resolved(self, platform: Platform) -> (r: SpatialBackendKind)
        ensures
            r == self.resolves_to(platform),
    {
        if self == SpatialBackendKind::Automatic {
            platform.automatic
        } else {
            self
        }
    }

    /// The platform can run this mode.
    pub open spec fn runs_on(self, platform: Platform) -> bool {
        match self {
            SpatialBackendKind::Automatic => true,
            SpatialBackendKind::WindowsSpatialAudio => platform.windows,
            SpatialBackendKind::SystemSpatial => platform.renderer,
            SpatialBackendKind::SafBinaural => platform.renderer,
        }
    }

    pub fn supported(self, platform: Platform) -> (r: bool)
        ensures
            r == self.runs_on(platform),
    {
        match self {
            SpatialBackendKind::Automatic => true,
            SpatialBackendKind::WindowsSpatialAudio => platform.windows,
            SpatialBackendKind::SystemSpatial => platform.renderer,
            SpatialBackendKind::SafBinaural => platform.renderer,
        }
    }
}

#[derive(Debug, PartialEq, Eq)]
pub enum OutputDeviceSelection {
    SystemDefault,
    EndpointId(String),
}

impl OutputDeviceSelection {
    /// The selection, with the endpoint by its characters.
    pub open spec fn endpoint(self) -> Option<Seq<char>> {
        match self {
            OutputDeviceSelection::SystemDefault => None,
            OutputDeviceSelection::EndpointId(id) => Some(id@),
        }
    }

    pub fn same(&self, other: &OutputDeviceSelection) -> (r: bool)
        ensures
            r == (self.endpoint() == other.endpoint()),
    {
        match (self, other) {
            (
                OutputDeviceSelection::SystemDefault,
                OutputDeviceSelection::SystemDefault,
            ) => true,
            (
                OutputDeviceSelection::EndpointId(a),
                OutputDeviceSelection::EndpointId(b),
            ) => *a == *b,
            _ => false,
        }
    }

    pub fn dup(&self) -> (r: Self)
        ensures
            r == *self,
    {
        match self {
            OutputDeviceSelection::SystemDefault => OutputDeviceSelection::SystemDefault,
            OutputDeviceSelection::EndpointId(id) => OutputDeviceSelection::EndpointId(id.clone()),
        }
    }
}

#[derive(Debug)]
pub struct OutputDeviceInfo {
    pub id: String,
    pub label: String,
    pub is_default: bool,
    pub max_dynamic_objects: Option<u32>,
    pub spatial_error: Option<String>,
}

/// One stream that an output is to play.
#[derive(Debug)]
pub struct OutputStreamConfig {
    pub request_id: u64,
    pub playback_epoch: u64,
    pub start_frame: u64,
    pub sample_rate: u32,
    pub dynamic_object_count: u32,
    pub has_lfe: bool,
    pub scene_signature: SceneSignature,
    pub output_device: OutputDeviceSelection,
}

impl OutputStreamConfig {
    /// The object count and the bed are those of the signature.
    pub open spec fn wf(&self) -> bool {
        &&& self.scene_signature@.wf()
        &&& self.dynamic_object_count == self.scene_signature@.object_element_ids.len()
        &&& self.has_lfe == self.scene_signature@.lfe_element_id is Some
    }

    pub fn new(
        request_id: u64,
        playback_epoch: u64,
        start_frame: u64,
        sample_rate: u32,
        scene_signature: SceneSignature,
        output_device: OutputDeviceSelection,
    ) -> (r: Result<Self, String>)
        requires
            scene_signature@.wf(),
        ensures
            match r {
                Ok(config) => scene_signature@.object_element_ids.len() <= u32::MAX && config.wf()
                    && config == (OutputStreamConfig {
                    request_id,
                    playback_epoch,
                    start_frame,
                    sample_rate,
                    dynamic_object_count: config.dynamic_object_count,
                    has_lfe: config.has_lfe,
                    scene_signature,
                    output_device,
                }),
                Err(message) => scene_signature@.object_element_ids.len() > u32::MAX && message@
                    == "Scene object count exceeds the Windows API range"@,
            },
    {
        let count: u64 = scene_signature.object_element_ids.len() as u64;
        if count > u32::MAX as u64 {
            return Err("Scene object count exceeds the Windows API range".to_owned());
        }
        let has_lfe = scene_signature.lfe_element_id.is_some();
        Ok(
            OutputStreamConfig {
                request_id,
                playback_epoch,
                start_frame,
                sample_rate,
                dynamic_object_count: count as u32,
                has_lfe,
                scene_signature,
                output_device,
            },
        )
    }

    /// Both describe the same stream.
    pub open spec fn describes(&self, other: &OutputStreamConfig) -> bool {
        &&& self.request_id == other.request_id
        &&& self.playback_epoch == other.playback_epoch
        &&& self.start_frame == other.start_frame
        &&& self.sample_rate == other.sample_rate
        &&& self.dynamic_object_count == other.dynamic_object_count
        &&& self.has_lfe == other.has_lfe
        &&& self.scene_signature@ == other.scene_signature@
        &&& self.output_device.endpoint() == other.output_device.endpoint()
    }

    pub fn same(&self, other: &OutputStreamConfig) -> (r: bool)
        ensures
            r == self.describes(other),
    {
        self.request_id == other.request_id && self.playback_epoch == other.playback_epoch
            && self.start_frame == other.start_frame && self.sample_rate == other.sample_rate
            && self.dynamic_object_count == other.dynamic_object_count && self.has_lfe
            == other.has_lfe && self.scene_signature.same(&other.scene_signature)
            && self.output_device.same(&other.output_device)
    }

    pub fn dup(&self) -> (r: Self)
        ensures
            r.describes(self),
            r.output_device == self.output_device,
    {
        OutputStreamConfig {
            request_id: self.request_id,
            playback_epoch: self.playback_epoch,
            start_frame: self.start_frame,
            sample_rate: self.sample_rate,
            dynamic_object_count: self.dynamic_object_count,
            has_lfe: self.has_lfe,
            scene_signature: self.scene_signature.dup(),
            output_device: self.output_device.dup(),
        }
    }
}

/// What an output reports.
#[derive(Debug)]
pub struct OutputSnapshot {
    pub phase: OutputPhase,
    pub device_label: String,
    pub max_dynamic_objects: u32,
    pub reserved_dynamic_objects: u32,
    pub active_dynamic_objects: u32,
    pub render_updates: u64,
    pub submitted_frames: u64,
    pub playhead_frames: u64,
    pub object_buffer_submissions: u64,
    pub position_updates: u64,
    pub underruns: u64,
    pub queued_output_frames: Option<u64>,
    pub clock: OutputClock,
    pub error: Option<String>,
    /// Nothing was handed samples: the view is walked by a clock of its own.
    pub preview: bool,
    pub atmos_assist: Option<String>,
}

/// A snapshot with its texts by characters.
#[verifier::ext_equal]
pub struct OutputReport {
    pub phase: OutputPhase,
    pub device_label: Seq<char>,
    pub max_dynamic_objects: u32,
    pub reserved_dynamic_objects: u32,
    pub active_dynamic_objects: u32,
    pub render_updates: u64,
    pub submitted_frames: u64,
    pub playhead_frames: u64,
    pub object_buffer_submissions: u64,
    pub position_updates: u64,
    pub underruns: u64,
    pub queued_output_frames: Option<u64>,
    pub clock: OutputClock,
    pub error: Option<Seq<char>>,
    pub preview: bool,
    pub atmos_assist: Option<Seq<char>>,
}

impl OutputReport {
    /// Nothing is configured.
    pub open spec fn idle() -> OutputReport {
        OutputReport {
            phase: OutputPhase::Idle,
            device_label: Seq::empty(),
            max_dynamic_objects: 0,
            reserved_dynamic_objects: 0,
            active_dynamic_objects: 0,
            render_updates: 0,
            submitted_frames: 0,
            playhead_frames: 0,
            object_buffer_submissions: 0,
            position_updates: 0,
            underruns: 0,
            queued_output_frames: None,
            clock: OutputClock::Callback,
            error: None,
            preview: false,
            atmos_assist: None,
        }
    }
}

impl View for OutputSnapshot {
    type V = OutputReport;

    open spec fn view(&self) -> OutputReport {
        OutputReport {
            phase: self.phase,
            device_label: self.device_label@,
            max_dynamic_objects: self.max_dynamic_objects,
            reserved_dynamic_objects: self.reserved_dynamic_objects,
            active_dynamic_objects: self.active_dynamic_objects,
            render_updates: self.render_updates,
            submitted_frames: self.submitted_frames,
            playhead_frames: self.playhead_frames,
            object_buffer_submissions: self.object_buffer_submissions,
            position_updates: self.position_updates,
            underruns: self.underruns,
            queued_output_frames: self.queued_output_frames,
            clock: self.clock,
            error: chars(self.error),
            preview: self.preview,
            atmos_assist: chars(self.atmos_assist),
        }
    }
}

/// An optional message by its characters.
pub open spec fn chars(text: Option<String>) -> Option<Seq<char>> {
    match text {
        Some(text) => Some(text@),
        None => None,
    }
}

pub fn same_text(a: &Option<String>, b: &Option<String>) -> (r: bool)
    ensures
        r == (chars(*a) == chars(*b)),
{
    match (a, b) {
        (Some(a), Some(b)) => *a == *b,
        (None, None) => true,
        _ => false,
    }
}

pub fn dup_text(text: &Option<String>) -> (r: Option<String>)
    ensures
        r == *text,
{
    match text {
        Some(text) => Some(text.clone()),
        None => None,
    }
}

impl OutputSnapshot {
    pub fn idle() -> (r: Self)
        ensures
            r@ == OutputReport::idle(),
    {
        let r = OutputSnapshot {
            phase: OutputPhase::Idle,
            device_label: String::new(),
            max_dynamic_objects: 0,
            reserved_dynamic_objects: 0,
            active_dynamic_objects: 0,
            render_updates: 0,
            submitted_frames: 0,
            playhead_frames: 0,
            object_buffer_submissions: 0,
            position_updates: 0,
            underruns: 0,
            queued_output_frames: None,
            clock: OutputClock::Callback,
            error: None,
            preview: false,
            atmos_assist: None,
        };
        assert(r@ =~= OutputReport::idle());
        r
    }

    /// An output that is being started for a stream.
    pub fn starting(label: String, start_frame: u64) -> (r: Self)
        ensures
            r@ == (OutputReport {
                phase: OutputPhase::Initializing,
                device_label: label@,
                playhead_frames: start_frame,
                ..OutputReport::idle()
            }),
    {
        let mut snapshot = OutputSnapshot::idle();
        snapshot.phase = OutputPhase::Initializing;
        snapshot.device_label = label;
        snapshot.playhead_frames = start_frame;
        assert(snapshot@ =~= (OutputReport {
            phase: OutputPhase::Initializing,
            device_label: label@,
            playhead_frames: start_frame,
            ..OutputReport::idle()
        }));
        snapshot
    }

    /// Both report the same.
    pub open spec fn reports(&self, other: &OutputSnapshot) -> bool {
        &&& self.phase == other.phase
        &&& self.device_label@ == other.device_label@
        &&& self.max_dynamic_objects == other.max_dynamic_objects
        &&& self.reserved_dynamic_objects == other.reserved_dynamic_objects
        &&& self.active_dynamic_objects == other.active_dynamic_objects
        &&& self.render_updates == other.render_updates
        &&& self.submitted_frames == other.submitted_frames
        &&& self.playhead_frames == other.playhead_frames
        &&& self.object_buffer_submissions == other.object_buffer_submissions
        &&& self.position_updates == other.position_updates
        &&& self.underruns == other.underruns
        &&& self.queued_output_frames == other.queued_output_frames
        &&& self.clock == other.clock
        &&& chars(self.error) == chars(other.error)
        &&& self.preview == other.preview
        &&& chars(self.atmos_assist) == chars(other.atmos_assist)
    }

    pub fn same(&self, other: &OutputSnapshot) -> (r: bool)
        ensures
            r == self.reports(other),
            r == (self@ == other@),
    {
        self.phase == other.phase && self.device_label == other.device_label
            && self.max_dynamic_objects == other.max_dynamic_objects
            && self.reserved_dynamic_objects == other.reserved_dynamic_objects
            && self.active_dynamic_objects == other.active_dynamic_objects && self.render_updates
            == other.render_updates && self.submitted_frames == other.submitted_frames
            && self.playhead_frames == other.playhead_frames && self.object_buffer_submissions
            == other.object_buffer_submissions && self.position_updates == other.position_updates
            && self.underruns == other.underruns && self.queued_output_frames
            == other.queued_output_frames && self.clock == other.clock && same_text(
            &self.error,
            &other.error,
        ) && self.preview == other.preview && same_text(&self.atmos_assist, &other.atmos_assist)
    }

    pub fn dup(&self) -> (r: Self)
        ensures
            r == *self,
    {
        OutputSnapshot {
            phase: self.phase,
            device_label: self.device_label.clone(),
            max_dynamic_objects: self.max_dynamic_objects,
            reserved_dynamic_objects: self.reserved_dynamic_objects,
            active_dynamic_objects: self.active_dynamic_objects,
            render_updates: self.render_updates,
            submitted_frames: self.submitted_frames,
            playhead_frames: self.playhead_frames,
            object_buffer_submissions: self.object_buffer_submissions,
            position_updates: self.position_updates,
            underruns: self.underruns,
            queued_output_frames: self.queued_output_frames,
            clock: self.clock,
            error: dup_text(&self.error),
            preview: self.preview,
            atmos_assist: dup_text(&self.atmos_assist),
        }
    }
}

/// What the system's own spatial renderer reports.
#[derive(Debug, Clone, Copy, PartialEq, Eq, Structural)]
pub enum RenderPhase {
    Initializing,
    Ready,
    Playing,
    Paused,
    Ended,
    Failed,
}

#[derive(Debug)]
pub struct RenderSnapshot {
    pub phase: RenderPhase,
    pub device_label: String,
    pub max_dynamic_objects: u32,
    pub reserved_dynamic_objects: u32,
    pub active_dynamic_objects: u32,
    pub render_updates: u64,
    pub submitted_frames: u64,
    pub playhead_frames: u64,
    pub object_buffer_submissions: u64,
    pub position_updates: u64,
    pub underruns: u64,
    pub error: Option<String>,
}

pub open spec fn phase_of(phase: RenderPhase) -> OutputPhase {
    match phase {
        RenderPhase::Initializing => OutputPhase::Initializing,
        RenderPhase::Ready => OutputPhase::Ready,
        RenderPhase::Playing => OutputPhase::Playing,
        RenderPhase::Paused => OutputPhase::Paused,
        RenderPhase::Ended => OutputPhase::Ended,
        RenderPhase::Failed => OutputPhase::Failed,
    }
}

/// The player's snapshot of a system renderer. Such a renderer is by definition
/// not the preview: a real endpoint was handed samples.
pub fn snapshot(native: RenderSnapshot) -> (r: OutputSnapshot)
    ensures
        r == (OutputSnapshot {
            phase: phase_of(native.phase),
            device_label: native.device_label,
            max_dynamic_objects: native.max_dynamic_objects,
            reserved_dynamic_objects: native.reserved_dynamic_objects,
            active_dynamic_objects: native.active_dynamic_objects,
            render_updates: native.render_updates,
            submitted_frames: native.submitted_frames,
            playhead_frames: native.playhead_frames,
            object_buffer_submissions: native.object_buffer_submissions,
            position_updates: native.position_updates,
            underruns: native.underruns,
            queued_output_frames: None,
            clock: OutputClock::Callback,
            error: native.error,
            preview: false,
            atmos_assist: None,
        }),
{
    OutputSnapshot {
        phase: match native.phase {
            RenderPhase::Initializing => OutputPhase::Initializing,
            RenderPhase::Ready => OutputPhase::Ready,
            RenderPhase::Playing => OutputPhase::Playing,
            RenderPhase::Paused => OutputPhase::Paused,
            RenderPhase::Ended => OutputPhase::Ended,
            RenderPhase::Failed => OutputPhase::Failed,
        },
        device_label: native.device_label,
        max_dynamic_objects: native.max_dynamic_objects,
        reserved_dynamic_objects: native.reserved_dynamic_objects,
        active_dynamic_objects: native.active_dynamic_objects,
        render_updates: native.render_updates,
        submitted_frames: native.submitted_frames,
        playhead_frames: native.playhead_frames,
        object_buffer_submissions: native.object_buffer_submissions,
        position_updates: native.position_updates,
        underruns: native.underruns,
        queued_output_frames: None,
        clock: OutputClock::Callback,
        error: native.error,
        preview: false,
        atmos_assist: None,
    }
}

/// A phase of the renderer is shown as the same phase of the output.
pub proof fn a_phase_is_shown_as_itself()
    ensures
        phase_of(RenderPhase::Initializing) is Initializing,
        phase_of(RenderPhase::Ready) is Ready,
        phase_of(RenderPhase::Playing) is Playing,
        phase_of(RenderPhase::Paused) is Paused,
        phase_of(RenderPhase::Ended) is Ended,
        phase_of(RenderPhase::Failed) is Failed,
{
}

/// Two configurations are one exactly where they agree on the playback, its start, its
/// scene, its rate and its device.
pub proof fn a_configuration_is_its_playback_scene_and_device(
    a: OutputStreamConfig,
    b: OutputStreamConfig,
)
    ensures
        a.describes(&b) ==> a.request_id == b.request_id && a.playback_epoch == b.playback_epoch
            && a.start_frame == b.start_frame && a.sample_rate == b.sample_rate
            && a.scene_signature@ == b.scene_signature@ && a.output_device.endpoint()
            == b.output_device.endpoint(),
        a.wf() && b.wf() && a.request_id == b.request_id && a.playback_epoch == b.playback_epoch
            && a.start_frame == b.start_frame && a.sample_rate == b.sample_rate
            && a.scene_signature@ == b.scene_signature@ && a.output_device.endpoint()
            == b.output_device.endpoint() ==> a.describes(&b),
{
}

/// Two reports are the same exactly where everything in them is.
pub proof fn reports_are_the_same_where_everything_is(a: OutputSnapshot, b: OutputSnapshot)
    ensures
        a.reports(&b) <==> a@ == b@,
{
}

/// An idle output has counted nothing and plays nowhere.
pub proof fn an_idle_output_has_counted_nothing()
    ensures
        ({
            let idle = OutputReport::idle();
            &&& idle.phase is Idle
            &&& idle.device_label.len() == 0
            &&& idle.max_dynamic_objects == 0
            &&& idle.reserved_dynamic_objects == 0
            &&& idle.active_dynamic_objects == 0
            &&& idle.render_updates == 0
            &&& idle.submitted_frames == 0
            &&& idle.playhead_frames == 0
            &&& idle.object_buffer_submissions == 0
            &&& idle.position_updates == 0
            &&& idle.underruns == 0
            &&& idle.queued_output_frames is None
            &&& idle.error is None
            &&& !idle.preview
            &&& idle.atmos_assist is None
        }),
{
}

/// Two configurations with another number of objects, or of which only one has a bed, are not
/// the same.
pub proof fn a_configuration_is_also_its_elements(a: OutputStreamConfig, b: OutputStreamConfig)
    ensures
        a.dynamic_object_count != b.dynamic_object_count ==> !a.describes(&b),
        a.has_lfe != b.has_lfe ==> !a.describes(&b),
        a.describes(&a),
        a.describes(&b) <==> b.describes(&a),
{
}

} // verus!
