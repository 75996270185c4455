//! The player's side of the output: which output is to run, what it is set to,
//! and what its answers change.
//!
//! The native runtime, the system's own renderer, the helper and the device
//! lists belong to the application. The controller says what is to be done with
//! them and takes in what came back. Once `runtime` is false, a runtime that is
//! still there is to be dropped.
use super::atmos::{AtmosController, AtmosModel, AtmosStep, HelperStatus};
use super::output::{
    chars, same_text, OutputDeviceInfo, OutputDeviceSelection, OutputPhase, OutputReport,
    OutputSnapshot, OutputStreamConfig, Platform, SpatialBackendKind,
};
use super::settings::{
    adjusts_alike, HptfModel, HptfRequest, OutputSettings, RendererSettings, SettingsModel,
};
use crate::head_tracking::{HeadSource, HeadTracker, Pose};
use crate::hptf_profile::Adjustment;
use crate::numeric::{clamp, clamped, finite, is_finite, ONE};
use vstd::prelude::*;
use vstd::string::*;

verus! {

/// A request for compensation and the number that its answer will carry.
#[derive(Debug)]
pub struct HptfTicket {
    pub request: HptfRequest,
    pub revision: u64,
}

#[verifier::ext_equal]
pub struct TicketModel {
    pub request: HptfModel,
    pub revision: u64,
}

impl View for HptfTicket {
    type V = TicketModel;

    open spec fn view(&self) -> TicketModel {
        TicketModel { request: self.request@, revision: self.revision }
    }
}

pub open spec fn ticket_model(ticket: Option<HptfTicket>) -> Option<TicketModel> {
    match ticket {
        Some(ticket) => Some(ticket@),
        None => None,
    }
}

/// What the running output says of its compensation.
#[derive(Debug, Clone, Copy, PartialEq, Eq, Structural)]
pub struct HptfStatus {
    pub enabled: bool,
    pub applied_revision: u64,
}

/// The compensation in figures. Decibels are single-precision patterns.
#[derive(Debug, Clone, Copy, PartialEq, Eq, Structural)]
pub struct HptfReadout {
    pub enabled: bool,
    pub bands: u32,
    pub rate: u32,
    pub preamp_db: u32,
    pub auto_trim_db: u32,
    pub max_response_db: u32,
}

impl HptfReadout {
    /// No compensation.
    pub open spec fn silent() -> HptfReadout {
        HptfReadout {
            enabled: false,
            bands: 0,
            rate: 0,
            preamp_db: 0,
            auto_trim_db: 0,
            max_response_db: 0,
        }
    }
}

impl Default for HptfReadout {
    fn default() -> (r: Self)
        ensures
            r == HptfReadout::silent(),
    {
        HptfReadout {
            enabled: false,
            bands: 0,
            rate: 0,
            preamp_db: 0,
            auto_trim_db: 0,
            max_response_db: 0,
        }
    }
}

/// What the system's own output and its device list report.
#[derive(Debug)]
pub struct SystemOutput {
    pub devices: Vec<OutputDeviceInfo>,
    pub catalog_ready: bool,
    pub catalog_error: Option<String>,
    pub configured_device: Option<OutputDeviceSelection>,
    /// What it makes of its preferred device for the number of objects at hand.
    pub resolved_device: Option<OutputDeviceSelection>,
    /// It is configured for the playback in question.
    pub configured: bool,
}

/// What came back since the last poll.
#[derive(Debug)]
pub struct OutputEvents {
    /// A new list of PCM devices, or why there is none.
    pub catalog: Option<Result<Vec<OutputDeviceInfo>, String>>,
    /// The outcome of a renderer switch.
    pub switched: Option<Result<(), String>>,
    /// The outcome of a request for compensation: whether there was a feed to
    /// apply it to.
    pub compensated: Option<(u64, Result<bool, String>)>,
    /// What the native runtime reports, where there is one.
    pub native: Option<OutputSnapshot>,
    /// What the system's own output reports.
    pub system: OutputSnapshot,
}

/// How an output comes to play a stream.
#[derive(Debug, Clone, Copy, PartialEq, Eq, Structural)]
pub enum ConfigureStep {
    /// It does so already.
    Unchanged,
    /// The system's own output is to be configured.
    System,
    /// The runtime is to be asked to replace its source; where it cannot, a new
    /// one takes its place.
    Replace,
    /// A new runtime is to be started.
    Spawn,
}

/// What a change of settings leads to.
#[derive(Debug)]
pub enum HotStep {
    /// Another change is still being prepared.
    Refused,
    /// The running renderer is to be switched; its answer decides.
    Switch(RendererSettings),
    /// The settings are in force. Where `reset` is set, the output was given
    /// up. `compensation` is to be handed to the runtime.
    Installed { reset: bool, compensation: Option<HptfTicket> },
}

/// Where a preparation stands.
#[derive(Debug)]
pub enum Preparing {
    Running,
    Lost,
    Done(Result<OutputSettings, String>),
}

#[derive(Debug)]
pub struct SpatialOutputController {
    pub platform: Platform,
    pub settings: OutputSettings,
    pub snapshot: OutputSnapshot,
    pub revision: u64,
    pub head: HeadTracker,
    pub atmos: AtmosController,
    /// There is a native runtime.
    pub runtime: bool,
    pub config: Option<OutputStreamConfig>,
    pub pcm_devices: Vec<OutputDeviceInfo>,
    pub pcm_ready: bool,
    pub pcm_error: Option<String>,
    /// Settings that a renderer switch is being prepared for.
    pub pending_hot: Option<OutputSettings>,
    /// The playback that a whole output is being prepared for.
    pub preparation: Option<(u64, u64)>,
    /// A prepared session waits to be used.
    pub prepared: bool,
    /// The compensation that was accepted last, apart from the one that is
    /// still being prepared. Both belong to the runtime and end with it.
    pub hptf_accepted: Option<HptfTicket>,
    pub hptf_pending: Option<HptfTicket>,
    pub hptf_revision: u64,
    pub hptf_error: Option<String>,
    pub update_result: Option<Result<(), String>>,
    pub playing: bool,
    /// Single precision.
    pub gain: u32,
}

/// The outcome of an update, with its message by characters.
pub open spec fn outcome_model(outcome: Option<Result<(), String>>) -> Option<Result<(), Seq<char>>> {
    match outcome {
        None => None,
        Some(Ok(_)) => Some(Ok(())),
        Some(Err(message)) => Some(Err(message@)),
    }
}

pub open spec fn settings_model(settings: Option<OutputSettings>) -> Option<SettingsModel> {
    match settings {
        Some(settings) => Some(settings@),
        None => None,
    }
}

#[verifier::ext_equal]
pub struct OutputModel {
    pub platform: Platform,
    pub settings: SettingsModel,
    pub snapshot: OutputReport,
    pub revision: u64,
    pub head: HeadTracker,
    pub atmos: AtmosModel,
    pub runtime: bool,
    pub config: Option<OutputStreamConfig>,
    pub pcm_devices: Seq<OutputDeviceInfo>,
    pub pcm_ready: bool,
    pub pcm_error: Option<Seq<char>>,
    pub pending_hot: Option<SettingsModel>,
    pub preparation: Option<(u64, u64)>,
    pub prepared: bool,
    pub hptf_accepted: Option<TicketModel>,
    pub hptf_pending: Option<TicketModel>,
    pub hptf_revision: u64,
    pub hptf_error: Option<Seq<char>>,
    pub update_result: Option<Result<(), Seq<char>>>,
    pub playing: bool,
    pub gain: u32,
}

impl View for SpatialOutputController {
    type V = OutputModel;

    open spec fn view(&self) -> OutputModel {
        OutputModel {
            platform: self.platform,
            settings: self.settings@,
            snapshot: self.snapshot@,
            revision: self.revision,
            head: self.head,
            atmos: self.atmos@,
            runtime: self.runtime,
            config: self.config,
            pcm_devices: self.pcm_devices@,
            pcm_ready: self.pcm_ready,
            pcm_error: chars(self.pcm_error),
            pending_hot: settings_model(self.pending_hot),
            preparation: self.preparation,
            prepared: self.prepared,
            hptf_accepted: ticket_model(self.hptf_accepted),
            hptf_pending: ticket_model(self.hptf_pending),
            hptf_revision: self.hptf_revision,
            hptf_error: chars(self.hptf_error),
            update_result: outcome_model(self.update_result),
            playing: self.playing,
            gain: self.gain,
        }
    }
}

/// One of the devices has this identity.
pub open spec fn lists(devices: Seq<OutputDeviceInfo>, id: Seq<char>) -> bool {
    exists|i: int| 0 <= i < devices.len() && (#[trigger] devices[i]).id@ == id
}

/// The default device can host this many dynamic objects.
pub open spec fn default_hosts(devices: Seq<OutputDeviceInfo>, count: u32) -> bool {
    exists|i: int|
        0 <= i < devices.len() && (#[trigger] devices[i]).is_default
            && devices[i].max_dynamic_objects is Some && devices[i].max_dynamic_objects->0 >= count
}

fn is_listed(devices: &Vec<OutputDeviceInfo>, id: &String) -> (r: bool)
    ensures
        r == lists(devices@, id@),
{
    let mut at: usize = 0;
    while at < devices.len()
        invariant
            at <= devices.len(),
            forall|i: int| 0 <= i < at ==> (#[trigger] devices@[i]).id@ != id@,
        decreases devices.len() - at,
    {
        if devices[at].id == *id {
            assert(devices@[at as int].id@ == id@);
            return true;
        }
        at = at + 1;
    }
    false
}

fn hosts(devices: &Vec<OutputDeviceInfo>, count: u32) -> (r: bool)
    ensures
        r == default_hosts(devices@, count),
{
    let mut at: usize = 0;
    while at < devices.len()
        invariant
            at <= devices.len(),
            forall|i: int|
                0 <= i < at ==> !((#[trigger] devices@[i]).is_default
                    && devices@[i].max_dynamic_objects is Some
                    && devices@[i].max_dynamic_objects->0 >= count),
        decreases devices.len() - at,
    {
        let device = &devices[at];
        let enough = match device.max_dynamic_objects {
            Some(limit) => limit >= count,
            None => false,
        };
        if device.is_default && enough {
            assert(devices@[at as int].is_default);
            return true;
        }
        at = at + 1;
    }
    false
}

impl OutputModel {
    pub open spec fn mode(self) -> SpatialBackendKind {
        self.settings.resolved(self.platform)
    }

    /// The native renderer is in charge of the output.
    pub open spec fn renders(self) -> bool {
        self.platform.renderer && (self.mode() == SpatialBackendKind::SystemSpatial || self.mode()
            == SpatialBackendKind::SafBinaural)
    }

    /// A change is on its way.
    pub open spec fn pending(self) -> bool {
        self.platform.renderer && (self.pending_hot is Some || self.preparation is Some
            || self.hptf_pending is Some)
    }

    /// The compensation that the settings ask for.
    pub open spec fn wanted(self) -> HptfModel {
        self.settings.compensation(self.platform)
    }

    /// The output is to be handed the compensation: it is there, it is not busy
    /// with another request, and it does not run this one already.
    pub open spec fn compensates(self) -> bool {
        &&& self.runtime
        &&& self.hptf_pending is None
        &&& match self.hptf_accepted {
            Some(accepted) => !accepted.request.asks(self.wanted()),
            None => self.wanted().profile.len() > 0,
        }
    }

    pub open spec fn compensated(self) -> OutputModel {
        if self.compensates() {
            let revision = (self.hptf_revision + 1) as u64;
            OutputModel {
                hptf_revision: revision,
                hptf_pending: Some(TicketModel { request: self.wanted(), revision }),
                ..self
            }
        } else {
            self
        }
    }

    /// The request that is handed out on the way there.
    pub open spec fn compensation(self) -> Option<TicketModel> {
        if self.compensates() {
            Some(TicketModel { request: self.wanted(), revision: (self.hptf_revision + 1) as u64 })
        } else {
            None
        }
    }

    /// The head is tracked for the outputs that leave the pose to the player.
    pub open spec fn head_configured(self) -> OutputModel {
        OutputModel {
            head: HeadTracker {
                desired: self.head.desired.configured(
                    self.settings.head_source,
                    self.mode() == SpatialBackendKind::SafBinaural || self.mode()
                        == SpatialBackendKind::WindowsSpatialAudio,
                    self.mode() == SpatialBackendKind::SystemSpatial,
                ),
                ..self.head
            },
            ..self
        }
    }

    pub open spec fn with_settings(self, settings: SettingsModel) -> OutputModel {
        OutputModel { settings: settings.repaired(self.platform), ..self }
    }

    /// New settings are in force.
    pub open spec fn installed(self, settings: SettingsModel) -> OutputModel {
        self.with_settings(settings).compensated().head_configured()
    }

    pub open spec fn retargeted(self) -> OutputModel {
        OutputModel {
            head: HeadTracker {
                target_revision: if self.head.target_revision == u64::MAX {
                    0
                } else {
                    (self.head.target_revision + 1) as u64
                },
                ..self.head
            },
            ..self
        }
    }

    /// The runtime is gone, with everything that belonged to it.
    pub open spec fn without_runtime(self) -> OutputModel {
        OutputModel {
            atmos: AtmosModel::fresh(),
            runtime: false,
            hptf_accepted: None,
            hptf_pending: None,
            hptf_error: None,
            ..self.retargeted()
        }
    }

    /// No output is configured or being prepared.
    pub open spec fn reset(self) -> OutputModel {
        OutputModel {
            config: None,
            pending_hot: None,
            preparation: None,
            prepared: false,
            snapshot: OutputReport::idle(),
            revision: (self.revision + 1) as u64,
            ..(if self.platform.renderer {
                self.without_runtime()
            } else {
                self
            })
        }
    }

    /// A paused output that no longer fits the settings is given up first.
    pub open spec fn gives_up(self, settings: SettingsModel) -> bool {
        self.renders() && self.config is None && self.settings.rebuilds(settings, self.platform)
    }

    pub open spec fn ready_for(self, settings: SettingsModel) -> OutputModel {
        if self.gives_up(settings) {
            self.reset()
        } else {
            self
        }
    }

    /// The change goes through the renderer that is running.
    pub open spec fn switches(self, settings: SettingsModel) -> bool {
        self.renders() && self.runtime && self.settings.renderer(self.platform)
            != settings.renderer(self.platform)
    }

    /// A change of settings was asked for.
    pub open spec fn hot(self, settings: SettingsModel) -> OutputModel {
        let ready = self.ready_for(settings);
        if self.pending() {
            OutputModel {
                update_result: Some(Err("A renderer update is already being prepared"@)),
                ..self
            }
        } else if ready.switches(settings) {
            OutputModel { pending_hot: Some(settings), ..ready }
        } else {
            OutputModel { update_result: Some(Ok(())), ..ready.installed(settings) }
        }
    }

    pub open spec fn cataloged(
        self,
        catalog: Option<Result<Vec<OutputDeviceInfo>, String>>,
    ) -> OutputModel {
        match catalog {
            None => self,
            Some(Ok(devices)) => OutputModel {
                pcm_ready: true,
                pcm_devices: devices@,
                pcm_error: None,
                ..self
            },
            Some(Err(error)) => OutputModel { pcm_ready: true, pcm_error: Some(error@), ..self },
        }
    }

    /// The settings that a finished switch puts into force.
    pub open spec fn switch_installs(self, outcome: Option<Result<(), String>>) -> bool {
        self.runtime && self.pending_hot is Some && outcome is Some && outcome->0 is Ok
    }

    pub open spec fn switched(self, outcome: Option<Result<(), String>>) -> OutputModel {
        if !self.runtime || outcome is None {
            self
        } else {
            OutputModel {
                update_result: outcome_model(outcome),
                ..(if self.switch_installs(outcome) {
                    self.without_pending().installed(self.pending_hot->0)
                } else {
                    self.without_pending()
                })
            }
        }
    }

    /// No switch is being prepared.
    pub open spec fn without_pending(self) -> OutputModel {
        OutputModel { pending_hot: None, ..self }
    }

    /// The request that a finished switch leads to.
    pub open spec fn switch_compensation(self, outcome: Option<Result<(), String>>) -> Option<
        TicketModel,
    > {
        if self.switch_installs(outcome) {
            self.without_pending().with_settings(self.pending_hot->0).compensation()
        } else {
            None
        }
    }

    /// An answer to the request that is being waited for.
    pub open spec fn answers(self, outcome: Option<(u64, Result<bool, String>)>) -> bool {
        self.runtime && self.hptf_pending is Some && match outcome {
            Some((revision, _)) => self.hptf_pending->0.revision == revision,
            None => false,
        }
    }

    /// What an answer says against the request, if anything.
    pub open spec fn objection(outcome: Result<bool, String>) -> Option<Seq<char>> {
        match outcome {
            Ok(true) => None,
            Ok(false) => Some("This output has no headphone feed for a profile to apply to"@),
            Err(error) => Some(error@),
        }
    }

    /// The settings still ask for what was refused.
    pub open spec fn still_wants(self, request: HptfModel) -> bool {
        let wanted = self.wanted();
        wanted.profile == request.profile && wanted.auto_trim == request.auto_trim
            && adjusts_alike(wanted.adjustment, request.adjustment)
    }

    /// The compensation is back at what was accepted last.
    pub open spec fn rolled_back(self) -> OutputModel {
        OutputModel {
            settings: match self.hptf_accepted {
                Some(previous) => SettingsModel {
                    hptf: previous.request.profile,
                    hptf_auto_trim: previous.request.auto_trim,
                    hptf_bass_db: previous.request.adjustment.bass_db,
                    hptf_tilt_db: previous.request.adjustment.tilt_db_per_octave,
                    ..self.settings
                },
                None => SettingsModel {
                    hptf: Seq::empty(),
                    hptf_auto_trim: false,
                    hptf_bass_db: 0,
                    hptf_tilt_db: 0,
                    ..self.settings
                },
            },
            ..self
        }
    }

    /// The request is settled: accepted, or refused and, where the settings
    /// still ask for it, taken back as a whole.
    pub open spec fn settled(self, outcome: Result<bool, String>) -> OutputModel {
        let ticket = self.hptf_pending->0;
        let refused = OutputModel {
            hptf_pending: None,
            hptf_error: OutputModel::objection(outcome),
            ..self
        };
        if OutputModel::objection(outcome) is None {
            OutputModel { hptf_accepted: Some(ticket), ..refused }
        } else if refused.still_wants(ticket.request) {
            refused.rolled_back()
        } else {
            refused
        }
    }

    pub open spec fn answered(self, outcome: Option<(u64, Result<bool, String>)>) -> OutputModel {
        if self.answers(outcome) {
            self.settled(answer_of(outcome)).compensated().revised()
        } else {
            self
        }
    }

    /// The request that an answer leads to, where the settings moved on meanwhile.
    pub open spec fn answer_compensation(
        self,
        outcome: Option<(u64, Result<bool, String>)>,
    ) -> Option<TicketModel> {
        if self.answers(outcome) {
            self.settled(answer_of(outcome)).compensation()
        } else {
            None
        }
    }

    /// What the snapshot shows where the label helper may have a say.
    pub open spec fn shown(self, snapshot: OutputReport) -> OutputReport {
        if self.platform.macos && self.platform.renderer {
            OutputReport { atmos_assist: self.snapshot.atmos_assist, ..snapshot }
        } else {
            snapshot
        }
    }

    /// What the output that is in use reports. A native output without a runtime
    /// goes on reporting what it did.
    pub open spec fn reported(self, native: Option<OutputSnapshot>, system: OutputSnapshot) -> OutputReport {
        if !self.renders() {
            system@
        } else {
            match native {
                Some(native) if self.runtime => native@,
                _ => self.snapshot,
            }
        }
    }

    pub open spec fn observed(
        self,
        native: Option<OutputSnapshot>,
        system: OutputSnapshot,
    ) -> OutputModel {
        let next = self.shown(self.reported(native, system));
        if next != self.snapshot {
            OutputModel { snapshot: next, revision: (self.revision + 1) as u64, ..self }
        } else {
            self
        }
    }

    /// What the native renderer answered, but for its snapshot.
    pub open spec fn informed(self, events: OutputEvents) -> OutputModel {
        if self.platform.renderer {
            self.cataloged(events.catalog).switched(events.switched).answered(events.compensated)
        } else {
            self
        }
    }

    /// Everything that came back was taken in.
    pub open spec fn polled(self, events: OutputEvents) -> OutputModel {
        self.informed(events).observed(events.native, events.system)
    }

    pub open spec fn plans(self, config: OutputStreamConfig) -> ConfigureStep {
        if !self.renders() {
            ConfigureStep::System
        } else if self.config is Some && self.config->0.describes(&config) {
            ConfigureStep::Unchanged
        } else if !self.prepared && self.runtime {
            ConfigureStep::Replace
        } else {
            ConfigureStep::Spawn
        }
    }

    /// A new runtime was started for a stream, or could not be.
    pub open spec fn launched(
        self,
        config: OutputStreamConfig,
        outcome: Result<OutputSnapshot, String>,
    ) -> OutputModel {
        match outcome {
            Ok(snapshot) => OutputModel {
                config: Some(config),
                snapshot: snapshot@,
                runtime: true,
                ..(if self.mode() == SpatialBackendKind::SafBinaural {
                    self.retargeted()
                } else {
                    self
                })
            },
            Err(error) => OutputModel {
                snapshot: OutputReport {
                    phase: OutputPhase::Failed,
                    error: Some(error@),
                    ..self.snapshot
                },
                ..self
            },
        }
    }

    pub open spec fn revised(self) -> OutputModel {
        OutputModel { revision: (self.revision + 1) as u64, ..self }
    }

    /// The outcome of a start is taken in, and the head is tracked accordingly.
    pub open spec fn spawned(
        self,
        config: OutputStreamConfig,
        outcome: Result<OutputSnapshot, String>,
    ) -> OutputModel {
        self.launched(config, outcome).compensated().revised().head_configured()
    }

    /// The device that an output for these settings is prepared on, or why none
    /// can be.
    pub open spec fn preparation_device(
        self,
        settings: SettingsModel,
        system: SystemOutput,
    ) -> Result<Option<Seq<char>>, Seq<char>> {
        let mode = settings.resolved(self.platform);
        if self.pending() {
            Err("An audio settings change is already being prepared"@)
        } else if mode == SpatialBackendKind::SafBinaural {
            match settings.stereo_device {
                Some(id) if lists(self.pcm_devices, id) => Ok(Some(id)),
                _ => Ok(None),
            }
        } else if mode == SpatialBackendKind::SystemSpatial {
            if self.platform.windows && system.catalog_ready && !default_hosts(
                system.devices@,
                settings.layout.budget(),
            ) {
                Err("The default endpoint cannot host the selected speaker layout"@)
            } else {
                Ok(None)
            }
        } else {
            Err("This output mode does not support renderer preparation"@)
        }
    }
}

/// The answer of an outcome that is there.
pub open spec fn answer_of(outcome: Option<(u64, Result<bool, String>)>) -> Result<bool, String> {
    match outcome {
        Some((_, answer)) => answer,
        None => Ok(true),
    }
}

impl SpatialOutputController {
    pub fn new(platform: Platform, system: OutputSnapshot) -> (r: Self)
        ensures
            r.platform == platform,
            r@.settings == SettingsModel::fresh(),
            r@.snapshot == (if platform.renderer {
                OutputReport::idle()
            } else {
                system@
            }),
            r.revision == 0,
            r.head.desired.wf(),
            r@.atmos == AtmosModel::fresh(),
            !r.runtime,
            r.config is None,
            r@.pcm_devices.len() == 0,
            !r.pcm_ready,
            r.pcm_error is None,
            !r@.pending(),
            r.pending_hot is None && r.preparation is None && !r.prepared,
            r.hptf_accepted is None && r.hptf_pending is None && r.hptf_error is None,
            r.hptf_revision == 0,
            r.update_result is None,
            !r.playing,
            r.gain == ONE,
    {
        SpatialOutputController {
            platform,
            settings: OutputSettings::default(),
            snapshot: if platform.renderer {
                OutputSnapshot::idle()
            } else {
                system
            },
            revision: 0,
            head: HeadTracker::new(),
            atmos: AtmosController::default(),
            runtime: false,
            config: None,
            pcm_devices: Vec::new(),
            pcm_ready: false,
            pcm_error: None,
            pending_hot: None,
            preparation: None,
            prepared: false,
            hptf_accepted: None,
            hptf_pending: None,
            hptf_revision: 0,
            hptf_error: None,
            update_result: None,
            playing: false,
            gain: ONE,
        }
    }

    fn mode(&self) -> (r: SpatialBackendKind)
        ensures
            r == self@.mode(),
    {
        self.settings.mode.resolved(self.platform)
    }

    /// Whether the native renderer is in charge of the output.
    pub fn uses_macinrender(&self) -> (r: bool)
        ensures
            r == self@.renders(),
    {
        let mode = self.mode();
        self.platform.renderer && (mode == SpatialBackendKind::SystemSpatial || mode
            == SpatialBackendKind::SafBinaural)
    }

    pub fn settings(&self) -> (r: &OutputSettings)
        ensures
            *r == self.settings,
    {
        &self.settings
    }

    /// The HRTF that the current native output has accepted. Settings alone are
    /// no evidence: they can be chosen before any output exists.
    pub fn active_sofa(&self) -> (r: Option<&String>)
        ensures
            match r {
                Some(sofa) => *sofa == self.settings.sofa,
                None => true,
            },
            r is Some == (self.platform.renderer && self.runtime && self@.mode()
                == SpatialBackendKind::SafBinaural && self@.settings.sofa.len() > 0 && (
            self.snapshot.phase is Ready || self.snapshot.phase is Playing
                || self.snapshot.phase is Paused || self.snapshot.phase is Ended)),
    {
        if self.platform.renderer && self.runtime && self.mode() == SpatialBackendKind::SafBinaural
            && self.settings.sofa.as_str().unicode_len() > 0 && matches!(
            self.snapshot.phase,
            OutputPhase::Ready | OutputPhase::Playing | OutputPhase::Paused | OutputPhase::Ended
        ) {
            Some(&self.settings.sofa)
        } else {
            None
        }
    }

    /// Hands out the compensation that the settings ask for, once.
    fn sync_hptf(&mut self) -> (r: Option<HptfTicket>)
        requires
            old(self).hptf_revision < u64::MAX,
        ensures
            final(self)@ == old(self)@.compensated(),
            ticket_model(r) == old(self)@.compensation(),
    {
        if !self.runtime || self.hptf_pending.is_some() {
            return None;
        }
        let wanted = self.settings.hptf_request(self.platform);
        let settled = match &self.hptf_accepted {
            Some(accepted) => accepted.request.same(&wanted),
            None => wanted.settings.profile.as_str().unicode_len() == 0,
        };
        if settled {
            return None;
        }
        self.hptf_revision = self.hptf_revision + 1;
        let ticket = HptfTicket { request: wanted.dup(), revision: self.hptf_revision };
        self.hptf_pending = Some(HptfTicket { request: wanted, revision: self.hptf_revision });
        assert(self@ =~= old(self)@.compensated());
        Some(ticket)
    }

    fn configure_head(&mut self)
        ensures
            final(self)@ == old(self)@.head_configured(),
            old(self).head.desired.wf() ==> final(self).head.desired.wf(),
    {
        let mode = self.mode();
        self.head.desired.configure(
            self.settings.head_source,
            mode == SpatialBackendKind::SafBinaural || mode
                == SpatialBackendKind::WindowsSpatialAudio,
            mode == SpatialBackendKind::SystemSpatial,
        );
        assert(self@ =~= old(self)@.head_configured());
    }

    /// The running output has taken up the accepted profile. Selected is not
    /// applied: a swap counts once the audio runs that revision.
    pub open spec fn runs_accepted(&self, status: HptfStatus) -> bool {
        &&& self.runtime
        &&& self@.settings.compensates(self.platform)
        &&& self.hptf_accepted is Some
        &&& status.enabled
        &&& status.applied_revision == self.hptf_accepted->0.revision
    }

    /// The profile that the output actually runs: selected is not applied, and
    /// a change only counts once the audio has taken up its number.
    pub fn active_hptf(&self, status: HptfStatus) -> (r: Option<&String>)
        ensures
            r is Some == self.runs_accepted(status),
            r is Some ==> *r->0 == self.hptf_accepted->0.request.settings.profile,
    {
        if self.runtime && self.settings.hptf_applicable(self.platform) {
            if let Some(accepted) = &self.hptf_accepted {
                if status.enabled && status.applied_revision == accepted.revision {
                    return Some(&accepted.request.settings.profile);
                }
            }
        }
        None
    }

    /// The knobs that the running cascade was built with, on the same terms as
    /// `active_hptf`.
    pub fn active_hptf_adjustment(&self, status: HptfStatus) -> (r: Adjustment)
        ensures
            r == (if self.runs_accepted(status) {
                self.hptf_accepted->0.request.adjustment
            } else {
                Adjustment { bass_db: 0, tilt_db_per_octave: 0 }
            }),
    {
        if self.runtime && self.settings.hptf_applicable(self.platform) {
            if let Some(accepted) = &self.hptf_accepted {
                if status.enabled && status.applied_revision == accepted.revision {
                    return accepted.request.adjustment;
                }
            }
        }
        Adjustment::default()
    }

    /// What the running output says of its compensation; nothing where there is
    /// no output.
    pub fn hptf_readout(&self, status: HptfReadout) -> (r: HptfReadout)
        ensures
            r == (if self.runtime {
                status
            } else {
                HptfReadout::silent()
            }),
    {
        if self.runtime {
            status
        } else {
            HptfReadout::default()
        }
    }

    pub fn take_hptf_error(&mut self) -> (r: Option<String>)
        ensures
            r == old(self).hptf_error,
            final(self)@ == (OutputModel { hptf_error: None, ..old(self)@ }),
    {
        let error = self.hptf_error.take();
        assert(self@ =~= (OutputModel { hptf_error: None, ..old(self)@ }));
        error
    }

    pub fn take_settings_result(&mut self) -> (r: Option<Result<(), String>>)
        ensures
            r == old(self).update_result,
            final(self)@ == (OutputModel { update_result: None, ..old(self)@ }),
    {
        let result = self.update_result.take();
        assert(self@ =~= (OutputModel { update_result: None, ..old(self)@ }));
        result
    }

    /// Puts settings into force. The result is to be handed to the runtime; the
    /// system's own output is told the native device of the settings.
    pub fn install_settings(&mut self, settings: OutputSettings) -> (r: Option<HptfTicket>)
        requires
            old(self).hptf_revision < u64::MAX,
        ensures
            final(self)@ == old(self)@.installed(settings@),
            ticket_model(r) == old(self)@.with_settings(settings@).compensation(),
    {
        self.settings = settings.validated(self.platform);
        assert(self@ =~= old(self)@.with_settings(settings@));
        let compensation = self.sync_hptf();
        self.configure_head();
        compensation
    }

    pub fn settings_pending(&self) -> (r: bool)
        ensures
            r == self@.pending(),
    {
        self.platform.renderer && (self.pending_hot.is_some() || self.preparation.is_some()
            || self.hptf_pending.is_some())
    }

    /// Changes settings while an output runs. A change of the renderer itself
    /// takes effect only once the renderer has accepted it.
    pub fn hot_settings(&mut self, settings: OutputSettings) -> (r: HotStep)
        requires
            old(self).hptf_revision < u64::MAX,
            old(self).revision < u64::MAX,
        ensures
            final(self)@ == old(self)@.hot(settings@),
            r is Refused == old(self)@.pending(),
            r is Switch == (!old(self)@.pending() && old(self)@.ready_for(settings@).switches(
                settings@,
            )),
            r is Switch ==> r->Switch_0@ == settings@.renderer(old(self).platform),
            r is Installed ==> {
                &&& r->reset == old(self)@.gives_up(settings@)
                &&& ticket_model(r->compensation) == old(self)@.ready_for(settings@).with_settings(
                    settings@,
                ).compensation()
            },
    {
        if self.settings_pending() {
            self.update_result =
            Some(Err("A renderer update is already being prepared".to_owned()));
            assert(self@ =~= old(self)@.hot(settings@));
            return HotStep::Refused;
        }
        let mut reset = false;
        if self.uses_macinrender() && self.config.is_none() && self.settings.needs_rebuild(
            &settings,
            self.platform,
        ) {
            self.reset();
            reset = true;
        }
        assert(self@ =~= old(self)@.ready_for(settings@));
        if self.uses_macinrender() && self.runtime {
            let renderer = settings.renderer(self.platform);
            if !self.settings.renderer(self.platform).same(&renderer) {
                self.pending_hot = Some(settings);
                assert(self@ =~= old(self)@.hot(settings@));
                return HotStep::Switch(renderer);
            }
        }
        let compensation = self.install_settings(settings);
        self.update_result = Some(Ok(()));
        assert(self@ =~= old(self)@.hot(settings@));
        HotStep::Installed { reset, compensation }
    }

    /// The device that an output for these settings is to be prepared on.
    pub fn prepare_settings(&self, settings: &OutputSettings, system: &SystemOutput) -> (r: Result<
        OutputDeviceSelection,
        String,
    >)
        ensures
            match r {
                Ok(device) => self@.preparation_device(settings@, *system) == Ok::<
                    Option<Seq<char>>,
                    Seq<char>,
                >(device.endpoint()),
                Err(message) => self@.preparation_device(settings@, *system) == Err::<
                    Option<Seq<char>>,
                    Seq<char>,
                >(message@),
            },
    {
        if self.settings_pending() {
            return Err("An audio settings change is already being prepared".to_owned());
        }
        match settings.mode.resolved(self.platform) {
            SpatialBackendKind::SafBinaural => {
                if let OutputDeviceSelection::EndpointId(id) = &settings.stereo_device {
                    if is_listed(&self.pcm_devices, id) {
                        return Ok(settings.stereo_device.dup());
                    }
                }
                Ok(OutputDeviceSelection::SystemDefault)
            },
            SpatialBackendKind::SystemSpatial => {
                if self.platform.windows && system.catalog_ready && !hosts(
                    &system.devices,
                    settings.layout.dynamic_budget(),
                ) {
                    return Err(
                        "The default endpoint cannot host the selected speaker layout".to_owned(),
                    );
                }
                Ok(OutputDeviceSelection::SystemDefault)
            },
            _ => Err("This output mode does not support renderer preparation".to_owned()),
        }
    }

    /// Records that an output is being prepared for a playback.
    pub fn preparing(&mut self, request: u64, epoch: u64)
        ensures
            final(self)@ == (OutputModel { preparation: Some((request, epoch)), ..old(self)@ }),
    {
        self.preparation = Some((request, epoch));
        assert(self@ =~= (OutputModel { preparation: Some((request, epoch)), ..old(self)@ }));
    }

    /// The outcome of the preparation for a playback, once it is there. One that
    /// was made for another playback is dropped.
    pub fn take_prepared_settings(&mut self, request: u64, epoch: u64, state: Preparing) -> (r:
        Option<Result<OutputSettings, String>>)
        ensures
            match old(self).preparation {
                None => r is None && final(self)@ == old(self)@,
                Some(key) => if key != (request, epoch) {
                    r is None && final(self)@ == (OutputModel { preparation: None, ..old(self)@ })
                } else {
                    match state {
                        Preparing::Running => r is None && final(self)@ == old(self)@,
                        Preparing::Lost => {
                            &&& r is Some && r->0 is Err
                            &&& r->0->Err_0@ == "Audio output preparation stopped unexpectedly"@
                            &&& final(self)@ == (OutputModel { preparation: None, ..old(self)@ })
                        },
                        Preparing::Done(outcome) => r == Some(outcome) && final(self)@ == (
                        OutputModel { preparation: None, ..old(self)@ }),
                    }
                },
            },
    {
        match self.preparation {
            None => {
                return None;
            },
            Some((prepared_request, prepared_epoch)) => {
                if prepared_request != request || prepared_epoch != epoch {
                    self.preparation = None;
                    assert(self@ =~= (OutputModel { preparation: None, ..old(self)@ }));
                    return None;
                }
            },
        }
        let outcome = match state {
            Preparing::Running => {
                return None;
            },
            Preparing::Lost => Err("Audio output preparation stopped unexpectedly".to_owned()),
            Preparing::Done(outcome) => outcome,
        };
        self.preparation = None;
        assert(self@ =~= (OutputModel { preparation: None, ..old(self)@ }));
        Some(outcome)
    }

    /// Puts prepared settings into force; the session waits for a stream.
    pub fn install_prepared_settings(&mut self, settings: OutputSettings) -> (r: Option<HptfTicket>)
        requires
            old(self).hptf_revision < u64::MAX,
            old(self).revision < u64::MAX,
        ensures
            final(self)@ == (OutputModel {
                prepared: true,
                ..old(self)@.reset().installed(settings@)
            }),
            ticket_model(r) == old(self)@.reset().with_settings(settings@).compensation(),
    {
        self.reset();
        let compensation = self.install_settings(settings);
        self.prepared = true;
        assert(self@ =~= (OutputModel { prepared: true, ..old(self)@.reset().installed(settings@) }));
        compensation
    }

    /// The listener turned by hand.
    pub fn manual_head(&mut self, pose: Pose)
        requires
            old(self).head.desired.revision < u64::MAX,
        ensures
            final(self)@ == (OutputModel {
                settings: SettingsModel { head_source: HeadSource::Manual, ..old(self)@.settings },
                head: HeadTracker {
                    desired: old(self).head.desired.turned(pose),
                    ..old(self).head
                },
                ..old(self)@
            }).head_configured(),
    {
        self.settings.head_source = HeadSource::Manual;
        self.head.desired.manual(pose);
        assert(self@ =~= (OutputModel {
            settings: SettingsModel { head_source: HeadSource::Manual, ..old(self)@.settings },
            head: HeadTracker { desired: old(self).head.desired.turned(pose), ..old(self).head },
            ..old(self)@
        }));
        self.configure_head();
    }

    pub fn recenter_head(&mut self)
        requires
            old(self).head.desired.recenter < u64::MAX,
        ensures
            final(self)@ == (OutputModel {
                head: HeadTracker { desired: old(self).head.desired.recentered(), ..old(self).head },
                ..old(self)@
            }),
    {
        self.head.desired.recenter();
        assert(self@ =~= (OutputModel {
            head: HeadTracker { desired: old(self).head.desired.recentered(), ..old(self).head },
            ..old(self)@
        }));
    }

    /// How the output comes to play a stream.
    pub fn ensure_configured(&self, config: &OutputStreamConfig) -> (r: ConfigureStep)
        ensures
            r == self@.plans(*config),
    {
        if !self.uses_macinrender() {
            return ConfigureStep::System;
        }
        if let Some(current) = &self.config {
            if current.same(config) {
                return ConfigureStep::Unchanged;
            }
        }
        if !self.prepared && self.runtime {
            ConfigureStep::Replace
        } else {
            ConfigureStep::Spawn
        }
    }

    /// The system's own output was configured.
    pub fn system_configured(&mut self)
        ensures
            final(self)@ == old(self)@.head_configured(),
    {
        self.configure_head();
    }

    /// The runtime took another source.
    pub fn source_replaced(&mut self, config: OutputStreamConfig, snapshot: OutputSnapshot)
        requires
            old(self).revision < u64::MAX,
        ensures
            final(self)@ == (OutputModel {
                config: Some(config),
                snapshot: snapshot@,
                revision: (old(self).revision + 1) as u64,
                ..old(self)@
            }),
    {
        self.config = Some(config);
        self.snapshot = snapshot;
        self.revision = self.revision + 1;
        assert(self@ =~= (OutputModel {
            config: Some(config),
            snapshot: snapshot@,
            revision: (old(self).revision + 1) as u64,
            ..old(self)@
        }));
    }

    /// Gives up the runtime so that another can be started. The result says
    /// whether the prepared session is to be used for it.
    pub fn begin_spawn(&mut self) -> (r: bool)
        ensures
            final(self)@ == (OutputModel { prepared: false, ..old(self)@.without_runtime() }),
            r == old(self).prepared,
    {
        self.discard_runtime();
        let prepared = self.prepared;
        self.prepared = false;
        assert(self@ =~= (OutputModel { prepared: false, ..old(self)@.without_runtime() }));
        prepared
    }

    fn discard_runtime(&mut self)
        ensures
            final(self)@ == old(self)@.without_runtime(),
    {
        self.atmos.reset();
        self.runtime = false;
        self.hptf_accepted = None;
        self.hptf_pending = None;
        self.hptf_error = None;
        self.head.set_target();
        assert(self@ =~= old(self)@.without_runtime());
    }

    fn launch(&mut self, config: OutputStreamConfig, outcome: Result<OutputSnapshot, String>)
        ensures
            final(self)@ == old(self)@.launched(config, outcome),
    {
        match outcome {
            Ok(snapshot) => {
                if self.mode() == SpatialBackendKind::SafBinaural {
                    self.head.set_target();
                }
                self.config = Some(config);
                self.snapshot = snapshot;
                self.runtime = true;
            },
            Err(error) => {
                self.snapshot.phase = OutputPhase::Failed;
                self.snapshot.error = Some(error);
                assert(self@.snapshot =~= old(self)@.launched(config, outcome).snapshot);
            },
        }
        assert(self@ =~= old(self)@.launched(config, outcome));
    }

    fn revise(&mut self)
        requires
            old(self).revision < u64::MAX,
        ensures
            final(self)@ == old(self)@.revised(),
    {
        self.revision = self.revision + 1;
        assert(self@ =~= old(self)@.revised());
    }

    /// Takes in whether a new runtime could be started for a stream. The result
    /// is to be handed to it.
    pub fn spawned(&mut self, config: OutputStreamConfig, outcome: Result<OutputSnapshot, String>)
        -> (r: Option<HptfTicket>)
        requires
            old(self).hptf_revision < u64::MAX,
            old(self).revision < u64::MAX,
        ensures
            final(self)@ == old(self)@.spawned(config, outcome),
            ticket_model(r) == old(self)@.launched(config, outcome).compensation(),
    {
        self.launch(config, outcome);
        let compensation = self.sync_hptf();
        self.revise();
        self.configure_head();
        compensation
    }

    /// Pauses an outgoing track without giving up an output that was expensive
    /// to prepare. The result says whether that output was given up after all.
    pub fn suspend_for_source_change(&mut self) -> (r: bool)
        requires
            old(self).revision < u64::MAX,
        ensures
            final(self)@ == (if old(self)@.renders() {
                OutputModel {
                    playing: false,
                    preparation: None,
                    prepared: false,
                    config: None,
                    snapshot: OutputReport::idle(),
                    revision: (old(self).revision + 1) as u64,
                    ..old(self)@
                }
            } else {
                OutputModel { playing: false, ..old(self)@ }.reset()
            }),
            r == !old(self)@.renders(),
    {
        self.playing = false;
        assert(self@ =~= (OutputModel { playing: false, ..old(self)@ }));
        if self.uses_macinrender() {
            self.preparation = None;
            self.prepared = false;
            self.config = None;
            self.snapshot = OutputSnapshot::idle();
            self.revision = self.revision + 1;
            assert(self@ =~= (OutputModel {
                playing: false,
                preparation: None,
                prepared: false,
                config: None,
                snapshot: OutputReport::idle(),
                revision: (old(self).revision + 1) as u64,
                ..old(self)@
            }));
            return false;
        }
        self.reset();
        true
    }

    /// Gives up the output and everything that is being prepared.
    pub fn reset(&mut self)
        requires
            old(self).revision < u64::MAX,
        ensures
            final(self)@ == old(self)@.reset(),
    {
        if self.platform.renderer {
            self.discard_runtime();
        }
        self.config = None;
        self.pending_hot = None;
        self.preparation = None;
        self.prepared = false;
        self.snapshot = OutputSnapshot::idle();
        self.revision = self.revision + 1;
        assert(self@ =~= old(self)@.reset());
    }

    /// Whether a runtime that could not take its new source gets one fresh
    /// session: only for the stream that is still wanted. It is given up, so a
    /// failure to start the next one is reported and not tried again.
    pub fn recover_source_reset(&mut self, failed: &OutputStreamConfig) -> (r: bool)
        ensures
            r == (old(self).runtime && old(self).config is Some && old(self).config->0.describes(
                failed,
            )),
            final(self)@ == (if r {
                OutputModel { runtime: false, config: None, ..old(self)@ }
            } else {
                old(self)@
            }),
    {
        let wanted = match &self.config {
            Some(config) => config.same(failed),
            None => false,
        };
        if !self.runtime || !wanted {
            return false;
        }
        self.runtime = false;
        self.config = None;
        assert(self@ =~= (OutputModel { runtime: false, config: None, ..old(self)@ }));
        true
    }

    fn take_catalog(&mut self, catalog: Option<Result<Vec<OutputDeviceInfo>, String>>)
        ensures
            final(self)@ == old(self)@.cataloged(catalog),
    {
        match catalog {
            None => {},
            Some(Ok(devices)) => {
                self.pcm_ready = true;
                self.pcm_devices = devices;
                self.pcm_error = None;
                assert(self@ =~= old(self)@.cataloged(catalog));
            },
            Some(Err(error)) => {
                self.pcm_ready = true;
                self.pcm_error = Some(error);
                assert(self@ =~= old(self)@.cataloged(catalog));
            },
        }
    }

    fn take_pending(&mut self) -> (r: Option<OutputSettings>)
        ensures
            final(self)@ == old(self)@.without_pending(),
            r == old(self).pending_hot,
    {
        let pending = self.pending_hot.take();
        assert(self@ =~= old(self)@.without_pending());
        pending
    }

    fn note_result(&mut self, outcome: Result<(), String>)
        ensures
            final(self)@ == (OutputModel {
                update_result: outcome_model(Some(outcome)),
                ..old(self)@
            }),
    {
        self.update_result = Some(outcome);
        assert(self@ =~= (OutputModel { update_result: outcome_model(Some(outcome)), ..old(self)@ }));
    }

    fn take_switch(&mut self, outcome: Option<Result<(), String>>) -> (r: Option<HptfTicket>)
        requires
            old(self).hptf_revision < u64::MAX,
        ensures
            final(self)@ == old(self)@.switched(outcome),
            ticket_model(r) == old(self)@.switch_compensation(outcome),
    {
        if !self.runtime {
            return None;
        }
        match outcome {
            None => None,
            Some(outcome) => {
                let accepted = outcome.is_ok();
                let compensation = match self.take_pending() {
                    Some(settings) if accepted => self.install_settings(settings),
                    _ => None,
                };
                self.note_result(outcome);
                compensation
            },
        }
    }

    /// Accepts the request that was waited for, or takes it back.
    fn settle(&mut self, answer: Result<bool, String>)
        requires
            old(self).hptf_pending is Some,
        ensures
            final(self)@ == old(self)@.settled(answer),
    {
        let ticket = match self.hptf_pending.take() {
            Some(ticket) => ticket,
            None => {
                return ;
            },
        };
        let objection = match answer {
            Ok(true) => None,
            Ok(false) => Some(
                "This output has no headphone feed for a profile to apply to".to_owned(),
            ),
            Err(error) => Some(error),
        };
        if objection.is_none() {
            self.hptf_accepted = Some(ticket);
            self.hptf_error = None;
            assert(self@ =~= old(self)@.settled(answer));
            return ;
        }
        self.hptf_error = objection;
        let ghost refused = OutputModel {
            hptf_pending: None,
            hptf_error: OutputModel::objection(answer),
            ..old(self)@
        };
        assert(self@ =~= refused);
        let wanted = self.settings.hptf_request(self.platform);
        if wanted.same(&ticket.request) {
            self.roll_back();
        }
    }

    fn roll_back(&mut self)
        ensures
            final(self)@ == old(self)@.rolled_back(),
    {
        match &self.hptf_accepted {
            Some(previous) => {
                self.settings.hptf = previous.request.settings.profile.clone();
                self.settings.hptf_auto_trim = previous.request.settings.auto_trim;
                self.settings.hptf_bass_db = previous.request.adjustment.bass_db;
                self.settings.hptf_tilt_db = previous.request.adjustment.tilt_db_per_octave;
            },
            None => {
                self.settings.hptf = String::new();
                self.settings.hptf_auto_trim = false;
                self.settings.hptf_bass_db = 0;
                self.settings.hptf_tilt_db = 0;
            },
        }
        assert(self@.settings =~= old(self)@.rolled_back().settings);
        assert(self@ =~= old(self)@.rolled_back());
    }

    fn take_compensation(&mut self, outcome: Option<(u64, Result<bool, String>)>) -> (r: Option<
        HptfTicket,
    >)
        requires
            old(self).hptf_revision < u64::MAX,
            old(self).revision < u64::MAX,
        ensures
            final(self)@ == old(self)@.answered(outcome),
            ticket_model(r) == old(self)@.answer_compensation(outcome),
    {
        match outcome {
            Some((revision, answer)) => {
                let matching = match &self.hptf_pending {
                    Some(ticket) => ticket.revision == revision,
                    None => false,
                };
                if !self.runtime || !matching {
                    return None;
                }
                self.settle(answer);
                let compensation = self.sync_hptf();
                self.revise();
                compensation
            },
            None => None,
        }
    }

    fn take_snapshot(&mut self, native: Option<OutputSnapshot>, system: OutputSnapshot)
        requires
            old(self).revision < u64::MAX,
        ensures
            final(self)@ == old(self)@.observed(native, system),
    {
        let mut snapshot = if !self.uses_macinrender() {
            system
        } else {
            match native {
                Some(native) if self.runtime => native,
                _ => self.snapshot.dup(),
            }
        };
        if self.platform.macos && self.platform.renderer {
            snapshot.atmos_assist = super::output::dup_text(&self.snapshot.atmos_assist);
        }
        assert(snapshot@ =~= old(self)@.shown(old(self)@.reported(native, system)));
        if !snapshot.same(&self.snapshot) {
            self.snapshot = snapshot;
            self.revision = self.revision + 1;
            assert(self@ =~= old(self)@.observed(native, system));
        }
    }

    /// Takes in everything that came back. The results are to be handed to the
    /// runtime, in their order.
    pub fn poll(&mut self, events: OutputEvents) -> (r: (Option<HptfTicket>, Option<HptfTicket>))
        requires
            old(self).hptf_revision < u64::MAX - 1,
            old(self).revision < u64::MAX - 1,
        ensures
            final(self)@ == old(self)@.polled(events),
            old(self).platform.renderer ==> {
                let cataloged = old(self)@.cataloged(events.catalog);
                let switched = cataloged.switched(events.switched);
                &&& ticket_model(r.0) == cataloged.switch_compensation(events.switched)
                &&& ticket_model(r.1) == switched.answer_compensation(events.compensated)
            },
            !old(self).platform.renderer ==> r.0 is None && r.1 is None,
    {
        let mut first = None;
        let mut second = None;
        if self.platform.renderer {
            self.take_catalog(events.catalog);
            first = self.take_switch(events.switched);
            second = self.take_compensation(events.compensated);
        }
        self.take_snapshot(events.native, events.system);
        (first, second)
    }

    /// Consults the policy for the label helper. A status to show goes to
    /// `show_atmos`.
    pub fn poll_atmos(&mut self, status: Result<HelperStatus, String>) -> (r: AtmosStep)
        ensures
            ({
                let eligible = old(self)@.settings.atmos_label_assist && old(
                    self,
                )@.settings.labels(old(self).platform) && !old(self).snapshot.preview;
                &&& final(self)@ == (OutputModel {
                    atmos: old(self)@.atmos.updated(
                        eligible,
                        old(self).snapshot.phase,
                        old(self).snapshot.playhead_frames,
                        status,
                    ),
                    ..old(self)@
                })
                &&& r@ == old(self)@.atmos.step(
                    eligible,
                    old(self).playing,
                    old(self).snapshot.phase,
                    old(self).snapshot.playhead_frames,
                    status,
                )
            }),
    {
        let eligible = self.settings.atmos_label_assist && self.settings.atmos_label_applicable(
            self.platform,
        ) && !self.snapshot.preview;
        let step = self.atmos.update(
            eligible,
            self.playing,
            self.snapshot.phase,
            self.snapshot.playhead_frames,
            status,
        );
        assert(self@ =~= (OutputModel { atmos: self.atmos@, ..old(self)@ }));
        step
    }

    /// Shows what the label helper does.
    pub fn show_atmos(&mut self, status: String)
        requires
            old(self).revision < u64::MAX,
        ensures
            final(self)@ == (if old(self)@.snapshot.atmos_assist == Some(status@) {
                old(self)@
            } else {
                OutputModel {
                    snapshot: OutputReport {
                        atmos_assist: Some(status@),
                        ..old(self)@.snapshot
                    },
                    revision: (old(self).revision + 1) as u64,
                    ..old(self)@
                }
            }),
    {
        let status = Some(status);
        if !same_text(&self.snapshot.atmos_assist, &status) {
            self.snapshot.atmos_assist = status;
            self.revision = self.revision + 1;
            assert(self@.snapshot =~= (OutputReport {
                atmos_assist: chars(status),
                ..old(self)@.snapshot
            }));
            assert(self@ =~= (OutputModel {
                snapshot: self@.snapshot,
                revision: (old(self).revision + 1) as u64,
                ..old(self)@
            }));
        }
    }

    /// Plays. The result says whether the runtime is to be told, rather than the
    /// system's own output.
    pub fn play(&mut self) -> (r: bool)
        ensures
            final(self)@ == (OutputModel { playing: true, ..old(self)@ }),
            r == old(self).runtime,
    {
        self.playing = true;
        assert(self@ =~= (OutputModel { playing: true, ..old(self)@ }));
        self.runtime
    }

    /// Pauses, and with it the helper. The result is as for `play`.
    pub fn pause(&mut self) -> (r: bool)
        ensures
            final(self)@ == (OutputModel { playing: false, ..old(self)@ }),
            r == old(self).runtime,
    {
        self.playing = false;
        assert(self@ =~= (OutputModel { playing: false, ..old(self)@ }));
        self.runtime
    }

    /// Sets the volume, within silence and full scale; what is no number is
    /// silence.
    pub fn set_master_gain(&mut self, gain: u32)
        ensures
            final(self)@ == (OutputModel {
                gain: if is_finite(gain) {
                    clamped(gain, 0, ONE)
                } else {
                    0
                },
                ..old(self)@
            }),
    {
        self.gain =
        if finite(gain) {
            clamp(gain, 0, ONE)
        } else {
            0
        };
        assert(self@ =~= (OutputModel { gain: self.gain, ..old(self)@ }));
    }

    pub fn snapshot(&self) -> (r: &OutputSnapshot)
        ensures
            *r == self.snapshot,
    {
        &self.snapshot
    }

    pub fn revision(&self) -> (r: u64)
        ensures
            r == self.revision,
    {
        self.revision
    }

    pub fn is_configured_for_playback(&self, request: u64, epoch: u64, system: &SystemOutput) -> (r:
        bool)
        ensures
            r == (if self@.renders() {
                self.config is Some && self.config->0.request_id == request
                    && self.config->0.playback_epoch == epoch
            } else {
                system.configured
            }),
    {
        if self.uses_macinrender() {
            return match &self.config {
                Some(config) => config.request_id == request && config.playback_epoch == epoch,
                None => false,
            };
        }
        system.configured
    }

    /// The device that the listener prefers for the current mode.
    pub fn preferred_device(&self) -> (r: OutputDeviceSelection)
        ensures
            r.endpoint() == match self@.mode() {
                SpatialBackendKind::SafBinaural => self@.settings.stereo_device,
                SpatialBackendKind::SystemSpatial => None,
                _ => self@.settings.native_device,
            },
    {
        match self.mode() {
            SpatialBackendKind::SafBinaural => self.settings.stereo_device.dup(),
            SpatialBackendKind::SystemSpatial => OutputDeviceSelection::SystemDefault,
            _ => self.settings.native_device.dup(),
        }
    }

    /// The PCM devices are the ones that matter, rather than the system's own.
    pub open spec fn lists_pcm(&self) -> bool {
        self.platform.renderer && self@.mode() == SpatialBackendKind::SafBinaural
    }

    pub fn devices<'a>(&'a self, system: &'a SystemOutput) -> (r: &'a Vec<OutputDeviceInfo>)
        ensures
            *r == (if self.lists_pcm() {
                self.pcm_devices
            } else {
                system.devices
            }),
    {
        if self.platform.renderer && self.mode() == SpatialBackendKind::SafBinaural {
            &self.pcm_devices
        } else {
            &system.devices
        }
    }

    pub fn device_catalog_error<'a>(&'a self, system: &'a SystemOutput) -> (r: &'a Option<String>)
        ensures
            *r == (if self.lists_pcm() {
                self.pcm_error
            } else {
                system.catalog_error
            }),
    {
        if self.platform.renderer && self.mode() == SpatialBackendKind::SafBinaural {
            &self.pcm_error
        } else {
            &system.catalog_error
        }
    }

    pub fn device_catalog_ready(&self, system: &SystemOutput) -> (r: bool)
        ensures
            r == (if self.lists_pcm() {
                self.pcm_ready
            } else {
                system.catalog_ready
            }),
    {
        if self.platform.renderer && self.mode() == SpatialBackendKind::SafBinaural {
            self.pcm_ready
        } else {
            system.catalog_ready
        }
    }

    /// How many dynamic objects a device must offer, where that matters.
    pub fn required_dynamic_objects(&self, source_count: usize) -> (r: Option<u32>)
        ensures
            r == match self@.mode() {
                SpatialBackendKind::SafBinaural => None,
                SpatialBackendKind::SystemSpatial => if self.platform.windows {
                    Some(self.settings.layout.budget())
                } else {
                    None
                },
                _ => if source_count <= u32::MAX {
                    Some(source_count as u32)
                } else {
                    Some(u32::MAX)
                },
            },
    {
        match self.mode() {
            SpatialBackendKind::SafBinaural => None,
            SpatialBackendKind::SystemSpatial => if self.platform.windows {
                Some(self.settings.layout.dynamic_budget())
            } else {
                None
            },
            _ => {
                let count: u64 = source_count as u64;
                if count <= u32::MAX as u64 {
                    Some(count as u32)
                } else {
                    Some(u32::MAX)
                }
            },
        }
    }

    /// The device that a stream would play on, if there is one.
    pub fn resolved_device(&self, system: &SystemOutput) -> (r: Option<OutputDeviceSelection>)
        ensures
            self.platform.renderer && self@.mode() == SpatialBackendKind::SystemSpatial ==> {
                if self.platform.windows && system.catalog_ready && !default_hosts(
                    system.devices@,
                    self.settings.layout.budget(),
                ) {
                    r is None
                } else {
                    r == Some(OutputDeviceSelection::SystemDefault)
                }
            },
            self.platform.renderer && self@.mode() == SpatialBackendKind::SafBinaural ==> {
                if self@.settings.stereo_device is Some && lists(
                    self@.pcm_devices,
                    self@.settings.stereo_device->0,
                ) {
                    r == Some(self.settings.stereo_device)
                } else {
                    r == Some(OutputDeviceSelection::SystemDefault)
                }
            },
            !self@.renders() ==> r == system.resolved_device,
    {
        let mode = self.mode();
        if self.platform.renderer && mode == SpatialBackendKind::SystemSpatial {
            if self.platform.windows && system.catalog_ready && !hosts(
                &system.devices,
                self.settings.layout.dynamic_budget(),
            ) {
                return None;
            }
            return Some(OutputDeviceSelection::SystemDefault);
        }
        if self.platform.renderer && mode == SpatialBackendKind::SafBinaural {
            if let OutputDeviceSelection::EndpointId(id) = &self.settings.stereo_device {
                if is_listed(&self.pcm_devices, id) {
                    return Some(self.settings.stereo_device.dup());
                }
            }
            return Some(OutputDeviceSelection::SystemDefault);
        }
        match &system.resolved_device {
            Some(device) => Some(device.dup()),
            None => None,
        }
    }

    /// The device of the stream that is configured.
    pub fn configured_device(&self, system: &SystemOutput) -> (r: Option<OutputDeviceSelection>)
        ensures
            r == (if self@.renders() {
                match self.config {
                    Some(config) => Some(config.output_device),
                    None => None,
                }
            } else {
                system.configured_device
            }),
    {
        if self.uses_macinrender() {
            return match &self.config {
                Some(config) => Some(config.output_device.dup()),
                None => None,
            };
        }
        match &system.configured_device {
            Some(device) => Some(device.dup()),
            None => None,
        }
    }
}

/// A renderer that refuses a switch leaves every setting as it was.
pub proof fn a_refused_switch_keeps_the_settings(output: OutputModel, message: String)
    requires
        output.runtime,
    ensures
        ({
            let next = output.switched(Some(Err(message)));
            &&& next.settings == output.settings
            &&& next.pending_hot is None
            &&& next.update_result == Some(Err::<(), Seq<char>>(message@))
            &&& next.hptf_accepted == output.hptf_accepted
        }),
{
}

/// A request that the settings make is one that they can be taken back to.
pub open spec fn is_sound(request: HptfModel) -> bool {
    &&& request.adjustment.within_travel() == request.adjustment
    &&& adjusts_alike(request.adjustment, request.adjustment)
    &&& request.profile.len() == 0 ==> request.adjustment == (Adjustment {
        bass_db: 0,
        tilt_db_per_octave: 0,
    })
}

/// Validated settings make requests that they can be taken back to.
pub proof fn validated_settings_make_sound_requests(settings: SettingsModel, platform: Platform)
    ensures
        is_sound(settings.repaired(platform).compensation(platform)),
{
    let valid = settings.repaired(platform);
    crate::hptf_profile::clamping_twice_is_clamping_once(
        Adjustment { bass_db: valid.hptf_bass_db, tilt_db_per_octave: valid.hptf_tilt_db },
    );
}

/// A refused profile gives way to the one that was accepted last, as a whole,
/// and is not asked for again by itself. Choosing it once more asks again.
pub proof fn a_refused_profile_gives_way_to_the_accepted_one(
    output: OutputModel,
    revision: u64,
    answer: Result<bool, String>,
    again: SettingsModel,
)
    requires
        output.answers(Some((revision, answer))),
        OutputModel::objection(answer) is Some,
        output.mode() == SpatialBackendKind::SafBinaural,
        output.still_wants(output.hptf_pending->0.request),
        output.hptf_accepted is Some ==> is_sound(output.hptf_accepted->0.request),
    ensures
        ({
            let next = output.answered(Some((revision, answer)));
            &&& output.answer_compensation(Some((revision, answer))) is None
            &&& next.hptf_pending is None
            &&& next.hptf_accepted == output.hptf_accepted
            &&& next.hptf_error == OutputModel::objection(answer)
            &&& next.settings.hptf == (match output.hptf_accepted {
                Some(accepted) => accepted.request.profile,
                None => Seq::empty(),
            })
            &&& output.runtime && again.repaired(output.platform).compensation(
                output.platform,
            ).profile.len() > 0 && (output.hptf_accepted is Some
                ==> !output.hptf_accepted->0.request.asks(
                again.repaired(output.platform).compensation(output.platform),
            )) ==> next.with_settings(again).compensation() is Some
        }),
{
    let settled = output.settled(answer);
    let refused = OutputModel {
        hptf_pending: None,
        hptf_error: OutputModel::objection(answer),
        ..output
    };
    assert(refused.wanted() == output.wanted());
    assert(settled == refused.rolled_back());
    assert(settled.mode() == output.mode());
    assert(settled.settings.compensates(settled.platform));
}

/// A stream that an output was started for needs nothing more.
pub proof fn a_started_output_needs_nothing_more(
    output: OutputModel,
    config: OutputStreamConfig,
    snapshot: OutputSnapshot,
)
    requires
        output.renders(),
    ensures
        output.spawned(config, Ok(snapshot)).plans(config) == ConfigureStep::Unchanged,
{
    let launched = output.launched(config, Ok(snapshot));
    let next = output.spawned(config, Ok(snapshot));
    assert(next.settings == output.settings);
    assert(next.platform == output.platform);
    assert(next.config == Some(config));
}

/// A runtime that could not take its source is replaced once: what follows
/// starts a fresh one, and a failure to do so leaves none to recover.
pub proof fn a_failed_source_is_recovered_once(
    output: OutputModel,
    config: OutputStreamConfig,
    error: String,
)
    requires
        output.renders(),
    ensures
        ({
            let given_up = OutputModel { runtime: false, config: None, ..output };
            &&& given_up.plans(config) == ConfigureStep::Spawn
            &&& !OutputModel { prepared: false, ..given_up.without_runtime() }.spawned(
                config,
                Err(error),
            ).runtime
        }),
{
}

/// Where nothing came back and the output reports what it did, nothing changes.
pub proof fn an_idle_poll_changes_nothing(output: OutputModel, events: OutputEvents)
    requires
        events.catalog is None,
        events.switched is None,
        events.compensated is None,
        output.reported(events.native, events.system) == output.snapshot,
    ensures
        output.polled(events) == output,
{
    assert(output.shown(output.snapshot) =~= output.snapshot);
    assert(output.polled(events) =~= output);
}

/// An output that was given up leaves nothing behind that a later one could be
/// mistaken for.
pub proof fn a_reset_output_leaves_nothing_behind(output: OutputModel)
    requires
        output.platform.renderer,
    ensures
        ({
            let next = output.reset();
            &&& !next.runtime && next.config is None && !next.pending()
            &&& !next.prepared && next.hptf_accepted is None && next.hptf_error is None
            &&& next.snapshot == OutputReport::idle()
            &&& next.settings == output.settings
            &&& next.playing == output.playing && next.gain == output.gain
        }),
{
}

/// The player renders itself where the build can and the output is one of its two; any
/// other output is the system's.
pub proof fn the_player_renders_its_own_outputs(output: OutputModel)
    ensures
        output.renders() <==> output.platform.renderer && (output.settings.resolved(output.platform)
            == SpatialBackendKind::SystemSpatial || output.settings.resolved(output.platform)
            == SpatialBackendKind::SafBinaural),
        output.pending() <==> output.platform.renderer && (output.pending_hot is Some
            || output.preparation is Some || output.hptf_pending is Some),
{
}

/// Another compensation is asked for exactly where there is a runtime, none is being
/// prepared, and the one in force is not the one that is wanted. What is asked for is what
/// the settings want, under a number of its own.
pub proof fn compensation_is_asked_for_where_it_changed(output: OutputModel)
    requires
        output.hptf_revision < u64::MAX,
    ensures
        ({
            let wanted = output.settings.compensation(output.platform);
            let next = output.compensated();
            let ticket = output.compensation();
            &&& ticket is Some ==> output.runtime && output.hptf_pending is None
            &&& output.runtime && output.hptf_pending is None && output.hptf_accepted is Some
                ==> (ticket is Some <==> !output.hptf_accepted->0.request.asks(wanted))
            &&& output.runtime && output.hptf_pending is None && output.hptf_accepted is None ==> (
            ticket is Some <==> wanted.profile.len() > 0)
            &&& ticket is Some ==> {
                &&& ticket->0.request == wanted
                &&& ticket->0.revision == output.hptf_revision + 1
                &&& next.hptf_pending == ticket
                &&& next.hptf_revision == output.hptf_revision + 1
                &&& next.hptf_accepted == output.hptf_accepted
            }
            &&& ticket is None ==> next == output
            &&& next.settings == output.settings
        }),
{
}

/// Settings that need no other output and no other renderer are in force at once; those
/// that need another renderer wait for its answer; and while one change is being prepared
/// no other is taken.
pub proof fn settings_are_in_force_at_once_or_wait(output: OutputModel, settings: SettingsModel)
    requires
        output.config is Some,
        output.hptf_revision < u64::MAX,
    ensures
        ({
            let next = output.hot(settings);
            &&& output.pending() ==> next.settings == output.settings && next.pending_hot
                == output.pending_hot && next.update_result is Some && next.update_result->0 is Err
            &&& !output.pending() && output.renders() && output.runtime
                && output.settings.renderer(output.platform) != settings.renderer(output.platform)
                ==> next.settings == output.settings && next.pending_hot == Some(settings)
                && next.update_result == output.update_result
            &&& !output.pending() && output.settings.renderer(output.platform)
                == settings.renderer(output.platform) ==> next.settings == settings.repaired(
                output.platform,
            ) && next.update_result == Some(Ok::<(), Seq<char>>(())) && next.pending_hot
                == output.pending_hot
            &&& next.config == output.config
        }),
{
}

/// Once the renderer has taken a change, the settings that waited are in force, and
/// nothing waits any more.
pub proof fn a_granted_switch_installs_what_waited(output: OutputModel)
    requires
        output.runtime,
        output.pending_hot is Some,
        output.hptf_revision < u64::MAX,
    ensures
        ({
            let next = output.switched(Some(Ok(())));
            &&& next.settings == output.pending_hot->0.repaired(output.platform)
            &&& next.pending_hot is None
            &&& next.update_result == Some(Ok::<(), Seq<char>>(()))
            &&& next.config == output.config
            &&& next.runtime
        }),
        output.switched(None) == output,
{
}

/// A compensation that was taken is the one in force; its number is the one it was asked
/// for under. An answer to another number changes nothing.
pub proof fn a_taken_compensation_is_in_force(
    output: OutputModel,
    revision: u64,
    answer: Result<bool, String>,
)
    requires
        output.hptf_revision < u64::MAX,
        output.revision < u64::MAX,
        output.hptf_pending is Some,
        output.runtime,
    ensures
        revision == output.hptf_pending->0.revision ==> {
            let next = output.answered(Some((revision, Ok::<bool, String>(true))));
            &&& next.hptf_accepted == output.hptf_pending
            &&& next.hptf_error is None
            &&& next.settings == output.settings
            &&& next.revision == output.revision + 1
        },
        revision != output.hptf_pending->0.revision ==> output.answered(Some((revision, answer)))
            == output,
        OutputModel::objection(Ok::<bool, String>(true)) is None,
        OutputModel::objection(Ok::<bool, String>(false)) is Some,
        answer is Err ==> OutputModel::objection(answer) == Some(answer->Err_0@),
{
}

/// A profile that is refused after another was chosen does not take that choice back.
pub proof fn a_late_refusal_keeps_the_newer_choice(
    output: OutputModel,
    revision: u64,
    answer: Result<bool, String>,
)
    requires
        output.answers(Some((revision, answer))),
        OutputModel::objection(answer) is Some,
        output.hptf_pending->0.request.profile != output.settings.compensation(
            output.platform,
        ).profile,
    ensures
        output.answered(Some((revision, answer))).settings == output.settings,
        output.answered(Some((revision, answer))).hptf_accepted == output.hptf_accepted,
{
}

/// A new list of devices replaces the one before; a failure leaves it and says why.
pub proof fn a_new_list_of_devices_replaces_the_old(
    output: OutputModel,
    devices: Vec<OutputDeviceInfo>,
    error: String,
)
    ensures
        ({
            let listed = output.cataloged(Some(Ok(devices)));
            let failed = output.cataloged(Some(Err(error)));
            &&& listed.pcm_ready && listed.pcm_devices == devices@ && listed.pcm_error is None
            &&& failed.pcm_ready && failed.pcm_devices == output.pcm_devices
            &&& failed.pcm_error == Some(error@)
            &&& listed.settings == output.settings && failed.settings == output.settings
            &&& output.cataloged(None) == output
        }),
{
}

/// What is shown is what plays: the runtime's report where the player renders and has one,
/// the system's where it does not. A report that says something new counts as one.
pub proof fn the_report_of_what_plays_is_shown(
    output: OutputModel,
    native: OutputSnapshot,
    system: OutputSnapshot,
)
    requires
        output.revision < u64::MAX,
    ensures
        ({
            let next = output.observed(Some(native), system);
            &&& output.renders() && output.runtime ==> next.snapshot.phase == native@.phase
                && next.snapshot.playhead_frames == native@.playhead_frames
                && next.snapshot.error == native@.error
            &&& !output.renders() ==> next.snapshot.phase == system@.phase
                && next.snapshot.playhead_frames == system@.playhead_frames
            &&& output.renders() && !output.runtime ==> next.snapshot.phase
                == output.snapshot.phase
            &&& next.snapshot != output.snapshot ==> next.revision == output.revision + 1
            &&& next.snapshot == output.snapshot ==> next == output
            &&& next.settings == output.settings
            &&& output.platform.macos && output.platform.renderer ==> next.snapshot.atmos_assist
                == output.snapshot.atmos_assist
        }),
{
}

/// An output that is asked for what it plays is left alone. One that runs is asked to
/// change its source, unless another was prepared; otherwise a new one is started.
pub proof fn an_output_is_changed_only_where_it_must(
    output: OutputModel,
    config: OutputStreamConfig,
)
    ensures
        !output.renders() ==> output.plans(config) is System,
        output.renders() && output.config is Some && output.config->0.describes(&config)
            ==> output.plans(config) is Unchanged,
        output.renders() && (output.config is None || !output.config->0.describes(&config))
            && output.runtime && !output.prepared ==> output.plans(config) is Replace,
        output.renders() && (output.config is None || !output.config->0.describes(&config)) && (
        !output.runtime || output.prepared) ==> output.plans(config) is Spawn,
{
}

/// An output that started plays what it was configured for. One that did not says why and
/// keeps no configuration that it has not.
pub proof fn a_started_output_plays_what_it_was_asked_for(
    output: OutputModel,
    config: OutputStreamConfig,
    snapshot: OutputSnapshot,
    error: String,
)
    requires
        output.hptf_revision < u64::MAX,
        output.revision < u64::MAX,
    ensures
        ({
            let started = output.spawned(config, Ok(snapshot));
            let failed = output.spawned(config, Err(error));
            &&& started.config == Some(config)
            &&& started.runtime
            &&& started.snapshot == snapshot@
            &&& started.revision == output.revision + 1
            &&& failed.config == output.config
            &&& failed.runtime == output.runtime
            &&& failed.snapshot.phase is Failed
            &&& failed.snapshot.error == Some(error@)
            &&& started.settings == output.settings && failed.settings == output.settings
            &&& output.settings.resolved(output.platform) == SpatialBackendKind::SafBinaural
                ==> started.head.target_revision != output.head.target_revision
        }),
{
}

/// The head drives the pose on the player's own headphone feed and on the system's object
/// output; on the system's bed the system does.
pub proof fn the_head_is_followed_on_headphones(output: OutputModel)
    ensures
        ({
            let next = output.head_configured();
            let mode = output.settings.resolved(output.platform);
            &&& next.head.desired.source == output.settings.head_source
            &&& next.head.desired.enabled <==> mode == SpatialBackendKind::SafBinaural || mode
                == SpatialBackendKind::WindowsSpatialAudio
            &&& next.head.desired.system <==> mode == SpatialBackendKind::SystemSpatial
            &&& next.settings == output.settings
        }),
{
}

/// A prepared output uses the stereo device that was chosen where it is there, and the
/// system's where it is not; a bed that the default device cannot host is refused.
pub proof fn an_output_is_prepared_on_a_device_that_is_there(
    output: OutputModel,
    settings: SettingsModel,
    system: SystemOutput,
)
    requires
        !output.pending(),
    ensures
        ({
            let mode = settings.resolved(output.platform);
            let device = output.preparation_device(settings, system);
            &&& mode == SpatialBackendKind::SafBinaural && settings.stereo_device is Some && lists(
                output.pcm_devices,
                settings.stereo_device->0,
            ) ==> device == Ok::<Option<Seq<char>>, Seq<char>>(settings.stereo_device)
            &&& mode == SpatialBackendKind::SafBinaural && (settings.stereo_device is None
                || !lists(output.pcm_devices, settings.stereo_device->0)) ==> device == Ok::<
                Option<Seq<char>>,
                Seq<char>,
            >(None)
            &&& mode == SpatialBackendKind::SystemSpatial ==> (device is Err
                <==> output.platform.windows && system.catalog_ready && !default_hosts(
                system.devices@,
                settings.layout.budget(),
            ))
            &&& mode == SpatialBackendKind::WindowsSpatialAudio || mode
                == SpatialBackendKind::Automatic ==> device is Err
        }),
{
}

/// A list holds a device under its own name, and the default device hosts what it has room
/// for.
pub proof fn a_device_is_found_by_its_name(
    devices: Seq<OutputDeviceInfo>,
    i: int,
    count: u32,
    id: Seq<char>,
)
    ensures
        0 <= i < devices.len() ==> lists(devices, devices[i].id@),
        lists(devices, id) ==> exists|k: int|
            0 <= k < devices.len() && (#[trigger] devices[k]).id@ == id,
        0 <= i < devices.len() && devices[i].is_default && devices[i].max_dynamic_objects is Some
            && devices[i].max_dynamic_objects->0 >= count ==> default_hosts(devices, count),
        default_hosts(devices, count) ==> exists|k: int|
            0 <= k < devices.len() && (#[trigger] devices[k]).is_default
                && devices[k].max_dynamic_objects is Some && count
                <= devices[k].max_dynamic_objects->0,
{
}

/// A profile counts as running exactly where the runtime says so of the one that was
/// accepted last.
pub proof fn a_profile_runs_where_the_runtime_says_so(
    output: SpatialOutputController,
    status: HptfStatus,
)
    ensures
        output.runs_accepted(status) <==> {
            &&& output.runtime
            &&& output@.settings.resolved(output.platform) == SpatialBackendKind::SafBinaural
            &&& output.hptf_accepted is Some
            &&& status.enabled
            &&& status.applied_revision == output.hptf_accepted->0.revision
        },
{
}

/// What the runtime is asked to compensate is what the output then waits for.
pub proof fn what_is_asked_for_is_waited_for(
    output: OutputModel,
    switched: Option<Result<(), String>>,
    answered: Option<(u64, Result<bool, String>)>,
)
    ensures
        output.compensation() is Some ==> output.compensated().hptf_pending
            == output.compensation() && output.compensated().hptf_revision
            == output.compensation()->0.revision,
        output.compensation() is None ==> output.compensated() == output,
        output.answer_compensation(answered) is Some ==> output.answered(answered).hptf_pending
            == output.answer_compensation(answered),
        output.answers(answered) && output.answer_compensation(answered) is None
            ==> output.answered(answered).hptf_pending is None,
        output.switch_compensation(switched) is Some ==> output.switched(switched).hptf_pending
            == output.switch_compensation(switched),
        output.switch_compensation(switched) is Some ==> output.runtime && switched is Some
            && switched->0 is Ok && output.pending_hot is Some,
{
}

/// A readout without a compensation is all zero.
pub proof fn no_compensation_reads_as_nothing(output: OutputModel)
    ensures
        !HptfReadout::silent().enabled,
        HptfReadout::silent().bands == 0,
        HptfReadout::silent().rate == 0,
        HptfReadout::silent().preamp_db == 0,
        HptfReadout::silent().auto_trim_db == 0,
        HptfReadout::silent().max_response_db == 0,
{
}

/// A refused compensation counts as still wanted where its profile, its trim and both knobs
/// are those in force.
pub proof fn a_request_is_still_wanted_where_nothing_changed(
    output: OutputModel,
    request: HptfModel,
)
    ensures
        output.still_wants(request) ==> output.wanted().profile == request.profile
            && output.wanted().auto_trim == request.auto_trim,
        output.still_wants(output.wanted()) || crate::numeric::is_nan(
            output.wanted().adjustment.bass_db,
        ) || crate::numeric::is_nan(output.wanted().adjustment.tilt_db_per_octave),
        output.wanted().profile != request.profile ==> !output.still_wants(request),
        output.wanted().auto_trim != request.auto_trim ==> !output.still_wants(request),
{
}

} // verus!
