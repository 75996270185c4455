//! Policy for the silent helper that makes the system label the content.
//!
//! The helper itself belongs to the application: it is started, played, paused
//! and asked for its status as the controller says, and dropped as soon as the
//! controller no longer has one.
use super::output::{chars, OutputPhase};
use crate::text::{decimal, push_decimal};
use vstd::prelude::*;
use vstd::string::*;

verus! {

/// Opens once the presented position has moved forward.
#[derive(Debug, Clone, Copy, PartialEq, Eq, Structural)]
pub struct PresentationGate {
    pub last_position: Option<u64>,
    pub advanced: bool,
}

impl Default for PresentationGate {
    fn default() -> (r: Self)
        ensures
            r == PresentationGate::shut(),
    {
        PresentationGate { last_position: None, advanced: false }
    }
}

impl PresentationGate {
    pub open spec fn shut() -> PresentationGate {
        PresentationGate { last_position: None, advanced: false }
    }

    pub open spec fn observed(self, position: u64) -> PresentationGate {
        PresentationGate {
            last_position: Some(position),
            advanced: self.advanced || match self.last_position {
                Some(previous) => position > previous,
                None => false,
            },
        }
    }

    pub fn observe(&mut self, position: u64) -> (r: bool)
        ensures
            *final(self) == old(self).observed(position),
            r == final(self).advanced,
    {
        let moved = match self.last_position {
            Some(previous) => position > previous,
            None => false,
        };
        self.advanced = self.advanced || moved;
        self.last_position = Some(position);
        self.advanced
    }
}

/// What the helper reports.
#[derive(Debug)]
pub struct HelperStatus {
    /// The name of the helper's state.
    pub state: String,
    pub failed: bool,
    pub default_device: u32,
    pub channels: u64,
    pub frames: u64,
    pub loops: u64,
    pub live_items: u64,
    pub live_taps: u64,
    pub error: String,
}

/// What a helper that runs is said to do.
pub open spec fn status_text(status: HelperStatus) -> Seq<char> {
    status.state@ + " · "@ + decimal(status.channels as nat) + " ch · "@ + decimal(
        status.frames as nat,
    ) + " frames · "@ + decimal(status.loops as nat) + " loops · "@ + decimal(
        status.live_items as nat,
    ) + " items / "@ + decimal(status.live_taps as nat) + " taps"@ + (if status.error@.len() == 0 {
        Seq::empty()
    } else {
        " · "@ + status.error@
    })
}

fn describe(status: &HelperStatus) -> (r: String)
    ensures
        r@ == status_text(*status),
{
    let mut out = status.state.clone();
    out.append(" · ");
    push_decimal(&mut out, status.channels);
    out.append(" ch · ");
    push_decimal(&mut out, status.frames);
    out.append(" frames · ");
    push_decimal(&mut out, status.loops);
    out.append(" loops · ");
    push_decimal(&mut out, status.live_items);
    out.append(" items / ");
    push_decimal(&mut out, status.live_taps);
    out.append(" taps");
    let ghost before = out@;
    if status.error.as_str().unicode_len() != 0 {
        out.append(" · ");
        out.append(status.error.as_str());
        assert(out@ =~= before + (" · "@ + status.error@));
    } else {
        assert(before + Seq::<char>::empty() =~= before);
    }
    out
}

#[derive(Debug)]
pub struct AtmosController {
    /// There is a helper.
    pub helper: bool,
    pub gate: PresentationGate,
    pub device: Option<u32>,
    pub failure: Option<String>,
}

#[verifier::ext_equal]
pub struct AtmosModel {
    pub helper: bool,
    pub gate: PresentationGate,
    pub device: Option<u32>,
    pub failure: Option<Seq<char>>,
}

impl View for AtmosController {
    type V = AtmosModel;

    open spec fn view(&self) -> AtmosModel {
        AtmosModel {
            helper: self.helper,
            gate: self.gate,
            device: self.device,
            failure: chars(self.failure),
        }
    }
}

/// What is left to do once the policy has been consulted.
#[derive(Debug)]
pub enum AtmosStep {
    /// Nothing: this is the status.
    Show(String),
    /// Pause the helper, if there is one, and show this status.
    Pause(String),
    /// Start a helper and hand the outcome to `started`.
    Start,
    /// Play the helper, and hand its status to `reported`.
    Play,
}

pub enum StepModel {
    Show(Seq<char>),
    Pause(Seq<char>),
    Start,
    Play,
}

impl View for AtmosStep {
    type V = StepModel;

    open spec fn view(&self) -> StepModel {
        match *self {
            AtmosStep::Show(text) => StepModel::Show(text@),
            AtmosStep::Pause(text) => StepModel::Pause(text@),
            AtmosStep::Start => StepModel::Start,
            AtmosStep::Play => StepModel::Play,
        }
    }
}

/// The output presents nothing.
pub open spec fn is_terminal(phase: OutputPhase) -> bool {
    phase is Idle || phase is Unavailable || phase is Ended || phase is Failed
}

impl AtmosModel {
    pub open spec fn fresh() -> AtmosModel {
        AtmosModel { helper: false, gate: PresentationGate::shut(), device: None, failure: None }
    }

    /// The device changed under a helper that knew another.
    pub open spec fn moved_to(self, status: Result<HelperStatus, String>) -> bool {
        self.helper && status is Ok && self.device is Some && self.device->0
            != status->Ok_0.default_device
    }

    /// What a helper's answer adds to what is known.
    pub open spec fn informed(self, status: Result<HelperStatus, String>) -> AtmosModel {
        if !self.helper {
            self
        } else {
            match status {
                Ok(status) => AtmosModel {
                    device: Some(status.default_device),
                    failure: if status.failed {
                        Some(status.error@)
                    } else {
                        self.failure
                    },
                    ..self
                },
                Err(error) => AtmosModel { failure: Some(error@), ..self },
            }
        }
    }

    /// The state after the policy was consulted.
    pub open spec fn updated(
        self,
        eligible: bool,
        phase: OutputPhase,
        position: u64,
        status: Result<HelperStatus, String>,
    ) -> AtmosModel {
        if !eligible || is_terminal(phase) {
            AtmosModel::fresh()
        } else if self.moved_to(status) {
            AtmosModel {
                gate: PresentationGate::shut().observed(position),
                ..AtmosModel::fresh()
            }
        } else {
            AtmosModel { gate: self.gate.observed(position), ..self }.informed(status)
        }
    }

    /// What is left to do then.
    pub open spec fn step(
        self,
        eligible: bool,
        playing: bool,
        phase: OutputPhase,
        position: u64,
        status: Result<HelperStatus, String>,
    ) -> StepModel {
        let next = self.updated(eligible, phase, position, status);
        if !eligible {
            StepModel::Show("Inactive for current settings"@)
        } else if is_terminal(phase) {
            StepModel::Show("Inactive"@)
        } else if self.moved_to(status) {
            StepModel::Show("Waiting for PCM after output-device change"@)
        } else if next.failure is Some {
            StepModel::Show("Unavailable: "@ + next.failure->0)
        } else if !playing {
            StepModel::Pause("Paused"@)
        } else if !next.gate.advanced {
            StepModel::Show("Waiting for PCM presentation"@)
        } else if !next.helper {
            StepModel::Start
        } else {
            StepModel::Play
        }
    }
}

fn unavailable(error: &String) -> (r: String)
    ensures
        r@ == "Unavailable: "@ + error@,
{
    let mut out = "Unavailable: ".to_owned();
    out.append(error.as_str());
    out
}

impl Default for AtmosController {
    fn default() -> (r: Self)
        ensures
            r@ == AtmosModel::fresh(),
    {
        AtmosController {
            helper: false,
            gate: PresentationGate::default(),
            device: None,
            failure: None,
        }
    }
}

impl AtmosController {
    /// A controller whose helper has failed.
    pub fn failed(message: String) -> (r: Self)
        ensures
            r@ == (AtmosModel { failure: Some(message@), ..AtmosModel::fresh() }),
    {
        AtmosController {
            helper: false,
            gate: PresentationGate::default(),
            device: None,
            failure: Some(message),
        }
    }

    pub fn reset(&mut self)
        ensures
            final(self)@ == AtmosModel::fresh(),
    {
        self.helper = false;
        self.gate = PresentationGate::default();
        self.device = None;
        self.failure = None;
    }

    /// Consults the policy. `status` is what the helper answered, and is not
    /// looked at where there is none.
    pub fn update(
        &mut self,
        eligible: bool,
        playing: bool,
        phase: OutputPhase,
        position: u64,
        status: Result<HelperStatus, String>,
    ) -> (r: AtmosStep)
        ensures
            final(self)@ == old(self)@.updated(eligible, phase, position, status),
            r@ == old(self)@.step(eligible, playing, phase, position, status),
    {
        if !eligible {
            self.reset();
            return AtmosStep::Show("Inactive for current settings".to_owned());
        }
        if matches!(
            phase,
            OutputPhase::Idle | OutputPhase::Unavailable | OutputPhase::Ended | OutputPhase::Failed
        ) {
            self.reset();
            return AtmosStep::Show("Inactive".to_owned());
        }
        let advanced = self.gate.observe(position);
        if self.helper {
            match status {
                Ok(status) => {
                    let changed = match self.device {
                        Some(device) => device != status.default_device,
                        None => false,
                    };
                    if changed {
                        self.reset();
                        let _ = self.gate.observe(position);
                        return AtmosStep::Show(
                            "Waiting for PCM after output-device change".to_owned(),
                        );
                    }
                    self.device = Some(status.default_device);
                    if status.failed {
                        self.failure = Some(status.error);
                    }
                },
                Err(error) => {
                    self.failure = Some(error);
                },
            }
        }
        if let Some(error) = &self.failure {
            return AtmosStep::Show(unavailable(error));
        }
        if !playing {
            return AtmosStep::Pause("Paused".to_owned());
        }
        if !advanced {
            return AtmosStep::Show("Waiting for PCM presentation".to_owned());
        }
        if !self.helper {
            return AtmosStep::Start;
        }
        AtmosStep::Play
    }

    /// Takes in whether a helper could be started. Without a status to show, the
    /// helper is to be played.
    pub fn started(&mut self, outcome: Result<(), String>) -> (r: Option<String>)
        ensures
            match outcome {
                Ok(_) => r is None && final(self)@ == (AtmosModel { helper: true, ..old(self)@ }),
                Err(error) => r is Some && r->0@ == "Unavailable: "@ + error@ && final(self)@ == (
                AtmosModel { failure: Some(error@), ..old(self)@ }),
            },
    {
        match outcome {
            Ok(_) => {
                self.helper = true;
                None
            },
            Err(error) => {
                let text = unavailable(&error);
                self.failure = Some(error);
                Some(text)
            },
        }
    }

    /// The status to show for a helper that was played.
    pub fn reported(&mut self, status: Result<HelperStatus, String>) -> (r: String)
        ensures
            match status {
                Ok(status) => r@ == status_text(status) && final(self)@ == old(self)@,
                Err(error) => r@ == "Unavailable: "@ + error@ && final(self)@ == (AtmosModel {
                    failure: Some(error@),
                    ..old(self)@
                }),
            },
    {
        match status {
            Ok(status) => describe(&status),
            Err(error) => {
                let text = unavailable(&error);
                self.failure = Some(error);
                text
            },
        }
    }
}

/// Samples count as presented as soon as a position lies behind an earlier one,
/// and from then on.
pub proof fn presentation_is_noticed_on_progress_and_from_then_on(
    gate: PresentationGate,
    first: u64,
    second: u64,
)
    ensures
        !PresentationGate::shut().observed(first).advanced,
        PresentationGate::shut().observed(first).observed(second).advanced == (second > first),
        gate.advanced ==> gate.observed(first).advanced,
{
}

/// Settings that do not apply, and an output that presents nothing, release the
/// helper, forget a failure and never start another.
pub proof fn inactive_states_release_the_helper(
    control: AtmosModel,
    eligible: bool,
    playing: bool,
    phase: OutputPhase,
    position: u64,
    status: Result<HelperStatus, String>,
)
    requires
        !eligible || is_terminal(phase),
    ensures
        control.updated(eligible, phase, position, status) == AtmosModel::fresh(),
        control.step(eligible, playing, phase, position, status) is Show,
{
}

/// A failure is shown and nothing more is attempted, until the settings or the
/// output release it.
pub proof fn a_failure_stays_until_released(
    control: AtmosModel,
    playing: bool,
    phase: OutputPhase,
    position: u64,
    status: Result<HelperStatus, String>,
)
    requires
        control.failure is Some,
        !control.helper,
        !is_terminal(phase),
    ensures
        control.updated(true, phase, position, status).failure == control.failure,
        control.step(true, playing, phase, position, status) == StepModel::Show(
            "Unavailable: "@ + control.failure->0,
        ),
{
}

/// No helper is started before samples were presented, nor while paused.
pub proof fn a_helper_starts_only_while_samples_are_presented(
    control: AtmosModel,
    eligible: bool,
    playing: bool,
    phase: OutputPhase,
    position: u64,
    status: Result<HelperStatus, String>,
)
    requires
        control.step(eligible, playing, phase, position, status) is Start,
    ensures
        eligible && playing && !is_terminal(phase),
        control.gate.observed(position).advanced,
{
}

/// The helper plays exactly while the output is eligible, plays and presents samples, and
/// neither it nor its device gave trouble; before that it is started.
pub proof fn the_helper_plays_while_samples_are_presented(
    atmos: AtmosModel,
    playing: bool,
    phase: OutputPhase,
    position: u64,
    status: Result<HelperStatus, String>,
)
    requires
        phase is Playing || phase is Paused || phase is Ready || phase is Initializing,
        !atmos.moved_to(status),
        atmos.failure is None,
        atmos.helper ==> status is Ok && !status->Ok_0.failed,
    ensures
        ({
            let step = atmos.step(true, playing, phase, position, status);
            let presented = atmos.gate.advanced || (atmos.gate.last_position is Some
                && atmos.gate.last_position->0 < position);
            &&& !playing ==> step is Pause
            &&& playing && !presented ==> step is Show
            &&& playing && presented && !atmos.helper ==> step is Start
            &&& playing && presented && atmos.helper ==> step is Play
        }),
        atmos.step(false, playing, phase, position, status) is Show,
{
}

/// A helper whose device changed is given up, and waits for samples on the new one; a
/// helper that failed is kept with the reason.
pub proof fn another_device_needs_another_helper(
    atmos: AtmosModel,
    phase: OutputPhase,
    position: u64,
    status: HelperStatus,
)
    requires
        phase is Playing || phase is Paused || phase is Ready || phase is Initializing,
        atmos.helper,
    ensures
        ({
            let next = atmos.updated(true, phase, position, Ok(status));
            &&& atmos.device is Some && atmos.device->0 != status.default_device ==> !next.helper
                && next.gate.last_position == Some(position) && !next.gate.advanced
                && next.failure is None
            &&& atmos.device is None || atmos.device->0 == status.default_device ==> {
                &&& next.helper
                &&& next.device == Some(status.default_device)
                &&& status.failed ==> next.failure == Some(status.error@)
                &&& !status.failed ==> next.failure == atmos.failure
                &&& next.gate.last_position == Some(position)
            }
        }),
{
}

/// A helper's status is its state with what it counts, and what failed only where something
/// did.
pub proof fn a_status_tells_what_the_helper_counts(status: HelperStatus)
    ensures
        ({
            let counts = status.state@ + " · "@ + decimal(status.channels as nat) + " ch · "@
                + decimal(status.frames as nat) + " frames · "@ + decimal(status.loops as nat)
                + " loops · "@ + decimal(status.live_items as nat) + " items / "@ + decimal(
                status.live_taps as nat,
            ) + " taps"@;
            &&& status.error@.len() == 0 ==> status_text(status) == counts
            &&& status.error@.len() > 0 ==> status_text(status) == counts + (" · "@
                + status.error@)
        }),
{
    if status.error@.len() == 0 {
        let counts = status.state@ + " · "@ + decimal(status.channels as nat) + " ch · "@ + decimal(
            status.frames as nat,
        ) + " frames · "@ + decimal(status.loops as nat) + " loops · "@ + decimal(
            status.live_items as nat,
        ) + " items / "@ + decimal(status.live_taps as nat) + " taps"@;
        assert(counts + Seq::<char>::empty() =~= counts);
    }
}

/// A helper that runs tells its device and its failure; without one nothing is learned.
pub proof fn a_helper_is_heard_while_it_runs(
    model: AtmosModel,
    status: Result<HelperStatus, String>,
)
    ensures
        !model.helper ==> model.informed(status) == model,
        model.helper && status is Ok ==> model.informed(status).device == Some(
            status->Ok_0.default_device,
        ),
        model.helper && status is Ok && status->Ok_0.failed ==> model.informed(status).failure
            == Some(status->Ok_0.error@),
        model.helper && status is Ok && !status->Ok_0.failed ==> model.informed(status).failure
            == model.failure,
        model.helper && status is Err ==> model.informed(status).failure == Some(status->Err_0@)
            && model.informed(status).device == model.device,
        model.informed(status).helper == model.helper,
        model.informed(status).gate == model.gate,
{
}

} // verus!
