//! Where the listener faces: which source is asked for, and what one tick of
//! the control clock makes of what the sources deliver.
//!
//! Rotations are carried as the bit patterns of their four components. The
//! application composes and interpolates them; which pose is aimed at, whether
//! it is approached or taken at once, and when it is sent on is decided here.
use crate::backend::output::Platform;
use vstd::prelude::*;

verus! {

#[derive(Debug, Clone, Copy, PartialEq, Eq, Structural)]
pub enum HeadSource {
    Automatic,
    Manual,
    AirPods,
    PoseBridge,
    Off,
}

impl Default for HeadSource {
    fn default() -> (r: Self)
        ensures
            r == HeadSource::Automatic,
    {
        HeadSource::Automatic
    }
}

impl HeadSource {
    pub const ALL: [HeadSource; 5] = [
        HeadSource::Automatic,
        HeadSource::Manual,
        HeadSource::AirPods,
        HeadSource::PoseBridge,
        HeadSource::Off,
    ];

    pub open spec fn title(self) -> Seq<char> {
        match self {
            HeadSource::Automatic => "Auto · AirPods / manual"@,
            HeadSource::Manual => "Manual"@,
            HeadSource::AirPods => "AirPods"@,
            HeadSource::PoseBridge => "PoseBridge sensor"@,
            HeadSource::Off => "Fixed orientation"@,
        }
    }

    pub fn label(self) -> (r: &'static str)
        ensures
            r@ == self.title(),
    {
        match self {
            HeadSource::Automatic => "Auto · AirPods / manual",
            HeadSource::Manual => "Manual",
            HeadSource::AirPods => "AirPods",
            HeadSource::PoseBridge => "PoseBridge sensor",
            HeadSource::Off => "Fixed orientation",
        }
    }

    /// Whether the platform can drive the pose from this source at all.
    pub fn available(self, platform: Platform) -> (r: bool)
        ensures
            r == match self {
                HeadSource::AirPods => platform.macos,
                HeadSource::PoseBridge => platform.bridge,
                _ => true,
            },
    {
        match self {
            HeadSource::AirPods => platform.macos,
            HeadSource::PoseBridge => platform.bridge,
            HeadSource::Automatic | HeadSource::Manual | HeadSource::Off => true,
        }
    }
}

#[derive(Debug, Clone, Copy, PartialEq, Eq, Structural)]
pub enum HeadStatus {
    Fixed,
    Held,
    System,
    Manual,
    AirPods,
    Waiting,
    Denied,
    Disconnected,
    MissingBundle,
    BridgeActive,
    BridgeWaiting,
    BridgeFrozen,
}

/// What a status says about the pose that came with it.
#[derive(Debug, Clone, Copy, PartialEq, Eq, Structural)]
pub enum Confidence {
    /// A sensor is arriving and the pose changes on its own.
    Tracking,
    /// The pose is exactly what was last asked for.
    Held,
    /// A sensor was asked for and is not arriving.
    Degraded,
}

impl HeadStatus {
    pub open spec fn title(self) -> Seq<char> {
        match self {
            HeadStatus::BridgeActive => "PoseBridge tracking"@,
            HeadStatus::BridgeWaiting => "Connect a PoseBridge sensor"@,
            HeadStatus::BridgeFrozen => "PoseBridge stale · orientation frozen"@,
            HeadStatus::Fixed => "Fixed orientation"@,
            HeadStatus::Held => "Orientation held · H to resume"@,
            HeadStatus::System => "Orientation controlled by the system"@,
            HeadStatus::Manual => "Manual orientation"@,
            HeadStatus::AirPods => "AirPods tracking"@,
            HeadStatus::Waiting => "Waiting for AirPods · manual active"@,
            HeadStatus::Denied => "Motion permission denied · manual active"@,
            HeadStatus::Disconnected => "AirPods unavailable · manual active"@,
            HeadStatus::MissingBundle =>
                "AirPods motion requires the packaged app · manual active"@,
        }
    }

    pub fn label(self) -> (r: &'static str)
        ensures
            r@ == self.title(),
    {
        match self {
            HeadStatus::BridgeActive => "PoseBridge tracking",
            HeadStatus::BridgeWaiting => "Connect a PoseBridge sensor",
            HeadStatus::BridgeFrozen => "PoseBridge stale · orientation frozen",
            HeadStatus::Fixed => "Fixed orientation",
            HeadStatus::Held => "Orientation held · H to resume",
            HeadStatus::System => "Orientation controlled by the system",
            HeadStatus::Manual => "Manual orientation",
            HeadStatus::AirPods => "AirPods tracking",
            HeadStatus::Waiting => "Waiting for AirPods · manual active",
            HeadStatus::Denied => "Motion permission denied · manual active",
            HeadStatus::Disconnected => "AirPods unavailable · manual active",
            HeadStatus::MissingBundle => "AirPods motion requires the packaged app · manual active",
        }
    }

    pub fn confidence(self) -> (r: Confidence)
        ensures
            r == match self {
                HeadStatus::BridgeActive | HeadStatus::AirPods => Confidence::Tracking,
                HeadStatus::Fixed
                | HeadStatus::Held
                | HeadStatus::System
                | HeadStatus::Manual => Confidence::Held,
                _ => Confidence::Degraded,
            },
    {
        match self {
            HeadStatus::BridgeActive | HeadStatus::AirPods => Confidence::Tracking,
            HeadStatus::BridgeWaiting | HeadStatus::BridgeFrozen => Confidence::Degraded,
            HeadStatus::Fixed
            | HeadStatus::Held
            | HeadStatus::System
            | HeadStatus::Manual => Confidence::Held,
            HeadStatus::Waiting
            | HeadStatus::Denied
            | HeadStatus::Disconnected
            | HeadStatus::MissingBundle => Confidence::Degraded,
        }
    }
}

/// A rotation by the double-precision patterns of its components.
#[derive(Debug, Clone, Copy, PartialEq, Eq, Structural)]
pub struct Pose {
    pub w: u64,
    pub x: u64,
    pub y: u64,
    pub z: u64,
}

/// The pattern of `1.0` in double precision.
pub const UNIT: u64 = 0x3ff0_0000_0000_0000;

impl Pose {
    /// Facing front.
    pub open spec fn front() -> Pose {
        Pose { w: UNIT, x: 0, y: 0, z: 0 }
    }

    pub fn identity() -> (r: Pose)
        ensures
            r == Pose::front(),
    {
        Pose { w: UNIT, x: 0, y: 0, z: 0 }
    }
}

/// The pose that is presented.
#[derive(Debug, Clone, Copy, PartialEq, Eq, Structural)]
pub struct HeadSnapshot {
    pub pose: Pose,
    pub status: HeadStatus,
    /// What the sensor itself measured, before anything was made of it.
    pub measurement: Option<Pose>,
}

impl Default for HeadSnapshot {
    fn default() -> (r: Self)
        ensures
            r == (HeadSnapshot {
                pose: Pose::front(),
                status: HeadStatus::Fixed,
                measurement: None,
            }),
    {
        HeadSnapshot { pose: Pose::identity(), status: HeadStatus::Fixed, measurement: None }
    }
}

/// What the player asks of the control clock.
#[derive(Debug, Clone, Copy, PartialEq, Eq, Structural)]
pub struct Desired {
    pub source: HeadSource,
    pub enabled: bool,
    /// The system forms the final pose.
    pub system: bool,
    pub manual: Pose,
    /// The pose that is kept while the source goes on sampling.
    pub held_pose: Option<Pose>,
    pub revision: u64,
    pub recenter: u64,
    /// Single precision.
    pub bridge_smoothing_ms: u32,
    pub bridge_max_age_ms: u32,
    pub bridge_enhanced: bool,
}

/// The pattern of ten milliseconds in single precision.
pub const BRIDGE_SMOOTHING_MS: u32 = 0x4120_0000;

impl Default for Desired {
    fn default() -> (r: Self)
        ensures
            r.wf(),
            r == (Desired {
                source: HeadSource::Automatic,
                enabled: false,
                system: false,
                manual: Pose::front(),
                held_pose: None,
                revision: 0,
                recenter: 0,
                bridge_smoothing_ms: BRIDGE_SMOOTHING_MS,
                bridge_max_age_ms: 100,
                bridge_enhanced: false,
            }),
    {
        Desired {
            source: HeadSource::Automatic,
            enabled: false,
            system: false,
            manual: Pose::identity(),
            held_pose: None,
            revision: 0,
            recenter: 0,
            bridge_smoothing_ms: BRIDGE_SMOOTHING_MS,
            bridge_max_age_ms: 100,
            bridge_enhanced: false,
        }
    }
}

impl Desired {
    /// Only a pose that a source drives here can be held.
    pub open spec fn wf(self) -> bool {
        self.held_pose is Some ==> self.enabled && self.source != HeadSource::Off
    }

    /// Another source, or none, releases a hold; the same one keeps it.
    pub open spec fn configured(self, source: HeadSource, enabled: bool, system: bool) -> Desired {
        Desired {
            held_pose: if source != self.source || !enabled {
                None
            } else {
                self.held_pose
            },
            source,
            enabled,
            system,
            ..self
        }
    }

    pub fn configure(&mut self, source: HeadSource, enabled: bool, system: bool)
        ensures
            *final(self) == old(self).configured(source, enabled, system),
            old(self).wf() ==> final(self).wf(),
    {
        if source != self.source || !enabled {
            self.held_pose = None;
        }
        self.source = source;
        self.enabled = enabled;
        self.system = system;
    }

    pub fn configure_bridge(&mut self, smoothing_ms: u32, max_age_ms: u32, enhanced: bool)
        ensures
            *final(self) == (Desired {
                bridge_smoothing_ms: smoothing_ms,
                bridge_max_age_ms: max_age_ms,
                bridge_enhanced: enhanced,
                ..*old(self)
            }),
            old(self).wf() ==> final(self).wf(),
    {
        self.bridge_max_age_ms = max_age_ms;
        self.bridge_smoothing_ms = smoothing_ms;
        self.bridge_enhanced = enhanced;
    }

    pub open spec fn turned(self, pose: Pose) -> Desired {
        Desired {
            manual: pose,
            held_pose: None,
            revision: (self.revision + 1) as u64,
            source: HeadSource::Manual,
            ..self
        }
    }

    /// The listener turned by hand, to `pose`.
    pub fn manual(&mut self, pose: Pose)
        requires
            old(self).revision < u64::MAX,
        ensures
            *final(self) == old(self).turned(pose),
            final(self).wf(),
    {
        self.manual = pose;
        self.held_pose = None;
        self.revision = self.revision + 1;
        self.source = HeadSource::Manual;
    }

    pub open spec fn recentered(self) -> Desired {
        Desired { held_pose: None, recenter: (self.recenter + 1) as u64, ..self }
    }

    pub fn recenter(&mut self)
        requires
            old(self).recenter < u64::MAX,
        ensures
            *final(self) == old(self).recentered(),
            final(self).wf(),
    {
        self.held_pose = None;
        self.recenter = self.recenter + 1;
    }

    pub open spec fn toggled(self, presented: Pose) -> Desired {
        Desired {
            held_pose: if !self.enabled || self.source == HeadSource::Off {
                self.held_pose
            } else if self.held_pose is Some {
                None
            } else {
                Some(presented)
            },
            ..self
        }
    }

    /// Freezes the presented pose without changing the source, or releases it.
    pub fn toggle_hold(&mut self, presented: Pose)
        ensures
            *final(self) == old(self).toggled(presented),
            old(self).wf() ==> final(self).wf(),
    {
        if self.enabled && self.source != HeadSource::Off {
            self.held_pose =
            if self.held_pose.is_some() {
                None
            } else {
                Some(presented)
            };
        }
    }

    /// The AirPods are to be sampled.
    pub open spec fn senses(self, platform: Platform) -> bool {
        &&& platform.renderer
        &&& platform.macos
        &&& self.enabled
        &&& (self.source == HeadSource::Automatic || self.source == HeadSource::AirPods)
    }

    /// The bridge is to be sampled.
    pub open spec fn bridges(self, platform: Platform) -> bool {
        platform.bridge && self.enabled && self.source == HeadSource::PoseBridge
    }

    /// How long the clock rests between ticks, in milliseconds.
    pub fn rest_ms(&self, platform: Platform) -> (r: u64)
        ensures
            r == (if self.bridges(platform) {
                5u64
            } else {
                16u64
            }),
    {
        if platform.bridge && self.enabled && self.source == HeadSource::PoseBridge {
            5
        } else {
            16
        }
    }
}

/// What a tick has to do with a source before the pose is decided.
#[derive(Debug, Clone, Copy, PartialEq, Eq, Structural)]
pub enum Attention {
    /// Leave it alone.
    Ignore,
    /// Let go of it and forget its state.
    Release,
    /// Sample it.
    Query,
}

#[derive(Debug, Clone, Copy, PartialEq, Eq, Structural)]
pub struct Sensing {
    pub sensor: Attention,
    pub bridge: Attention,
}

/// One sample of the AirPods. `state` is the device's own state number; a pose
/// comes with state 2 only.
#[derive(Debug, Clone, Copy, PartialEq, Eq, Structural)]
pub struct SensorSample {
    pub state: u32,
    /// The sampled rotation.
    pub raw: Pose,
    /// The rotation that takes the presented pose to the sampled one.
    pub anchored: Pose,
}

/// The state number of a device that delivers poses.
pub const DELIVERING: u32 = 2;

/// What the bridge made of its samples.
#[derive(Debug, Clone, Copy, PartialEq, Eq, Structural)]
pub struct BridgeReading {
    pub goal: Pose,
    /// Samples arrive.
    pub active: bool,
    /// The pose was frozen by a loss of samples.
    pub frozen: bool,
    /// There was a sample, or there is a reference that one left behind.
    pub known: bool,
    pub new_sample: bool,
    pub measurement: Option<Pose>,
}

/// How the presented pose moves.
#[derive(Debug, Clone, Copy, PartialEq, Eq, Structural)]
pub enum Motion {
    /// It stays at this pose.
    Hold(Pose),
    /// It is the goal at once.
    Jump,
    /// It approaches the goal with the clock's own time constant.
    Approach,
    /// It approaches the goal with this time constant, in milliseconds and in
    /// single precision.
    ApproachWithin(u32),
}

/// What one tick aims at.
#[derive(Debug, Clone, Copy, PartialEq, Eq, Structural)]
pub struct Aim {
    pub goal: Pose,
    pub status: HeadStatus,
    pub measurement: Option<Pose>,
    pub motion: Motion,
}

/// The control clock's own state.
#[derive(Debug, Clone, Copy)]
pub struct Listener {
    /// The presented pose.
    pub resolved: Pose,
    /// What is aimed at where no sensor delivers.
    pub fallback: Pose,
    pub revision: u64,
    pub recenter: u64,
    /// The sensor pose that counts as facing front.
    pub reference: Pose,
    pub was_sensor: bool,
    pub was_bridge: bool,
    /// The target that was sent a pose last, and that pose in degrees.
    pub last_sent: Option<(u64, [u32; 3])>,
}

impl Default for Listener {
    fn default() -> (r: Self)
        ensures
            r == (Listener {
                resolved: Pose::front(),
                fallback: Pose::front(),
                revision: 0,
                recenter: 0,
                reference: Pose::front(),
                was_sensor: false,
                was_bridge: false,
                last_sent: None,
            }),
    {
        Listener {
            resolved: Pose::identity(),
            fallback: Pose::identity(),
            revision: 0,
            recenter: 0,
            reference: Pose::identity(),
            was_sensor: false,
            was_bridge: false,
            last_sent: None,
        }
    }
}

/// The status of a sensor that delivers no pose.
pub open spec fn sensor_trouble(state: Option<u32>) -> HeadStatus {
    match state {
        Some(1) => HeadStatus::Waiting,
        Some(3) => HeadStatus::Denied,
        Some(5) => HeadStatus::MissingBundle,
        _ => HeadStatus::Disconnected,
    }
}

/// The status of the bridge.
pub open spec fn bridge_status(reading: BridgeReading) -> HeadStatus {
    if reading.active && !reading.frozen {
        HeadStatus::BridgeActive
    } else if reading.known {
        HeadStatus::BridgeFrozen
    } else {
        HeadStatus::BridgeWaiting
    }
}

impl Listener {
    /// A new pose by hand becomes the fallback.
    pub open spec fn begun(self, desired: Desired, platform: Platform) -> Listener {
        Listener {
            fallback: if self.revision != desired.revision {
                desired.manual
            } else {
                self.fallback
            },
            revision: desired.revision,
            was_sensor: self.was_sensor && (desired.senses(platform) || !platform.renderer),
            ..self
        }
    }

    /// Starts a tick: takes in a pose set by hand, and says which sources are
    /// to be sampled or let go.
    pub fn begin(&mut self, desired: &Desired, platform: Platform) -> (r: Sensing)
        ensures
            *final(self) == old(self).begun(*desired, platform),
            r.sensor == (if desired.senses(platform) {
                Attention::Query
            } else if platform.renderer {
                Attention::Release
            } else {
                Attention::Ignore
            }),
            r.bridge == (if desired.bridges(platform) {
                Attention::Query
            } else if platform.bridge && old(self).was_bridge {
                Attention::Release
            } else {
                Attention::Ignore
            }),
    {
        if self.revision != desired.revision {
            self.fallback = desired.manual;
            self.revision = desired.revision;
        }
        let senses = platform.renderer && platform.macos && desired.enabled && (desired.source
            == HeadSource::Automatic || desired.source == HeadSource::AirPods);
        let sensor = if senses {
            Attention::Query
        } else if platform.renderer {
            self.was_sensor = false;
            Attention::Release
        } else {
            Attention::Ignore
        };
        let bridge = if platform.bridge && desired.enabled && desired.source
            == HeadSource::PoseBridge {
            Attention::Query
        } else if platform.bridge && self.was_bridge {
            Attention::Release
        } else {
            Attention::Ignore
        };
        Sensing { sensor, bridge }
    }

    /// The reference of a sample: kept while the sensor goes on delivering, set
    /// so that the presented pose does not jump where it starts, and set to the
    /// sample itself where the listener recentres.
    pub open spec fn referenced(self, desired: Desired, sample: SensorSample) -> Pose {
        if desired.recenter != self.recenter {
            sample.raw
        } else if !self.was_sensor {
            sample.anchored
        } else {
            self.reference
        }
    }

    /// Settles the reference that a sample is measured against.
    pub fn refer(&mut self, desired: &Desired, sample: &SensorSample)
        ensures
            *final(self) == (Listener {
                reference: if sample.state == DELIVERING {
                    old(self).referenced(*desired, *sample)
                } else {
                    old(self).reference
                },
                ..*old(self)
            }),
    {
        if sample.state == DELIVERING {
            if !self.was_sensor {
                self.reference = sample.anchored;
            }
            if desired.recenter != self.recenter {
                self.reference = sample.raw;
            }
        }
    }

    /// What a tick aims at. `state` is that of the sensor, where it answered,
    /// and `relative` its sample as measured from the reference.
    pub open spec fn aimed(
        self,
        desired: Desired,
        platform: Platform,
        state: Option<u32>,
        relative: Pose,
        bridge: BridgeReading,
    ) -> Aim {
        let idle = !desired.enabled || desired.source == HeadSource::Off;
        let recentring = desired.recenter != self.recenter;
        let status = if desired.bridges(platform) {
            bridge_status(bridge)
        } else if desired.senses(platform) {
            if state == Some(DELIVERING) {
                HeadStatus::AirPods
            } else {
                sensor_trouble(state)
            }
        } else if idle {
            if desired.system {
                HeadStatus::System
            } else {
                HeadStatus::Fixed
            }
        } else {
            HeadStatus::Manual
        };
        let goal = if recentring && desired.source != HeadSource::PoseBridge {
            Pose::front()
        } else if desired.bridges(platform) {
            bridge.goal
        } else if desired.senses(platform) {
            if state == Some(DELIVERING) {
                relative
            } else if self.was_sensor {
                self.resolved
            } else {
                self.fallback
            }
        } else if idle {
            Pose::front()
        } else {
            self.fallback
        };
        let bridging = desired.bridges(platform);
        let motion = match desired.held_pose {
            Some(held) => Motion::Hold(held),
            None => if (bridging && bridge.frozen) || !desired.enabled || (bridging
                && never_smooths(desired.bridge_smoothing_ms)) {
                Motion::Jump
            } else if bridging {
                Motion::ApproachWithin(desired.bridge_smoothing_ms)
            } else {
                Motion::Approach
            },
        };
        Aim {
            goal,
            status: if desired.held_pose is Some {
                HeadStatus::Held
            } else {
                status
            },
            measurement: if bridging {
                bridge.measurement
            } else {
                None
            },
            motion,
        }
    }

    /// What the clock keeps of a tick, but for the pose itself.
    pub open spec fn after_aim(
        self,
        desired: Desired,
        platform: Platform,
        state: Option<u32>,
    ) -> Listener {
        let delivers = desired.senses(platform) && state == Some(DELIVERING);
        let lost = desired.senses(platform) && state != Some(DELIVERING) && self.was_sensor;
        Listener {
            fallback: if desired.recenter != self.recenter && desired.source
                != HeadSource::PoseBridge {
                Pose::front()
            } else if desired.bridges(platform) || delivers || lost {
                self.resolved
            } else {
                self.fallback
            },
            recenter: desired.recenter,
            was_sensor: if desired.senses(platform) {
                delivers
            } else {
                self.was_sensor
            },
            was_bridge: if platform.bridge {
                desired.bridges(platform)
            } else {
                self.was_bridge
            },
            ..self
        }
    }

    /// Decides what this tick aims at.
    pub fn aim(
        &mut self,
        desired: &Desired,
        platform: Platform,
        state: Option<u32>,
        relative: Pose,
        bridge: &BridgeReading,
    ) -> (r: Aim)
        ensures
            *final(self) == old(self).after_aim(*desired, platform, state),
            r == old(self).aimed(*desired, platform, state, relative, *bridge),
    {
        let mut goal = self.fallback;
        let mut status = HeadStatus::Manual;
        let mut measurement = None;
        if !desired.enabled || desired.source == HeadSource::Off {
            goal = Pose::identity();
            status =
            if desired.system {
                HeadStatus::System
            } else {
                HeadStatus::Fixed
            };
        }
        let senses = platform.renderer && platform.macos && desired.enabled && (desired.source
            == HeadSource::Automatic || desired.source == HeadSource::AirPods);
        if senses {
            let delivers = match state {
                Some(number) => number == DELIVERING,
                None => false,
            };
            if delivers {
                goal = relative;
                status = HeadStatus::AirPods;
                self.was_sensor = true;
                self.fallback = self.resolved;
            } else {
                if self.was_sensor {
                    self.fallback = self.resolved;
                    goal = self.fallback;
                }
                self.was_sensor = false;
                status =
                match state {
                    Some(1) => HeadStatus::Waiting,
                    Some(3) => HeadStatus::Denied,
                    Some(5) => HeadStatus::MissingBundle,
                    _ => HeadStatus::Disconnected,
                };
            }
        }
        let bridging = platform.bridge && desired.enabled && desired.source
            == HeadSource::PoseBridge;
        if bridging {
            measurement = bridge.measurement;
            goal = bridge.goal;
            status =
            if bridge.active && !bridge.frozen {
                HeadStatus::BridgeActive
            } else if bridge.known {
                HeadStatus::BridgeFrozen
            } else {
                HeadStatus::BridgeWaiting
            };
            self.fallback = self.resolved;
            self.was_bridge = true;
        } else if platform.bridge {
            self.was_bridge = false;
        }
        if self.recenter != desired.recenter {
            self.recenter = desired.recenter;
            if desired.source != HeadSource::PoseBridge {
                goal = Pose::identity();
                self.fallback = goal;
            }
        }
        let motion = match desired.held_pose {
            Some(held) => {
                status = HeadStatus::Held;
                Motion::Hold(held)
            },
            None => if (bridging && bridge.frozen) || !desired.enabled || (bridging
                && smooths_never(desired.bridge_smoothing_ms)) {
                Motion::Jump
            } else if bridging {
                Motion::ApproachWithin(desired.bridge_smoothing_ms)
            } else {
                Motion::Approach
            },
        };
        Aim { goal, status, measurement, motion }
    }

    /// The pose that an aim leads to. `approached` is the point that the
    /// application reached on the way to the goal.
    pub open spec fn reached(aim: Aim, approached: Pose) -> Pose {
        match aim.motion {
            Motion::Hold(held) => held,
            Motion::Jump => aim.goal,
            _ => approached,
        }
    }

    /// Presents the pose of this tick.
    pub fn present(&mut self, aim: &Aim, approached: Pose) -> (r: HeadSnapshot)
        ensures
            *final(self) == (Listener { resolved: Listener::reached(*aim, approached), ..*old(self) }),
            r == (HeadSnapshot {
                pose: Listener::reached(*aim, approached),
                status: aim.status,
                measurement: aim.measurement,
            }),
    {
        self.resolved =
        match aim.motion {
            Motion::Hold(held) => held,
            Motion::Jump => aim.goal,
            Motion::Approach | Motion::ApproachWithin(_) => approached,
        };
        HeadSnapshot { pose: self.resolved, status: aim.status, measurement: aim.measurement }
    }

    /// The pose is sent to the target: a new target gets it in any case, and one
    /// that has had a pose gets it where it moved or where a fresh sample came.
    /// A bridge that delivers nothing sends nothing to a target that has one.
    pub open spec fn sends(
        self,
        desired: Desired,
        platform: Platform,
        target: u64,
        bridge: BridgeReading,
        moved: bool,
    ) -> bool {
        let new_target = match self.last_sent {
            Some((last, _)) => last != target,
            None => true,
        };
        if desired.bridges(platform) {
            new_target || (bridge.active && !bridge.frozen && (bridge.new_sample || moved))
        } else {
            new_target || moved
        }
    }

    /// Whether the presented pose is to be sent to a target. `moved` tells
    /// whether it differs noticeably from the one that was sent last.
    pub fn should_send(
        &self,
        desired: &Desired,
        platform: Platform,
        target: u64,
        bridge: &BridgeReading,
        moved: bool,
    ) -> (r: bool)
        ensures
            r == self.sends(*desired, platform, target, *bridge, moved),
    {
        let new_target = match self.last_sent {
            Some((last, _)) => last != target,
            None => true,
        };
        if platform.bridge && desired.enabled && desired.source == HeadSource::PoseBridge {
            let allowed = (bridge.active && !bridge.frozen) || new_target;
            allowed && (bridge.new_sample || new_target || moved)
        } else {
            new_target || moved
        }
    }

    /// Records that the target took the pose.
    pub fn sent(&mut self, target: u64, pose: [u32; 3])
        ensures
            *final(self) == (Listener { last_sent: Some((target, pose)), ..*old(self) }),
    {
        self.last_sent = Some((target, pose));
    }
}

/// A time constant that is not above zero.
pub open spec fn never_smooths(milliseconds: u32) -> bool {
    crate::numeric::below(milliseconds, 0) || crate::numeric::same_value(milliseconds, 0)
}

fn smooths_never(milliseconds: u32) -> (r: bool)
    ensures
        r == never_smooths(milliseconds),
{
    crate::numeric::less(milliseconds, 0) || crate::numeric::equal(milliseconds, 0)
}

/// The player's side of the control clock.
#[derive(Debug, Clone, Copy, PartialEq, Eq, Structural)]
pub struct HeadTracker {
    pub desired: Desired,
    pub presented: HeadSnapshot,
    pub target_revision: u64,
}

impl HeadTracker {
    pub fn new() -> (r: Self)
        ensures
            r.desired.wf(),
            r.desired.source == HeadSource::Automatic,
            !r.desired.enabled,
            !r.desired.system,
            r.desired.manual == Pose::front(),
            r.desired.held_pose is None,
            r.desired.revision == 0,
            r.desired.recenter == 0,
            r.presented == (HeadSnapshot {
                pose: Pose::front(),
                status: HeadStatus::Fixed,
                measurement: None,
            }),
            r.target_revision == 0,
    {
        HeadTracker {
            desired: Desired::default(),
            presented: HeadSnapshot::default(),
            target_revision: 0,
        }
    }

    pub fn snapshot(&self) -> (r: HeadSnapshot)
        ensures
            r == self.presented,
    {
        self.presented
    }

    /// Another target takes the poses from now on. It must receive the pose even
    /// when the head has not moved, so it gets a revision of its own.
    pub fn set_target(&mut self)
        ensures
            *final(self) == (HeadTracker {
                target_revision: if old(self).target_revision == u64::MAX {
                    0
                } else {
                    (old(self).target_revision + 1) as u64
                },
                ..*old(self)
            }),
            final(self).target_revision != old(self).target_revision,
    {
        self.target_revision = self.target_revision.wrapping_add(1);
    }
}

/// While a pose is held, that very pose is presented and its status says so,
/// whatever the sources deliver.
pub proof fn a_held_pose_is_presented_unchanged(
    listener: Listener,
    desired: Desired,
    platform: Platform,
    state: Option<u32>,
    relative: Pose,
    bridge: BridgeReading,
    approached: Pose,
)
    requires
        desired.held_pose is Some,
    ensures
        ({
            let aim = listener.aimed(desired, platform, state, relative, bridge);
            Listener::reached(aim, approached) == desired.held_pose->0 && aim.status
                == HeadStatus::Held
        }),
{
}

/// Asking for the same source again keeps a hold. Asking for another one, for
/// none, for a pose by hand or for a new front releases it.
pub proof fn explicit_controls_release_a_hold(
    desired: Desired,
    source: HeadSource,
    system: bool,
    pose: Pose,
)
    requires
        desired.wf(),
    ensures
        desired.enabled ==> desired.configured(desired.source, true, system).held_pose
            == desired.held_pose,
        source != desired.source ==> desired.configured(source, true, system).held_pose is None,
        desired.configured(source, false, system).held_pose is None,
        desired.turned(pose).held_pose is None,
        desired.recentered().held_pose is None,
{
}

/// A pose that the system or nobody drives cannot acquire a hold that would
/// take effect later.
pub proof fn a_pose_that_is_not_driven_here_cannot_be_held(desired: Desired, presented: Pose)
    requires
        desired.wf(),
        !desired.enabled || desired.source == HeadSource::Off,
    ensures
        desired.toggled(presented).held_pose is None,
{
}

/// Holding and releasing leaves everything as it was.
pub proof fn holding_and_releasing_changes_nothing(desired: Desired, first: Pose, second: Pose)
    requires
        desired.held_pose is None,
    ensures
        desired.toggled(first).toggled(second) == desired,
{
}

/// Recentring faces front, with every source but the bridge, whose samples are
/// measured from a reference of its own.
pub proof fn recentring_faces_front(
    listener: Listener,
    desired: Desired,
    platform: Platform,
    state: Option<u32>,
    relative: Pose,
    bridge: BridgeReading,
)
    requires
        desired.source != HeadSource::PoseBridge,
        desired.recenter != listener.recenter,
    ensures
        listener.aimed(desired, platform, state, relative, bridge).goal == Pose::front(),
        listener.after_aim(desired, platform, state).fallback == Pose::front(),
        listener.after_aim(desired, platform, state).recenter == desired.recenter,
{
}

/// A sensor that stops delivering leaves the pose where it is.
pub proof fn a_lost_sensor_leaves_the_pose_where_it_is(
    listener: Listener,
    desired: Desired,
    platform: Platform,
    state: Option<u32>,
    relative: Pose,
    bridge: BridgeReading,
)
    requires
        listener.was_sensor,
        desired.senses(platform),
        state != Some(DELIVERING),
        desired.recenter == listener.recenter,
    ensures
        listener.aimed(desired, platform, state, relative, bridge).goal == listener.resolved,
        listener.after_aim(desired, platform, state).fallback == listener.resolved,
{
}

/// A target that has not had a pose yet is sent one, however still the head is.
pub proof fn a_new_target_receives_the_pose(
    listener: Listener,
    tracker: HeadTracker,
    desired: Desired,
    platform: Platform,
    bridge: BridgeReading,
    target: u64,
    pose: [u32; 3],
)
    requires
        target != tracker.target_revision,
        listener.last_sent == Some((tracker.target_revision, pose)),
    ensures
        listener.sends(desired, platform, target, bridge, false),
{
}

/// While the AirPods are sampled and deliver, the tick aims where the head points, as
/// measured from the reference, and approaches it.
pub proof fn a_delivering_sensor_is_followed(
    listener: Listener,
    desired: Desired,
    platform: Platform,
    relative: Pose,
    bridge: BridgeReading,
)
    requires
        platform.renderer && platform.macos,
        desired.enabled,
        desired.source == HeadSource::AirPods || desired.source == HeadSource::Automatic,
        desired.recenter == listener.recenter,
    ensures
        ({
            let aim = listener.aimed(desired, platform, Some(2), relative, bridge);
            &&& aim.goal == relative
            &&& desired.held_pose is None ==> aim.status == HeadStatus::AirPods && aim.motion
                == Motion::Approach
            &&& aim.measurement is None
        }),
        listener.after_aim(desired, platform, Some(2)).was_sensor,
        listener.after_aim(desired, platform, Some(2)).fallback == listener.resolved,
        desired.senses(platform),
        DELIVERING == 2,
{
}

/// While the bridge is sampled, the tick aims where the bridge points and reports what it
/// measured. Frozen, or without a time constant, it is there at once; otherwise it
/// approaches within the time constant that was asked for.
pub proof fn a_bridge_is_followed(
    listener: Listener,
    desired: Desired,
    platform: Platform,
    state: Option<u32>,
    relative: Pose,
    bridge: BridgeReading,
)
    requires
        platform.bridge,
        desired.enabled,
        desired.source == HeadSource::PoseBridge,
    ensures
        ({
            let aim = listener.aimed(desired, platform, state, relative, bridge);
            &&& aim.goal == bridge.goal
            &&& aim.measurement == bridge.measurement
            &&& desired.held_pose is None && bridge.active && !bridge.frozen ==> aim.status
                == HeadStatus::BridgeActive
            &&& desired.held_pose is None && bridge.frozen && bridge.known ==> aim.status
                == HeadStatus::BridgeFrozen
            &&& desired.held_pose is None && !bridge.active && !bridge.known ==> aim.status
                == HeadStatus::BridgeWaiting
            &&& desired.held_pose is None && bridge.frozen ==> aim.motion == Motion::Jump
            &&& desired.held_pose is None && !bridge.frozen && 0 < desired.bridge_smoothing_ms
                < 0x8000_0000 ==> aim.motion == Motion::ApproachWithin(
                desired.bridge_smoothing_ms,
            )
            &&& desired.held_pose is None && desired.bridge_smoothing_ms == 0 ==> aim.motion
                == Motion::Jump
        }),
        listener.after_aim(desired, platform, state).was_bridge,
        listener.after_aim(desired, platform, state).fallback == listener.resolved,
        desired.bridges(platform),
{
}

/// Turned by hand, the tick aims at the pose that was set by hand.
pub proof fn a_pose_by_hand_is_followed(
    listener: Listener,
    desired: Desired,
    platform: Platform,
    state: Option<u32>,
    relative: Pose,
    bridge: BridgeReading,
    pose: Pose,
)
    requires
        desired.enabled,
        desired.recenter == listener.recenter,
        listener.revision <= desired.revision < u64::MAX,
    ensures
        ({
            let asked = desired.turned(pose);
            let begun = listener.begun(asked, platform);
            let aim = begun.aimed(asked, platform, state, relative, bridge);
            &&& aim.goal == pose
            &&& aim.status == HeadStatus::Manual
            &&& aim.motion == Motion::Approach
            &&& begun.after_aim(asked, platform, state).fallback == pose
        }),
{
}

/// Where nothing drives the pose here, the listener faces front. Switched off, at once.
pub proof fn an_undriven_pose_faces_front(
    listener: Listener,
    desired: Desired,
    platform: Platform,
    state: Option<u32>,
    relative: Pose,
    bridge: BridgeReading,
)
    requires
        !desired.enabled || desired.source == HeadSource::Off,
        desired.held_pose is None,
    ensures
        ({
            let aim = listener.aimed(desired, platform, state, relative, bridge);
            &&& aim.goal == (Pose { w: 0x3ff0_0000_0000_0000, x: 0, y: 0, z: 0 })
            &&& desired.system ==> aim.status == HeadStatus::System
            &&& !desired.system ==> aim.status == HeadStatus::Fixed
            &&& aim.measurement is None
            &&& !desired.enabled ==> aim.motion == Motion::Jump
        }),
{
}

/// A sensor that never delivered leaves the last pose by hand, and says why.
pub proof fn a_silent_sensor_leaves_the_pose_by_hand(
    listener: Listener,
    desired: Desired,
    platform: Platform,
    state: Option<u32>,
    relative: Pose,
    bridge: BridgeReading,
)
    requires
        !listener.was_sensor,
        desired.senses(platform),
        state != Some(2u32),
        desired.recenter == listener.recenter,
        desired.held_pose is None,
    ensures
        ({
            let aim = listener.aimed(desired, platform, state, relative, bridge);
            &&& aim.goal == listener.fallback
            &&& state == Some(1u32) ==> aim.status == HeadStatus::Waiting
            &&& state == Some(3u32) ==> aim.status == HeadStatus::Denied
            &&& state == Some(5u32) ==> aim.status == HeadStatus::MissingBundle
            &&& state is None || state == Some(4u32) ==> aim.status == HeadStatus::Disconnected
            &&& aim.status != HeadStatus::AirPods
        }),
        !listener.after_aim(desired, platform, state).was_sensor,
        listener.after_aim(desired, platform, state).fallback == listener.fallback,
{
}

/// A sensor is sampled exactly where the platform renders here and has it, tracking is on
/// and the source asks for it; the bridge likewise. Never both.
pub proof fn a_source_is_sampled_where_it_is_asked_for(desired: Desired, platform: Platform)
    ensures
        desired.senses(platform) ==> platform.renderer && platform.macos && desired.enabled,
        desired.senses(platform) ==> desired.source == HeadSource::AirPods || desired.source
            == HeadSource::Automatic,
        platform.renderer && platform.macos && desired.enabled && desired.source
            == HeadSource::Automatic ==> desired.senses(platform),
        desired.bridges(platform) <==> platform.bridge && desired.enabled && desired.source
            == HeadSource::PoseBridge,
        !(desired.senses(platform) && desired.bridges(platform)),
{
}

/// A sample is measured from the reference of the one before. The first of a run is
/// measured so that the pose does not jump, and one that recentres is itself front.
pub proof fn a_reference_lasts_as_long_as_the_sensor(
    listener: Listener,
    desired: Desired,
    sample: SensorSample,
)
    ensures
        desired.recenter == listener.recenter && listener.was_sensor ==> listener.referenced(
            desired,
            sample,
        ) == listener.reference,
        desired.recenter == listener.recenter && !listener.was_sensor ==> listener.referenced(
            desired,
            sample,
        ) == sample.anchored,
        desired.recenter != listener.recenter ==> listener.referenced(desired, sample)
            == sample.raw,
{
}

/// What is presented is the goal where the aim jumps, the point that was reached where it
/// approaches, and the held pose where it holds.
pub proof fn an_aim_is_presented_as_it_moves(aim: Aim, approached: Pose, held: Pose)
    ensures
        aim.motion == Motion::Jump ==> Listener::reached(aim, approached) == aim.goal,
        aim.motion == Motion::Approach ==> Listener::reached(aim, approached) == approached,
        aim.motion is ApproachWithin ==> Listener::reached(aim, approached) == approached,
        aim.motion == Motion::Hold(held) ==> Listener::reached(aim, approached) == held,
{
}

/// A pose by hand becomes the one to fall back on, once.
pub proof fn a_pose_by_hand_is_taken_in_once(
    listener: Listener,
    desired: Desired,
    platform: Platform,
)
    ensures
        ({
            let begun = listener.begun(desired, platform);
            &&& listener.revision != desired.revision ==> begun.fallback == desired.manual
            &&& listener.revision == desired.revision ==> begun.fallback == listener.fallback
            &&& begun.revision == desired.revision
            &&& begun.resolved == listener.resolved
            &&& begun.reference == listener.reference
            &&& begun.recenter == listener.recenter
            &&& begun.last_sent == listener.last_sent
            &&& desired.senses(platform) ==> begun.was_sensor == listener.was_sensor
            &&& platform.renderer && !desired.senses(platform) ==> !begun.was_sensor
            &&& begun.begun(desired, platform) == begun
        }),
{
}

/// A target that has the last pose is sent another only where the pose moved, or where
/// the bridge that drives it delivers a new sample. A bridge that delivers nothing sends
/// nothing.
pub proof fn a_still_pose_is_not_sent_again(
    listener: Listener,
    desired: Desired,
    platform: Platform,
    bridge: BridgeReading,
    target: u64,
    pose: [u32; 3],
)
    requires
        listener.last_sent == Some((target, pose)),
    ensures
        !desired.bridges(platform) ==> !listener.sends(desired, platform, target, bridge, false),
        !desired.bridges(platform) ==> listener.sends(desired, platform, target, bridge, true),
        desired.bridges(platform) && (!bridge.active || bridge.frozen) ==> !listener.sends(
            desired,
            platform,
            target,
            bridge,
            true,
        ),
        desired.bridges(platform) && bridge.active && !bridge.frozen ==> listener.sends(
            desired,
            platform,
            target,
            bridge,
            true,
        ) && listener.sends(desired, platform, target, bridge, false) == bridge.new_sample,
{
}

/// Asking for another source, turning by hand, recentring and holding change what they
/// say and nothing else.
pub proof fn each_control_changes_what_it_says(
    desired: Desired,
    source: HeadSource,
    enabled: bool,
    system: bool,
    pose: Pose,
)
    requires
        desired.revision < u64::MAX,
        desired.recenter < u64::MAX,
    ensures
        desired.configured(source, enabled, system).source == source,
        desired.configured(source, enabled, system).enabled == enabled,
        desired.configured(source, enabled, system).system == system,
        desired.configured(source, enabled, system).manual == desired.manual,
        desired.configured(source, enabled, system).revision == desired.revision,
        desired.configured(source, enabled, system).recenter == desired.recenter,
        desired.turned(pose).manual == pose,
        desired.turned(pose).source == HeadSource::Manual,
        desired.turned(pose).revision == desired.revision + 1,
        desired.turned(pose).enabled == desired.enabled,
        desired.turned(pose).recenter == desired.recenter,
        desired.recentered().recenter == desired.recenter + 1,
        desired.recentered().source == desired.source,
        desired.recentered().manual == desired.manual,
        desired.recentered().revision == desired.revision,
        desired.enabled && desired.source != HeadSource::Off && desired.held_pose is None
            ==> desired.toggled(pose).held_pose == Some(pose),
        desired.enabled && desired.source != HeadSource::Off && desired.held_pose is Some
            ==> desired.toggled(pose).held_pose is None,
        desired.toggled(pose).source == desired.source,
{
}

} // verus!
