use ac4_player::backend::output::{Platform, SpatialBackendKind};
use ac4_player::head_tracking::{
    Attention, BridgeReading, Confidence, Desired, HeadSource, HeadStatus, HeadTracker, Listener,
    Motion, Pose, SensorSample,
};
use ac4_player::posebridge::{Device, Input, Preferences, Transport};

fn platform() -> Platform {
    Platform {
        automatic: SpatialBackendKind::SafBinaural,
        windows: false,
        macos: true,
        renderer: true,
        bridge: true,
    }
}

fn pose(yaw: f64) -> Pose {
    let (sin, cos) = (yaw.to_radians() * 0.5).sin_cos();
    Pose { w: cos.to_bits(), x: 0, y: 0, z: sin.to_bits() }
}

fn silent_bridge() -> BridgeReading {
    BridgeReading {
        goal: Pose::identity(),
        active: false,
        frozen: false,
        known: false,
        new_sample: false,
        measurement: None,
    }
}

/// One tick in which an approach reaches its goal at once.
fn tick(listener: &mut Listener, tracker: &mut HeadTracker) {
    listener.begin(&tracker.desired, platform());
    let aim = listener.aim(&tracker.desired, platform(), None, Pose::identity(), &silent_bridge());
    tracker.presented = listener.present(&aim, aim.goal);
}

#[test]
fn holding_preserves_the_presented_pose_and_source() {
    let mut tracker = HeadTracker::new();
    let mut listener = Listener::default();
    tracker.desired.configure(HeadSource::Manual, true, false);
    tracker.desired.manual(pose(45.0));
    tick(&mut listener, &mut tracker);
    assert_eq!(tracker.snapshot().pose, pose(45.0));
    let presented = tracker.snapshot().pose;
    tracker.desired.toggle_hold(presented);
    tick(&mut listener, &mut tracker);
    assert_eq!(tracker.snapshot().status, HeadStatus::Held);
    // Unrelated output settings may configure the same source again.
    tracker.desired.configure(HeadSource::Manual, true, false);
    tick(&mut listener, &mut tracker);
    assert_eq!(tracker.snapshot().pose, presented);
    assert_eq!(tracker.snapshot().status, HeadStatus::Held);
    tracker.desired.toggle_hold(presented);
    tick(&mut listener, &mut tracker);
    assert_eq!(tracker.snapshot().status, HeadStatus::Manual);
    assert_eq!(tracker.snapshot().pose, pose(45.0));
}

#[test]
fn explicit_head_controls_release_a_hold() {
    for action in 0..4 {
        let mut tracker = HeadTracker::new();
        let mut listener = Listener::default();
        tracker.desired.configure(HeadSource::Manual, true, false);
        tracker.desired.manual(pose(45.0));
        tick(&mut listener, &mut tracker);
        tracker.desired.toggle_hold(pose(45.0));
        tick(&mut listener, &mut tracker);
        assert_eq!(tracker.snapshot().status, HeadStatus::Held);
        let (status, goal) = match action {
            0 => {
                tracker.desired.manual(pose(-30.0));
                (HeadStatus::Manual, pose(-30.0))
            }
            1 => {
                tracker.desired.recenter();
                (HeadStatus::Manual, Pose::identity())
            }
            2 => {
                tracker.desired.configure(HeadSource::Off, true, false);
                (HeadStatus::Fixed, Pose::identity())
            }
            _ => {
                tracker.desired.configure(HeadSource::Manual, false, true);
                (HeadStatus::System, Pose::identity())
            }
        };
        tick(&mut listener, &mut tracker);
        assert_eq!(tracker.snapshot().status, status);
        assert_eq!(tracker.snapshot().pose, goal);
        if action == 3 {
            // A system-owned pose cannot acquire a hidden hold to apply later.
            tracker.desired.toggle_hold(pose(10.0));
            tracker.desired.configure(HeadSource::Manual, true, false);
            tick(&mut listener, &mut tracker);
            assert_eq!(tracker.snapshot().status, HeadStatus::Manual);
        }
    }
}

#[test]
fn a_sensor_starts_where_the_head_is_and_is_kept_when_it_is_lost() {
    let mut desired = Desired::default();
    desired.configure(HeadSource::AirPods, true, false);
    let mut listener = Listener::default();
    listener.resolved = pose(20.0);
    assert_eq!(listener.begin(&desired, platform()).sensor, Attention::Query);
    let sample = SensorSample { state: 2, raw: pose(70.0), anchored: pose(50.0) };
    listener.refer(&desired, &sample);
    assert_eq!(listener.reference, pose(50.0));
    let aim = listener.aim(&desired, platform(), Some(2), pose(20.0), &silent_bridge());
    assert_eq!((aim.goal, aim.status), (pose(20.0), HeadStatus::AirPods));
    listener.present(&aim, pose(20.0));
    for (state, status) in [
        (Some(1), HeadStatus::Waiting),
        (Some(3), HeadStatus::Denied),
        (Some(5), HeadStatus::MissingBundle),
        (None, HeadStatus::Disconnected),
    ] {
        let mut lost = listener;
        let aim = lost.aim(&desired, platform(), state, pose(0.0), &silent_bridge());
        assert_eq!((aim.goal, aim.status), (pose(20.0), status));
    }
    desired.recenter();
    listener.refer(&desired, &sample);
    assert_eq!(listener.reference, pose(70.0));
    let aim = listener.aim(&desired, platform(), Some(2), pose(20.0), &silent_bridge());
    assert_eq!(aim.goal, Pose::identity());
}

#[test]
fn hidden_window_independent_control_freezes_presented_pose() {
    let mut desired = Desired::default();
    desired.configure_bridge(0.0_f32.to_bits(), 100, false);
    desired.configure(HeadSource::PoseBridge, true, false);
    assert_eq!(desired.rest_ms(platform()), 5);
    let mut listener = Listener::default();
    assert_eq!(listener.begin(&desired, platform()).bridge, Attention::Query);
    let fresh = BridgeReading {
        goal: pose(60.0),
        active: true,
        known: true,
        new_sample: true,
        ..silent_bridge()
    };
    let aim = listener.aim(&desired, platform(), None, Pose::identity(), &fresh);
    assert_eq!((aim.status, aim.motion), (HeadStatus::BridgeActive, Motion::Jump));
    listener.present(&aim, Pose::identity());
    assert_eq!(listener.resolved, pose(60.0));
    let stale = BridgeReading {
        goal: pose(60.0),
        frozen: true,
        active: true,
        known: true,
        ..silent_bridge()
    };
    let aim = listener.aim(&desired, platform(), None, Pose::identity(), &stale);
    let shown = listener.present(&aim, Pose::identity());
    assert_eq!((shown.status, shown.pose), (HeadStatus::BridgeFrozen, pose(60.0)));
    let aim = listener.aim(&desired, platform(), None, Pose::identity(), &silent_bridge());
    assert_eq!(aim.status, HeadStatus::BridgeWaiting);
    desired.configure_bridge(10.0_f32.to_bits(), 100, false);
    let aim = listener.aim(&desired, platform(), None, Pose::identity(), &fresh);
    assert_eq!(aim.motion, Motion::ApproachWithin(10.0_f32.to_bits()));
}

#[test]
fn releasing_hold_uses_the_current_sample_in_the_original_reference() {
    let mut tracker = HeadTracker::new();
    let mut listener = Listener::default();
    tracker.desired.configure_bridge(0.0_f32.to_bits(), 500, false);
    tracker.desired.configure(HeadSource::PoseBridge, true, false);
    let mut sample = |tracker: &mut HeadTracker, yaw: f64| {
        listener.begin(&tracker.desired, platform());
        let reading = BridgeReading {
            goal: pose(yaw),
            active: true,
            known: true,
            new_sample: true,
            ..silent_bridge()
        };
        let desired = tracker.desired;
        let aim = listener.aim(&desired, platform(), None, Pose::identity(), &reading);
        tracker.presented = listener.present(&aim, aim.goal);
    };
    sample(&mut tracker, 0.0);
    assert_eq!(tracker.snapshot().status, HeadStatus::BridgeActive);
    sample(&mut tracker, 40.0);
    let held = tracker.snapshot().pose;
    assert_eq!(held, pose(40.0));
    tracker.desired.toggle_hold(held);
    sample(&mut tracker, 70.0);
    assert_eq!((tracker.snapshot().status, tracker.snapshot().pose), (HeadStatus::Held, held));
    tracker.desired.toggle_hold(held);
    sample(&mut tracker, 70.0);
    assert_eq!(tracker.snapshot().status, HeadStatus::BridgeActive);
    assert_eq!(tracker.snapshot().pose, pose(70.0));
}

#[test]
fn a_new_target_is_sent_the_pose_though_the_head_is_still() {
    let mut tracker = HeadTracker::new();
    tracker.desired.configure(HeadSource::Manual, true, false);
    let mut listener = Listener::default();
    let first = tracker.target_revision;
    assert!(listener.should_send(&tracker.desired, platform(), first, &silent_bridge(), false));
    listener.sent(first, [0; 3]);
    assert!(!listener.should_send(&tracker.desired, platform(), first, &silent_bridge(), false));
    assert!(listener.should_send(&tracker.desired, platform(), first, &silent_bridge(), true));
    tracker.set_target();
    let second = tracker.target_revision;
    assert!(listener.should_send(&tracker.desired, platform(), second, &silent_bridge(), false));
    tracker.desired.configure(HeadSource::PoseBridge, true, false);
    assert!(!listener.should_send(&tracker.desired, platform(), first, &silent_bridge(), true));
}

#[test]
fn sources_and_statuses_are_labelled() {
    assert_eq!(
        HeadSource::ALL.map(HeadSource::label),
        [
            "Auto · AirPods / manual",
            "Manual",
            "AirPods",
            "PoseBridge sensor",
            "Fixed orientation"
        ]
    );
    let mut plain = platform();
    plain.macos = false;
    plain.bridge = false;
    assert_eq!(
        HeadSource::ALL.map(|source| source.available(plain)),
        [true, true, false, false, true]
    );
    assert_eq!(HeadStatus::Held.label(), "Orientation held · H to resume");
    assert_eq!(HeadStatus::AirPods.confidence(), Confidence::Tracking);
    assert_eq!(HeadStatus::Manual.confidence(), Confidence::Held);
    assert_eq!(HeadStatus::BridgeFrozen.confidence(), Confidence::Degraded);
}

#[test]
fn missing_preferences_and_invalid_latency_have_safe_defaults() {
    let mut p = Preferences::default();
    assert_eq!(p.max_age_ms, 100);
    assert_eq!(p.device.mounting, [0; 3]);
    p.smoothing_ms = f32::NAN.to_bits();
    p.max_age_ms = 0;
    p.validate(false);
    assert_eq!(p.smoothing_ms, 10.0_f32.to_bits());
    assert_eq!(p.max_age_ms, 50);
    p.smoothing_ms = 99.0_f32.to_bits();
    p.max_age_ms = 9_999;
    p.device.baud = 0;
    p.device.throughput = true;
    p.validate(false);
    assert_eq!(f32::from_bits(p.smoothing_ms), 50.0);
    assert_eq!((p.max_age_ms, p.device.baud, p.device.throughput), (500, 115_200, false));
}

#[test]
fn a_remembered_device_keeps_its_setup() {
    let mut p = Preferences::default();
    p.select(Transport::Usb, "a".to_owned(), "First".to_owned());
    assert!(p.remembered.is_empty(), "a device without a name is not remembered");
    p.device.mounting = [1, -1, 2];
    p.device.input = Input::RegisterQuaternion;
    p.select(Transport::Ble, "b".to_owned(), "Second".to_owned());
    assert_eq!(p.device.mounting, [0; 3]);
    p.select(Transport::Usb, "a".to_owned(), "Other".to_owned());
    assert_eq!(p.device.mounting, [1, -1, 2]);
    assert_eq!(p.device.name, "First");
    p.remember();
    assert_eq!(p.remembered.len(), 2);
    assert_eq!(Device::default().baud, 115_200);
}
