use ac4_player::backend::atmos::{AtmosController, AtmosStep, HelperStatus, PresentationGate};
use ac4_player::backend::controller::{
    ConfigureStep, HotStep, HptfReadout, HptfStatus, OutputEvents, Preparing,
    SpatialOutputController, SystemOutput,
};
use ac4_player::backend::output::{
    OutputDeviceInfo, OutputDeviceSelection, OutputPhase, OutputSnapshot, OutputStreamConfig,
    Platform, SpatialBackendKind,
};
use ac4_player::backend::settings::{OutputSettings, SpeakerLayout};
use ac4_player::decoder::signature::SceneSignature;
use ac4_player::head_tracking::HeadSource;

fn platform() -> Platform {
    Platform {
        automatic: SpatialBackendKind::SystemSpatial,
        windows: false,
        macos: true,
        renderer: true,
        bridge: false,
    }
}

fn status(device: u32, failed: bool, error: &str) -> Result<HelperStatus, String> {
    Ok(HelperStatus {
        state: "Playing".to_owned(),
        failed,
        default_device: device,
        channels: 12,
        frames: 480,
        loops: 2,
        live_items: 3,
        live_taps: 1,
        error: error.to_owned(),
    })
}

fn none() -> Result<HelperStatus, String> {
    Err("no helper".to_owned())
}

fn shown(step: AtmosStep) -> String {
    match step {
        AtmosStep::Show(text) | AtmosStep::Pause(text) => text,
        other => panic!("nothing to show in {other:?}"),
    }
}

#[test]
fn waits_for_actual_progress_in_each_epoch_and_survives_a_pause() {
    let mut gate = PresentationGate::default();
    assert!(!gate.observe(96_000));
    assert!(!gate.observe(96_000));
    assert!(gate.observe(97_024));
    assert!(gate.observe(97_024));
    gate = PresentationGate::default();
    assert!(!gate.observe(480_000));
    assert!(gate.observe(481_024));
}

#[test]
fn disabled_and_terminal_states_release_without_starting_a_helper() {
    let mut control = AtmosController::failed("injected failure".to_owned());
    for position in [10, 100] {
        assert_eq!(
            shown(control.update(true, true, OutputPhase::Playing, position, none())),
            "Unavailable: injected failure"
        );
    }
    control.update(false, true, OutputPhase::Playing, 100, none());
    assert!(control.failure.is_none());
    for phase in [OutputPhase::Idle, OutputPhase::Ended, OutputPhase::Failed] {
        assert_eq!(shown(control.update(true, true, phase, 100, none())), "Inactive");
        assert!(!control.helper);
    }
}

#[test]
fn a_helper_is_started_played_and_released_with_its_device() {
    let mut control = AtmosController::default();
    let playing = OutputPhase::Playing;
    assert_eq!(
        shown(control.update(true, true, playing, 0, none())),
        "Waiting for PCM presentation"
    );
    assert_eq!(shown(control.update(true, false, playing, 10, none())), "Paused");
    assert!(matches!(control.update(true, true, playing, 20, none()), AtmosStep::Start));
    assert_eq!(control.started(Ok(())), None);
    assert!(matches!(
        control.update(true, true, playing, 30, status(4, false, "")),
        AtmosStep::Play
    ));
    assert_eq!(
        control.reported(status(4, false, "")),
        "Playing · 12 ch · 480 frames · 2 loops · 3 items / 1 taps"
    );
    assert_eq!(
        control.reported(status(4, false, "late")),
        "Playing · 12 ch · 480 frames · 2 loops · 3 items / 1 taps · late"
    );
    assert_eq!(
        shown(control.update(true, true, playing, 40, status(5, false, ""))),
        "Waiting for PCM after output-device change"
    );
    assert!(!control.helper);
    assert!(matches!(control.update(true, true, playing, 50, none()), AtmosStep::Start));
    assert_eq!(control.started(Err("busy".to_owned())), Some("Unavailable: busy".to_owned()));
    assert_eq!(control.reported(Err("gone".to_owned())), "Unavailable: gone");
    assert_eq!(
        shown(control.update(false, true, playing, 60, none())),
        "Inactive for current settings"
    );
}

#[test]
fn defaults_and_layout_catalog_are_fixed() {
    let settings = OutputSettings::default();
    assert_eq!(settings.layout.label(), "7.1.4");
    assert!(settings.split_lfe);
    assert_eq!(
        SpeakerLayout::ALL.map(SpeakerLayout::label),
        ["7.1.4", "9.1.6", "22.2"]
    );
    assert_eq!(
        SpeakerLayout::ALL.map(SpeakerLayout::core_id),
        ["4+7+0", "9.1.6", "9+10+3"]
    );
    assert_eq!(SpeakerLayout::ALL.map(SpeakerLayout::dynamic_budget), [0, 4, 11]);
}

#[test]
fn headphone_compensation_is_off_by_default_and_hot_swaps_without_a_rebuild() {
    let before = OutputSettings::default();
    assert!(before.hptf.is_empty());
    assert!(!before.hptf_auto_trim);
    let mut after = before.dup();
    after.hptf = "Sony MDR-MV1 ParametricEQ.txt".to_owned();
    after.hptf_auto_trim = true;
    assert!(!before.needs_rebuild(&after, platform()));
    assert!(!after.needs_rebuild(&before, platform()));
    let mut broken = after.dup();
    broken.hptf.push('\0');
    assert!(broken.validated(platform()).hptf.is_empty());
}

#[test]
fn only_the_renderer_owned_headphone_feed_can_be_compensated() {
    let mut settings = OutputSettings::default();
    settings.hptf = "a.txt".to_owned();
    for (mode, applicable) in [
        (SpatialBackendKind::SafBinaural, true),
        (SpatialBackendKind::SystemSpatial, false),
        (SpatialBackendKind::WindowsSpatialAudio, false),
    ] {
        settings.mode = mode;
        assert_eq!(settings.hptf_applicable(platform()), applicable);
        assert_eq!(settings.hptf(platform()).profile.is_empty(), !applicable);
        let device = OutputDeviceSelection::EndpointId("speakers".to_owned());
        let opened = settings.session_device(&device, platform());
        assert_eq!(opened, if applicable { "speakers" } else { "" });
        let any = settings.session_device(&OutputDeviceSelection::SystemDefault, platform());
        assert_eq!(any, "");
    }
}

#[test]
fn devices_and_their_catalog_follow_the_output_mode() {
    let mut output = controller();
    let own = || OutputDeviceSelection::EndpointId("headphones".to_owned());
    output.settings.stereo_device = own();
    output.pcm_error = Some("no headphones".to_owned());
    let system = SystemOutput {
        devices: Vec::new(),
        catalog_ready: true,
        catalog_error: Some("no system".to_owned()),
        configured_device: None,
        resolved_device: None,
        configured: false,
    };
    output.settings.mode = SpatialBackendKind::SafBinaural;
    assert!(output.preferred_device().same(&own()));
    assert_eq!(output.device_catalog_error(&system).as_deref(), Some("no headphones"));
    output.settings.mode = SpatialBackendKind::SystemSpatial;
    assert!(output.preferred_device().same(&OutputDeviceSelection::SystemDefault));
    assert_eq!(output.device_catalog_error(&system).as_deref(), Some("no system"));
}

#[test]
fn a_starting_output_shows_its_label_and_its_place() {
    let snapshot = OutputSnapshot::starting("Binaural".to_owned(), 480);
    assert_eq!(snapshot.phase, OutputPhase::Initializing);
    assert_eq!(snapshot.device_label, "Binaural");
    assert_eq!(snapshot.playhead_frames, 480);
    assert!(snapshot.error.is_none() && !snapshot.preview);
}

#[test]
fn old_settings_enable_assist_and_toggle_does_not_rebuild_audio() {
    let before = OutputSettings::default();
    assert!(before.atmos_label_assist);
    let mut after = before.dup();
    after.atmos_label_assist = false;
    assert!(!before.needs_rebuild(&after, platform()));
    after.mode = SpatialBackendKind::SystemSpatial;
    after.layout = SpeakerLayout::TwentyTwoTwo;
    assert!(!after.atmos_label_applicable(platform()));
    after.layout = SpeakerLayout::NineOneSix;
    assert!(!after.atmos_label_applicable(platform()));
    after.layout = SpeakerLayout::SevenOneFour;
    assert!(after.atmos_label_applicable(platform()));
    assert!(!after.atmos_label_assist);
}

#[test]
fn stored_settings_are_repaired_for_the_platform() {
    let mut settings = OutputSettings::default();
    settings.mode = SpatialBackendKind::WindowsSpatialAudio;
    settings.sofa = "a\0b".to_owned();
    settings.hptf_bass_db = f32::NAN.to_bits();
    settings.hptf_tilt_db = 1.5_f32.to_bits();
    settings.head_source = HeadSource::AirPods;
    settings.native_device = OutputDeviceSelection::EndpointId(String::new());
    settings.stereo_device = OutputDeviceSelection::EndpointId("dac".to_owned());
    let mut other = platform();
    other.macos = false;
    let valid = settings.validated(other);
    assert_eq!(valid.mode, SpatialBackendKind::Automatic);
    assert!(valid.sofa.is_empty());
    assert_eq!(f32::from_bits(valid.hptf_bass_db), 0.0);
    assert_eq!(f32::from_bits(valid.hptf_tilt_db), 1.5);
    assert_eq!(valid.head_source, HeadSource::Manual);
    assert_eq!(valid.native_device, OutputDeviceSelection::SystemDefault);
    assert_eq!(valid.stereo_device, OutputDeviceSelection::EndpointId("dac".to_owned()));
    let mut loud = OutputSettings::default();
    loud.mode = SpatialBackendKind::SafBinaural;
    loud.hptf = "a.txt".to_owned();
    loud.hptf_bass_db = 99.0_f32.to_bits();
    assert_eq!(f32::from_bits(loud.hptf_adjustment(platform()).bass_db), 6.0);
    assert!(loud.renderer(platform()).binaural);
}

fn controller() -> SpatialOutputController {
    SpatialOutputController::new(platform(), OutputSnapshot::idle())
}

fn binaural(profile: &str) -> OutputSettings {
    let mut settings = OutputSettings::default();
    settings.mode = SpatialBackendKind::SafBinaural;
    settings.hptf = profile.to_owned();
    settings
}

fn config(request: u64, epoch: u64) -> OutputStreamConfig {
    OutputStreamConfig::new(
        request,
        epoch,
        0,
        48_000,
        SceneSignature::new(1, 0, None, vec![7], None),
        OutputDeviceSelection::SystemDefault,
    )
    .unwrap()
}

fn quiet() -> OutputEvents {
    OutputEvents {
        catalog: None,
        switched: None,
        compensated: None,
        native: None,
        system: OutputSnapshot::idle(),
    }
}

fn system() -> SystemOutput {
    SystemOutput {
        devices: Vec::new(),
        catalog_ready: false,
        catalog_error: None,
        configured_device: None,
        resolved_device: None,
        configured: false,
    }
}

fn running(profile: &str) -> SpatialOutputController {
    let mut output = controller();
    assert!(output.install_settings(binaural(profile)).is_none());
    assert_eq!(output.ensure_configured(&config(41, 1)), ConfigureStep::Spawn);
    assert!(!output.begin_spawn());
    let mut snapshot = OutputSnapshot::idle();
    snapshot.phase = OutputPhase::Ready;
    let ticket = output.spawned(config(41, 1), Ok(snapshot));
    assert_eq!(ticket.is_some(), !profile.is_empty());
    output
}

#[test]
fn failed_hptf_switch_preserves_the_active_profile_and_allows_retry() {
    let mut output = running("");
    let mut settings = output.settings().dup();
    settings.hptf = "good.txt".to_owned();
    let ticket = match output.hot_settings(settings.dup()) {
        HotStep::Installed { compensation: Some(ticket), .. } => ticket,
        other => panic!("{other:?}"),
    };
    assert!(output.settings_pending());
    let mut events = quiet();
    events.compensated = Some((ticket.revision, Ok(true)));
    output.poll(events);
    let applied = HptfStatus { enabled: true, applied_revision: ticket.revision };
    assert_eq!(output.active_hptf(applied).map(String::as_str), Some("good.txt"));

    settings.hptf = "bad.txt".to_owned();
    let ticket = match output.hot_settings(settings.dup()) {
        HotStep::Installed { compensation: Some(ticket), .. } => ticket,
        other => panic!("{other:?}"),
    };
    let mut events = quiet();
    events.compensated = Some((ticket.revision, Err("HpTF: not a profile".to_owned())));
    let (first, second) = output.poll(events);
    assert!(first.is_none() && second.is_none(), "a refused profile must not be asked for again");
    assert!(output.take_hptf_error().unwrap().contains("HpTF"));
    assert_eq!(output.active_hptf(applied).map(String::as_str), Some("good.txt"));
    assert_eq!(output.settings().hptf, "good.txt");
    assert!(!output.settings_pending());
    // Nothing runs on an output that the profile does not apply to.
    output.settings.mode = SpatialBackendKind::SystemSpatial;
    assert!(output.active_hptf(applied).is_none());
    assert!(output.active_hptf_adjustment(applied).is_flat());
    output.settings.mode = SpatialBackendKind::SafBinaural;
    // Choosing the corrected file again must not be suppressed.
    assert!(matches!(
        output.hot_settings(settings),
        HotStep::Installed { compensation: Some(_), .. }
    ));
    assert_eq!(
        output.hptf_readout(HptfReadout { bands: 3, ..HptfReadout::default() }).bands,
        3
    );
}

#[test]
fn auxiliary_failure_does_not_fail_or_rewind_primary_playback() {
    let mut output = controller();
    output.settings.mode = SpatialBackendKind::SystemSpatial;
    output.playing = true;
    output.snapshot.phase = OutputPhase::Playing;
    output.snapshot.playhead_frames = 48_000;
    output.atmos = AtmosController::failed("injected tap failure".to_owned());
    let text = shown(output.poll_atmos(none()));
    output.show_atmos(text);
    assert_eq!(output.snapshot.phase, OutputPhase::Playing);
    assert_eq!(output.snapshot.playhead_frames, 48_000);
    assert!(output.snapshot.error.is_none());
    assert!(output
        .snapshot
        .atmos_assist
        .as_ref()
        .unwrap()
        .contains("injected tap failure"));
}

#[test]
fn leaving_714_disables_assist_and_returning_waits_for_fresh_pcm() {
    for mode in [SpatialBackendKind::Automatic, SpatialBackendKind::SystemSpatial] {
        for layout in [SpeakerLayout::NineOneSix, SpeakerLayout::TwentyTwoTwo] {
            let mut output = controller();
            output.settings.mode = mode;
            output.playing = true;
            output.snapshot.phase = OutputPhase::Playing;
            output.snapshot.playhead_frames = 48_000;
            output.atmos = AtmosController::failed("injected tap failure".to_owned());
            assert!(shown(output.poll_atmos(none())).contains("injected tap failure"));

            let mut settings = output.settings().dup();
            settings.layout = layout;
            output.install_settings(settings.dup());
            assert_eq!(shown(output.poll_atmos(none())), "Inactive for current settings");
            assert!(output.settings().atmos_label_assist);

            settings.layout = SpeakerLayout::SevenOneFour;
            output.install_settings(settings);
            assert_eq!(shown(output.poll_atmos(none())), "Waiting for PCM presentation");
            assert!(output.settings().atmos_label_assist);
            assert_eq!(output.snapshot.phase, OutputPhase::Playing);
            assert_eq!(output.snapshot.playhead_frames, 48_000);
            assert!(output.snapshot.error.is_none());
        }
    }
}

#[test]
fn selected_sofa_is_not_active_without_a_native_runtime() {
    let mut output = controller();
    let mut settings = OutputSettings::default();
    settings.mode = SpatialBackendKind::SafBinaural;
    settings.sofa = "selected-before-playback.sofa".to_owned();
    output.hot_settings(settings);
    assert_eq!(output.take_settings_result(), Some(Ok(())));
    assert!(output.active_sofa().is_none());
    // A ready legacy/preview snapshot cannot prove a native HRTF was loaded.
    output.snapshot.phase = OutputPhase::Ready;
    assert!(output.active_sofa().is_none());
    output.runtime = true;
    assert_eq!(
        output.active_sofa().map(String::as_str),
        Some("selected-before-playback.sofa")
    );
}

#[test]
fn a_new_track_keeps_the_output_while_its_decoder_opens() {
    let mut output = running("");
    assert!(output.play());
    assert_eq!(output.ensure_configured(&config(41, 1)), ConfigureStep::Unchanged);
    for _ in 0..3 {
        assert!(!output.suspend_for_source_change());
    }
    assert!(!output.is_configured_for_playback(41, 1, &system()));
    assert!(output.runtime);
    assert_eq!(output.ensure_configured(&config(42, 1)), ConfigureStep::Replace);
    output.source_replaced(config(42, 1), OutputSnapshot::idle());
    assert!(output.is_configured_for_playback(42, 1, &system()));
    // Changing format while the next decoder opens must release the held
    // output, rather than requesting an incompatible same-format hot swap.
    output.suspend_for_source_change();
    let mut desired = output.settings().dup();
    desired.mode = SpatialBackendKind::SystemSpatial;
    assert!(matches!(
        output.hot_settings(desired),
        HotStep::Installed { reset: true, .. }
    ));
    assert_eq!(output.take_settings_result(), Some(Ok(())));
    assert_eq!(output.settings().mode, SpatialBackendKind::SystemSpatial);
    assert!(!output.runtime);
}

#[test]
fn failed_or_stale_preparation_cannot_replace_current_settings() {
    let mut output = controller();
    let mut invalid = binaural("");
    invalid.sofa = "/missing/test-listener.sofa".to_owned();
    assert_eq!(
        output.prepare_settings(&invalid, &system()),
        Ok(OutputDeviceSelection::SystemDefault)
    );
    output.preparing(9, 1);
    assert!(output.take_prepared_settings(9, 1, Preparing::Running).is_none());
    assert_eq!(
        output.prepare_settings(&invalid, &system()).unwrap_err(),
        "An audio settings change is already being prepared"
    );
    let failed = output
        .take_prepared_settings(9, 1, Preparing::Done(Err("missing".to_owned())))
        .unwrap();
    assert!(failed.is_err());
    assert_eq!(output.settings().mode, SpatialBackendKind::Automatic);
    output.preparing(9, 1);
    assert!(output.take_prepared_settings(9, 2, Preparing::Running).is_none());
    assert!(!output.settings_pending());
    output.preparing(9, 3);
    assert_eq!(
        output.take_prepared_settings(9, 3, Preparing::Lost).unwrap().unwrap_err(),
        "Audio output preparation stopped unexpectedly"
    );
    output.install_prepared_settings(binaural(""));
    assert!(output.prepared);
    assert_eq!(output.ensure_configured(&config(9, 4)), ConfigureStep::Spawn);
    assert!(output.begin_spawn());
}

#[test]
fn a_renderer_switch_takes_effect_only_once_it_is_accepted() {
    let mut output = running("");
    let mut settings = output.settings().dup();
    settings.sofa = "new.sofa".to_owned();
    assert!(matches!(output.hot_settings(settings.dup()), HotStep::Switch(_)));
    assert!(output.settings().sofa.is_empty());
    assert!(matches!(output.hot_settings(settings.dup()), HotStep::Refused));
    assert_eq!(
        output.take_settings_result(),
        Some(Err("A renderer update is already being prepared".to_owned()))
    );
    let mut events = quiet();
    events.switched = Some(Err("bad file".to_owned()));
    output.poll(events);
    assert!(output.settings().sofa.is_empty());
    assert_eq!(output.take_settings_result(), Some(Err("bad file".to_owned())));
    output.hot_settings(settings);
    let mut events = quiet();
    events.switched = Some(Ok(()));
    output.poll(events);
    assert_eq!(output.settings().sofa, "new.sofa");
}

#[test]
fn devices_are_resolved_for_the_mode_in_use() {
    let device = |id: &str, default, objects| OutputDeviceInfo {
        id: id.to_owned(),
        label: id.to_owned(),
        is_default: default,
        max_dynamic_objects: objects,
        spatial_error: None,
    };
    let mut output = controller();
    let mut settings = binaural("");
    settings.stereo_device = OutputDeviceSelection::EndpointId("dac".to_owned());
    output.install_settings(settings);
    assert_eq!(
        output.resolved_device(&system()),
        Some(OutputDeviceSelection::SystemDefault)
    );
    let mut events = quiet();
    events.catalog = Some(Ok(vec![device("dac", false, None)]));
    output.poll(events);
    assert!(output.device_catalog_ready(&system()));
    assert_eq!(
        output.resolved_device(&system()),
        Some(OutputDeviceSelection::EndpointId("dac".to_owned()))
    );
    assert_eq!(output.required_dynamic_objects(3), None);
    let mut windows = platform();
    windows.windows = true;
    windows.macos = false;
    let mut output = SpatialOutputController::new(windows, OutputSnapshot::idle());
    let mut settings = OutputSettings::default();
    settings.layout = SpeakerLayout::NineOneSix;
    output.install_settings(settings.dup());
    let mut host = system();
    host.catalog_ready = true;
    host.devices = vec![device("a", true, Some(3))];
    assert_eq!(output.resolved_device(&host), None);
    assert_eq!(
        output.prepare_settings(&settings, &host).unwrap_err(),
        "The default endpoint cannot host the selected speaker layout"
    );
    host.devices = vec![device("a", true, Some(4))];
    assert_eq!(output.resolved_device(&host), Some(OutputDeviceSelection::SystemDefault));
    assert_eq!(output.required_dynamic_objects(3), Some(4));
    settings.mode = SpatialBackendKind::WindowsSpatialAudio;
    assert_eq!(
        output.prepare_settings(&settings, &host).unwrap_err(),
        "This output mode does not support renderer preparation"
    );
    output.install_settings(settings);
    assert_eq!(output.required_dynamic_objects(3), Some(3));
    assert_eq!(output.ensure_configured(&config(1, 1)), ConfigureStep::System);
}

#[test]
fn the_volume_stays_between_silence_and_full_scale() {
    let mut output = controller();
    for (asked, heard) in [(0.5_f32, 0.5_f32), (3.0, 1.0), (-1.0, 0.0), (f32::NAN, 0.0)] {
        output.set_master_gain(asked.to_bits());
        assert_eq!(f32::from_bits(output.gain), heard);
    }
}

#[test]
fn a_source_that_could_not_be_taken_is_recovered_once() {
    let mut output = running("");
    assert!(!output.recover_source_reset(&config(1, 1)));
    assert!(output.recover_source_reset(&config(41, 1)));
    assert_eq!(output.ensure_configured(&config(41, 1)), ConfigureStep::Spawn);
    output.begin_spawn();
    output.spawned(config(41, 1), Err("no device".to_owned()));
    assert_eq!(output.snapshot().phase, OutputPhase::Failed);
    assert_eq!(output.snapshot().error.as_deref(), Some("no device"));
    assert!(!output.recover_source_reset(&config(41, 1)));
}
