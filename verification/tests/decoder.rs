use ac4_player::decoder::continuity::SceneContinuity;
use ac4_player::decoder::controller::{DecoderController, WorkerCommand, WorkerEvent};
use ac4_player::decoder::frame::{own_scene_frame, validate_samples, CodecBed, CodecFrame, CodecObject};
use ac4_player::decoder::index::{
    build_mp4_index, build_raw_index, finish_index, mp4_context, mp4_timing, raw_payload_range,
    IndexedAccessUnit, MediaIndex, MediaIndexState, Mp4Sample, RawClock, RawSyncFrame,
};
use ac4_player::decoder::level::Level;
use ac4_player::decoder::metadata::element_state_at;
use ac4_player::decoder::queue::{PlaybackKey, QueuePushError, SceneQueue, SceneQueueReader};
use ac4_player::decoder::run::{DecodeRun, Handover, RunStep};
use ac4_player::decoder::scene::{
    DecodedSceneBlock, SceneMetadataUpdate, SceneObjectPcm, SpatialObjectState, SpatialPosition,
    FIELD_GAIN, FIELD_HEAD_TRACKING, FIELD_POSITION,
};
use ac4_player::decoder::signature::SceneSignature;
use ac4_player::decoder::snapshot::{
    apply_index_state, frames_to_milliseconds, inherit_scene_identity, ControllerIndexState,
    DecodeContainer, DecodeMetrics, DecodePhase, DecoderSnapshot,
};
use ac4_player::decoder::tracking::{ContentHeadTracking, TrackingIssue, TrackingSummary};
use ac4_player::decoder::worker::{
    admit_frame, count_unit, finish, has_prebuffer, initial_metrics, is_raw_ac4, offer_block,
    pending_command, plan_retry, plan_start, take_frame, truncate_at, worker_action, Admission,
    DecodeStart, Offer, Polled, RunControl, SeekPreroll, UnitStatus, WorkerAction,
};
use std::path::PathBuf;

fn eval(level: &Level) -> f32 {
    match level {
        Level::Exact(bits) => f32::from_bits(*bits),
        Level::Blend { from, to, elapsed, duration } => {
            let (from, to) = (eval(from), eval(to));
            from + (to - from) * (*elapsed as f32 / *duration as f32)
        }
        Level::Negated(inner) => -eval(inner),
        Level::Unit(inner) => eval(inner).clamp(-1.0, 1.0),
    }
}

fn exact(value: f32) -> Level {
    Level::Exact(value.to_bits())
}

fn block(sample_rate: u32, duration_frames: u32) -> DecodedSceneBlock {
    DecodedSceneBlock::new(
        sample_rate,
        0,
        duration_frames,
        1,
        0,
        None,
        true,
        Vec::new(),
        None,
        Vec::new(),
    )
}

fn indexed_metrics() -> DecodeMetrics {
    DecodeMetrics {
        container: DecodeContainer::RawAc4,
        sample_rate: 48_000,
        presentation_index: 0,
        presentation_id: None,
        object_count: 1,
        has_lfe: false,
        state_complete: true,
        scene_signature: None,
        decoded_access_units: 0,
        decoded_scene_frames: 0,
        decoded_frames: 0,
        buffered_frames: 0,
        buffer_capacity_frames: 96_000,
        metadata_updates: 0,
        duration_frames: Some(480_000),
        seekable_from_frame: Some(48_000),
        indexing: false,
        index_error: None,
        target_frame: 0,
    }
}

#[test]
fn scene_queue_is_bounded_to_two_seconds_and_pop_releases_space() {
    let mut queue = SceneQueue::new();
    let key = PlaybackKey::new(7, 1);
    queue.reset(key);
    let first = queue
        .try_push(key, block(48_000, 48_000))
        .expect("first second should fit");
    assert_eq!(first.buffered_frames, 48_000);
    assert_eq!(first.capacity_frames, 96_000);
    assert!(queue.try_push(key, block(48_000, 48_000)).is_ok());
    match queue.try_push(key, block(48_000, 1)) {
        Err(QueuePushError::Full(returned)) => assert_eq!(returned.duration_frames(), 1),
        other => panic!("expected a full queue, got {other:?}"),
    }
    assert_eq!(queue.try_pop(key).map(|item| item.duration_frames()), Some(48_000));
    assert!(queue.try_push(key, block(48_000, 1)).is_ok());
}

#[test]
fn scene_reader_reports_end_only_after_queued_blocks_are_drained() {
    let mut queue = SceneQueue::new();
    let key = PlaybackKey::new(9, 2);
    queue.reset(key);
    assert!(queue.try_push(key, block(48_000, 2_048)).is_ok());
    queue.mark_end_of_stream(key);
    assert!(!queue.is_end_of_stream(key));
    assert!(queue.try_pop(key).is_some());
    assert!(queue.is_end_of_stream(key));
    let reader = SceneQueueReader { key };
    assert!(reader.is_end_of_stream(&queue));
}

#[test]
fn reset_invalidates_frames_from_an_older_playback_epoch() {
    let mut queue = SceneQueue::new();
    let old = PlaybackKey::new(2, 4);
    let current = PlaybackKey::new(2, 5);
    queue.reset(current);
    assert!(matches!(
        queue.try_push(old, block(48_000, 2_048)),
        Err(QueuePushError::Stale)
    ));
    assert!(queue.try_push(current, block(48_000, 2_048)).is_ok());
}

#[test]
fn queue_rejects_a_midstream_sample_rate_change() {
    let mut queue = SceneQueue::new();
    let key = PlaybackKey::new(4, 0);
    queue.reset(key);
    assert!(queue.try_push(key, block(48_000, 2_048)).is_ok());
    match queue.try_push(key, block(44_100, 2_048)) {
        Err(QueuePushError::Format(message)) => {
            assert!(message.contains("48000"));
            assert!(message.contains("44100"));
        }
        other => panic!("expected a format error, got {other:?}"),
    }
}

#[test]
fn milliseconds_are_derived_from_integer_frames() {
    assert_eq!(frames_to_milliseconds(14_400, 48_000), 300);
    assert_eq!(frames_to_milliseconds(96_000, 48_000), 2_000);
    assert_eq!(frames_to_milliseconds(1, 0), 0);
    let mut metrics = indexed_metrics();
    (metrics.sample_rate, metrics.buffered_frames, metrics.decoded_frames) = (48_000, 4_800, 480);
    assert_eq!(metrics.buffered_milliseconds(), 100);
    assert_eq!(metrics.decoded_milliseconds(), 10);
}

#[test]
fn seekability_requires_a_safe_point_at_or_before_the_target() {
    let metrics = indexed_metrics();
    assert!(!metrics.can_seek_to(47_999));
    assert!(metrics.can_seek_to(48_000));
    assert!(metrics.can_seek_to(480_000));
    assert!(!metrics.can_seek_to(480_001));
}

#[test]
fn asynchronous_index_state_survives_later_decode_snapshots() {
    let mut snapshot = DecoderSnapshot {
        phase: DecodePhase::Ready,
        path: Some(PathBuf::from("cached.mp4")),
        metrics: Some(indexed_metrics()),
        detail: None,
    };
    apply_index_state(&ControllerIndexState::Building, &mut snapshot);
    let metrics = snapshot.metrics().expect("metrics while indexing");
    assert!(metrics.is_indexing());
    assert!(!metrics.can_seek_to(48_000));

    apply_index_state(
        &ControllerIndexState::Ready {
            duration_frames: Some(960_000),
            seekable_from_frame: Some(0),
        },
        &mut snapshot,
    );
    let metrics = snapshot.metrics().expect("metrics after indexing");
    assert!(!metrics.is_indexing());
    assert_eq!(metrics.duration_frames(), Some(960_000));
    assert!(metrics.can_seek_to(1));
}

#[test]
fn a_failed_index_refuses_seeks_and_keeps_its_reason() {
    let mut snapshot = DecoderSnapshot::progress(
        DecodePhase::Ready,
        PathBuf::from("a.ac4"),
        indexed_metrics(),
    );
    apply_index_state(&ControllerIndexState::Failed("truncated".to_owned()), &mut snapshot);
    let metrics = snapshot.metrics().unwrap();
    assert_eq!(metrics.index_error(), Some("truncated"));
    assert!(!metrics.can_seek_to(48_000));
}

#[test]
fn a_later_snapshot_inherits_the_scene_identity() {
    let mut before = indexed_metrics();
    before.scene_signature = Some(SceneSignature::new(1, 0, None, vec![9, 7], Some(3)));
    let previous = DecoderSnapshot::progress(DecodePhase::Ready, PathBuf::from("a.ac4"), before);
    let mut next = DecoderSnapshot::progress(
        DecodePhase::Seeking,
        PathBuf::from("a.ac4"),
        indexed_metrics(),
    );
    inherit_scene_identity(&previous, &mut next);
    let signature = next.metrics().unwrap().scene_signature().expect("inherited");
    assert_eq!(signature.object_element_ids(), [7, 9]);
    assert_eq!(signature.lfe_element_id(), Some(3));
}

fn ready_controller(queue: &mut SceneQueue) -> DecoderController {
    let mut controller = DecoderController::new(Ok(()));
    let path = PathBuf::from("song.ac4");
    assert!(matches!(
        controller.ensure_open(&path, queue),
        Some(WorkerCommand::Open { reuse_cached: false, .. })
    ));
    let key = controller.playback_key();
    controller.poll(vec![
        WorkerEvent::Snapshot {
            key,
            snapshot: DecoderSnapshot::progress(DecodePhase::Ready, path, indexed_metrics()),
        },
        WorkerEvent::IndexFinished {
            request_id: key.request_id,
            duration_frames: Some(480_000),
            seekable_from_frame: Some(0),
            error: None,
        },
    ]);
    controller
}

#[test]
fn opening_seeking_and_closing_start_fresh_playbacks() {
    let mut queue = SceneQueue::new();
    let mut controller = ready_controller(&mut queue);
    let opened = controller.playback_key();
    assert!(controller.ensure_open(&PathBuf::from("song.ac4"), &mut queue).is_none());
    let command = controller.seek(1_000, &mut queue).expect("seekable");
    let sought = controller.playback_key();
    assert_ne!(opened, sought);
    assert!(matches!(command, WorkerCommand::Seek { key, target_frame: 1_000 } if key == sought));
    assert_eq!(controller.snapshot().phase(), DecodePhase::Seeking);
    // What the playback before still reports changes nothing.
    let revision = controller.revision();
    controller.receive(WorkerEvent::Snapshot {
        key: opened,
        snapshot: DecoderSnapshot::idle(),
    });
    assert_eq!(controller.revision(), revision);
    assert!(matches!(controller.close(&mut queue), Some(WorkerCommand::Close)));
    assert_eq!(controller.snapshot().phase(), DecodePhase::Idle);
    assert!(controller.active_path().is_none());
    assert!(controller.close(&mut queue).is_none());
}

#[test]
fn blocks_are_taken_for_the_current_playback_only() {
    let mut queue = SceneQueue::new();
    let mut controller = ready_controller(&mut queue);
    let key = controller.playback_key();
    queue.try_push(key, block(48_000, 480)).unwrap();
    assert_eq!(controller.try_pop_scene_block(&mut queue).unwrap().duration_frames, 480);
    assert!(controller.try_pop_scene_block(&mut queue).is_none());
    queue.try_push(key, block(48_000, 480)).unwrap();
    let other = ready_controller(&mut SceneQueue::new());
    controller.seek(1_000, &mut queue).unwrap();
    assert!(other.try_pop_scene_block(&mut queue).is_none());
    assert!(controller.try_pop_scene_block(&mut queue).is_none());
}

#[test]
fn every_refused_seek_says_why() {
    let mut queue = SceneQueue::new();
    let mut idle = DecoderController::new(Ok(()));
    assert_eq!(idle.seek(0, &mut queue).unwrap_err(), "No active media is loaded");
    idle.ensure_open(&PathBuf::from("a.ac4"), &mut queue);
    assert_eq!(
        idle.seek(0, &mut queue).unwrap_err(),
        "Media indexing has not completed yet"
    );
    let mut controller = ready_controller(&mut queue);
    assert_eq!(
        controller.seek(480_001, &mut queue).unwrap_err(),
        "Seek target 480001 exceeds duration 480000"
    );
    let request_id = controller.request_id();
    controller.receive(WorkerEvent::IndexFinished {
        request_id,
        duration_frames: Some(480_000),
        seekable_from_frame: None,
        error: None,
    });
    // Without a random-access point the end cannot be sought either.
    for target in [5, 480_000] {
        assert_eq!(
            controller.seek(target, &mut queue).unwrap_err(),
            "No complete random-access point exists at or before the seek target"
        );
    }
    controller.receive(WorkerEvent::IndexFinished {
        request_id,
        duration_frames: None,
        seekable_from_frame: None,
        error: Some("broken".to_owned()),
    });
    assert_eq!(
        controller.seek(5, &mut queue).unwrap_err(),
        "Media seek index failed: broken"
    );
    let mut dead = DecoderController::new(Err("no decoder".to_owned()));
    assert_eq!(dead.snapshot().detail(), Some("no decoder"));
    assert!(dead.ensure_open(&PathBuf::from("a.ac4"), &mut queue).is_none());
    dead.worker_stopped(&PathBuf::from("a.ac4"));
    assert_eq!(
        dead.snapshot().detail(),
        Some("MacinDecode Core worker stopped unexpectedly")
    );
}

fn state(x: f32, gain: f32, tracking: ContentHeadTracking) -> SpatialObjectState {
    SpatialObjectState::new(
        true,
        Some(SpatialPosition::new(exact(x), exact(1.0), exact(0.0))),
        Some(exact(gain)),
        true,
    )
    .with_tracking(tracking)
}

fn scene(
    start: i64,
    initial: Option<SpatialObjectState>,
    updates: Vec<SceneMetadataUpdate>,
) -> DecodedSceneBlock {
    DecodedSceneBlock::new(
        48_000,
        start,
        40,
        1,
        0,
        None,
        true,
        vec![SceneObjectPcm::new(7, initial, vec![0.01_f32.to_bits(); 40])],
        None,
        updates,
    )
}

#[test]
fn cross_frame_head_control_preserves_independent_position_and_gain_deadlines() {
    let mut continuity = SceneContinuity::default();
    let from = state(-1.0, 0.0, ContentHeadTracking::SceneRelative);
    let target = state(1.0, 1.0, ContentHeadTracking::SceneRelative);
    let mut first = scene(
        0,
        Some(from),
        vec![
            SceneMetadataUpdate::new(7, 0, 100, FIELD_POSITION, target.dup()),
            SceneMetadataUpdate::new(7, 0, 200, FIELD_GAIN, target.dup()),
        ],
    );
    continuity.normalize(&mut first);
    let steered = target.with_tracking(ContentHeadTracking::HeadRelative);
    let mut second = scene(
        40,
        Some(steered.dup()),
        vec![SceneMetadataUpdate::new(7, 0, 0, FIELD_HEAD_TRACKING, steered.dup())],
    );
    continuity.normalize(&mut second);
    let actual = element_state_at(&second, 7, &second.objects[0].initial_state, 10).unwrap();
    assert!(eval(actual.position().unwrap().x()).abs() < 0.000_001);
    assert!((eval(actual.linear_gain().unwrap()) - 0.25).abs() < 0.000_001);
    assert_eq!(actual.tracking(), ContentHeadTracking::HeadRelative);
    let mut third = scene(80, Some(steered), Vec::new());
    continuity.normalize(&mut third);
    let at_position_end = element_state_at(&third, 7, &third.objects[0].initial_state, 20).unwrap();
    assert!((eval(at_position_end.position().unwrap().x()) - 1.0).abs() < 0.000_001);
    assert!((eval(at_position_end.linear_gain().unwrap()) - 0.5).abs() < 0.000_001);
    assert_eq!(third.metadata_updates[0].ramp_frames(), 20);
    assert_eq!(third.metadata_updates[1].ramp_frames(), 120);
}

#[test]
fn reset_generation_gaps_and_missing_state_do_not_inherit_prior_ramps() {
    let target = state(1.0, 1.0, ContentHeadTracking::HeadRelative);
    for reset in 0..4 {
        let mut continuity = SceneContinuity::default();
        let mut first = scene(
            0,
            Some(state(-1.0, 0.0, ContentHeadTracking::SceneRelative)),
            vec![SceneMetadataUpdate::new(
                7,
                0,
                100,
                FIELD_POSITION | FIELD_GAIN,
                target.dup(),
            )],
        );
        continuity.normalize(&mut first);
        let mut next = scene(40, Some(target.dup()), Vec::new());
        match reset {
            0 => continuity.clear(),
            1 => next.configuration_generation += 1,
            2 => next.start_frame += 1,
            _ => next.objects[0].initial_state = None,
        }
        continuity.normalize(&mut next);
        assert!(next.metadata_updates.is_empty());
        assert_eq!(
            next.objects[0].initial_state,
            if reset == 3 { None } else { Some(target.dup()) }
        );
    }
}

#[test]
fn tracking_is_counted_and_the_first_issue_kept() {
    let mut summary = TrackingSummary::default();
    summary.observe(1, ContentHeadTracking::SceneRelative);
    summary.observe(2, ContentHeadTracking::Unsupported(TrackingIssue::ReservedObjectMode(3)));
    summary.observe(3, ContentHeadTracking::Unsupported(TrackingIssue::UnboundSource));
    summary.observe(4, ContentHeadTracking::HeadRelative);
    summary.observe(5, ContentHeadTracking::Unspecified);
    assert_eq!(
        (
            summary.scene_relative,
            summary.head_relative,
            summary.unspecified,
            summary.unsupported
        ),
        (1, 1, 1, 2)
    );
    assert_eq!(summary.first_issue, Some((2, TrackingIssue::ReservedObjectMode(3))));
    for (issue, text) in [
        (TrackingIssue::ReservedOperationMode(5), "Reserved headphone operation mode 5"),
        (TrackingIssue::ReservedObjectMode(12), "Reserved object headphone mode 12"),
        (TrackingIssue::MissingGlobalControl, "Missing global tracking control"),
        (TrackingIssue::UnboundSource, "No associated audio group"),
        (
            TrackingIssue::ConflictingGroups,
            "Audio groups specify conflicting content policies",
        ),
        (TrackingIssue::Unknown, "Unrecognized content tracking policy"),
    ] {
        assert_eq!(issue.text(), text);
    }
    assert!(ContentHeadTracking::HeadRelative.head_locked());
    assert!(!ContentHeadTracking::Unspecified.head_locked());
}

fn unit(index: u64, start: i64, safe: bool) -> IndexedAccessUnit {
    let mut built = build_raw_index(&vec![Ok(RawSyncFrame {
        offset: 0,
        total_size: 10,
        raw_frame_len: 4,
        has_crc: false,
        sample_rate: Ok(Some(48_000)),
        frame_len: Some(2_048),
        full_random_access: Ok(true),
    })])
    .unwrap();
    let mut unit = built.access_units.remove(0);
    unit.index = index;
    unit.presentation_start = start;
    unit.safe_random_access = safe;
    unit
}

#[test]
fn raw_streams_are_indexed_by_their_own_clock() {
    let frame = |offset: usize, crc: bool| RawSyncFrame {
        offset,
        total_size: 20,
        raw_frame_len: 8,
        has_crc: crc,
        sample_rate: Ok(Some(48_000)),
        frame_len: Some(2_048),
        full_random_access: Ok(true),
    };
    let index = build_raw_index(&vec![Ok(frame(0, false)), Ok(frame(20, true))]).unwrap();
    assert_eq!(index.duration_frames, 4_096);
    assert_eq!(index.access_units.len(), 2);
    assert_eq!(index.access_units[1].presentation_start, 2_048);
    assert_eq!(index.seekable_from_frame, Some(0));
    let (start, end) = raw_payload_range(20, 20, 8, true).unwrap();
    assert_eq!(end - start, 8);
    assert_eq!((index.access_units[1].start, index.access_units[1].end), (start, end));
    assert!(raw_payload_range(0, 3, 8, false).is_err());
    let mut changed = frame(20, false);
    changed.sample_rate = Ok(Some(44_100));
    assert!(build_raw_index(&vec![Ok(frame(0, false)), Ok(changed)]).is_err());
    assert!(build_raw_index(&Vec::new()).is_err());
    assert_eq!(RawClock::new().duration(), Ok(0));
}

#[test]
fn the_last_safe_unit_before_a_target_is_found() {
    let index = MediaIndex::new(
        10_000,
        vec![
            unit(0, 0, true),
            unit(1, 2_048, false),
            unit(2, 4_096, true),
        ],
    )
    .unwrap();
    assert_eq!(index.seek_start_before(5_000, 3), Some(2));
    assert_eq!(index.seek_start_before(4_095, 3), Some(0));
    assert_eq!(index.seek_start_before(5_000, 2), Some(0));
    assert_eq!(index.seek_start_before(-1, 3), None);
    assert_eq!(plan_retry(&index, 5_000, 2, false, "bad".to_owned()), Ok(0));
    assert_eq!(plan_retry(&index, 5_000, 2, true, "bad".to_owned()), Err("bad".to_owned()));
    let ready = MediaIndexState::Ready(index);
    assert!(matches!(
        plan_start(true, 5_000, &ready),
        Ok(DecodeStart::Unit { start: 2, target: 5_000 })
    ));
    assert!(matches!(plan_start(true, 10_000, &ready), Ok(DecodeStart::End)));
    assert!(matches!(plan_start(false, 0, &ready), Ok(DecodeStart::Initial { reset: false })));
    let (state, event) = finish_index(4, Some(1), Err("cut".to_owned()));
    assert_eq!(state.ready().unwrap_err(), "Media seek index failed: cut");
    assert!(matches!(event, WorkerEvent::IndexFinished { request_id: 4, error: Some(_), .. }));
}

#[test]
fn mp4_samples_are_shifted_onto_the_presentation() {
    let timing = mp4_timing(1, 48_000, Ok(256), Ok(Some(-256)), Ok(9_000)).unwrap();
    assert_eq!((timing.sample_rate, timing.priming_samples), (48_000, 256));
    let sample = |index: u32, start: i64| {
        Ok(Mp4Sample {
            start: 10,
            end: 20,
            index,
            is_sync: true,
            source_start: Ok(start),
            full_random_access: Ok(true),
        })
    };
    let index = build_mp4_index(timing, &vec![sample(0, 256), sample(1, 2_304)]).unwrap();
    assert_eq!(index.access_units[0].presentation_start, 0);
    assert_eq!(index.access_units[1].presentation_start, 2_048);
    let second = mp4_context(timing, &sample(1, 2_304)).unwrap();
    assert_eq!(second, index.access_units[1].context());
    assert_eq!(mp4_context(timing, &Err("cut".to_owned())).unwrap_err(), "cut");
    assert_eq!(
        mp4_context(timing, &sample(2, i64::MIN)).unwrap_err(),
        "MP4 presentation position overflow after applying edits"
    );
    assert!(mp4_timing(2, 48_000, Ok(0), Ok(None), Ok(1)).is_err());
}

fn codec_frame(samples: Vec<u32>) -> CodecFrame {
    CodecFrame {
        sample_rate: 48_000,
        duration_samples: 2,
        codec_sample_start: 5,
        presentation_sample_start: Some(3),
        configuration_generation: 1,
        presentation_index: 0,
        presentation_id: None,
        state_complete: true,
        objects: vec![CodecObject {
            element_id: 7,
            initial_state: None,
            samples_per_plane: 2,
            planes: vec![samples],
        }],
        beds: vec![CodecBed {
            element_id: 9,
            initial_state: None,
            components: vec![vec![0, 0]],
        }],
        metadata_updates: Vec::new(),
    }
}

#[test]
fn a_taken_frame_carries_on_what_the_frame_before_left_running() {
    let state = |x: f32| {
        let position = SpatialPosition::new(exact(x), exact(0.0), exact(0.0));
        SpatialObjectState::new(true, Some(position), Some(exact(1.0)), true)
    };
    let frame = |start: i64, updates: Vec<SceneMetadataUpdate>| {
        let mut frame = codec_frame(vec![1, 2]);
        frame.presentation_sample_start = Some(start);
        frame.objects[0].initial_state = Some(state(-1.0));
        frame.metadata_updates = updates;
        frame
    };
    let ramp = SceneMetadataUpdate::new(7, 0, 8, FIELD_POSITION, state(1.0));
    let mut continuity = SceneContinuity::default();
    let first = take_frame(frame(0, vec![ramp]), &mut continuity).unwrap();
    assert_eq!(first.metadata_updates.len(), 1);
    // A refused frame leaves what the next one inherits.
    assert!(take_frame(codec_frame(vec![1]), &mut continuity).is_err());
    let second = take_frame(frame(2, Vec::new()), &mut continuity).unwrap();
    let started = second.objects[0].initial_state.as_ref().unwrap();
    assert_eq!(eval(started.position().unwrap().x()), -0.5);
    assert_eq!(second.metadata_updates.len(), 1);
    assert_eq!(second.metadata_updates[0].ramp_frames(), 6);
    // A frame that does not follow inherits nothing.
    let apart = take_frame(frame(40, Vec::new()), &mut continuity).unwrap();
    assert!(apart.metadata_updates.is_empty());
}

fn run_frame(start: i64) -> CodecFrame {
    let mut frame = codec_frame(vec![1, 2]);
    frame.presentation_sample_start = Some(start);
    frame
}

/// A seek at a rate of which five frames are a prebuffer.
fn seek_run(key: PlaybackKey, target: i64) -> DecodeRun {
    let metrics = initial_metrics(DecodeContainer::RawAc4, 15, Some(100), Some(0), false, 0);
    DecodeRun::new(key, target, metrics, true)
}

#[test]
fn only_the_changes_that_the_decoder_sent_are_counted() {
    let position = |x: f32| SpatialPosition::new(exact(x), exact(0.0), exact(0.0));
    let state = |x| SpatialObjectState::new(true, Some(position(x)), Some(exact(1.0)), true);
    let frame = |start, updates| {
        let mut frame = run_frame(start);
        frame.objects[0].initial_state = Some(state(-1.0));
        frame.metadata_updates = updates;
        frame
    };
    let ramp = SceneMetadataUpdate::new(7, 0, 8, FIELD_POSITION, state(1.0));
    let metrics = initial_metrics(DecodeContainer::RawAc4, 15, None, None, true, 0);
    let mut run = DecodeRun::new(PlaybackKey::new(1, 1), 0, metrics, false);
    let frames = vec![frame(0, vec![ramp]), frame(2, Vec::new())];
    run.decoded(UnitStatus::Decoded, frames).unwrap();
    run.take().unwrap();
    run.take().unwrap();
    // The second block carries the ramp on, but no change came with it.
    assert_eq!(run.blocks[1].metadata_updates.len(), 1);
    assert_eq!(run.metrics.metadata_updates(), 1);
    assert_eq!(run.metrics.decoded_scene_frames(), 2);
}

#[test]
fn a_provisional_seek_hands_nothing_over_and_can_be_tried_again() {
    let index = MediaIndex::new(100, vec![unit(0, 0, true), unit(1, 4, true)]).unwrap();
    let key = PlaybackKey::new(1, 2);
    let mut run = seek_run(key, 5);
    assert_eq!(run.next(), RunStep::Decode);
    assert_eq!(run.preroll.as_ref().unwrap().frames, 0);
    let frames = vec![run_frame(2), run_frame(4), run_frame(6)];
    run.decoded(UnitStatus::Decoded, frames).unwrap();
    for _ in 0..3 {
        assert_eq!(run.next(), RunStep::Take);
        run.take().unwrap();
        assert!(run.blocks.is_empty());
    }
    // The frame before the target is dropped, and the others are kept back.
    assert_eq!(run.preroll.as_ref().unwrap().blocks.len(), 2);
    assert_eq!(run.preroll.as_ref().unwrap().frames, 4);
    assert_eq!(run.next(), RunStep::Decode);
    assert_eq!(run.retry(&index, 1, "missing history".to_owned()).unwrap(), 0);
    assert_eq!(run.retry(&index, 0, "missing history".to_owned()).unwrap_err(), "missing history");
    run.decoded(UnitStatus::WaitingForRandomAccess, vec![run_frame(8)]).unwrap();
    assert_eq!(run.next(), RunStep::Decode);
    assert!(run.decoded(UnitStatus::Unknown, Vec::new()).is_err());
    run.decoded(UnitStatus::Decoded, vec![run_frame(8)]).unwrap();
    run.take().unwrap();
    // The prebuffer is complete: the run is final now.
    assert_eq!(run.next(), RunStep::Offer);
    let starts: Vec<i64> = run.blocks.iter().map(|block| block.start_frame).collect();
    assert_eq!(starts, [4, 6, 8]);
    assert!(run.retry(&index, 1, "late".to_owned()).is_err());
}

#[test]
fn a_run_hands_over_in_order_and_ends_with_the_media() {
    let key = PlaybackKey::new(1, 2);
    let mut queue = SceneQueue::new();
    queue.reset(key);
    let mut run = seek_run(key, 0);
    run.decoded(UnitStatus::Decoded, vec![run_frame(0), run_frame(2)]).unwrap();
    run.take().unwrap();
    run.take().unwrap();
    run.exhausted(Some(4));
    // A short rest is handed over at the end of the media.
    for _ in 0..2 {
        assert_eq!(run.next(), RunStep::Offer);
        assert!(matches!(run.offer(&mut queue), Ok(Handover::Taken(_))));
    }
    assert_eq!(run.next(), RunStep::Finish);
    assert_eq!(run.metrics.duration_frames, Some(4));
    let event = run.finish(&PathBuf::from("a.ac4"), &mut queue).unwrap();
    assert!(matches!(event, WorkerEvent::Snapshot { .. }));
    assert_eq!(queue.try_pop(key).unwrap().start_frame, 0);
    assert_eq!(queue.try_pop(key).unwrap().start_frame, 2);
    assert!(queue.is_end_of_stream(key));

    let metrics = initial_metrics(DecodeContainer::RawAc4, 15, None, None, true, 0);
    let mut first = DecodeRun::new(key, 0, metrics, false);
    first.decoded(UnitStatus::Decoded, vec![run_frame(0)]).unwrap();
    first.take().unwrap();
    assert_eq!(first.next(), RunStep::Offer, "nothing is kept back without a seek");
    queue.reset(PlaybackKey::new(1, 3));
    assert!(matches!(first.offer(&mut queue), Ok(Handover::Stale)));
    let empty = DecodeRun::new(
        key,
        0,
        initial_metrics(DecodeContainer::RawAc4, 15, None, None, true, 0),
        false,
    );
    assert!(empty.finish(&PathBuf::from("a.ac4"), &mut queue).is_err());
}

#[test]
fn a_codec_frame_becomes_a_scene_block_or_says_what_is_wrong() {
    assert!(validate_samples(&[0, 1], 2).is_ok());
    assert_eq!(
        validate_samples(&[f32::NAN.to_bits()], 1).unwrap_err(),
        "Scene PCM has an invalid length or non-finite sample"
    );
    let block = own_scene_frame(codec_frame(vec![1, 2])).expect("valid frame");
    assert_eq!(block.start_frame(), 3);
    assert_eq!(block.objects()[0].samples(), [1, 2]);
    assert_eq!(block.lfe().unwrap().element_id(), 9);
    assert!(own_scene_frame(codec_frame(vec![1])).is_err());
    let mut silent = codec_frame(vec![1, 2]);
    silent.duration_samples = 0;
    assert_eq!(
        own_scene_frame(silent).unwrap_err(),
        "Scene frame has an invalid PCM duration or sample rate"
    );
}

#[test]
fn the_worker_places_counts_and_queues_what_it_decodes() {
    assert!(is_raw_ac4(&[0xac, 0x40, 0]));
    assert!(!is_raw_ac4(&[0xac]));
    assert!(has_prebuffer(14_400, 48_000));
    assert!(!has_prebuffer(14_399, 48_000));
    let mut metrics = initial_metrics(
        DecodeContainer::RawAc4,
        48_000,
        Some(3_000),
        None,
        true,
        0,
    );
    assert_eq!(count_unit(&mut metrics, UnitStatus::Decoded), Ok(true));
    assert_eq!(count_unit(&mut metrics, UnitStatus::WaitingForRandomAccess), Ok(false));
    assert_eq!(metrics.decoded_access_units(), 2);

    let mut cut = block(48_000, 2_048);
    assert!(truncate_at(&mut cut, 1_000));
    assert_eq!(cut.duration_frames(), 1_000);
    assert!(!truncate_at(&mut cut, 0));

    // A block beyond the target waits in the preroll until there is enough.
    let mut preroll = Some(SeekPreroll::default());
    let admitted = admit_frame(&mut metrics, block(48_000, 2_048), 0, 0, &mut preroll).unwrap();
    assert!(matches!(admitted, Admission::Hold));

    let mut queue = SceneQueue::new();
    let key = PlaybackKey::new(1, 0);
    queue.reset(key);
    let path = PathBuf::from("a.ac4");
    let mut empty = initial_metrics(DecodeContainer::IsoBmff, 48_000, None, None, false, 0);
    assert_eq!(
        finish(key, &path, &empty, &mut queue).unwrap_err(),
        "MacinDecode Core produced no scene PCM"
    );
    assert!(matches!(
        offer_block(&mut queue, key, block(48_000, 48_000), &mut empty),
        Ok(Offer::Taken(DecodePhase::Ready))
    ));
    assert_eq!(empty.buffered_frames(), 48_000);
    assert!(offer_block(&mut queue, key, block(48_000, 48_000), &mut empty).is_ok());
    assert!(matches!(
        offer_block(&mut queue, key, block(48_000, 1), &mut empty),
        Ok(Offer::Full(_))
    ));
}

#[test]
fn the_worker_follows_its_commands() {
    assert!(pending_command(Polled::Empty).is_none());
    assert!(matches!(pending_command(Polled::Disconnected), Some(RunControl::Shutdown)));
    assert!(matches!(
        pending_command(Polled::Command(WorkerCommand::Close)),
        Some(RunControl::Command(WorkerCommand::Close))
    ));
    let key = PlaybackKey::new(3, 0);
    let open = |reuse_cached| WorkerCommand::Open { key, path: PathBuf::from("a"), reuse_cached };
    assert!(matches!(worker_action(open(true), true, true), WorkerAction::Replay { .. }));
    assert!(matches!(worker_action(open(true), true, false), WorkerAction::Load { .. }));
    assert!(matches!(worker_action(open(false), true, true), WorkerAction::Load { .. }));
    let seek = || WorkerCommand::Seek { key, target_frame: 9 };
    assert!(matches!(
        worker_action(seek(), true, false),
        WorkerAction::Seek { target_frame: 9, .. }
    ));
    assert!(matches!(worker_action(seek(), false, false), WorkerAction::RefuseSeek { .. }));
}
