use ac4_player::backend::consumer::BlockCursor;
use ac4_player::backend::macinrender::{gap_frame, own_state, renderer_fields, trimmed_frame};
use ac4_player::backend::output::{
    OutputDeviceSelection, OutputPhase, OutputSnapshot, OutputStreamConfig, RenderPhase,
    RenderSnapshot,
};
use ac4_player::backend::preview::ScenePreview;
use ac4_player::backend::producer::{
    MetadataFrame, NativePhase, NativeStatus, SceneProducer, Step,
};
use ac4_player::backend::source::{copy_lfe_pcm, LfeQuantumAccumulator, SceneRenderSource};
use ac4_player::backend::state::{
    block_offset_at, has_instant_update, lfe_render_state, listener_render_state, validate_block,
};
use ac4_player::decoder::level::Level;
use ac4_player::decoder::metadata::{
    element_state_at, interpolate_state, remaining_ramps, state_at_updates, MetadataRamp,
};
use ac4_player::decoder::queue::{PlaybackKey, SceneQueue, SceneQueueReader};
use ac4_player::decoder::scene::{
    DecodedSceneBlock, SceneLfePcm, SceneMetadataUpdate, SceneObjectPcm, SpatialObjectState,
    SpatialPosition, FIELD_GAIN, FIELD_HEAD_TRACKING, FIELD_POSITION,
};
use ac4_player::decoder::signature::SceneSignature;
use ac4_player::decoder::tracking::{ContentHeadTracking, TrackingIssue};
use ac4_player::scene_view::{SceneViewMirror, MAX_VIEW_OBJECTS};

fn eval(level: &Level) -> f32 {
    match level {
        Level::Exact(bits) => f32::from_bits(*bits),
        Level::Blend { from, to, elapsed, duration } => {
            let (from, to) = (eval(from), eval(to));
            from + (to - from) * (*elapsed as f32 / *duration as f32)
        }
        Level::Negated(inner) => -eval(inner),
        Level::Unit(inner) => eval(inner).clamp(-1.0, 1.0),
    }
}

fn exact(value: f32) -> Level {
    Level::Exact(value.to_bits())
}

fn bits(samples: &[f32]) -> Vec<u32> {
    samples.iter().map(|sample| sample.to_bits()).collect()
}

fn at(x: f32, y: f32, z: f32) -> SpatialPosition {
    SpatialPosition::new(exact(x), exact(y), exact(z))
}

fn complete_state(gain: f32) -> SpatialObjectState {
    SpatialObjectState::new(true, Some(at(0.25, -0.5, 0.75)), Some(exact(gain)), true)
}

fn gain_of(state: &SpatialObjectState) -> Option<f32> {
    state.linear_gain().map(eval)
}

#[test]
fn tracking_switches_at_onset_and_does_not_replace_continuous_targets() {
    let initial =
        SpatialObjectState::new(true, Some(at(-1.0, 0.0, 0.0)), Some(exact(0.0)), true)
            .with_tracking(ContentHeadTracking::SceneRelative);
    let target = SpatialObjectState::new(true, Some(at(1.0, 0.0, 0.0)), Some(exact(1.0)), true)
        .with_tracking(ContentHeadTracking::HeadRelative);
    let updates = vec![
        SceneMetadataUpdate::new(7, 0, 100, FIELD_POSITION, target.dup()),
        SceneMetadataUpdate::new(7, 0, 200, FIELD_GAIN, target.dup()),
        SceneMetadataUpdate::new(7, 25, 0, FIELD_HEAD_TRACKING, target.dup()),
        // An ignored binaural-mode-only event must not restart either ramp.
        SceneMetadataUpdate::new(7, 40, 0, FIELD_HEAD_TRACKING, target.dup()),
    ];
    assert_eq!(state_at_updates(&updates, 7, &None, 0), Some(target.dup()));
    let start = Some(initial.dup());
    let before = state_at_updates(&updates, 7, &start, 24).unwrap();
    assert_eq!(before.tracking(), ContentHeadTracking::SceneRelative);
    let at_switch = state_at_updates(&updates, 7, &start, 25).unwrap();
    assert_eq!(at_switch.tracking(), ContentHeadTracking::HeadRelative);
    assert_eq!(
        eval(at_switch.position().unwrap().x()).to_bits(),
        (-0.5_f32).to_bits()
    );
    assert_eq!(gain_of(&at_switch), Some(0.125));
    let later = state_at_updates(&updates, 7, &start, 50).unwrap();
    assert_eq!(eval(later.position().unwrap().x()).to_bits(), 0.0_f32.to_bits());
    assert_eq!(gain_of(&later), Some(0.25));
    let end = state_at_updates(&updates, 7, &start, 200).unwrap();
    assert_eq!(end, target);
    let block = DecodedSceneBlock::new(
        48_000,
        0,
        240,
        1,
        0,
        None,
        true,
        vec![SceneObjectPcm::new(7, start, bits(&[0.01; 240]))],
        None,
        updates,
    );
    assert!(!has_instant_update(&block, 7, 25, 41));
    let (position, gain) = remaining_ramps(&block, 7, 50);
    let (position, gain) = (position.unwrap(), gain.unwrap());
    assert_eq!(position.ramp_frames(), 50);
    assert_eq!(gain.ramp_frames(), 150);
    assert_eq!(position.state().position(), target.position());
    assert_eq!(gain.state().linear_gain(), target.linear_gain());
}

#[test]
fn unsupported_tracking_does_not_bypass_spatial_checks_or_invent_warmup_state() {
    let tracking = ContentHeadTracking::Unsupported(TrackingIssue::MissingGlobalControl);
    let state = complete_state(0.7).with_tracking(tracking);
    assert!(listener_render_state(Some(state.dup())).0);
    let invalid = SpatialObjectState::new(
        true,
        Some(at(0.25, -0.5, 0.75)),
        Some(exact(0.7)),
        false,
    )
    .with_tracking(tracking);
    assert!(!listener_render_state(Some(invalid)).0);
    assert!(!listener_render_state(None).0);
    assert_eq!(state_at_updates(&[], 7, &None, 0), None);
}

#[test]
fn maps_core_adm_axes_to_windows_listener_coordinates() {
    let state = SpatialObjectState::new(true, Some(at(0.5, 1.0, 0.25)), Some(exact(0.75)), true);
    let (active, position, gain) = listener_render_state(Some(state));
    assert!(active);
    for (actual, expected) in [eval(position.x()), eval(position.y()), eval(position.z())]
        .into_iter()
        .zip([0.5, 0.25, -1.0])
    {
        assert!((actual - expected).abs() < f32::EPSILON);
    }
    assert!((eval(&gain) - 0.75).abs() < f32::EPSILON);
}

#[test]
fn interpolates_position_and_gain_over_metadata_ramps() {
    let from = SpatialObjectState::new(true, Some(at(-1.0, 0.0, 0.0)), Some(exact(0.25)), true);
    let to = SpatialObjectState::new(true, Some(at(1.0, 0.0, 1.0)), Some(exact(0.75)), true);
    let middle = interpolate_state(&from, &to, 1, 2);
    let position = middle.position().unwrap();
    assert_eq!(
        [eval(position.x()), eval(position.y()), eval(position.z())],
        [0.0, 0.0, 0.5]
    );
    assert_eq!(gain_of(&middle), Some(0.5));
}

#[test]
fn later_update_establishes_state_when_initial_state_is_missing() {
    let target = complete_state(0.6);
    let block = DecodedSceneBlock::new(
        48_000,
        0,
        16,
        1,
        0,
        None,
        true,
        vec![SceneObjectPcm::new(42, None, vec![0; 16])],
        None,
        vec![SceneMetadataUpdate::new(42, 4, 8, u32::MAX, target.dup())],
    );
    assert_eq!(element_state_at(&block, 42, &None, 3), None);
    assert_eq!(element_state_at(&block, 42, &None, 4), Some(target.dup()));
    assert_eq!(element_state_at(&block, 42, &None, 12), Some(target));
}

#[test]
fn ramp_endpoint_uses_the_exact_complete_target_state() {
    let incomplete =
        SpatialObjectState::new(true, Some(at(-1.0, 0.0, 0.0)), Some(exact(0.25)), false);
    let complete = complete_state(0.9);
    assert_eq!(interpolate_state(&incomplete, &complete, 1, 1), complete);
    assert_eq!(
        MetadataRamp {
            start_frame: 10,
            duration_frames: 5,
            from: incomplete,
            to: complete.dup(),
        }
        .state_at(15),
        complete
    );
}

#[test]
fn lfe_render_state_follows_oamd_activation_and_gain() {
    let shown = |state| {
        let (active, gain) = lfe_render_state(state);
        (active, eval(&gain))
    };
    assert_eq!(shown(None), (false, 0.0));
    assert_eq!(shown(Some(complete_state(0.4))), (true, 0.4));
    let inactive = SpatialObjectState::new(false, None, Some(exact(0.8)), true);
    assert_eq!(shown(Some(inactive)), (false, 0.8));
}

#[test]
fn instant_update_detection_is_half_open_element_specific_and_ignores_ramps() {
    let state = complete_state(1.0);
    let block = DecodedSceneBlock::new(
        48_000,
        0,
        16,
        1,
        0,
        None,
        true,
        Vec::new(),
        None,
        vec![
            SceneMetadataUpdate::new(7, 2, 0, u32::MAX, state.dup()),
            SceneMetadataUpdate::new(9, 4, 0, u32::MAX, state.dup()),
            SceneMetadataUpdate::new(7, 6, 3, u32::MAX, state.dup()),
            SceneMetadataUpdate::new(7, 8, 0, u32::MAX, state.dup()),
        ],
    );
    assert!(has_instant_update(&block, 7, 2, 3));
    assert!(!has_instant_update(&block, 7, 0, 2));
    assert!(!has_instant_update(&block, 7, 3, 8));
    assert!(has_instant_update(&block, 7, 3, 9));
    assert!(!has_instant_update(&block, 8, 0, 16));
}

#[test]
fn lfe_quantum_uses_ramped_state_and_pcm_at_its_start() {
    let target = complete_state(0.8);
    let cursor = BlockCursor {
        block: DecodedSceneBlock::new(
            48_000,
            0,
            6,
            1,
            0,
            None,
            true,
            Vec::new(),
            Some(SceneLfePcm::new(
                99,
                Some(complete_state(0.2)),
                bits(&[0.0, 1.0, 2.0, 3.0, 4.0, 5.0]),
            )),
            vec![SceneMetadataUpdate::new(99, 2, 2, u32::MAX, target)],
        ),
        offset_frames: 4,
    };
    let mut accumulator = Some(LfeQuantumAccumulator::new(2));
    copy_lfe_pcm(&cursor, 0, 2, &mut accumulator);
    let render = accumulator.unwrap().finish();
    assert!(render.active);
    assert!((eval(&render.gain) - 0.8).abs() < f32::EPSILON);
    assert_eq!(render.samples, bits(&[4.0, 5.0]));
}

fn configured_block(generation: u32) -> DecodedSceneBlock {
    DecodedSceneBlock::new(
        48_000,
        0,
        4,
        generation,
        2,
        Some(7),
        true,
        vec![SceneObjectPcm::new(42, Some(complete_state(1.0)), vec![0; 4])],
        None,
        Vec::new(),
    )
}

#[test]
fn rejects_configuration_generation_changes_after_activation() {
    let initial = configured_block(3);
    let signature = SceneSignature::from_block(&initial);
    validate_block(&initial, 48_000, 1, false, &signature)
        .expect("first block establishes the active Scene configuration");
    let error = validate_block(&configured_block(4), 48_000, 1, false, &signature)
        .expect_err("a generation change must not reuse the active object IDs");
    assert!(error.contains("generation changed from 3 to 4"), "{error}");
    assert!(error.contains("must be reconfigured"), "{error}");
    assert_eq!(block_offset_at(&initial, 2), Ok(Some(2)));
}

const RATE: u32 = 48_000;
const BLOCK: u32 = 2_048;

fn placed(x: f32, y: f32, z: f32) -> SpatialObjectState {
    SpatialObjectState::new(true, Some(at(x, y, z)), Some(exact(1.0)), true)
}

fn sweeping_block(start_frame: i64) -> DecodedSceneBlock {
    DecodedSceneBlock::new(
        RATE,
        start_frame,
        BLOCK,
        1,
        0,
        None,
        true,
        vec![SceneObjectPcm::new(
            7,
            Some(placed(-1.0, 0.0, 0.0)),
            vec![0; BLOCK as usize],
        )],
        None,
        vec![SceneMetadataUpdate::new(7, 0, BLOCK, u32::MAX, placed(1.0, 0.0, 0.0))],
    )
}

fn block_with_scene(
    start_frame: i64,
    ids: &[u64],
    generation: u32,
    sample_rate: u32,
) -> DecodedSceneBlock {
    DecodedSceneBlock::new(
        sample_rate,
        start_frame,
        BLOCK,
        generation,
        0,
        None,
        true,
        ids.iter()
            .map(|id| {
                SceneObjectPcm::new(*id, Some(placed(0.0, 0.0, 0.0)), vec![0; BLOCK as usize])
            })
            .collect(),
        None,
        Vec::new(),
    )
}

fn still_block(start_frame: i64) -> DecodedSceneBlock {
    block_with_scene(start_frame, &[7], 1, RATE)
}

struct Walk {
    queue: SceneQueue,
    mirror: SceneViewMirror,
    preview: ScenePreview,
}

impl Walk {
    fn at(key: PlaybackKey, blocks: Vec<DecodedSceneBlock>, start_frame: u64) -> Self {
        let signature = SceneSignature::from_block(blocks.first().expect("initial scene"));
        let mut queue = SceneQueue::new();
        queue.reset(key);
        for block in blocks {
            queue.try_push(key, block).expect("queue the block");
        }
        Walk {
            queue,
            mirror: SceneViewMirror::new(),
            preview: ScenePreview::new(SceneQueueReader { key }, signature, RATE, start_frame),
        }
    }
    fn over(key: PlaybackKey, blocks: Vec<DecodedSceneBlock>) -> Self {
        Walk::at(key, blocks, 0)
    }
    fn advance(&mut self, frames: i64) -> bool {
        self.preview.advance(&mut self.queue, &mut self.mirror, frames)
    }
    fn published_x(&self, key: PlaybackKey) -> f32 {
        let frame = self.mirror.read(key).expect("the preview published a frame");
        eval(frame.objects().first().expect("one object").position.x())
    }
}

#[test]
fn a_ramping_object_is_published_where_the_ramp_puts_it() {
    let key = PlaybackKey::new(1, 0);
    let mut walk = Walk::over(key, vec![sweeping_block(0)]);
    walk.advance(512);
    let quarter = walk.published_x(key);
    assert!((quarter + 0.5).abs() < 0.01, "quarter-way through the ramp published x={quarter}");
    walk.advance(512);
    let half = walk.published_x(key);
    assert!(half.abs() < 0.01, "halfway through the ramp published x={half}");
    assert!(half > quarter, "the object did not move along the ramp");
}

#[test]
fn an_underrun_holds_the_last_position_rather_than_inventing_one() {
    let key = PlaybackKey::new(1, 0);
    let mut walk = Walk::over(key, vec![sweeping_block(0)]);
    walk.advance(12_000);
    let stalled = walk.preview.playhead_frames();
    assert_eq!(stalled, u64::from(BLOCK), "walked past the queued block");
    let held = walk.published_x(key);
    walk.advance(12_000);
    assert_eq!(walk.preview.playhead_frames(), stalled, "clock ran past the data");
    assert!((walk.published_x(key) - held).abs() < f32::EPSILON, "an underrun moved the object");
    assert!(!walk.preview.has_ended(), "an underrun is not the end of the file");
}

#[test]
fn the_end_is_reported_only_once_the_queue_has_drained() {
    let key = PlaybackKey::new(1, 0);
    let mut walk = Walk::over(key, vec![still_block(0)]);
    walk.queue.mark_end_of_stream(key);
    assert!(!walk.preview.has_ended(), "ended before the block was walked");
    walk.advance(12_000);
    assert!(walk.preview.has_ended(), "the drained queue was not reported as ended");
    assert_eq!(walk.preview.playhead_frames(), u64::from(BLOCK));
}

#[test]
fn a_step_says_whether_it_published_anything() {
    let key = PlaybackKey::new(1, 0);
    let mut walk = Walk::over(key, vec![still_block(4_800)]);
    assert!(!walk.advance(0), "no time went by");
    assert!(!walk.advance(2_400), "nothing is shown inside a gap");
    assert!(walk.advance(4_800), "the block was reached");
    assert!(walk.advance(4_800), "a stall shows the last state");
    let mut empty = Walk::over(key, vec![still_block(0)]);
    let _ = empty.queue.try_pop(key);
    assert!(!empty.advance(480), "there is no block yet");
}

#[test]
fn a_walk_stands_on_the_last_block_it_entered_and_loses_none() {
    let key = PlaybackKey::new(1, 0);
    let mut walk = Walk::over(key, vec![sweeping_block(0), still_block(i64::from(BLOCK))]);
    // At the end of the first block the second one is still to come.
    assert!(walk.advance(i64::from(BLOCK)));
    let first = walk.preview.consumer.current.as_ref().unwrap();
    assert_eq!((first.block.start_frame, first.offset_frames), (0, BLOCK));
    assert_eq!(walk.queue.blocks.len(), 1);
    assert!(walk.advance(480));
    let second = walk.preview.consumer.current.as_ref().unwrap();
    assert_eq!((second.block.start_frame, second.offset_frames), (i64::from(BLOCK), 480));
    assert!(walk.queue.blocks.is_empty());
    // In a stall it stays on the block that is over.
    assert!(walk.advance(12_000));
    assert!(walk.advance(12_000));
    let stalled = walk.preview.consumer.current.as_ref().unwrap();
    assert_eq!((stalled.block.start_frame, stalled.offset_frames), (i64::from(BLOCK), BLOCK));
}

#[test]
fn a_forward_gap_is_crossed_without_snapping_the_clock() {
    let key = PlaybackKey::new(1, 0);
    let mut walk = Walk::over(key, vec![still_block(24_000)]);
    walk.advance(4_800);
    assert_eq!(walk.preview.playhead_frames(), 4_800, "the gap was skipped");
    assert!(walk.mirror.read(key).is_none(), "the future scene appeared inside the gap");
    walk.advance(12_000);
    walk.advance(12_000);
    assert_eq!(
        walk.preview.playhead_frames(),
        u64::from(24_000 + BLOCK),
        "the block after the gap was not walked"
    );
}

#[test]
fn a_superseded_playback_cannot_publish_into_the_live_view() {
    let key = PlaybackKey::new(1, 0);
    let mut walk = Walk::over(key, vec![still_block(0)]);
    walk.advance(480);
    assert!(walk.mirror.read(key).is_some(), "the bound key reads its own frame");
    assert!(
        walk.mirror.read(PlaybackKey::new(1, 1)).is_none(),
        "a later epoch accepted a stale frame"
    );
}

#[test]
fn hidden_logic_ticks_follow_elapsed_time_even_when_ui_time_is_frozen() {
    let mut walk = Walk::over(
        PlaybackKey::new(1, 0),
        (0..24).map(|index| still_block(index * i64::from(BLOCK))).collect(),
    );
    let start: u64 = 5_000_000_000;
    assert_eq!(walk.preview.tick(true, start), None);
    for tick in 1..=4 {
        let elapsed = walk.preview.tick(true, start + tick * 250_000_000).unwrap();
        walk.advance((elapsed * u64::from(RATE) / 1_000_000_000) as i64);
    }
    assert_eq!(walk.preview.playhead_frames(), u64::from(RATE));
}

#[test]
fn resuming_does_not_consume_time_spent_paused() {
    let key = PlaybackKey::new(1, 0);
    let mut walk = Walk::over(
        key,
        (0..24).map(|index| still_block(index * i64::from(BLOCK))).collect(),
    );
    let tick = |walk: &mut Walk, playing: bool, milliseconds: u64| {
        if let Some(elapsed) = walk.preview.tick(playing, milliseconds * 1_000_000) {
            walk.advance((elapsed * u64::from(RATE) / 1_000_000_000) as i64);
        }
    };
    tick(&mut walk, true, 0);
    tick(&mut walk, true, 250);
    assert_eq!(walk.preview.playhead_frames(), 12_000);
    tick(&mut walk, false, 10_000);
    tick(&mut walk, true, 20_000);
    assert_eq!(walk.preview.playhead_frames(), 12_000, "resume consumed paused time");
    tick(&mut walk, true, 20_250);
    assert_eq!(walk.preview.playhead_frames(), 24_000);
}

#[test]
fn a_seek_inside_a_block_resolves_state_at_the_target() {
    let key = PlaybackKey::new(1, 0);
    let mut walk = Walk::at(key, vec![sweeping_block(0)], 1024);
    walk.advance(512);
    let x = walk.published_x(key);
    assert!((x - 0.5).abs() < 0.01, "seek target plus elapsed time yielded x={x}");
}

#[test]
fn expired_blocks_and_negative_preroll_do_not_extend_the_timeline() {
    let key = PlaybackKey::new(1, 0);
    let mut walk = Walk::over(
        key,
        vec![still_block(-4096), still_block(-2048), still_block(-1024)],
    );
    walk.queue.mark_end_of_stream(key);
    walk.advance(12_000);
    assert!(walk.preview.has_ended());
    assert_eq!(walk.preview.playhead_frames(), 1024);
}

#[test]
fn overlapping_blocks_only_advance_through_new_frames() {
    let key = PlaybackKey::new(1, 0);
    let mut walk = Walk::over(key, vec![still_block(0), still_block(1024)]);
    walk.queue.mark_end_of_stream(key);
    walk.advance(12_000);
    assert!(walk.preview.has_ended());
    assert_eq!(walk.preview.playhead_frames(), 3072);
}

#[test]
fn incompatible_scenes_stop_at_the_boundary_until_reconfigured() {
    for (ids, generation, prefix) in [
        (vec![8], 1, "Scene dynamic-object element IDs changed"),
        (vec![7], 2, "Scene configuration generation changed"),
        (vec![7, 8], 1, "Scene dynamic-object count changed"),
    ] {
        let key = PlaybackKey::new(1, 0);
        let mut walk = Walk::over(
            key,
            vec![
                still_block(0),
                block_with_scene(i64::from(BLOCK), &ids, generation, RATE),
            ],
        );
        walk.advance(4_800);
        assert!(walk.preview.error().is_some_and(|error| error.starts_with(prefix)));
        assert_eq!(walk.preview.playhead_frames(), u64::from(BLOCK));
        assert!(!walk.preview.has_ended(), "a topology error is not EOS");
        walk.advance(4_800);
        assert_eq!(walk.preview.playhead_frames(), u64::from(BLOCK));
        assert!(
            walk.preview.error().is_some(),
            "failure must stay latched until reconfiguration"
        );
    }
}

#[test]
fn the_mirror_reports_objects_beyond_the_view_budget() {
    let key = PlaybackKey::new(1, 0);
    let ids = (1..=23).rev().collect::<Vec<_>>();
    let mut walk = Walk::over(key, vec![block_with_scene(0, &ids, 1, RATE)]);
    walk.advance(480);
    let frame = walk.mirror.read(key).expect("published scene");
    assert_eq!(frame.objects().len(), MAX_VIEW_OBJECTS);
    assert_eq!(frame.hidden_objects(), 3);
    assert_eq!(frame.objects()[0].element_id, 1, "slots stay sorted by ID");
    assert_eq!(frame.objects()[MAX_VIEW_OBJECTS - 1].element_id, 20);
}

#[test]
fn a_quantum_holds_the_samples_that_sound_in_it() {
    let key = PlaybackKey::new(5, 0);
    let samples: Vec<u32> = (0..BLOCK).collect();
    let block = DecodedSceneBlock::new(
        RATE,
        0,
        BLOCK,
        1,
        0,
        None,
        true,
        vec![SceneObjectPcm::new(7, Some(placed(0.5, 0.0, 0.0)), samples)],
        None,
        Vec::new(),
    );
    let signature = SceneSignature::from_block(&block);
    let mut queue = SceneQueue::new();
    queue.reset(key);
    queue.try_push(key, block).unwrap();
    queue.mark_end_of_stream(key);
    let mut mirror = SceneViewMirror::new();
    let mut source =
        SceneRenderSource::new(SceneQueueReader { key }, RATE, 1, false, signature, 100);
    let quantum = source.render_quantum(&mut queue, &mut mirror, 480).unwrap();
    assert_eq!(quantum.frames_written, 480);
    assert!(!quantum.underrun && !quantum.end_of_stream);
    assert_eq!(quantum.objects[0].samples[..3], [100, 101, 102]);
    assert!(quantum.objects[0].active);
    let rest = source.render_quantum(&mut queue, &mut mirror, 2_000).unwrap();
    assert_eq!(rest.frames_written, BLOCK - 580);
    assert!(rest.end_of_stream && !rest.underrun);
    assert_eq!(mirror.read(key).unwrap().timeline_frame, i64::from(BLOCK));
}

#[test]
fn metadata_bits_are_translated_instead_of_copied() {
    assert_eq!(renderer_fields(8), 4);
    assert_eq!(renderer_fields(1 | 2 | 8), 7);
    assert_eq!(renderer_fields(4), 0);
}

#[test]
fn submitted_frames_keep_only_what_the_renderer_takes() {
    let object = placed(0.0, 1.0, 0.0);
    let lfe = SpatialObjectState::new(true, None, Some(exact(1.0)), true);
    let block = DecodedSceneBlock::new(
        RATE,
        0,
        33,
        1,
        0,
        None,
        true,
        vec![SceneObjectPcm::new(7, Some(object.dup()), bits(&[0.1; 33]))],
        Some(SceneLfePcm::new(9, Some(lfe.dup()), bits(&[0.1; 33]))),
        vec![
            SceneMetadataUpdate::new(7, 3, 0, 4, object.dup()),
            SceneMetadataUpdate::new(9, 5, 0, 1 | 2 | 8, lfe.dup()),
            SceneMetadataUpdate::new(7, 33, 0, 8, object.dup()),
        ],
    );
    let frame = trimmed_frame(&block, 1);
    assert_eq!((frame.start, frame.duration), (1, 32));
    assert_eq!(frame.planes.len(), 2);
    assert_eq!(frame.planes[0].samples.len(), 32);
    // The importance-only update says nothing to the renderer, and the one at
    // the end of the block belongs to the next.
    assert!(frame.updates.iter().all(|update| update.changed != 0 && update.offset < 32));
    assert!(frame.updates.iter().any(|update| update.element == 9 && update.offset == 4));
    let silent = own_state(None);
    assert!(!silent.active);
    let gap = gap_frame(&SceneSignature::from_block(&block), 33, 16);
    assert_eq!((gap.start, gap.duration), (33, 16));
}

#[test]
fn a_later_change_hides_no_running_ramp_of_a_trimmed_block() {
    let start = placed(0.0, 1.0, 0.0);
    let target = SpatialObjectState::new(true, Some(at(1.0, 0.0, 0.0)), Some(exact(0.5)), true);
    let block = |updates: Vec<SceneMetadataUpdate>| {
        let objects = vec![SceneObjectPcm::new(7, Some(placed(0.0, 1.0, 0.0)), bits(&[0.1; 240]))];
        DecodedSceneBlock::new(RATE, 0, 240, 1, 0, None, true, objects, None, updates)
    };
    let resumed = |block: &DecodedSceneBlock| -> Vec<(u64, u32, u32)> {
        let frame = trimmed_frame(block, 50);
        frame.updates.iter().map(|u| (u.changed, u.offset, u.ramp)).collect()
    };
    let position = || SceneMetadataUpdate::new(7, 0, 100, FIELD_POSITION, target.dup());
    let gain = || SceneMetadataUpdate::new(7, 10, 200, FIELD_GAIN, target.dup());
    let tracking = || SceneMetadataUpdate::new(7, 25, 0, FIELD_HEAD_TRACKING, target.dup());
    // One change of both fields goes on as one.
    let both = SceneMetadataUpdate::new(7, 0, 100, FIELD_POSITION | FIELD_GAIN, target.dup());
    assert_eq!(resumed(&block(vec![both])), [(6, 0, 50)]);
    // The later fade does not stop the movement, nor does the switch of tracking
    // stop either.
    assert_eq!(resumed(&block(vec![position(), gain()])), [(2, 0, 160), (4, 0, 50)]);
    assert_eq!(
        resumed(&block(vec![position(), gain(), tracking()])),
        [(4, 0, 50), (2, 0, 160)]
    );
    // A ramp that is over, and one that starts at the cut, are not resumed.
    let over = SceneMetadataUpdate::new(7, 0, 50, FIELD_POSITION, start.dup());
    assert!(resumed(&block(vec![over])).is_empty());
    let later = SceneMetadataUpdate::new(7, 50, 20, FIELD_POSITION, start.dup());
    assert_eq!(resumed(&block(vec![later])), [(4, 0, 20)]);
}

fn tone(start: i64, frames: u32) -> DecodedSceneBlock {
    DecodedSceneBlock::new(
        RATE,
        start,
        frames,
        1,
        0,
        None,
        true,
        vec![SceneObjectPcm::new(
            7,
            Some(placed(0.0, 1.0, 0.0)),
            bits(&vec![0.1; frames as usize]),
        )],
        None,
        Vec::new(),
    )
}

#[test]
fn native_output_preserves_preroll_overlap_gap_and_short_tail() {
    let key = PlaybackKey::new(1, 1);
    let mut queue = SceneQueue::new();
    queue.reset(key);
    let first = tone(-8, 28);
    let signature = SceneSignature::from_block(&first);
    for block in [first, tone(16, 20), tone(48, 33)] {
        queue.try_push(key, block).unwrap();
    }
    queue.mark_end_of_stream(key);
    let mut producer = SceneProducer::new(SceneQueueReader { key }, 0, RATE, signature).unwrap();
    let mut submitted = 0_u64;
    let mut end = None;
    for _ in 0..64 {
        let step = producer.plan(&mut queue).unwrap();
        match step {
            Step::Idle => {}
            Step::Configure => producer.configured(),
            Step::Gap { duration, .. } => {
                submitted += u64::from(duration);
                producer.submitted(step, true).unwrap();
            }
            Step::Block { offset } => {
                let block = producer.pending.as_ref().unwrap();
                let frame = trimmed_frame(block, offset);
                submitted += u64::from(frame.duration);
                producer.submitted(step, true).unwrap();
            }
            Step::End { at } => {
                end = Some(at);
                producer.submitted(step, true).unwrap();
                break;
            }
        }
    }
    assert_eq!(end, Some(81));
    // The eight frames before the start prime the renderer.
    assert_eq!(submitted, 8 + 81);
    let mut mirror = SceneViewMirror::new();
    let mut snapshot = OutputSnapshot::idle();
    producer
        .observe(
            NativeStatus {
                phase: NativePhase::Ended,
                presented: 81,
                consumed: 81,
                queued: 0,
                underruns: 0,
                media_clock: false,
                recovering: false,
            },
            &mut mirror,
            &mut snapshot,
        )
        .unwrap();
    assert_eq!(snapshot.phase, OutputPhase::Ended);
    assert_eq!(snapshot.playhead_frames, 81);
    assert_eq!(snapshot.submitted_frames, 81);
    assert_eq!(mirror.read(key).unwrap().objects()[0].element_id, 7);
}

/// Feeds a renderer that takes everything, and presents it to the end.
fn play_out(key: PlaybackKey, mut queue: SceneQueue, start: u64, signature: SceneSignature)
    -> OutputSnapshot {
    let mut producer =
        SceneProducer::new(SceneQueueReader { key }, start, RATE, signature).unwrap();
    let mut mirror = SceneViewMirror::new();
    let mut snapshot = OutputSnapshot::idle();
    let mut presented = 0_u64;
    for _ in 0..64 {
        let phase = if producer.ended { NativePhase::Paused } else { NativePhase::Running };
        let status = NativeStatus {
            phase,
            presented,
            consumed: presented,
            queued: 0,
            underruns: 0,
            media_clock: false,
            recovering: false,
        };
        let ended = NativeStatus { phase: NativePhase::Ended, ..status };
        let shown = if producer.ended && presented > 0 { ended } else { status };
        producer.observe(shown, &mut mirror, &mut snapshot).unwrap();
        if snapshot.phase == OutputPhase::Ended {
            return snapshot;
        }
        let step = producer.plan(&mut queue).unwrap();
        let accepted = match step {
            Step::Idle => false,
            Step::Configure => {
                producer.configured();
                false
            }
            Step::Gap { duration, .. } => {
                presented += u64::from(duration);
                true
            }
            Step::Block { offset } => {
                let frame = trimmed_frame(producer.pending.as_ref().unwrap(), offset);
                for update in &frame.updates {
                    let known = if update.state.position.is_some() { 7 } else { 3 };
                    assert!(update.changed != 0 && update.changed & !known == 0);
                    assert!(update.offset < frame.duration);
                }
                presented += u64::from(frame.duration);
                true
            }
            Step::End { .. } => true,
        };
        producer.submitted(step, accepted).unwrap();
    }
    panic!("the output did not end: {snapshot:?}");
}

#[test]
fn reconfiguration_at_eos_remains_ended_even_when_paused() {
    let key = PlaybackKey::new(4, 2);
    let mut queue = SceneQueue::new();
    queue.reset(key);
    queue.mark_end_of_stream(key);
    let signature = SceneSignature::new(1, 0, None, vec![7], None);
    let status = play_out(key, queue, 100, signature);
    assert_ne!(status.phase, OutputPhase::Failed, "{:?}", status.error);
    assert_eq!(status.playhead_frames, 100);
}

#[test]
fn importance_only_and_positionless_lfe_updates_are_accepted() {
    let key = PlaybackKey::new(2, 1);
    let mut queue = SceneQueue::new();
    queue.reset(key);
    let object = placed(0.0, 1.0, 0.0);
    let lfe = SpatialObjectState::new(true, None, Some(exact(1.0)), true);
    let block = DecodedSceneBlock::new(
        RATE,
        0,
        33,
        1,
        0,
        None,
        true,
        vec![SceneObjectPcm::new(7, Some(object.dup()), bits(&[0.1; 33]))],
        Some(SceneLfePcm::new(9, Some(lfe.dup()), bits(&[0.1; 33]))),
        vec![
            SceneMetadataUpdate::new(7, 3, 0, 4, object.dup()),
            SceneMetadataUpdate::new(9, 5, 0, 1 | 2 | 8, lfe.dup()),
            SceneMetadataUpdate::new(7, 33, 0, 8, object.dup()),
        ],
    );
    let signature = SceneSignature::from_block(&block);
    queue.try_push(key, block).unwrap();
    queue.mark_end_of_stream(key);
    let status = play_out(key, queue, 0, signature);
    assert_ne!(status.phase, OutputPhase::Failed, "{:?}", status.error);
    assert_eq!(status.playhead_frames, 33);
}

#[test]
fn a_failed_renderer_is_reported_and_changes_nothing_else() {
    let block = tone(0, 16);
    let signature = SceneSignature::from_block(&block);
    let key = PlaybackKey::new(1, 1);
    let mut producer = SceneProducer::new(SceneQueueReader { key }, 5, RATE, signature).unwrap();
    let mut mirror = SceneViewMirror::new();
    let mut snapshot = OutputSnapshot::idle();
    let status = NativeStatus {
        phase: NativePhase::Failed,
        presented: 0,
        consumed: 0,
        queued: 0,
        underruns: 0,
        media_clock: false,
        recovering: false,
    };
    assert_eq!(
        producer.observe(status, &mut mirror, &mut snapshot).unwrap_err(),
        "MacinRender rendering or output device failed"
    );
    assert_eq!(snapshot.phase, OutputPhase::Idle);
    assert_eq!(producer.playhead(7), 12);
    let controls = producer.controls(true, 0);
    assert_eq!((controls.play.is_some(), controls.volume.is_some()), (true, true));
    let again = producer.controls(true, 0);
    assert_eq!((again.play, again.volume), (None, None));
    let metadata = MetadataFrame::new(&block);
    assert_eq!(metadata.end(), 16);
}

#[test]
fn a_system_renderer_reports_through_the_same_snapshot() {
    let native = RenderSnapshot {
        phase: RenderPhase::Playing,
        device_label: "Headphones".to_owned(),
        max_dynamic_objects: 16,
        reserved_dynamic_objects: 4,
        active_dynamic_objects: 3,
        render_updates: 5,
        submitted_frames: 960,
        playhead_frames: 480,
        object_buffer_submissions: 7,
        position_updates: 8,
        underruns: 1,
        error: None,
    };
    let snapshot = ac4_player::backend::output::snapshot(native);
    assert_eq!(snapshot.phase, OutputPhase::Playing);
    assert_eq!(snapshot.playhead_frames, 480);
    assert!(!snapshot.preview);
    let config = OutputStreamConfig::new(
        1,
        2,
        0,
        RATE,
        SceneSignature::new(1, 0, None, vec![3, 2, 1], Some(9)),
        OutputDeviceSelection::SystemDefault,
    )
    .unwrap();
    assert_eq!((config.dynamic_object_count, config.has_lfe), (3, true));
}
