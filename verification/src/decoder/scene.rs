//! One decoded stretch of an object scene: PCM planes and spatial metadata.
use super::level::{dup_level, Level};
use super::tracking::ContentHeadTracking;
use vstd::prelude::*;

verus! {

/// A change of the activity flag.
pub const FIELD_ACTIVE: u32 = 1;

/// A change of the gain.
pub const FIELD_GAIN: u32 = 2;

/// A change of the position.
pub const FIELD_POSITION: u32 = 8;

/// A change of the content's head-tracking reference.
pub const FIELD_HEAD_TRACKING: u32 = 0x100;

#[derive(Debug, PartialEq, Eq)]
pub struct SpatialPosition {
    pub x: Level,
    pub y: Level,
    pub z: Level,
}

impl SpatialPosition {
    pub fn new(x: Level, y: Level, z: Level) -> (r: Self)
        ensures
            r == (SpatialPosition { x, y, z }),
    {
        SpatialPosition { x, y, z }
    }

    pub fn x(&self) -> (r: &Level)
        ensures
            *r == self.x,
    {
        &self.x
    }

    pub fn y(&self) -> (r: &Level)
        ensures
            *r == self.y,
    {
        &self.y
    }

    pub fn z(&self) -> (r: &Level)
        ensures
            *r == self.z,
    {
        &self.z
    }

    pub fn dup(&self) -> (r: Self)
        ensures
            r == *self,
    {
        SpatialPosition { x: self.x.dup(), y: self.y.dup(), z: self.z.dup() }
    }
}

pub fn dup_position(position: &Option<SpatialPosition>) -> (r: Option<SpatialPosition>)
    ensures
        r == *position,
{
    match position {
        Some(position) => Some(position.dup()),
        None => None,
    }
}

/// What the metadata says of one element at one instant.
#[derive(Debug, PartialEq, Eq)]
pub struct SpatialObjectState {
    pub metadata_active: bool,
    pub position: Option<SpatialPosition>,
    pub linear_gain: Option<Level>,
    pub semantic_complete: bool,
    pub tracking: ContentHeadTracking,
}

impl SpatialObjectState {
    pub fn new(
        metadata_active: bool,
        position: Option<SpatialPosition>,
        linear_gain: Option<Level>,
        semantic_complete: bool,
    ) -> (r: Self)
        ensures
            r == (SpatialObjectState {
                metadata_active,
                position,
                linear_gain,
                semantic_complete,
                tracking: ContentHeadTracking::Unspecified,
            }),
    {
        SpatialObjectState {
            metadata_active,
            position,
            linear_gain,
            semantic_complete,
            tracking: ContentHeadTracking::Unspecified,
        }
    }

    pub fn with_tracking(self, tracking: ContentHeadTracking) -> (r: Self)
        ensures
            r == (SpatialObjectState { tracking, ..self }),
    {
        let mut state = self;
        state.tracking = tracking;
        state
    }

    pub fn metadata_active(&self) -> (r: bool)
        ensures
            r == self.metadata_active,
    {
        self.metadata_active
    }

    pub fn position(&self) -> (r: Option<&SpatialPosition>)
        ensures
            match r {
                Some(position) => self.position == Some(*position),
                None => self.position is None,
            },
    {
        match &self.position {
            Some(position) => Some(position),
            None => None,
        }
    }

    pub fn linear_gain(&self) -> (r: Option<&Level>)
        ensures
            match r {
                Some(gain) => self.linear_gain == Some(*gain),
                None => self.linear_gain is None,
            },
    {
        match &self.linear_gain {
            Some(gain) => Some(gain),
            None => None,
        }
    }

    pub fn semantic_complete(&self) -> (r: bool)
        ensures
            r == self.semantic_complete,
    {
        self.semantic_complete
    }

    pub fn tracking(&self) -> (r: ContentHeadTracking)
        ensures
            r == self.tracking,
    {
        self.tracking
    }

    pub fn dup(&self) -> (r: Self)
        ensures
            r == *self,
    {
        SpatialObjectState {
            metadata_active: self.metadata_active,
            position: dup_position(&self.position),
            linear_gain: dup_level(&self.linear_gain),
            semantic_complete: self.semantic_complete,
            tracking: self.tracking,
        }
    }
}

pub fn dup_state(state: &Option<SpatialObjectState>) -> (r: Option<SpatialObjectState>)
    ensures
        r == *state,
{
    match state {
        Some(state) => Some(state.dup()),
        None => None,
    }
}

/// One object's mono plane, as single-precision bit patterns.
#[derive(Debug)]
pub struct SceneObjectPcm {
    pub element_id: u64,
    pub initial_state: Option<SpatialObjectState>,
    pub samples: Vec<u32>,
}

impl SceneObjectPcm {
    pub fn new(
        element_id: u64,
        initial_state: Option<SpatialObjectState>,
        samples: Vec<u32>,
    ) -> (r: Self)
        ensures
            r == (SceneObjectPcm { element_id, initial_state, samples }),
    {
        SceneObjectPcm { element_id, initial_state, samples }
    }

    pub fn element_id(&self) -> (r: u64)
        ensures
            r == self.element_id,
    {
        self.element_id
    }

    pub fn initial_state(&self) -> (r: &Option<SpatialObjectState>)
        ensures
            *r == self.initial_state,
    {
        &self.initial_state
    }

    pub fn samples(&self) -> (r: &[u32])
        ensures
            r@ == self.samples@,
    {
        self.samples.as_slice()
    }
}

/// The low-frequency bed, which has no place of its own.
#[derive(Debug)]
pub struct SceneLfePcm {
    pub element_id: u64,
    pub initial_state: Option<SpatialObjectState>,
    pub samples: Vec<u32>,
}

impl SceneLfePcm {
    pub fn new(
        element_id: u64,
        initial_state: Option<SpatialObjectState>,
        samples: Vec<u32>,
    ) -> (r: Self)
        ensures
            r == (SceneLfePcm { element_id, initial_state, samples }),
    {
        SceneLfePcm { element_id, initial_state, samples }
    }

    pub fn element_id(&self) -> (r: u64)
        ensures
            r == self.element_id,
    {
        self.element_id
    }

    pub fn initial_state(&self) -> (r: &Option<SpatialObjectState>)
        ensures
            *r == self.initial_state,
    {
        &self.initial_state
    }

    pub fn samples(&self) -> (r: &[u32])
        ensures
            r@ == self.samples@,
    {
        self.samples.as_slice()
    }
}

/// A change of one element's metadata, `offset_frames` into its block.
#[derive(Debug, PartialEq, Eq)]
pub struct SceneMetadataUpdate {
    pub element_id: u64,
    pub offset_frames: u32,
    pub ramp_frames: u32,
    pub changed_fields: u32,
    pub state: SpatialObjectState,
}

impl SceneMetadataUpdate {
    pub fn new(
        element_id: u64,
        offset_frames: u32,
        ramp_frames: u32,
        changed_fields: u32,
        state: SpatialObjectState,
    ) -> (r: Self)
        ensures
            r == (SceneMetadataUpdate {
                element_id,
                offset_frames,
                ramp_frames,
                changed_fields,
                state,
            }),
    {
        SceneMetadataUpdate { element_id, offset_frames, ramp_frames, changed_fields, state }
    }

    pub fn element_id(&self) -> (r: u64)
        ensures
            r == self.element_id,
    {
        self.element_id
    }

    pub fn offset_frames(&self) -> (r: u32)
        ensures
            r == self.offset_frames,
    {
        self.offset_frames
    }

    pub fn ramp_frames(&self) -> (r: u32)
        ensures
            r == self.ramp_frames,
    {
        self.ramp_frames
    }

    pub fn changed_fields(&self) -> (r: u32)
        ensures
            r == self.changed_fields,
    {
        self.changed_fields
    }

    pub fn state(&self) -> (r: &SpatialObjectState)
        ensures
            *r == self.state,
    {
        &self.state
    }

    pub fn dup(&self) -> (r: Self)
        ensures
            r == *self,
    {
        SceneMetadataUpdate {
            element_id: self.element_id,
            offset_frames: self.offset_frames,
            ramp_frames: self.ramp_frames,
            changed_fields: self.changed_fields,
            state: self.state.dup(),
        }
    }
}

/// A stretch of decoded scene on the presentation timeline.
#[derive(Debug)]
pub struct DecodedSceneBlock {
    pub sample_rate: u32,
    pub start_frame: i64,
    pub duration_frames: u32,
    pub configuration_generation: u32,
    pub presentation_index: u32,
    pub presentation_id: Option<u32>,
    pub state_complete: bool,
    pub objects: Vec<SceneObjectPcm>,
    pub lfe: Option<SceneLfePcm>,
    pub metadata_updates: Vec<SceneMetadataUpdate>,
}

impl DecodedSceneBlock {
    /// The first frame behind the block.
    pub open spec fn end(&self) -> int {
        self.start_frame + self.duration_frames
    }

    pub fn new(
        sample_rate: u32,
        start_frame: i64,
        duration_frames: u32,
        configuration_generation: u32,
        presentation_index: u32,
        presentation_id: Option<u32>,
        state_complete: bool,
        objects: Vec<SceneObjectPcm>,
        lfe: Option<SceneLfePcm>,
        metadata_updates: Vec<SceneMetadataUpdate>,
    ) -> (r: Self)
        ensures
            r == (DecodedSceneBlock {
                sample_rate,
                start_frame,
                duration_frames,
                configuration_generation,
                presentation_index,
                presentation_id,
                state_complete,
                objects,
                lfe,
                metadata_updates,
            }),
    {
        DecodedSceneBlock {
            sample_rate,
            start_frame,
            duration_frames,
            configuration_generation,
            presentation_index,
            presentation_id,
            state_complete,
            objects,
            lfe,
            metadata_updates,
        }
    }

    pub fn sample_rate(&self) -> (r: u32)
        ensures
            r == self.sample_rate,
    {
        self.sample_rate
    }

    pub fn start_frame(&self) -> (r: i64)
        ensures
            r == self.start_frame,
    {
        self.start_frame
    }

    pub fn duration_frames(&self) -> (r: u32)
        ensures
            r == self.duration_frames,
    {
        self.duration_frames
    }

    pub fn configuration_generation(&self) -> (r: u32)
        ensures
            r == self.configuration_generation,
    {
        self.configuration_generation
    }

    pub fn presentation_index(&self) -> (r: u32)
        ensures
            r == self.presentation_index,
    {
        self.presentation_index
    }

    pub fn presentation_id(&self) -> (r: Option<u32>)
        ensures
            r == self.presentation_id,
    {
        self.presentation_id
    }

    pub fn state_complete(&self) -> (r: bool)
        ensures
            r == self.state_complete,
    {
        self.state_complete
    }

    pub fn objects(&self) -> (r: &[SceneObjectPcm])
        ensures
            r@ == self.objects@,
    {
        self.objects.as_slice()
    }

    pub fn lfe(&self) -> (r: Option<&SceneLfePcm>)
        ensures
            match r {
                Some(lfe) => self.lfe == Some(*lfe),
                None => self.lfe is None,
            },
    {
        match &self.lfe {
            Some(lfe) => Some(lfe),
            None => None,
        }
    }

    pub fn metadata_updates(&self) -> (r: &[SceneMetadataUpdate])
        ensures
            r@ == self.metadata_updates@,
    {
        self.metadata_updates.as_slice()
    }
}

} // verus!
