//! The picture of a scene that the view draws from.
use crate::decoder::level::Level;
use crate::decoder::queue::PlaybackKey;
use crate::decoder::scene::SpatialPosition;
use vstd::prelude::*;

verus! {

/// How many objects the view shows.
pub const MAX_VIEW_OBJECTS: usize = 20;

/// One object as it is drawn, in listener coordinates.
#[derive(Debug)]
pub struct ObjectView {
    pub element_id: u64,
    pub active: bool,
    pub position: SpatialPosition,
    pub gain: Level,
    /// It was placed outright since the last picture.
    pub jumped: bool,
}

/// One picture, stamped with the playback it belongs to.
#[derive(Debug)]
pub struct SceneFrame {
    pub key: PlaybackKey,
    pub objects: Vec<ObjectView>,
    pub hidden_objects: usize,
    pub timeline_frame: i64,
    pub sample_rate: u32,
}

impl SceneFrame {
    pub fn objects(&self) -> (r: &[ObjectView])
        ensures
            r@ == self.objects@,
    {
        self.objects.as_slice()
    }

    pub fn hidden_objects(&self) -> (r: usize)
        ensures
            r == self.hidden_objects,
    {
        self.hidden_objects
    }
}

/// The latest picture.
#[derive(Debug)]
pub struct SceneViewMirror {
    pub latest: Option<SceneFrame>,
}

impl SceneViewMirror {
    pub fn new() -> (r: Self)
        ensures
            r.latest is None,
    {
        SceneViewMirror { latest: None }
    }

    /// The latest picture shows `views`, as many as the view has room for, and
    /// counts the rest.
    pub open spec fn shows(
        &self,
        key: PlaybackKey,
        views: Seq<ObjectView>,
        timeline_frame: i64,
        sample_rate: u32,
    ) -> bool {
        match self.latest {
            None => false,
            Some(frame) => {
                let shown = if views.len() < MAX_VIEW_OBJECTS {
                    views.len() as int
                } else {
                    MAX_VIEW_OBJECTS as int
                };
                &&& frame.key == key
                &&& frame.objects@ == views.take(shown)
                &&& frame.hidden_objects == views.len() - shown
                &&& frame.timeline_frame == timeline_frame
                &&& frame.sample_rate == sample_rate
            },
        }
    }

    pub fn write(
        &mut self,
        key: PlaybackKey,
        views: Vec<ObjectView>,
        timeline_frame: i64,
        sample_rate: u32,
    )
        ensures
            final(self).shows(key, views@, timeline_frame, sample_rate),
    {
        let mut objects = views;
        let count: usize = objects.len();
        let hidden_objects: usize = count.saturating_sub(MAX_VIEW_OBJECTS);
        objects.truncate(MAX_VIEW_OBJECTS);
        proof {
            if count <= MAX_VIEW_OBJECTS {
                assert(views@.take(count as int) =~= views@);
            }
        }
        self.latest =
        Some(SceneFrame { key, objects, hidden_objects, timeline_frame, sample_rate });
    }

    /// The latest picture, if it belongs to `key`.
    pub fn read(&self, key: PlaybackKey) -> (r: Option<&SceneFrame>)
        ensures
            match r {
                Some(frame) => self.latest == Some(*frame) && frame.key == key,
                None => self.latest is None || self.latest->0.key != key,
            },
    {
        match &self.latest {
            Some(frame) => if frame.key == key {
                Some(frame)
            } else {
                None
            },
            None => None,
        }
    }
}

} // verus!
