//! Content reference frames, independent of the sensor and output-device policy.
use crate::text::{decimal, push_decimal};
use vstd::prelude::*;
use vstd::string::*;

verus! {

#[derive(Debug, Clone, Copy, PartialEq, Eq, Structural)]
pub enum TrackingIssue {
    ReservedOperationMode(u8),
    ReservedObjectMode(u8),
    MissingGlobalControl,
    UnboundSource,
    ConflictingGroups,
    Unknown,
}

impl TrackingIssue {
    /// What a reader of the scene sees for this issue.
    pub open spec fn message(self) -> Seq<char> {
        match self {
            TrackingIssue::ReservedOperationMode(value) => "Reserved headphone operation mode "@
                + decimal(value as nat),
            TrackingIssue::ReservedObjectMode(value) => "Reserved object headphone mode "@
                + decimal(value as nat),
            TrackingIssue::MissingGlobalControl => "Missing global tracking control"@,
            TrackingIssue::UnboundSource => "No associated audio group"@,
            TrackingIssue::ConflictingGroups =>
                "Audio groups specify conflicting content policies"@,
            TrackingIssue::Unknown => "Unrecognized content tracking policy"@,
        }
    }

    pub fn text(self) -> (r: String)
        ensures
            r@ == self.message(),
    {
        match self {
            TrackingIssue::ReservedOperationMode(value) => {
                let mut out = "Reserved headphone operation mode ".to_owned();
                push_decimal(&mut out, value as u64);
                out
            },
            TrackingIssue::ReservedObjectMode(value) => {
                let mut out = "Reserved object headphone mode ".to_owned();
                push_decimal(&mut out, value as u64);
                out
            },
            TrackingIssue::MissingGlobalControl => "Missing global tracking control".to_owned(),
            TrackingIssue::UnboundSource => "No associated audio group".to_owned(),
            TrackingIssue::ConflictingGroups =>
                "Audio groups specify conflicting content policies".to_owned(),
            TrackingIssue::Unknown => "Unrecognized content tracking policy".to_owned(),
        }
    }
}

#[derive(Debug, Clone, Copy, PartialEq, Eq, Structural)]
pub enum ContentHeadTracking {
    Unspecified,
    SceneRelative,
    HeadRelative,
    Unsupported(TrackingIssue),
}

impl Default for ContentHeadTracking {
    fn default() -> (r: Self)
        ensures
            r == ContentHeadTracking::Unspecified,
    {
        ContentHeadTracking::Unspecified
    }
}

impl ContentHeadTracking {
    /// Missing and unsupported declarations both use the world-space default.
    pub fn head_locked(self) -> (r: bool)
        ensures
            r == (self == ContentHeadTracking::HeadRelative),
    {
        matches!(self, ContentHeadTracking::HeadRelative)
    }
}

#[derive(Debug, Clone, Copy, PartialEq, Eq)]
pub struct TrackingSummary {
    pub scene_relative: usize,
    pub head_relative: usize,
    pub unspecified: usize,
    pub unsupported: usize,
    pub first_issue: Option<(u64, TrackingIssue)>,
}

impl Default for TrackingSummary {
    fn default() -> (r: Self)
        ensures
            r == TrackingSummary::of(Seq::empty()),
    {
        TrackingSummary {
            scene_relative: 0,
            head_relative: 0,
            unspecified: 0,
            unsupported: 0,
            first_issue: None,
        }
    }
}

impl TrackingSummary {
    /// How many elements have been counted.
    pub open spec fn total(self) -> nat {
        (self.scene_relative + self.head_relative + self.unspecified + self.unsupported) as nat
    }

    /// The summary after one more element.
    pub open spec fn observed(self, element_id: u64, tracking: ContentHeadTracking) -> Self {
        match tracking {
            ContentHeadTracking::SceneRelative => TrackingSummary {
                scene_relative: (self.scene_relative + 1) as usize,
                ..self
            },
            ContentHeadTracking::HeadRelative => TrackingSummary {
                head_relative: (self.head_relative + 1) as usize,
                ..self
            },
            ContentHeadTracking::Unspecified => TrackingSummary {
                unspecified: (self.unspecified + 1) as usize,
                ..self
            },
            ContentHeadTracking::Unsupported(issue) => TrackingSummary {
                unsupported: (self.unsupported + 1) as usize,
                first_issue: match self.first_issue {
                    Some(first) => Some(first),
                    None => Some((element_id, issue)),
                },
                ..self
            },
        }
    }

    /// The summary of a whole scene, element by element.
    pub open spec fn of(elements: Seq<(u64, ContentHeadTracking)>) -> Self
        decreases elements.len(),
    {
        if elements.len() == 0 {
            TrackingSummary {
                scene_relative: 0,
                head_relative: 0,
                unspecified: 0,
                unsupported: 0,
                first_issue: None,
            }
        } else {
            let last = elements.last();
            TrackingSummary::of(elements.drop_last()).observed(last.0, last.1)
        }
    }

    pub fn observe(&mut self, element_id: u64, tracking: ContentHeadTracking)
        requires
            old(self).total() < usize::MAX,
        ensures
            *final(self) == old(self).observed(element_id, tracking),
            final(self).total() == old(self).total() + 1,
    {
        match tracking {
            ContentHeadTracking::SceneRelative => {
                self.scene_relative = self.scene_relative + 1;
            },
            ContentHeadTracking::HeadRelative => {
                self.head_relative = self.head_relative + 1;
            },
            ContentHeadTracking::Unspecified => {
                self.unspecified = self.unspecified + 1;
            },
            ContentHeadTracking::Unsupported(issue) => {
                self.unsupported = self.unsupported + 1;
                if self.first_issue.is_none() {
                    self.first_issue = Some((element_id, issue));
                }
            },
        }
    }
}

/// Observing elements one after another, from an empty summary on, sums them all up.
pub proof fn observing_in_turn_sums_up(
    elements: Seq<(u64, ContentHeadTracking)>,
    element_id: u64,
    tracking: ContentHeadTracking,
)
    ensures
        TrackingSummary::of(elements.push((element_id, tracking))) == TrackingSummary::of(
            elements,
        ).observed(element_id, tracking),
{
    assert(elements.push((element_id, tracking)).drop_last() =~= elements);
}

/// Every element is counted once, under its own reference, and the issue that is kept
/// is the first one.
pub proof fn summary_counts_each_element_and_keeps_the_first_issue(
    elements: Seq<(u64, ContentHeadTracking)>,
)
    requires
        elements.len() <= usize::MAX,
    ensures
        TrackingSummary::of(elements).total() == elements.len(),
        TrackingSummary::of(elements).scene_relative == elements.filter(
            |element: (u64, ContentHeadTracking)| element.1 is SceneRelative,
        ).len(),
        TrackingSummary::of(elements).head_relative == elements.filter(
            |element: (u64, ContentHeadTracking)| element.1 is HeadRelative,
        ).len(),
        TrackingSummary::of(elements).unspecified == elements.filter(
            |element: (u64, ContentHeadTracking)| element.1 is Unspecified,
        ).len(),
        TrackingSummary::of(elements).unsupported == elements.filter(
            |element: (u64, ContentHeadTracking)| element.1 is Unsupported,
        ).len(),
        match TrackingSummary::of(elements).first_issue {
            None => forall|i: int|
                0 <= i < elements.len() ==> !((#[trigger] elements[i]).1 is Unsupported),
            Some(first) => exists|i: int|
                {
                    &&& 0 <= i < elements.len()
                    &&& (#[trigger] elements[i]) == (
                        first.0,
                        ContentHeadTracking::Unsupported(first.1),
                    )
                    &&& forall|j: int|
                        0 <= j < i ==> !((#[trigger] elements[j]).1 is Unsupported)
                },
        },
    decreases elements.len(),
{
    reveal(Seq::filter);
    if elements.len() > 0 {
        let rest = elements.drop_last();
        summary_counts_each_element_and_keeps_the_first_issue(rest);
        let before = TrackingSummary::of(rest);
        let last = elements.last();
        assert forall|i: int| 0 <= i < rest.len() implies rest[i] == #[trigger] elements[i] by {}
        match before.first_issue {
            Some(first) => {
                let k = choose|i: int|
                    {
                        &&& 0 <= i < rest.len()
                        &&& (#[trigger] rest[i]) == (
                            first.0,
                            ContentHeadTracking::Unsupported(first.1),
                        )
                        &&& forall|j: int|
                            0 <= j < i ==> !((#[trigger] rest[j]).1 is Unsupported)
                    };
                assert(elements[k] == rest[k]);
                assert forall|j: int| 0 <= j < k implies !((#[trigger] elements[j]).1 is Unsupported) by {
                    assert(rest[j] == elements[j]);
                }
            },
            None => {
                assert forall|j: int| 0 <= j < rest.len() implies !((#[trigger] elements[j]).1 is Unsupported) by {
                    assert(rest[j] == elements[j]);
                }
                assert(elements[elements.len() - 1] == last);
            },
        }
    }
}

/// What is wrong with an element's reference is told in words, with the value that is
/// reserved.
pub proof fn an_issue_names_the_reserved_value(value: u8)
    ensures
        TrackingIssue::ReservedOperationMode(value).message() == "Reserved headphone operation mode "@
            + decimal(value as nat),
        TrackingIssue::ReservedObjectMode(value).message() == "Reserved object headphone mode "@
            + decimal(value as nat),
        TrackingIssue::UnboundSource.message() == "No associated audio group"@,
        TrackingIssue::MissingGlobalControl.message() == "Missing global tracking control"@,
{
}

/// Only content that is relative to the head is locked to it.
pub proof fn only_head_relative_content_is_locked(tracking: ContentHeadTracking, r: bool)
    requires
        call_ensures(ContentHeadTracking::head_locked, (tracking,), r),
    ensures
        r <==> tracking is HeadRelative,
{
}

} // verus!
