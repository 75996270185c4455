//! The identity of a scene: what must not change while a stream plays it.
use super::scene::{DecodedSceneBlock, SceneLfePcm, SceneObjectPcm};
use crate::order::{ascending, dup_ids, lemma_ascending, same_ids, sort_ids};
use vstd::prelude::*;

verus! {

#[derive(Debug)]
pub struct SceneSignature {
    pub configuration_generation: u32,
    pub presentation_index: u32,
    pub presentation_id: Option<u32>,
    /// Ascending.
    pub object_element_ids: Vec<u64>,
    pub lfe_element_id: Option<u64>,
}

/// What a signature says.
#[verifier::ext_equal]
pub struct SceneIdentity {
    pub configuration_generation: u32,
    pub presentation_index: u32,
    pub presentation_id: Option<u32>,
    pub object_element_ids: Seq<u64>,
    pub lfe_element_id: Option<u64>,
}

impl SceneIdentity {
    /// The objects are listed in ascending order.
    pub open spec fn wf(self) -> bool {
        forall|i: int, j: int|
            0 <= i < j < self.object_element_ids.len() ==> self.object_element_ids[i]
                <= self.object_element_ids[j]
    }
}

impl View for SceneSignature {
    type V = SceneIdentity;

    open spec fn view(&self) -> SceneIdentity {
        SceneIdentity {
            configuration_generation: self.configuration_generation,
            presentation_index: self.presentation_index,
            presentation_id: self.presentation_id,
            object_element_ids: self.object_element_ids@,
            lfe_element_id: self.lfe_element_id,
        }
    }
}

/// The names of the objects, in the order of the block.
pub open spec fn element_ids(objects: Seq<SceneObjectPcm>) -> Seq<u64> {
    objects.map_values(|object: SceneObjectPcm| object.element_id)
}

pub open spec fn lfe_id(lfe: Option<SceneLfePcm>) -> Option<u64> {
    match lfe {
        Some(bed) => Some(bed.element_id),
        None => None,
    }
}

/// The identity that a block has.
pub open spec fn identity_of(block: DecodedSceneBlock) -> SceneIdentity {
    SceneIdentity {
        configuration_generation: block.configuration_generation,
        presentation_index: block.presentation_index,
        presentation_id: block.presentation_id,
        object_element_ids: ascending(element_ids(block.objects@)),
        lfe_element_id: lfe_id(block.lfe),
    }
}

pub fn collect_element_ids(objects: &[SceneObjectPcm]) -> (r: Vec<u64>)
    ensures
        r@ == element_ids(objects@),
{
    let mut ids: Vec<u64> = Vec::new();
    let mut index: usize = 0;
    while index < objects.len()
        invariant
            index <= objects@.len(),
            ids@ == element_ids(objects@).take(index as int),
        decreases objects.len() - index,
    {
        ids.push(objects[index].element_id);
        assert(ids@ =~= element_ids(objects@).take(index as int + 1));
        index = index + 1;
    }
    assert(element_ids(objects@).take(index as int) =~= element_ids(objects@));
    ids
}

impl SceneSignature {
    pub fn new(
        configuration_generation: u32,
        presentation_index: u32,
        presentation_id: Option<u32>,
        object_element_ids: Vec<u64>,
        lfe_element_id: Option<u64>,
    ) -> (r: Self)
        ensures
            r@ == (SceneIdentity {
                configuration_generation,
                presentation_index,
                presentation_id,
                object_element_ids: ascending(object_element_ids@),
                lfe_element_id,
            }),
            r@.wf(),
    {
        SceneSignature {
            configuration_generation,
            presentation_index,
            presentation_id,
            object_element_ids: sort_ids(object_element_ids),
            lfe_element_id,
        }
    }

    pub fn from_block(block: &DecodedSceneBlock) -> (r: Self)
        ensures
            r@ == identity_of(*block),
            r@.wf(),
    {
        let lfe_element_id = match &block.lfe {
            Some(bed) => Some(bed.element_id),
            None => None,
        };
        SceneSignature::new(
            block.configuration_generation,
            block.presentation_index,
            block.presentation_id,
            collect_element_ids(block.objects()),
            lfe_element_id,
        )
    }

    pub fn configuration_generation(&self) -> (r: u32)
        ensures
            r == self@.configuration_generation,
    {
        self.configuration_generation
    }

    pub fn presentation_index(&self) -> (r: u32)
        ensures
            r == self@.presentation_index,
    {
        self.presentation_index
    }

    pub fn presentation_id(&self) -> (r: Option<u32>)
        ensures
            r == self@.presentation_id,
    {
        self.presentation_id
    }

    pub fn object_element_ids(&self) -> (r: &[u64])
        ensures
            r@ == self@.object_element_ids,
    {
        self.object_element_ids.as_slice()
    }

    pub fn lfe_element_id(&self) -> (r: Option<u64>)
        ensures
            r == self@.lfe_element_id,
    {
        self.lfe_element_id
    }

    /// Whether two signatures say the same.
    pub fn same(&self, other: &SceneSignature) -> (r: bool)
        ensures
            r == (self@ == other@),
    {
        let r = self.configuration_generation == other.configuration_generation
            && self.presentation_index == other.presentation_index && self.presentation_id
            == other.presentation_id && self.lfe_element_id == other.lfe_element_id && same_ids(
            self.object_element_ids.as_slice(),
            other.object_element_ids.as_slice(),
        );
        r
    }

    pub fn dup(&self) -> (r: Self)
        ensures
            r@ == self@,
    {
        SceneSignature {
            configuration_generation: self.configuration_generation,
            presentation_index: self.presentation_index,
            presentation_id: self.presentation_id,
            object_element_ids: dup_ids(self.object_element_ids.as_slice()),
            lfe_element_id: self.lfe_element_id,
        }
    }
}

pub fn dup_signature(signature: &Option<SceneSignature>) -> (r: Option<SceneSignature>)
    ensures
        identity(r) == identity(*signature),
{
    match signature {
        Some(signature) => Some(signature.dup()),
        None => None,
    }
}

pub open spec fn identity(signature: Option<SceneSignature>) -> Option<SceneIdentity> {
    match signature {
        Some(signature) => Some(signature@),
        None => None,
    }
}

/// A scene's identity does not depend on the order in which a block lists its
/// objects.
pub proof fn identity_ignores_the_order_of_objects(a: DecodedSceneBlock, b: DecodedSceneBlock)
    requires
        element_ids(a.objects@).to_multiset() == element_ids(b.objects@).to_multiset(),
        a.configuration_generation == b.configuration_generation,
        a.presentation_index == b.presentation_index,
        a.presentation_id == b.presentation_id,
        lfe_id(a.lfe) == lfe_id(b.lfe),
    ensures
        identity_of(a) == identity_of(b),
{
    lemma_ascending(element_ids(a.objects@));
    crate::order::lemma_ascending_unique(
        ascending(element_ids(a.objects@)),
        element_ids(b.objects@),
    );
}

/// Two blocks are of one scene exactly where they agree on configuration, presentation,
/// bed and the names of their objects.
pub proof fn an_identity_is_what_a_scene_is_made_of(a: DecodedSceneBlock, b: DecodedSceneBlock)
    ensures
        identity_of(a).configuration_generation == a.configuration_generation,
        identity_of(a).presentation_index == a.presentation_index,
        identity_of(a).presentation_id == a.presentation_id,
        identity_of(a).lfe_element_id is Some <==> a.lfe is Some,
        a.lfe is Some ==> identity_of(a).lfe_element_id == Some(a.lfe->0.element_id),
        identity_of(a).object_element_ids.len() == a.objects@.len(),
        identity_of(a) == identity_of(b) ==> a.configuration_generation
            == b.configuration_generation && a.presentation_index == b.presentation_index
            && a.presentation_id == b.presentation_id && (a.lfe is Some <==> b.lfe is Some)
            && a.objects@.len() == b.objects@.len(),
{
    crate::order::lemma_ascending(element_ids(a.objects@));
    crate::order::lemma_ascending(element_ids(b.objects@));
    element_ids(a.objects@).to_multiset_ensures();
    ascending(element_ids(a.objects@)).to_multiset_ensures();
    element_ids(b.objects@).to_multiset_ensures();
    ascending(element_ids(b.objects@)).to_multiset_ensures();
}

} // verus!
