//! Taking over what the codec decoded: a frame is checked once, and from then
//! on every consumer can rely on its shape.
use super::scene::{
    dup_state, DecodedSceneBlock, SceneLfePcm, SceneMetadataUpdate, SceneObjectPcm,
    SpatialObjectState,
};
use crate::backend::state::planes_fit;
use crate::numeric::{finite, is_finite};
use vstd::prelude::*;
use vstd::string::*;

verus! {

/// One object as the codec hands it over.
#[derive(Debug)]
pub struct CodecObject {
    pub element_id: u64,
    pub initial_state: Option<SpatialObjectState>,
    pub samples_per_plane: usize,
    pub planes: Vec<Vec<u32>>,
}

/// One channel bed as the codec hands it over.
#[derive(Debug)]
pub struct CodecBed {
    pub element_id: u64,
    pub initial_state: Option<SpatialObjectState>,
    pub components: Vec<Vec<u32>>,
}

/// One scene frame as the codec hands it over.
#[derive(Debug)]
pub struct CodecFrame {
    pub sample_rate: u32,
    pub duration_samples: u32,
    pub codec_sample_start: i64,
    pub presentation_sample_start: Option<i64>,
    pub configuration_generation: u32,
    pub presentation_index: u32,
    pub presentation_id: Option<u32>,
    pub state_complete: bool,
    pub objects: Vec<CodecObject>,
    pub beds: Vec<CodecBed>,
    pub metadata_updates: Vec<SceneMetadataUpdate>,
}

/// `samples` is a whole plane of finite values.
pub open spec fn is_plane(samples: Seq<u32>, frames: u32) -> bool {
    samples.len() == frames && forall|i: int|
        0 <= i < samples.len() ==> is_finite(#[trigger] samples[i])
}

pub fn validate_samples(samples: &[u32], expected_samples: u32) -> (r: Result<(), String>)
    ensures
        if is_plane(samples@, expected_samples) {
            r is Ok
        } else {
            r is Err && r->Err_0@ == "Scene PCM has an invalid length or non-finite sample"@
        },
{
    if samples.len() != expected_samples as usize {
        return Err("Scene PCM has an invalid length or non-finite sample".to_owned());
    }
    let mut index: usize = 0;
    while index < samples.len()
        invariant
            index <= samples@.len(),
            samples@.len() == expected_samples,
            forall|i: int| 0 <= i < index ==> is_finite(#[trigger] samples@[i]),
        decreases samples.len() - index,
    {
        if !finite(samples[index]) {
            assert(!is_finite(samples@[index as int]));
            return Err("Scene PCM has an invalid length or non-finite sample".to_owned());
        }
        index = index + 1;
    }
    Ok(())
}

/// Why an object is turned away, if it is.
pub open spec fn object_refusal(object: CodecObject, frames: u32) -> Option<Seq<char>> {
    if object.planes@.len() != 1 || object.samples_per_plane != frames {
        Some("Scene object is not mono planar PCM"@)
    } else if !is_plane(object.planes@[0]@, frames) {
        Some("Scene PCM has an invalid length or non-finite sample"@)
    } else {
        None
    }
}

/// Why a run of objects is turned away: what the first bad one is refused for.
pub open spec fn objects_refusal(objects: Seq<CodecObject>, frames: u32) -> Option<Seq<char>>
    decreases objects.len(),
{
    if objects.len() == 0 {
        None
    } else if object_refusal(objects[0], frames) is Some {
        object_refusal(objects[0], frames)
    } else {
        objects_refusal(objects.drop_first(), frames)
    }
}

/// The components of a run of beds, each with the bed it belongs to.
pub open spec fn components(beds: Seq<CodecBed>) -> Seq<(int, int)>
    decreases beds.len(),
{
    if beds.len() == 0 {
        Seq::empty()
    } else {
        components(beds.drop_last()) + Seq::new(
            beds.last().components@.len(),
            |i: int| (beds.len() - 1, i),
        )
    }
}

/// Why the beds are turned away, if they are: the player renders one component.
pub open spec fn beds_refusal(beds: Seq<CodecBed>, frames: u32) -> Option<Seq<char>> {
    let all = components(beds);
    if all.len() == 0 {
        None
    } else if !is_plane(beds[all[0].0].components@[all[0].1]@, frames) {
        Some("Scene PCM has an invalid length or non-finite sample"@)
    } else if all.len() > 1 {
        Some("Scene contains more than one native LFE component"@)
    } else {
        None
    }
}

/// Why a frame is turned away, if it is.
pub open spec fn frame_refusal(frame: CodecFrame) -> Option<Seq<char>> {
    let frames = frame.duration_samples;
    if frames == 0 || frame.sample_rate == 0 {
        Some("Scene frame has an invalid PCM duration or sample rate"@)
    } else if objects_refusal(frame.objects@, frames) is Some {
        objects_refusal(frame.objects@, frames)
    } else if beds_refusal(frame.beds@, frames) is Some {
        beds_refusal(frame.beds@, frames)
    } else if frame.objects@.len() == 0 && components(frame.beds@).len() == 0 {
        Some("Scene frame contains no renderable PCM elements"@)
    } else {
        None
    }
}

/// `block` is `frame`, as the player holds it.
pub open spec fn holds(block: DecodedSceneBlock, frame: CodecFrame) -> bool {
    let all = components(frame.beds@);
    &&& block.sample_rate == frame.sample_rate
    &&& block.start_frame == match frame.presentation_sample_start {
        Some(start) => start,
        None => frame.codec_sample_start,
    }
    &&& block.duration_frames == frame.duration_samples
    &&& block.configuration_generation == frame.configuration_generation
    &&& block.presentation_index == frame.presentation_index
    &&& block.presentation_id == frame.presentation_id
    &&& block.state_complete == frame.state_complete
    &&& block.objects@.len() == frame.objects@.len()
    &&& forall|i: int|
        0 <= i < frame.objects@.len() ==> {
            &&& (#[trigger] block.objects@[i]).element_id == frame.objects@[i].element_id
            &&& block.objects@[i].initial_state == frame.objects@[i].initial_state
            &&& block.objects@[i].samples@ == frame.objects@[i].planes@[0]@
        }
    &&& block.lfe is Some <==> all.len() > 0
    &&& block.lfe is Some ==> {
        let bed = frame.beds@[all[0].0];
        &&& block.lfe->0.element_id == bed.element_id
        &&& block.lfe->0.initial_state == bed.initial_state
        &&& block.lfe->0.samples@ == bed.components@[all[0].1]@
    }
    &&& block.metadata_updates@ == frame.metadata_updates@
}

fn dup_samples(samples: &Vec<u32>) -> (r: Vec<u32>)
    ensures
        r@ == samples@,
{
    let mut out: Vec<u32> = Vec::new();
    let mut index: usize = 0;
    while index < samples.len()
        invariant
            index <= samples@.len(),
            out@ == samples@.take(index as int),
        decreases samples.len() - index,
    {
        out.push(samples[index]);
        index = index + 1;
        assert(out@ =~= samples@.take(index as int));
    }
    assert(samples@.take(index as int) =~= samples@);
    out
}

fn take_objects(objects: &Vec<CodecObject>, frames: u32) -> (r: Result<
    Vec<SceneObjectPcm>,
    String,
>)
    ensures
        match objects_refusal(objects@, frames) {
            Some(message) => r is Err && r->Err_0@ == message,
            None => r is Ok && r->Ok_0@.len() == objects@.len() && forall|i: int|
                0 <= i < objects@.len() ==> {
                    &&& (#[trigger] r->Ok_0@[i]).element_id == objects@[i].element_id
                    &&& r->Ok_0@[i].initial_state == objects@[i].initial_state
                    &&& r->Ok_0@[i].samples@ == objects@[i].planes@[0]@
                    &&& is_plane(r->Ok_0@[i].samples@, frames)
                },
        },
{
    let mut taken: Vec<SceneObjectPcm> = Vec::new();
    let mut index: usize = 0;
    assert(objects@.skip(0) =~= objects@);
    while index < objects.len()
        invariant
            index <= objects@.len(),
            taken@.len() == index,
            objects_refusal(objects@, frames) == objects_refusal(
                objects@.skip(index as int),
                frames,
            ),
            forall|i: int|
                0 <= i < index ==> {
                    &&& (#[trigger] taken@[i]).element_id == objects@[i].element_id
                    &&& taken@[i].initial_state == objects@[i].initial_state
                    &&& taken@[i].samples@ == objects@[i].planes@[0]@
                    &&& is_plane(taken@[i].samples@, frames)
                },
        decreases objects.len() - index,
    {
        let object = &objects[index];
        proof {
            assert(objects@.skip(index as int)[0] == *object);
            assert(objects@.skip(index as int).drop_first() =~= objects@.skip(index as int + 1));
        }
        if object.planes.len() != 1 || object.samples_per_plane != frames as usize {
            return Err("Scene object is not mono planar PCM".to_owned());
        }
        match validate_samples(object.planes[0].as_slice(), frames) {
            Ok(_) => {},
            Err(error) => {
                return Err(error);
            },
        }
        taken.push(
            SceneObjectPcm::new(
                object.element_id,
                dup_state(&object.initial_state),
                dup_samples(&object.planes[0]),
            ),
        );
        index = index + 1;
    }
    Ok(taken)
}

fn take_bed(beds: &Vec<CodecBed>, frames: u32) -> (r: Result<Option<SceneLfePcm>, String>)
    ensures
        match beds_refusal(beds@, frames) {
            Some(message) => r is Err && r->Err_0@ == message,
            None => {
                let all = components(beds@);
                &&& r is Ok
                &&& r->Ok_0 is Some <==> all.len() > 0
                &&& r->Ok_0 is Some ==> {
                    let bed = beds@[all[0].0];
                    &&& r->Ok_0->0.element_id == bed.element_id
                    &&& r->Ok_0->0.initial_state == bed.initial_state
                    &&& r->Ok_0->0.samples@ == bed.components@[all[0].1]@
                    &&& is_plane(r->Ok_0->0.samples@, frames)
                }
            },
        },
{
    let mut lfe: Option<SceneLfePcm> = None;
    let mut index: usize = 0;
    let ghost all = components(beds@);
    let ghost mut seen: Seq<(int, int)> = Seq::empty();
    assert(beds@.take(0) =~= Seq::empty());
    while index < beds.len()
        invariant
            index <= beds@.len(),
            all == components(beds@),
            seen == components(beds@.take(index as int)),
            lfe is Some <==> seen.len() > 0,
            lfe is Some ==> {
                let bed = beds@[seen[0].0];
                &&& seen.len() == 1
                &&& lfe->0.element_id == bed.element_id
                &&& lfe->0.initial_state == bed.initial_state
                &&& lfe->0.samples@ == bed.components@[seen[0].1]@
                &&& is_plane(lfe->0.samples@, frames)
            },
        decreases beds.len() - index,
    {
        let bed = &beds[index];
        let ghost earlier = seen;
        proof {
            let prefix = beds@.take(index as int + 1);
            assert(prefix.drop_last() =~= beds@.take(index as int));
            assert(prefix.last() == beds@[index as int]);
            lemma_components_prefix(beds@, index as int + 1);
            assert(components(prefix) =~= earlier + Seq::new(
                bed.components@.len(),
                |i: int| (index as int, i),
            ));
        }
        let ghost whole = components(beds@.take(index as int + 1));
        let mut place: usize = 0;
        assert(seen =~= whole.take(seen.len() as int));
        while place < bed.components.len()
            invariant
                index < beds@.len(),
                *bed == beds@[index as int],
                place <= bed.components@.len(),
                all == components(beds@),
                whole == earlier + Seq::new(
                    bed.components@.len(),
                    |i: int| (index as int, i),
                ),
                seen == whole.take(earlier.len() + place),
                whole.len() <= all.len(),
                whole =~= all.take(whole.len() as int),
                lfe is Some <==> seen.len() > 0,
                lfe is Some ==> {
                    let from = beds@[seen[0].0];
                    &&& seen.len() == 1
                    &&& lfe->0.element_id == from.element_id
                    &&& lfe->0.initial_state == from.initial_state
                    &&& lfe->0.samples@ == from.components@[seen[0].1]@
                    &&& is_plane(lfe->0.samples@, frames)
                },
            decreases bed.components.len() - place,
        {
            assert(whole[earlier.len() + place] == (index as int, place as int));
            if lfe.is_some() {
                assert(all[0] == whole[0]);
                assert(seen[0] == whole[0]);
                return Err("Scene contains more than one native LFE component".to_owned());
            }
            assert(earlier.len() + place == 0);
            match validate_samples(bed.components[place].as_slice(), frames) {
                Ok(_) => {},
                Err(error) => {
                    assert(all[0] == whole[0]);
                    return Err(error);
                },
            }
            lfe =
            Some(
                SceneLfePcm::new(
                    bed.element_id,
                    dup_state(&bed.initial_state),
                    dup_samples(&bed.components[place]),
                ),
            );
            proof {
                seen = whole.take(earlier.len() + place + 1);
                assert(seen[0] == (index as int, place as int));
            }
            place = place + 1;
        }
        assert(whole.take(whole.len() as int) =~= whole);
        index = index + 1;
    }
    assert(beds@.take(index as int) =~= beds@);
    Ok(lfe)
}

/// The components of the first beds come first.
proof fn lemma_components_prefix(beds: Seq<CodecBed>, n: int)
    requires
        0 <= n <= beds.len(),
    ensures
        components(beds.take(n)).len() <= components(beds).len(),
        components(beds.take(n)) =~= components(beds).take(components(beds.take(n)).len() as int),
    decreases beds.len(),
{
    if n < beds.len() {
        lemma_components_prefix(beds.drop_last(), n);
        assert(beds.drop_last().take(n) =~= beds.take(n));
    } else {
        assert(beds.take(n) =~= beds);
    }
}

/// Takes over a decoded frame, or says why it cannot be rendered.
pub fn own_scene_frame(frame: CodecFrame) -> (r: Result<DecodedSceneBlock, String>)
    ensures
        match frame_refusal(frame) {
            Some(message) => r is Err && r->Err_0@ == message,
            None => r is Ok && holds(r->Ok_0, frame) && planes_fit(r->Ok_0),
        },
{
    let frames: u32 = frame.duration_samples;
    if frames == 0 || frame.sample_rate == 0 {
        return Err("Scene frame has an invalid PCM duration or sample rate".to_owned());
    }
    let objects = match take_objects(&frame.objects, frames) {
        Ok(objects) => objects,
        Err(error) => {
            return Err(error);
        },
    };
    let lfe = match take_bed(&frame.beds, frames) {
        Ok(lfe) => lfe,
        Err(error) => {
            return Err(error);
        },
    };
    if objects.len() == 0 && lfe.is_none() {
        return Err("Scene frame contains no renderable PCM elements".to_owned());
    }
    let start: i64 = match frame.presentation_sample_start {
        Some(start) => start,
        None => frame.codec_sample_start,
    };
    Ok(
        DecodedSceneBlock::new(
            frame.sample_rate,
            start,
            frames,
            frame.configuration_generation,
            frame.presentation_index,
            frame.presentation_id,
            frame.state_complete,
            objects,
            lfe,
            frame.metadata_updates,
        ),
    )
}

/// A frame that is taken over has audio: at least one frame, at least one
/// element, and only finite samples.
pub proof fn an_owned_frame_is_renderable(frame: CodecFrame, block: DecodedSceneBlock)
    requires
        frame_refusal(frame) is None,
        holds(block, frame),
    ensures
        block.duration_frames > 0,
        block.sample_rate > 0,
        block.objects@.len() > 0 || block.lfe is Some,
        forall|i: int|
            0 <= i < block.objects@.len() ==> is_plane(
                (#[trigger] block.objects@[i]).samples@,
                block.duration_frames,
            ),
        block.lfe is Some ==> is_plane(block.lfe->0.samples@, block.duration_frames),
{
    assert forall|i: int| 0 <= i < block.objects@.len() implies is_plane(
        (#[trigger] block.objects@[i]).samples@,
        block.duration_frames,
    ) by {
        lemma_no_refusal(frame.objects@, frame.duration_samples, i);
    }
}

proof fn lemma_no_refusal(objects: Seq<CodecObject>, frames: u32, i: int)
    requires
        objects_refusal(objects, frames) is None,
        0 <= i < objects.len(),
    ensures
        object_refusal(objects[i], frames) is None,
    decreases objects.len(),
{
    if i > 0 {
        lemma_no_refusal(objects.drop_first(), frames, i - 1);
        assert(objects.drop_first()[i - 1] == objects[i]);
    }
}

/// A mono plane of the frame's length, without an infinity or a NaN.
pub open spec fn is_sound_object(object: CodecObject, frames: u32) -> bool {
    &&& object.planes@.len() == 1
    &&& object.samples_per_plane == frames
    &&& object.planes@[0]@.len() == frames
    &&& forall|n: int|
        0 <= n < object.planes@[0]@.len() ==> {
            let bits = #[trigger] object.planes@[0]@[n];
            bits < 0x7f80_0000 || 0x8000_0000 <= bits < 0xff80_0000
        }
}

proof fn lemma_sound_plane(samples: Seq<u32>, frames: u32)
    ensures
        is_plane(samples, frames) <==> samples.len() == frames && forall|n: int|
            0 <= n < samples.len() ==> {
                let bits = #[trigger] samples[n];
                bits < 0x7f80_0000 || 0x8000_0000 <= bits < 0xff80_0000
            },
{
    if is_plane(samples, frames) {
        assert forall|n: int| 0 <= n < samples.len() implies {
            let bits = #[trigger] samples[n];
            bits < 0x7f80_0000 || 0x8000_0000 <= bits < 0xff80_0000
        } by {
            assert(is_finite(samples[n]));
        }
    }
    if samples.len() == frames && forall|n: int|
        0 <= n < samples.len() ==> {
            let bits = #[trigger] samples[n];
            bits < 0x7f80_0000 || 0x8000_0000 <= bits < 0xff80_0000
        } {
        assert forall|n: int| 0 <= n < samples.len() implies is_finite(#[trigger] samples[n]) by {
            let bits = samples[n];
        }
    }
}

proof fn lemma_objects_refusal(objects: Seq<CodecObject>, frames: u32)
    ensures
        objects_refusal(objects, frames) is None <==> forall|i: int|
            0 <= i < objects.len() ==> object_refusal(#[trigger] objects[i], frames) is None,
    decreases objects.len(),
{
    if objects.len() > 0 {
        let rest = objects.drop_first();
        lemma_objects_refusal(rest, frames);
        if objects_refusal(objects, frames) is None {
            assert forall|i: int| 0 <= i < objects.len() implies object_refusal(
                #[trigger] objects[i],
                frames,
            ) is None by {
                if i > 0 {
                    assert(rest[i - 1] == objects[i]);
                }
            }
        } else if forall|i: int|
            0 <= i < objects.len() ==> object_refusal(#[trigger] objects[i], frames) is None {
            assert(object_refusal(objects[0], frames) is None);
            assert forall|i: int| 0 <= i < rest.len() implies object_refusal(
                #[trigger] rest[i],
                frames,
            ) is None by {
                assert(rest[i] == objects[i + 1]);
            }
        }
    }
}

/// A frame is taken only where it lasts, has a rate, holds something to play, and each of
/// its objects is a sound mono plane; and a frame of sound objects without a bed is taken.
pub proof fn a_frame_is_taken_where_its_planes_are_sound(frame: CodecFrame)
    ensures
        frame_refusal(frame) is None ==> {
            &&& frame.duration_samples > 0
            &&& frame.sample_rate > 0
            &&& forall|i: int|
                0 <= i < frame.objects@.len() ==> is_sound_object(
                    #[trigger] frame.objects@[i],
                    frame.duration_samples,
                )
            &&& components(frame.beds@).len() <= 1
            &&& frame.objects@.len() + components(frame.beds@).len() > 0
        },
        frame.duration_samples > 0 && frame.sample_rate > 0 && frame.objects@.len() > 0
            && frame.beds@.len() == 0 && (forall|i: int|
            0 <= i < frame.objects@.len() ==> is_sound_object(
                #[trigger] frame.objects@[i],
                frame.duration_samples,
            )) ==> frame_refusal(frame) is None,
{
    let frames = frame.duration_samples;
    lemma_objects_refusal(frame.objects@, frames);
    assert forall|i: int| 0 <= i < frame.objects@.len() implies (object_refusal(
        #[trigger] frame.objects@[i],
        frames,
    ) is None <==> is_sound_object(frame.objects@[i], frames)) by {
        if frame.objects@[i].planes@.len() == 1 {
            lemma_sound_plane(frame.objects@[i].planes@[0]@, frames);
        }
    }
}

/// An owned block is the frame: at its presentation time where that is known, with each
/// object's own name, state and samples, and every update.
pub proof fn an_owned_block_keeps_what_the_codec_gave(frame: CodecFrame, block: DecodedSceneBlock)
    requires
        holds(block, frame),
    ensures
        frame.presentation_sample_start is Some ==> block.start_frame
            == frame.presentation_sample_start->0,
        frame.presentation_sample_start is None ==> block.start_frame == frame.codec_sample_start,
        block.duration_frames == frame.duration_samples,
        block.sample_rate == frame.sample_rate,
        block.configuration_generation == frame.configuration_generation,
        block.presentation_index == frame.presentation_index,
        block.presentation_id == frame.presentation_id,
        block.state_complete == frame.state_complete,
        block.metadata_updates@ == frame.metadata_updates@,
        block.objects@.len() == frame.objects@.len(),
        forall|i: int|
            0 <= i < frame.objects@.len() ==> (#[trigger] frame.objects@[i]).element_id
                == block.objects@[i].element_id && frame.objects@[i].initial_state
                == block.objects@[i].initial_state && frame.objects@[i].planes@[0]@
                == block.objects@[i].samples@,
        frame.beds@.len() == 0 ==> block.lfe is None,
        frame.beds@.len() == 1 && frame.beds@[0].components@.len() == 1 ==> {
            &&& block.lfe is Some
            &&& block.lfe->0.element_id == frame.beds@[0].element_id
            &&& block.lfe->0.initial_state == frame.beds@[0].initial_state
            &&& block.lfe->0.samples@ == frame.beds@[0].components@[0]@
        },
{
    reveal_with_fuel(components, 2);
    if frame.beds@.len() == 1 {
        assert(frame.beds@.drop_last().len() == 0);
        assert(frame.beds@.last() == frame.beds@[0]);
    }
    assert forall|i: int| 0 <= i < frame.objects@.len() implies (
    #[trigger] frame.objects@[i]).element_id == block.objects@[i].element_id
        && frame.objects@[i].initial_state == block.objects@[i].initial_state
        && frame.objects@[i].planes@[0]@ == block.objects@[i].samples@ by {
        assert(block.objects@[i].element_id == frame.objects@[i].element_id);
    }
}

proof fn lemma_objects_sound(objects: Seq<CodecObject>, frames: u32)
    ensures
        objects_refusal(objects, frames) is None <==> forall|i: int|
            0 <= i < objects.len() ==> is_sound_object(#[trigger] objects[i], frames),
    decreases objects.len(),
{
    if objects.len() > 0 {
        let rest = objects.drop_first();
        lemma_objects_sound(rest, frames);
        assert(object_refusal(objects[0], frames) is None <==> is_sound_object(objects[0], frames));
        assert(forall|i: int| 0 <= i < rest.len() ==> rest[i] == #[trigger] objects[i + 1]);
        if objects_refusal(objects, frames) is None {
            assert forall|i: int| 0 <= i < objects.len() implies is_sound_object(
                #[trigger] objects[i],
                frames,
            ) by {
                if i > 0 {
                    assert(rest[i - 1] == objects[i]);
                }
            }
        }
        if forall|i: int| 0 <= i < objects.len() ==> is_sound_object(#[trigger] objects[i], frames) {
            assert forall|i: int| 0 <= i < rest.len() implies is_sound_object(
                #[trigger] rest[i],
                frames,
            ) by {
                assert(rest[i] == objects[i + 1]);
            }
        }
    }
}

/// A frame is taken exactly where it has a duration and a rate, its objects are sound, and it
/// has at most one component of a bed, which is sound too; and something of either.
pub proof fn a_frame_with_one_bed_is_taken(frame: CodecFrame, bed: CodecBed)
    requires
        frame.beds@ == seq![bed],
    ensures
        frame_refusal(frame) is None <==> {
            &&& frame.duration_samples > 0
            &&& frame.sample_rate > 0
            &&& forall|i: int|
                0 <= i < frame.objects@.len() ==> is_sound_object(
                    #[trigger] frame.objects@[i],
                    frame.duration_samples,
                )
            &&& bed.components@.len() <= 1
            &&& bed.components@.len() == 1 ==> is_plane(
                bed.components@[0]@,
                frame.duration_samples,
            )
            &&& frame.objects@.len() + bed.components@.len() > 0
        },
{
    reveal_with_fuel(components, 2);
    lemma_objects_sound(frame.objects@, frame.duration_samples);
    let all = components(frame.beds@);
    assert(frame.beds@.drop_last() =~= Seq::empty());
    assert(all.len() == bed.components@.len());
    if all.len() > 0 {
        assert(all[0] == (0int, 0int));
    }
}

/// Each bed adds its own components behind those of the beds before it.
pub proof fn components_are_counted_bed_by_bed(beds: Seq<CodecBed>, bed: CodecBed, i: int)
    requires
        0 <= i < bed.components@.len(),
    ensures
        components(beds.push(bed)).len() == components(beds).len() + bed.components@.len(),
        components(beds.push(bed))[components(beds).len() + i] == (beds.len() as int, i),
{
    assert(beds.push(bed).drop_last() =~= beds);
}

} // verus!
