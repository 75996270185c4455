//! The seek index: where each access unit lies, and which ones decoding can
//! start from.
use super::controller::WorkerEvent;
use vstd::prelude::*;
use vstd::string::*;

verus! {

/// One access unit of the media.
#[derive(Debug, Clone, Copy, PartialEq, Eq, Structural)]
pub struct IndexedAccessUnit {
    /// Where its payload starts in the file.
    pub start: usize,
    /// Where its payload ends.
    pub end: usize,
    pub index: u64,
    pub source_start: i64,
    pub presentation_start: i64,
    pub priming_samples: Option<u64>,
    pub random_access_hint: Option<bool>,
    /// Decoding can start here without anything before it.
    pub safe_random_access: bool,
}

/// What the decoder is told of an access unit besides its payload.
#[derive(Debug, Clone, Copy, PartialEq, Eq, Structural)]
pub struct UnitContext {
    pub index: u64,
    pub source_start: i64,
    pub presentation_start: i64,
    pub priming_samples: Option<u64>,
    pub random_access_hint: Option<bool>,
}

impl IndexedAccessUnit {
    pub fn context(&self) -> (r: UnitContext)
        ensures
            r == (UnitContext {
                index: self.index,
                source_start: self.source_start,
                presentation_start: self.presentation_start,
                priming_samples: self.priming_samples,
                random_access_hint: self.random_access_hint,
            }),
    {
        UnitContext {
            index: self.index,
            source_start: self.source_start,
            presentation_start: self.presentation_start,
            priming_samples: self.priming_samples,
            random_access_hint: self.random_access_hint,
        }
    }

    /// Where its audio starts on the presented timeline.
    pub open spec fn presented_from(self) -> u64 {
        if self.presentation_start < 0 {
            0
        } else {
            self.presentation_start as u64
        }
    }
}

#[derive(Debug)]
pub struct MediaIndex {
    pub duration_frames: u64,
    pub seekable_from_frame: Option<u64>,
    pub access_units: Vec<IndexedAccessUnit>,
}

/// The earliest presented frame that a safe unit starts at.
pub open spec fn first_safe_frame(units: Seq<IndexedAccessUnit>) -> Option<u64>
    decreases units.len(),
{
    if units.len() == 0 {
        None
    } else {
        let rest = first_safe_frame(units.drop_last());
        let last = units.last();
        if !last.safe_random_access {
            rest
        } else {
            match rest {
                Some(frame) if frame <= last.presented_from() => Some(frame),
                _ => Some(last.presented_from()),
            }
        }
    }
}

/// Unit `i` is one that decoding toward `target` can start from.
pub open spec fn starts_before(units: Seq<IndexedAccessUnit>, target: i64, i: int) -> bool {
    0 <= i < units.len() && units[i].safe_random_access && units[i].presentation_start <= target
}

impl MediaIndex {
    pub fn new(duration_frames: u64, access_units: Vec<IndexedAccessUnit>) -> (r: Result<
        Self,
        String,
    >)
        ensures
            match r {
                Err(message) => access_units@.len() == 0 && message@
                    == "Input contains no AC-4 access unit"@,
                Ok(index) => access_units@.len() > 0 && index == (MediaIndex {
                    duration_frames,
                    seekable_from_frame: first_safe_frame(access_units@),
                    access_units,
                }),
            },
    {
        if access_units.len() == 0 {
            return Err("Input contains no AC-4 access unit".to_owned());
        }
        let mut first: Option<u64> = None;
        let mut index: usize = 0;
        assert(access_units@.take(0) =~= Seq::empty());
        while index < access_units.len()
            invariant
                index <= access_units@.len(),
                first == first_safe_frame(access_units@.take(index as int)),
            decreases access_units.len() - index,
        {
            proof {
                let prefix = access_units@.take(index as int + 1);
                assert(prefix.drop_last() =~= access_units@.take(index as int));
                assert(prefix.last() == access_units@[index as int]);
            }
            let unit = &access_units[index];
            if unit.safe_random_access {
                let frame: u64 = if unit.presentation_start < 0 {
                    0
                } else {
                    unit.presentation_start as u64
                };
                first =
                match first {
                    Some(earlier) => if earlier <= frame {
                        Some(earlier)
                    } else {
                        Some(frame)
                    },
                    None => Some(frame),
                };
            }
            index = index + 1;
        }
        assert(access_units@.take(index as int) =~= access_units@);
        Ok(MediaIndex { duration_frames, seekable_from_frame: first, access_units })
    }

    /// The last unit before `before_index` that decoding toward `target_frame`
    /// can start from.
    pub fn seek_start_before(&self, target_frame: i64, before_index: usize) -> (r: Option<usize>)
        ensures
            match r {
                Some(start) => {
                    &&& start < before_index
                    &&& starts_before(self.access_units@, target_frame, start as int)
                    &&& forall|i: int|
                        start < i < before_index ==> !#[trigger] starts_before(
                            self.access_units@,
                            target_frame,
                            i,
                        )
                },
                None => forall|i: int|
                    0 <= i < before_index ==> !#[trigger] starts_before(
                        self.access_units@,
                        target_frame,
                        i,
                    ),
            },
    {
        let count: usize = self.access_units.len();
        let mut index: usize = if before_index < count {
            before_index
        } else {
            count
        };
        while index > 0
            invariant
                index <= count,
                count == self.access_units@.len(),
                forall|i: int|
                    index <= i < before_index ==> !#[trigger] starts_before(
                        self.access_units@,
                        target_frame,
                        i,
                    ),
                index <= before_index,
            decreases index,
        {
            index = index - 1;
            let unit = &self.access_units[index];
            if unit.safe_random_access && unit.presentation_start <= target_frame {
                return Some(index);
            }
        }
        None
    }
}

/// Where the index of the open media stands.
#[derive(Debug)]
pub enum MediaIndexState {
    Building,
    Ready(MediaIndex),
    Failed(String),
}

impl MediaIndexState {
    pub fn ready(&self) -> (r: Result<&MediaIndex, String>)
        ensures
            match *self {
                MediaIndexState::Building => r is Err && r->Err_0@
                    == "Media indexing has not completed yet"@,
                MediaIndexState::Ready(index) => r is Ok && *(r->Ok_0) == index,
                MediaIndexState::Failed(error) => r is Err && r->Err_0@
                    == "Media seek index failed: "@ + error@,
            },
    {
        match self {
            MediaIndexState::Building => Err("Media indexing has not completed yet".to_owned()),
            MediaIndexState::Ready(index) => Ok(index),
            MediaIndexState::Failed(error) => {
                let mut message = "Media seek index failed: ".to_owned();
                message.append(error.as_str());
                Err(message)
            },
        }
    }
}

/// The state and the event that a finished index leads to. A failed one still
/// tells the duration that the container declares.
pub fn finish_index(
    request_id: u64,
    known_duration: Option<u64>,
    result: Result<MediaIndex, String>,
) -> (r: (MediaIndexState, WorkerEvent))
    ensures
        match result {
            Ok(index) => r == (
                MediaIndexState::Ready(index),
                WorkerEvent::IndexFinished {
                    request_id,
                    duration_frames: Some(index.duration_frames),
                    seekable_from_frame: index.seekable_from_frame,
                    error: None,
                },
            ),
            Err(error) => r == (
                MediaIndexState::Failed(error),
                WorkerEvent::IndexFinished {
                    request_id,
                    duration_frames: known_duration,
                    seekable_from_frame: None,
                    error: Some(error),
                },
            ),
        },
{
    match result {
        Ok(index) => {
            let event = WorkerEvent::IndexFinished {
                request_id,
                duration_frames: Some(index.duration_frames),
                seekable_from_frame: index.seekable_from_frame,
                error: None,
            };
            (MediaIndexState::Ready(index), event)
        },
        Err(error) => {
            let event = WorkerEvent::IndexFinished {
                request_id,
                duration_frames: known_duration,
                seekable_from_frame: None,
                error: Some(error.clone()),
            };
            (MediaIndexState::Failed(error), event)
        },
    }
}

/// The timing that an ISO container declares.
#[derive(Debug, Clone, Copy, PartialEq, Eq, Structural)]
pub struct Mp4Timing {
    pub sample_rate: u32,
    pub priming_samples: u64,
    pub presentation_shift: i64,
    pub duration_frames: u64,
}

/// Takes the timing that a container's parser found. A container with more than
/// one media edit is not supported; without a shift the media starts at zero.
pub fn mp4_timing(
    media_edit_count: usize,
    sample_rate: u32,
    priming_samples: Result<u64, String>,
    presentation_shift: Result<Option<i64>, String>,
    duration_frames: Result<u64, String>,
) -> (r: Result<Mp4Timing, String>)
    ensures
        if media_edit_count > 1 {
            r is Err && r->Err_0@
                == "Multiple discontiguous MP4 media edits are not supported yet"@
        } else if priming_samples is Err {
            r == Err::<Mp4Timing, String>(priming_samples->Err_0)
        } else if presentation_shift is Err {
            r == Err::<Mp4Timing, String>(presentation_shift->Err_0)
        } else if duration_frames is Err {
            r == Err::<Mp4Timing, String>(duration_frames->Err_0)
        } else {
            r == Ok::<Mp4Timing, String>(
                Mp4Timing {
                    sample_rate,
                    priming_samples: priming_samples->Ok_0,
                    presentation_shift: match presentation_shift->Ok_0 {
                        Some(shift) => shift,
                        None => 0,
                    },
                    duration_frames: duration_frames->Ok_0,
                },
            )
        },
{
    if media_edit_count > 1 {
        return Err("Multiple discontiguous MP4 media edits are not supported yet".to_owned());
    }
    let priming_samples: u64 = match priming_samples {
        Ok(samples) => samples,
        Err(error) => {
            return Err(error);
        },
    };
    let shift: i64 = match presentation_shift {
        Ok(Some(shift)) => shift,
        Ok(None) => 0,
        Err(error) => {
            return Err(error);
        },
    };
    let duration_frames: u64 = match duration_frames {
        Ok(frames) => frames,
        Err(error) => {
            return Err(error);
        },
    };
    Ok(Mp4Timing { sample_rate, priming_samples, presentation_shift: shift, duration_frames })
}

/// What a container's parser says of one sample.
#[derive(Debug)]
pub struct Mp4Sample {
    pub start: usize,
    pub end: usize,
    pub index: u32,
    pub is_sync: bool,
    /// Its composition time in samples.
    pub source_start: Result<i64, String>,
    /// Its payload is a complete random-access point.
    pub full_random_access: Result<bool, String>,
}

/// The unit that one sample becomes, or the message that ends the index.
pub open spec fn mp4_unit(timing: Mp4Timing, item: Result<Mp4Sample, String>) -> Result<
    IndexedAccessUnit,
    Seq<char>,
> {
    match item {
        Err(error) => Err(error@),
        Ok(sample) => match sample.source_start {
            Err(error) => Err(error@),
            Ok(source_start) => if !(i64::MIN <= source_start + timing.presentation_shift
                <= i64::MAX) {
                Err("MP4 presentation position overflow after applying edits"@)
            } else {
                match sample.full_random_access {
                    Err(error) => Err(error@),
                    Ok(full) => Ok(
                        IndexedAccessUnit {
                            start: sample.start,
                            end: sample.end,
                            index: sample.index as u64,
                            source_start,
                            presentation_start: (source_start + timing.presentation_shift) as i64,
                            priming_samples: Some(timing.priming_samples),
                            random_access_hint: Some(sample.is_sync),
                            safe_random_access: sample.is_sync && full,
                        },
                    ),
                }
            },
        },
    }
}

/// The units of a run of samples, up to the first one that fails.
pub open spec fn mp4_units(timing: Mp4Timing, items: Seq<Result<Mp4Sample, String>>) -> Result<
    Seq<IndexedAccessUnit>,
    Seq<char>,
>
    decreases items.len(),
{
    if items.len() == 0 {
        Ok(Seq::empty())
    } else {
        match mp4_units(timing, items.drop_last()) {
            Err(message) => Err(message),
            Ok(units) => match mp4_unit(timing, items.last()) {
                Err(message) => Err(message),
                Ok(unit) => Ok(units.push(unit)),
            },
        }
    }
}

proof fn lemma_mp4_failure_stays(
    timing: Mp4Timing,
    items: Seq<Result<Mp4Sample, String>>,
    n: int,
)
    requires
        0 <= n <= items.len(),
        mp4_units(timing, items.take(n)) is Err,
    ensures
        mp4_units(timing, items) == mp4_units(timing, items.take(n)),
    decreases items.len() - n,
{
    if n < items.len() {
        assert(items.take(n + 1).drop_last() =~= items.take(n));
        lemma_mp4_failure_stays(timing, items, n + 1);
    } else {
        assert(items.take(n) =~= items);
    }
}

fn mp4_access_unit(timing: Mp4Timing, item: &Result<Mp4Sample, String>) -> (r: Result<
    IndexedAccessUnit,
    String,
>)
    ensures
        match mp4_unit(timing, *item) {
            Ok(unit) => r == Ok::<IndexedAccessUnit, String>(unit),
            Err(message) => r is Err && r->Err_0@ == message,
        },
{
    let sample = match item {
        Ok(sample) => sample,
        Err(error) => {
            return Err(error.clone());
        },
    };
    let source_start: i64 = match &sample.source_start {
        Ok(start) => *start,
        Err(error) => {
            return Err(error.clone());
        },
    };
    let presentation_start: i64 = match source_start.checked_add(timing.presentation_shift) {
        Some(start) => start,
        None => {
            return Err("MP4 presentation position overflow after applying edits".to_owned());
        },
    };
    let full = match &sample.full_random_access {
        Ok(full) => *full,
        Err(error) => {
            return Err(error.clone());
        },
    };
    Ok(
        IndexedAccessUnit {
            start: sample.start,
            end: sample.end,
            index: sample.index as u64,
            source_start,
            presentation_start,
            priming_samples: Some(timing.priming_samples),
            random_access_hint: Some(sample.is_sync),
            safe_random_access: sample.is_sync && full,
        },
    )
}

/// What the decoder is told of a sample of an ISO container that is read in order,
/// before the samples are indexed.
pub fn mp4_context(timing: Mp4Timing, item: &Result<Mp4Sample, String>) -> (r: Result<
    UnitContext,
    String,
>)
    ensures
        match *item {
            Err(error) => r is Err && r->Err_0@ == error@,
            Ok(sample) => match sample.source_start {
                Err(error) => r is Err && r->Err_0@ == error@,
                Ok(start) => if i64::MIN <= start + timing.presentation_shift <= i64::MAX {
                    r == Ok::<UnitContext, String>(
                        UnitContext {
                            index: sample.index as u64,
                            source_start: start,
                            presentation_start: (start + timing.presentation_shift) as i64,
                            priming_samples: Some(timing.priming_samples),
                            random_access_hint: Some(sample.is_sync),
                        },
                    )
                } else {
                    r is Err && r->Err_0@
                        == "MP4 presentation position overflow after applying edits"@
                },
            },
        },
{
    let sample = match item {
        Ok(sample) => sample,
        Err(error) => {
            return Err(error.clone());
        },
    };
    let source_start: i64 = match &sample.source_start {
        Ok(start) => *start,
        Err(error) => {
            return Err(error.clone());
        },
    };
    let presentation_start: i64 = match source_start.checked_add(timing.presentation_shift) {
        Some(start) => start,
        None => {
            return Err("MP4 presentation position overflow after applying edits".to_owned());
        },
    };
    Ok(
        UnitContext {
            index: sample.index as u64,
            source_start,
            presentation_start,
            priming_samples: Some(timing.priming_samples),
            random_access_hint: Some(sample.is_sync),
        },
    )
}

/// An indexed sample reaches the decoder as it did before it was indexed.
pub proof fn an_index_changes_no_context(timing: Mp4Timing, item: Result<Mp4Sample, String>)
    requires
        mp4_unit(timing, item) is Ok,
    ensures
        item is Ok,
        item->Ok_0.source_start is Ok,
        ({
            let unit = mp4_unit(timing, item)->Ok_0;
            let start = item->Ok_0.source_start->Ok_0;
            &&& unit.index == item->Ok_0.index
            &&& unit.source_start == start
            &&& unit.presentation_start == start + timing.presentation_shift
            &&& unit.priming_samples == Some(timing.priming_samples)
            &&& unit.random_access_hint == Some(item->Ok_0.is_sync)
        }),
{
}

/// Indexes the samples of an ISO container.
pub fn build_mp4_index(timing: Mp4Timing, items: &Vec<Result<Mp4Sample, String>>) -> (r: Result<
    MediaIndex,
    String,
>)
    ensures
        match mp4_units(timing, items@) {
            Err(message) => r is Err && r->Err_0@ == message,
            Ok(units) => if units.len() == 0 {
                r is Err && r->Err_0@ == "Input contains no AC-4 access unit"@
            } else {
                r is Ok && r->Ok_0.duration_frames == timing.duration_frames
                    && r->Ok_0.access_units@ == units && r->Ok_0.seekable_from_frame
                    == first_safe_frame(units)
            },
        },
{
    let mut units: Vec<IndexedAccessUnit> = Vec::new();
    let mut index: usize = 0;
    assert(items@.take(0) =~= Seq::empty());
    while index < items.len()
        invariant
            index <= items@.len(),
            mp4_units(timing, items@.take(index as int)) == Ok::<_, Seq<char>>(units@),
        decreases items.len() - index,
    {
        proof {
            let prefix = items@.take(index as int + 1);
            assert(prefix.drop_last() =~= items@.take(index as int));
            assert(prefix.last() == items@[index as int]);
        }
        match mp4_access_unit(timing, &items[index]) {
            Ok(unit) => {
                units.push(unit);
            },
            Err(error) => {
                proof {
                    lemma_mp4_failure_stays(timing, items@, index as int + 1);
                }
                return Err(error);
            },
        }
        index = index + 1;
    }
    assert(items@.take(index as int) =~= items@);
    MediaIndex::new(timing.duration_frames, units)
}

/// Where the payload of a sync frame lies: right before its checksum, which
/// ends the frame.
pub fn raw_payload_range(
    offset: usize,
    total_size: usize,
    raw_frame_len: usize,
    has_crc: bool,
) -> (r: Result<(usize, usize), String>)
    requires
        raw_frame_len + 2 <= usize::MAX,
    ensures
        ({
            let crc_bytes = if has_crc {
                2int
            } else {
                0
            };
            let start = offset + total_size - raw_frame_len - crc_bytes;
            if offset + total_size > usize::MAX || start < 0 {
                r is Err && r->Err_0@ == "Raw AC-4 sync-frame range underflow"@
            } else {
                r is Ok && r->Ok_0.0 == start && r->Ok_0.1 == start + raw_frame_len
            }
        }),
{
    let crc_bytes: usize = if has_crc {
        2
    } else {
        0
    };
    let end: usize = match offset.checked_add(total_size) {
        Some(end) => end,
        None => {
            return Err("Raw AC-4 sync-frame range underflow".to_owned());
        },
    };
    match end.checked_sub(raw_frame_len + crc_bytes) {
        Some(start) => Ok((start, start + raw_frame_len)),
        None => Err("Raw AC-4 sync-frame range underflow".to_owned()),
    }
}

/// What the bitstream parser says of one sync frame.
#[derive(Debug)]
pub struct RawSyncFrame {
    pub offset: usize,
    pub total_size: usize,
    pub raw_frame_len: usize,
    pub has_crc: bool,
    /// The sample rate that its table of contents declares, if a supported one.
    pub sample_rate: Result<Option<u32>, String>,
    /// The length of its frame in samples, if it can be derived.
    pub frame_len: Option<u32>,
    /// Its payload is a complete random-access point.
    pub full_random_access: Result<bool, String>,
}

/// Where the timeline of a raw stream stands.
#[derive(Debug, Clone, Copy, PartialEq, Eq, Structural)]
pub struct RawClock {
    pub index: u64,
    pub frame_start: i64,
    pub sample_rate: Option<u32>,
}

impl RawClock {
    pub fn new() -> (r: Self)
        ensures
            r == (RawClock { index: 0, frame_start: 0, sample_rate: None }),
    {
        RawClock { index: 0, frame_start: 0, sample_rate: None }
    }

    /// Why a frame with this declared rate cannot follow, if it cannot.
    pub open spec fn rate_refusal(self, declared: Result<Option<u32>, String>) -> Option<
        Seq<char>,
    > {
        match declared {
            Err(error) => Some(error@),
            Ok(None) => Some("Raw AC-4 declares no supported sample rate"@),
            Ok(Some(rate)) => if self.sample_rate is Some && self.sample_rate->0 != rate {
                Some("Raw AC-4 changes sample rate midstream"@)
            } else {
                None
            },
        }
    }

    /// What the decoder is told of the next frame of a raw stream.
    pub fn context(&self, declared: &Result<Option<u32>, String>) -> (r: Result<
        UnitContext,
        String,
    >)
        ensures
            match self.rate_refusal(*declared) {
                Some(message) => r is Err && r->Err_0@ == message,
                None => r == Ok::<UnitContext, String>(
                    UnitContext {
                        index: self.index,
                        source_start: self.frame_start,
                        presentation_start: self.frame_start,
                        priming_samples: None,
                        random_access_hint: None,
                    },
                ),
            },
    {
        match declared {
            Err(error) => {
                return Err(error.clone());
            },
            Ok(None) => {
                return Err("Raw AC-4 declares no supported sample rate".to_owned());
            },
            Ok(Some(rate)) => {
                if let Some(known) = self.sample_rate {
                    if known != *rate {
                        return Err("Raw AC-4 changes sample rate midstream".to_owned());
                    }
                }
            },
        }
        Ok(
            UnitContext {
                index: self.index,
                source_start: self.frame_start,
                presentation_start: self.frame_start,
                priming_samples: None,
                random_access_hint: None,
            },
        )
    }

    /// Moves on by one frame of `frame_len` samples.
    pub fn advance(&mut self, rate: u32, frame_len: Option<u32>) -> (r: Result<(), String>)
        ensures
            match frame_len {
                None => r is Err && r->Err_0@ == "Cannot derive raw AC-4 frame length"@
                    && *final(self) == *old(self),
                Some(len) => if old(self).frame_start + len > i64::MAX {
                    r is Err && r->Err_0@ == "Raw AC-4 timeline overflow"@ && *final(self) == *old(self)
                } else if old(self).index == u64::MAX {
                    r is Err && r->Err_0@ == "Raw AC-4 access-unit index overflow"@ && *final(self)
                        == *old(self)
                } else {
                    r is Ok && *final(self) == (RawClock {
                        index: (old(self).index + 1) as u64,
                        frame_start: (old(self).frame_start + len) as i64,
                        sample_rate: Some(rate),
                    })
                },
            },
    {
        let len: u32 = match frame_len {
            Some(len) => len,
            None => {
                return Err("Cannot derive raw AC-4 frame length".to_owned());
            },
        };
        let next: i64 = match self.frame_start.checked_add(len as i64) {
            Some(next) => next,
            None => {
                return Err("Raw AC-4 timeline overflow".to_owned());
            },
        };
        let index: u64 = match self.index.checked_add(1) {
            Some(index) => index,
            None => {
                return Err("Raw AC-4 access-unit index overflow".to_owned());
            },
        };
        self.frame_start = next;
        self.index = index;
        self.sample_rate = Some(rate);
        Ok(())
    }

    /// How long the stream has been so far.
    pub fn duration(&self) -> (r: Result<u64, String>)
        ensures
            if self.frame_start < 0 {
                r is Err && r->Err_0@ == "Raw AC-4 duration is negative"@
            } else {
                r == Ok::<u64, String>(self.frame_start as u64)
            },
    {
        if self.frame_start < 0 {
            return Err("Raw AC-4 duration is negative".to_owned());
        }
        Ok(self.frame_start as u64)
    }
}

/// Where the payload of `frame` starts, if the frame holds it.
pub open spec fn payload_start(frame: RawSyncFrame) -> Option<int> {
    let crc_bytes = if frame.has_crc {
        2int
    } else {
        0
    };
    let start = frame.offset + frame.total_size - frame.raw_frame_len - crc_bytes;
    if frame.offset + frame.total_size > usize::MAX || start < 0 {
        None
    } else {
        Some(start)
    }
}

/// An index of a raw stream on its way.
pub struct RawProgress {
    pub clock: RawClock,
    pub units: Seq<IndexedAccessUnit>,
}

/// The unit that a frame becomes where the timeline stands at `clock`.
pub open spec fn raw_unit(clock: RawClock, frame: RawSyncFrame) -> IndexedAccessUnit {
    IndexedAccessUnit {
        start: payload_start(frame)->0 as usize,
        end: (payload_start(frame)->0 + frame.raw_frame_len) as usize,
        index: clock.index,
        source_start: clock.frame_start,
        presentation_start: clock.frame_start,
        priming_samples: None,
        random_access_hint: None,
        safe_random_access: frame.full_random_access->Ok_0,
    }
}

/// The index with one more sync frame, or the message that ends it.
pub open spec fn raw_step(progress: RawProgress, item: Result<RawSyncFrame, String>) -> Result<
    RawProgress,
    Seq<char>,
> {
    match item {
        Err(error) => Err(error@),
        Ok(frame) => if progress.clock.rate_refusal(frame.sample_rate) is Some {
            Err(progress.clock.rate_refusal(frame.sample_rate)->0)
        } else if frame.frame_len is None {
            Err("Cannot derive raw AC-4 frame length"@)
        } else if payload_start(frame) is None {
            Err("Raw AC-4 sync-frame range underflow"@)
        } else if frame.full_random_access is Err {
            Err(frame.full_random_access->Err_0@)
        } else if progress.clock.frame_start + frame.frame_len->0 > i64::MAX {
            Err("Raw AC-4 timeline overflow"@)
        } else if progress.clock.index == u64::MAX {
            Err("Raw AC-4 access-unit index overflow"@)
        } else {
            Ok(
                RawProgress {
                    clock: RawClock {
                        index: (progress.clock.index + 1) as u64,
                        frame_start: (progress.clock.frame_start + frame.frame_len->0) as i64,
                        sample_rate: frame.sample_rate->Ok_0,
                    },
                    units: progress.units.push(raw_unit(progress.clock, frame)),
                },
            )
        },
    }
}

pub open spec fn raw_progress(items: Seq<Result<RawSyncFrame, String>>) -> Result<
    RawProgress,
    Seq<char>,
>
    decreases items.len(),
{
    if items.len() == 0 {
        Ok(
            RawProgress {
                clock: RawClock { index: 0, frame_start: 0, sample_rate: None },
                units: Seq::empty(),
            },
        )
    } else {
        match raw_progress(items.drop_last()) {
            Err(message) => Err(message),
            Ok(progress) => raw_step(progress, items.last()),
        }
    }
}

proof fn lemma_raw_failure_stays(items: Seq<Result<RawSyncFrame, String>>, n: int)
    requires
        0 <= n <= items.len(),
        raw_progress(items.take(n)) is Err,
    ensures
        raw_progress(items) == raw_progress(items.take(n)),
    decreases items.len() - n,
{
    if n < items.len() {
        assert(items.take(n + 1).drop_last() =~= items.take(n));
        lemma_raw_failure_stays(items, n + 1);
    } else {
        assert(items.take(n) =~= items);
    }
}

/// A raw timeline starts at zero and only grows.
proof fn lemma_raw_clock_is_not_negative(items: Seq<Result<RawSyncFrame, String>>)
    requires
        raw_progress(items) is Ok,
    ensures
        raw_progress(items)->Ok_0.clock.frame_start >= 0,
    decreases items.len(),
{
    if items.len() > 0 {
        lemma_raw_clock_is_not_negative(items.drop_last());
    }
}

fn raw_access_unit(clock: &RawClock, frame: &RawSyncFrame) -> (r: Result<
    (IndexedAccessUnit, u32),
    String,
>)
    requires
        frame.raw_frame_len + 2 <= usize::MAX,
    ensures
        ({
            let units = Seq::<IndexedAccessUnit>::empty();
            let step = raw_step(
                RawProgress { clock: *clock, units },
                Ok::<RawSyncFrame, String>(*frame),
            );
            match r {
                Err(error) => step == Err::<RawProgress, Seq<char>>(error@),
                Ok((unit, rate)) => {
                    &&& clock.rate_refusal(frame.sample_rate) is None
                    &&& frame.sample_rate == Ok::<Option<u32>, String>(Some(rate))
                    &&& frame.frame_len is Some
                    &&& payload_start(*frame) is Some
                    &&& frame.full_random_access is Ok
                    &&& unit == raw_unit(*clock, *frame)
                },
            }
        }),
{
    let context = match clock.context(&frame.sample_rate) {
        Ok(context) => context,
        Err(error) => {
            return Err(error);
        },
    };
    if frame.frame_len.is_none() {
        return Err("Cannot derive raw AC-4 frame length".to_owned());
    }
    let (start, end) = match raw_payload_range(
        frame.offset,
        frame.total_size,
        frame.raw_frame_len,
        frame.has_crc,
    ) {
        Ok(range) => range,
        Err(error) => {
            return Err(error);
        },
    };
    let safe_random_access = match &frame.full_random_access {
        Ok(full) => *full,
        Err(error) => {
            return Err(error.clone());
        },
    };
    let rate: u32 = match &frame.sample_rate {
        Ok(Some(rate)) => *rate,
        _ => 0,
    };
    let unit = IndexedAccessUnit {
        start,
        end,
        index: context.index,
        source_start: context.source_start,
        presentation_start: context.presentation_start,
        priming_samples: context.priming_samples,
        random_access_hint: context.random_access_hint,
        safe_random_access,
    };
    Ok((unit, rate))
}

/// Indexes the sync frames of a raw stream.
pub fn build_raw_index(items: &Vec<Result<RawSyncFrame, String>>) -> (r: Result<
    MediaIndex,
    String,
>)
    requires
        forall|i: int|
            0 <= i < items@.len() && (#[trigger] items@[i]) is Ok ==> items@[i]->Ok_0.raw_frame_len
                + 2 <= usize::MAX,
    ensures
        match raw_progress(items@) {
            Err(message) => r is Err && r->Err_0@ == message,
            Ok(progress) => if progress.units.len() == 0 {
                r is Err && r->Err_0@ == "Input contains no AC-4 access unit"@
            } else {
                r is Ok && r->Ok_0.duration_frames == progress.clock.frame_start
                    && r->Ok_0.access_units@ == progress.units && r->Ok_0.seekable_from_frame
                    == first_safe_frame(progress.units)
            },
        },
{
    let mut units: Vec<IndexedAccessUnit> = Vec::new();
    let mut clock = RawClock::new();
    let mut index: usize = 0;
    assert(items@.take(0) =~= Seq::empty());
    while index < items.len()
        invariant
            index <= items@.len(),
            forall|i: int|
                0 <= i < items@.len() && (#[trigger] items@[i]) is Ok
                    ==> items@[i]->Ok_0.raw_frame_len + 2 <= usize::MAX,
            raw_progress(items@.take(index as int)) == Ok::<_, Seq<char>>(
                (RawProgress { clock, units: units@ }),
            ),
        decreases items.len() - index,
    {
        proof {
            let prefix = items@.take(index as int + 1);
            assert(prefix.drop_last() =~= items@.take(index as int));
            assert(prefix.last() == items@[index as int]);
            if raw_progress(prefix) is Err {
                lemma_raw_failure_stays(items@, index as int + 1);
            }
        }
        let frame = match &items[index] {
            Ok(frame) => frame,
            Err(error) => {
                return Err(error.clone());
            },
        };
        match raw_access_unit(&clock, frame) {
            Err(error) => {
                return Err(error);
            },
            Ok((unit, rate)) => {
                match clock.advance(rate, frame.frame_len) {
                    Err(error) => {
                        return Err(error);
                    },
                    Ok(_) => {},
                }
                units.push(unit);
            },
        }
        index = index + 1;
    }
    assert(items@.take(index as int) =~= items@);
    proof {
        lemma_raw_clock_is_not_negative(items@);
    }
    match clock.duration() {
        Ok(duration) => MediaIndex::new(duration, units),
        Err(error) => Err(error),
    }
}

/// The frames of a raw stream lie back to back: each unit starts where the one
/// before it ended, the first at zero, and the last ends with the stream.
pub proof fn raw_units_are_contiguous(items: Seq<Result<RawSyncFrame, String>>, i: int)
    requires
        raw_progress(items) is Ok,
        0 <= i < items.len(),
    ensures
        raw_progress(items)->Ok_0.units.len() == items.len(),
        raw_progress(items)->Ok_0.units[i].index == i,
        raw_progress(items)->Ok_0.units[i].presentation_start == raw_progress(
            items.take(i),
        )->Ok_0.clock.frame_start,
        items[i] is Ok,
        raw_progress(items.take(i + 1))->Ok_0.clock.frame_start
            == raw_progress(items)->Ok_0.units[i].presentation_start
            + items[i]->Ok_0.frame_len->0,
    decreases items.len(),
{
    lemma_raw_counts(items);
    lemma_raw_counts(items.drop_last());
    if i < items.len() - 1 {
        raw_units_are_contiguous(items.drop_last(), i);
        assert(items.drop_last().take(i) =~= items.take(i));
        assert(items.drop_last().take(i + 1) =~= items.take(i + 1));
        assert(items.drop_last()[i] == items[i]);
    } else {
        assert(items.take(i) =~= items.drop_last());
        assert(items.take(i + 1) =~= items);
    }
}

proof fn lemma_raw_counts(items: Seq<Result<RawSyncFrame, String>>)
    ensures
        raw_progress(items) is Ok ==> raw_progress(items)->Ok_0.units.len() == items.len()
            && raw_progress(items)->Ok_0.clock.index == items.len(),
    decreases items.len(),
{
    if items.len() > 0 {
        lemma_raw_counts(items.drop_last());
    }
}

proof fn lemma_mp4_unit_of(timing: Mp4Timing, items: Seq<Result<Mp4Sample, String>>, i: int)
    requires
        mp4_units(timing, items) is Ok,
        0 <= i < items.len(),
    ensures
        mp4_units(timing, items)->Ok_0.len() == items.len(),
        mp4_unit(timing, items[i]) == Ok::<IndexedAccessUnit, Seq<char>>(
            mp4_units(timing, items)->Ok_0[i],
        ),
    decreases items.len(),
{
    lemma_mp4_count(timing, items.drop_last());
    if i < items.len() - 1 {
        lemma_mp4_unit_of(timing, items.drop_last(), i);
        assert(items.drop_last()[i] == items[i]);
    }
}

proof fn lemma_mp4_count(timing: Mp4Timing, items: Seq<Result<Mp4Sample, String>>)
    ensures
        mp4_units(timing, items) is Ok ==> mp4_units(timing, items)->Ok_0.len() == items.len(),
    decreases items.len(),
{
    if items.len() > 0 {
        lemma_mp4_count(timing, items.drop_last());
    }
}

/// In the index of an ISO container each sample becomes a unit, in their order. A unit is
/// one that decoding can start from if and only if its sample is a sync sample and its
/// payload is a complete random-access point. It lies where its sample lies, and is
/// presented at its composition time with the media's shift.
pub proof fn a_sample_is_safe_where_it_is_sync_and_complete(
    timing: Mp4Timing,
    items: Seq<Result<Mp4Sample, String>>,
    i: int,
)
    requires
        mp4_units(timing, items) is Ok,
        0 <= i < items.len(),
    ensures
        mp4_units(timing, items)->Ok_0.len() == items.len(),
        items[i] is Ok,
        ({
            let unit = mp4_units(timing, items)->Ok_0[i];
            let sample = items[i]->Ok_0;
            &&& unit.safe_random_access <==> sample.is_sync && sample.full_random_access
                == Ok::<bool, String>(true)
            &&& sample.full_random_access is Ok
            &&& sample.source_start == Ok::<i64, String>(unit.source_start)
            &&& unit.presentation_start == unit.source_start + timing.presentation_shift
            &&& unit.start == sample.start
            &&& unit.end == sample.end
            &&& unit.index == sample.index
            &&& unit.random_access_hint == Some(sample.is_sync)
            &&& unit.priming_samples == Some(timing.priming_samples)
        }),
{
    lemma_mp4_unit_of(timing, items, i);
}

/// A container is indexed whole or not at all: it fails exactly where one of its samples
/// cannot be read, placed or judged.
pub proof fn a_container_is_indexed_whole_or_not_at_all(
    timing: Mp4Timing,
    items: Seq<Result<Mp4Sample, String>>,
)
    ensures
        mp4_units(timing, items) is Ok <==> forall|i: int|
            0 <= i < items.len() ==> (#[trigger] items[i]) is Ok && items[i]->Ok_0.source_start is Ok
                && i64::MIN <= items[i]->Ok_0.source_start->Ok_0 + timing.presentation_shift
                <= i64::MAX && items[i]->Ok_0.full_random_access is Ok,
    decreases items.len(),
{
    if items.len() > 0 {
        let front = items.drop_last();
        a_container_is_indexed_whole_or_not_at_all(timing, front);
        assert(items.last() == items[items.len() - 1]);
        if mp4_units(timing, items) is Ok {
            assert forall|i: int| 0 <= i < items.len() implies (#[trigger] items[i]) is Ok
                && items[i]->Ok_0.source_start is Ok && i64::MIN
                <= items[i]->Ok_0.source_start->Ok_0 + timing.presentation_shift <= i64::MAX
                && items[i]->Ok_0.full_random_access is Ok by {
                lemma_mp4_unit_of(timing, items, i);
            }
        } else {
            if forall|i: int|
                0 <= i < items.len() ==> (#[trigger] items[i]) is Ok
                    && items[i]->Ok_0.source_start is Ok && i64::MIN
                    <= items[i]->Ok_0.source_start->Ok_0 + timing.presentation_shift <= i64::MAX
                    && items[i]->Ok_0.full_random_access is Ok {
                assert forall|i: int| 0 <= i < front.len() implies (#[trigger] front[i]) is Ok
                    && front[i]->Ok_0.source_start is Ok && i64::MIN
                    <= front[i]->Ok_0.source_start->Ok_0 + timing.presentation_shift <= i64::MAX
                    && front[i]->Ok_0.full_random_access is Ok by {
                    assert(front[i] == items[i]);
                }
            }
        }
    }
}

/// The frame from which media can be sought is the least one that a unit is presented at
/// which decoding can start from; there is none exactly where there is no such unit.
pub proof fn media_can_be_sought_from_its_first_safe_unit(units: Seq<IndexedAccessUnit>)
    ensures
        first_safe_frame(units) is None <==> forall|i: int|
            0 <= i < units.len() ==> !(#[trigger] units[i]).safe_random_access,
        first_safe_frame(units) is Some ==> {
            &&& exists|i: int|
                0 <= i < units.len() && (#[trigger] units[i]).safe_random_access
                    && first_safe_frame(units)->0 == (if units[i].presentation_start > 0 {
                    units[i].presentation_start as int
                } else {
                    0
                })
            &&& forall|i: int|
                0 <= i < units.len() && (#[trigger] units[i]).safe_random_access
                    ==> first_safe_frame(units)->0 <= (if units[i].presentation_start > 0 {
                    units[i].presentation_start as int
                } else {
                    0
                })
        },
    decreases units.len(),
{
    if units.len() > 0 {
        let front = units.drop_last();
        media_can_be_sought_from_its_first_safe_unit(front);
        let last = units.len() - 1;
        assert(units.last() == units[last]);
        assert forall|i: int| 0 <= i < front.len() implies #[trigger] front[i] == units[i] by {}
        if first_safe_frame(units) is None {
            assert forall|i: int| 0 <= i < units.len() implies !(
            #[trigger] units[i]).safe_random_access by {
                if i < last {
                    assert(front[i] == units[i]);
                }
            }
        } else {
            if first_safe_frame(front) is Some && first_safe_frame(units)
                == first_safe_frame(front) {
                let i = choose|i: int|
                    0 <= i < front.len() && (#[trigger] front[i]).safe_random_access
                        && first_safe_frame(front)->0 == (if front[i].presentation_start > 0 {
                        front[i].presentation_start as int
                    } else {
                        0
                    });
                assert(units[i].safe_random_access);
            } else {
                assert(units[last].safe_random_access);
            }
            assert forall|i: int| 0 <= i < units.len() && (
            #[trigger] units[i]).safe_random_access implies first_safe_frame(units)->0 <= (
            if units[i].presentation_start > 0 {
                units[i].presentation_start as int
            } else {
                0
            }) by {
                if i < last {
                    assert(front[i].safe_random_access);
                }
            }
        }
    }
}

/// An ISO container can be sought from the least presented start among its sync samples
/// that are complete random-access points, and not at all where it has none.
pub proof fn a_container_can_be_sought_from_its_first_safe_sample(
    timing: Mp4Timing,
    items: Seq<Result<Mp4Sample, String>>,
    i: int,
)
    requires
        mp4_units(timing, items) is Ok,
        0 <= i < items.len(),
        items[i]->Ok_0.is_sync,
        items[i]->Ok_0.full_random_access == Ok::<bool, String>(true),
    ensures
        ({
            let units = mp4_units(timing, items)->Ok_0;
            let start = items[i]->Ok_0.source_start->Ok_0 + timing.presentation_shift;
            &&& first_safe_frame(units) is Some
            &&& first_safe_frame(units)->0 <= (if start > 0 {
                start
            } else {
                0
            })
        }),
{
    let units = mp4_units(timing, items)->Ok_0;
    a_sample_is_safe_where_it_is_sync_and_complete(timing, items, i);
    media_can_be_sought_from_its_first_safe_unit(units);
    assert(units[i].safe_random_access);
}

/// Decoding toward a frame starts at a unit that it can start from and that is presented
/// by then.
pub proof fn decoding_starts_at_a_safe_unit_that_is_not_late(
    units: Seq<IndexedAccessUnit>,
    target: i64,
    i: int,
)
    requires
        0 <= i < units.len(),
    ensures
        starts_before(units, target, i) <==> (units[i].safe_random_access
            && units[i].presentation_start <= target),
        !starts_before(units, target, -1),
        !starts_before(units, target, units.len() as int),
{
}

/// In the index of a raw stream each frame becomes a unit, in their order. A unit is one
/// that decoding can start from if and only if its payload is a complete random-access
/// point, and its payload lies right before the checksum that ends its frame.
pub proof fn a_raw_frame_is_safe_where_it_is_complete(
    items: Seq<Result<RawSyncFrame, String>>,
    i: int,
)
    requires
        raw_progress(items) is Ok,
        0 <= i < items.len(),
        items[i]->Ok_0.raw_frame_len + 2 <= usize::MAX,
    ensures
        raw_progress(items)->Ok_0.units.len() == items.len(),
        items[i] is Ok,
        ({
            let unit = raw_progress(items)->Ok_0.units[i];
            let frame = items[i]->Ok_0;
            let checksum = if frame.has_crc {
                2int
            } else {
                0
            };
            &&& unit.safe_random_access <==> frame.full_random_access == Ok::<bool, String>(true)
            &&& unit.end + checksum == frame.offset + frame.total_size
            &&& unit.end - unit.start == frame.raw_frame_len
            &&& unit.source_start == unit.presentation_start
            &&& unit.index == i
            &&& unit.priming_samples is None
            &&& unit.random_access_hint is None
        }),
    decreases items.len(),
{
    lemma_raw_counts(items);
    lemma_raw_counts(items.drop_last());
    if i < items.len() - 1 {
        assert(items.drop_last()[i] == items[i]);
        a_raw_frame_is_safe_where_it_is_complete(items.drop_last(), i);
    } else {
        let frame = items[i]->Ok_0;
        assert(payload_start(frame) is Some);
        assert(payload_start(frame)->0 + frame.raw_frame_len <= usize::MAX);
    }
}

/// A raw stream keeps one sample rate, and lasts as long as its frames together.
pub proof fn a_raw_stream_keeps_its_rate(items: Seq<Result<RawSyncFrame, String>>, i: int)
    requires
        raw_progress(items) is Ok,
        0 <= i < items.len(),
    ensures
        items[i] is Ok,
        items[i]->Ok_0.frame_len is Some,
        items[i]->Ok_0.sample_rate is Ok,
        items[i]->Ok_0.sample_rate->Ok_0 is Some,
        items[i]->Ok_0.sample_rate->Ok_0 == raw_progress(items)->Ok_0.clock.sample_rate,
        raw_progress(items)->Ok_0.clock.frame_start >= raw_progress(
            items.drop_last(),
        )->Ok_0.clock.frame_start,
        raw_progress(items)->Ok_0.clock.frame_start == raw_progress(
            items.drop_last(),
        )->Ok_0.clock.frame_start + items.last()->Ok_0.frame_len->0,
    decreases items.len(),
{
    if i < items.len() - 1 {
        assert(items.drop_last()[i] == items[i]);
        a_raw_stream_keeps_its_rate(items.drop_last(), i);
        a_raw_stream_keeps_its_rate(items.drop_last(), items.len() - 2);
    }
}

} // verus!
