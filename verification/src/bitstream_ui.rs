//! How a report on a bitstream reads: the card, and the table of details.
use crate::inspection::{field_summary_text, field_text, FieldStatus, FieldValue, ReportedField};
use crate::text::{chars_of, decimal, decimal_text, push_decimal, text_of};
use vstd::prelude::*;
use vstd::string::*;

verus! {

#[derive(Debug, Clone, Copy, PartialEq, Eq, Structural)]
pub enum BitstreamAction {
    OpenDetails,
    Retry,
}

#[derive(Debug, Clone, Copy, PartialEq, Eq, Structural)]
pub enum SourceKind {
    Mp4,
    AnnexG,
}

pub open spec fn source_kind_title(kind: SourceKind) -> Seq<char> {
    match kind {
        SourceKind::Mp4 => "MP4"@,
        SourceKind::AnnexG => "Annex G"@,
    }
}

pub fn source_kind_text(kind: SourceKind) -> (r: &'static str)
    ensures
        r@ == source_kind_title(kind),
{
    match kind {
        SourceKind::Mp4 => "MP4",
        SourceKind::AnnexG => "Annex G",
    }
}

pub open spec fn profile_of(compatibility_level: u64) -> Option<Seq<char>> {
    if compatibility_level == 3 {
        Some("16 objects (L3)"@)
    } else if compatibility_level == 4 {
        Some("20 objects (L4)"@)
    } else {
        None
    }
}

/// What a compatibility level says of the objects.
pub fn object_profile(compatibility_level: u64) -> (r: Option<&'static str>)
    ensures
        match r {
            Some(text) => profile_of(compatibility_level) == Some(text@),
            None => profile_of(compatibility_level) is None,
        },
{
    match compatibility_level {
        3 => Some("16 objects (L3)"),
        4 => Some("20 objects (L4)"),
        _ => None,
    }
}

pub open spec fn core_layout_of(bit_rate_kbps: u64) -> Option<Seq<char>> {
    if bit_rate_kbps == 768 {
        Some("5.1.4 (9.1)"@)
    } else if bit_rate_kbps == 1_500 {
        Some("7.1.4 (11.1)"@)
    } else {
        None
    }
}

/// What a bit rate says of the core that the objects are coded with.
pub fn object_core_layout(bit_rate_kbps: u64) -> (r: Option<&'static str>)
    ensures
        match r {
            Some(text) => core_layout_of(bit_rate_kbps) == Some(text@),
            None => core_layout_of(bit_rate_kbps) is None,
        },
{
    match bit_rate_kbps {
        768 => Some("5.1.4 (9.1)"),
        1_500 => Some("7.1.4 (11.1)"),
        _ => None,
    }
}

/// The last place before `to` where a blank and an opening bracket stand; -1
/// where there is none.
pub open spec fn last_opening(s: Seq<char>, to: int) -> int
    decreases to,
{
    if to <= 0 {
        -1
    } else if to < s.len() && s[to - 1] == ' ' && s[to] == '(' {
        to - 1
    } else {
        last_opening(s, to - 1)
    }
}

/// The text ends like this.
pub open spec fn ends_with(s: Seq<char>, end: Seq<char>) -> bool {
    s.len() >= end.len() && s.skip(s.len() - end.len()) == end
}

/// A description without the role that goes without saying.
pub open spec fn without_main(s: Seq<char>) -> Seq<char> {
    if ends_with(s, " main"@) {
        s.take(s.len() - 5)
    } else {
        s
    }
}

/// A summary without what goes without saying: the main role, and a
/// configuration of a single group.
pub open spec fn compact(s: Seq<char>) -> Seq<char> {
    let at = last_opening(s, s.len() as int);
    if at < 0 || s.len() <= at + 2 || s.last() != ')' {
        without_main(s)
    } else {
        let description = without_main(s.take(at));
        let configuration = s.subrange(at + 2, s.len() - 1);
        if configuration == "single_group"@ {
            description
        } else {
            description + " ("@ + configuration + ")"@
        }
    }
}

/// Whether the text stands at a place of another.
fn stands_at(s: &Vec<char>, at: usize, to: usize, literal: &str) -> (r: bool)
    requires
        at <= to <= s@.len(),
    ensures
        r == (s@.subrange(at as int, to as int) == literal@),
{
    let other = chars_of(literal);
    if other.len() != to - at {
        return false;
    }
    let mut i: usize = 0;
    while i < other.len()
        invariant
            i <= other.len(),
            other@ == literal@,
            other.len() == to - at,
            at <= to <= s@.len(),
            s@.subrange(at as int, at + i) =~= literal@.take(i as int),
        decreases other.len() - i,
    {
        if s[at + i] != other[i] {
            assert(s@.subrange(at as int, to as int)[i as int] != literal@[i as int]);
            return false;
        }
        i = i + 1;
    }
    assert(literal@.take(i as int) =~= literal@);
    true
}

fn role_end(s: &Vec<char>, to: usize) -> (r: usize)
    requires
        to <= s@.len(),
    ensures
        r <= to,
        s@.take(r as int) == without_main(s@.take(to as int)),
{
    proof {
        reveal_strlit(" main");
    }
    let ghost part = s@.take(to as int);
    if to >= 5 {
        assert(part.skip(part.len() - 5) =~= s@.subrange(to - 5, to as int));
        if stands_at(s, to - 5, to, " main") {
            assert(part.take(part.len() - 5) =~= s@.take(to - 5));
            return to - 5;
        }
    }
    to
}

pub fn compact_content_summary(summary: &str) -> (r: String)
    ensures
        r@ == compact(summary@),
{
    let s = chars_of(summary);
    let mut at: usize = s.len();
    while at > 0 && !(at < s.len() && s[at - 1] == ' ' && s[at] == '(')
        invariant
            at <= s@.len(),
            last_opening(s@, s@.len() as int) == last_opening(s@, at as int),
        decreases at,
    {
        at = at - 1;
    }
    assert(s@.take(s@.len() as int) =~= s@);
    if at == 0 || s.len() - at < 2 || s[s.len() - 1] != ')' {
        let end: usize = role_end(&s, s.len());
        let r = text_of(&s, 0, end);
        assert(s@.subrange(0, end as int) =~= s@.take(end as int));
        return r;
    }
    let opening: usize = at - 1;
    let end: usize = role_end(&s, opening);
    let mut out = text_of(&s, 0, end);
    assert(s@.subrange(0, end as int) =~= s@.take(end as int));
    if stands_at(&s, opening + 2, s.len() - 1, "single_group") {
        return out;
    }
    let configuration = text_of(&s, opening + 2, s.len() - 1);
    out.append(" (");
    out.append(configuration.as_str());
    out.append(")");
    out
}

/// A presentation, its fields in the order of their labels.
#[derive(Debug)]
pub struct Presentation {
    pub index: u32,
    pub fields: Vec<ReportedField>,
    pub loudness: Vec<ReportedField>,
    pub drc: Vec<ReportedField>,
    pub mixing: Vec<ReportedField>,
    pub downmix: Vec<ReportedField>,
}

#[derive(Debug)]
pub struct Substream {
    pub index: u32,
    pub fields: Vec<ReportedField>,
    pub preprocessing: Vec<ReportedField>,
    pub dialogue: Vec<ReportedField>,
}

#[derive(Debug)]
pub struct Issue {
    pub severity: String,
    pub code: String,
    pub message: String,
    pub frame_index: Option<u64>,
    pub presentation_id: Option<u32>,
    pub substream_index: Option<u32>,
}

#[derive(Debug)]
pub struct Report {
    pub codec: String,
    pub source_kind: SourceKind,
    pub frame_count: u64,
    pub audio: Vec<ReportedField>,
    pub presentations: Vec<Presentation>,
    pub substreams: Vec<Substream>,
    pub issues: Vec<Issue>,
}

pub open spec fn titles(labels: Seq<&'static str>) -> Seq<Seq<char>> {
    labels.map_values(|label: &'static str| label@)
}

/// The fields of the stream and its source, in their order.
pub open spec fn audio_titles() -> Seq<Seq<char>> {
    seq![
        "Track index"@,
        "Duration"@,
        "Bit rate"@,
        "Estimated average bit rate"@,
        "Bitstream version"@,
        "Frame rate"@,
        "Sample rate"@,
        "I-frame"@,
        "I-frame interval"@,
        "Sync word"@,
        "CRC errors"@,
        "Number of presentations"@,
        "Number of audio substreams"@,
    ]
}

fn audio_labels() -> (r: Vec<&'static str>)
    ensures
        titles(r@) == audio_titles(),
{
    let mut out: Vec<&'static str> = Vec::new();
    out.push("Track index");
    out.push("Duration");
    out.push("Bit rate");
    out.push("Estimated average bit rate");
    out.push("Bitstream version");
    out.push("Frame rate");
    out.push("Sample rate");
    out.push("I-frame");
    out.push("I-frame interval");
    out.push("Sync word");
    out.push("CRC errors");
    out.push("Number of presentations");
    out.push("Number of audio substreams");
    assert(titles(out@) =~= audio_titles());
    out
}

/// The fields of a presentation, in their order.
pub open spec fn presentation_titles() -> Seq<Seq<char>> {
    seq![
        "Presentation ID"@,
        "Summary"@,
        "Type"@,
        "Minimal compatibility level"@,
        "Dialogue normalization"@,
        "Language"@,
        "Multi-PID"@,
        "Bit rate"@,
        "Audio substreams"@,
        "Metadata authentication ID"@,
    ]
}

fn presentation_labels() -> (r: Vec<&'static str>)
    ensures
        titles(r@) == presentation_titles(),
{
    let mut out: Vec<&'static str> = Vec::new();
    out.push("Presentation ID");
    out.push("Summary");
    out.push("Type");
    out.push("Minimal compatibility level");
    out.push("Dialogue normalization");
    out.push("Language");
    out.push("Multi-PID");
    out.push("Bit rate");
    out.push("Audio substreams");
    out.push("Metadata authentication ID");
    assert(titles(out@) =~= presentation_titles());
    out
}

/// The fields of a presentation's loudness, in their order.
pub open spec fn loudness_titles() -> Seq<Seq<char>> {
    seq![
        "Loudness"@,
        "Version"@,
        "Regulation type"@,
        "Correction type"@,
        "Dialogue Intelligence"@,
        "Integrated loudness (speech-gated)"@,
        "Integrated loudness (level-gated)"@,
        "Maximum true peak"@,
        "Maximum momentary loudness"@,
        "Loudness range"@,
    ]
}

fn loudness_labels() -> (r: Vec<&'static str>)
    ensures
        titles(r@) == loudness_titles(),
{
    let mut out: Vec<&'static str> = Vec::new();
    out.push("Loudness");
    out.push("Version");
    out.push("Regulation type");
    out.push("Correction type");
    out.push("Dialogue Intelligence");
    out.push("Integrated loudness (speech-gated)");
    out.push("Integrated loudness (level-gated)");
    out.push("Maximum true peak");
    out.push("Maximum momentary loudness");
    out.push("Loudness range");
    assert(titles(out@) =~= loudness_titles());
    out
}

/// The fields of a presentation's dynamic range control, in their order.
pub open spec fn drc_titles() -> Seq<Seq<char>> {
    seq![
        "Enhanced AC-3 profile"@,
        "Home theater AVR"@,
        "Flat-panel TV"@,
        "Portable speakers"@,
        "Portable headphones"@,
    ]
}

fn drc_labels() -> (r: Vec<&'static str>)
    ensures
        titles(r@) == drc_titles(),
{
    let mut out: Vec<&'static str> = Vec::new();
    out.push("Enhanced AC-3 profile");
    out.push("Home theater AVR");
    out.push("Flat-panel TV");
    out.push("Portable speakers");
    out.push("Portable headphones");
    assert(titles(out@) =~= drc_titles());
    out
}

/// The fields of a presentation's mixing metadata, in their order.
pub open spec fn mixing_titles() -> Seq<Seq<char>> {
    seq![
        "Main audio ducking level"@,
        "Main audio ducking level, Center"@,
        "Main audio ducking level, Front"@,
    ]
}

fn mixing_labels() -> (r: Vec<&'static str>)
    ensures
        titles(r@) == mixing_titles(),
{
    let mut out: Vec<&'static str> = Vec::new();
    out.push("Main audio ducking level");
    out.push("Main audio ducking level, Center");
    out.push("Main audio ducking level, Front");
    assert(titles(out@) =~= mixing_titles());
    out
}

/// The fields of a presentation's downmix, in their order.
pub open spec fn downmix_titles() -> Seq<Seq<char>> {
    seq![
        "Lo/Ro Center mix gain"@,
        "Lo/Ro Surround mix gain"@,
        "Lt/Rt Center mix gain"@,
        "Lt/Rt Surround mix gain"@,
        "LFE mix info"@,
        "LFE mix gain"@,
        "Preferred downmix"@,
    ]
}

fn downmix_labels() -> (r: Vec<&'static str>)
    ensures
        titles(r@) == downmix_titles(),
{
    let mut out: Vec<&'static str> = Vec::new();
    out.push("Lo/Ro Center mix gain");
    out.push("Lo/Ro Surround mix gain");
    out.push("Lt/Rt Center mix gain");
    out.push("Lt/Rt Surround mix gain");
    out.push("LFE mix info");
    out.push("LFE mix gain");
    out.push("Preferred downmix");
    assert(titles(out@) =~= downmix_titles());
    out
}

/// The fields of a substream, in their order.
pub open spec fn substream_titles() -> Seq<Seq<char>> {
    seq![
        "Summary"@,
        "Channel configuration"@,
        "Channel layout"@,
        "Object coded"@,
        "Bit rate"@,
    ]
}

fn substream_labels() -> (r: Vec<&'static str>)
    ensures
        titles(r@) == substream_titles(),
{
    let mut out: Vec<&'static str> = Vec::new();
    out.push("Summary");
    out.push("Channel configuration");
    out.push("Channel layout");
    out.push("Object coded");
    out.push("Bit rate");
    assert(titles(out@) =~= substream_titles());
    out
}

/// The fields of a substream's preprocessing, in their order.
pub open spec fn preprocessing_titles() -> Seq<Seq<char>> {
    seq![
        "Previous mix type 2-channel"@,
        "Phase 90 filter info 2-channel"@,
        "Lo/Ro Center mix gain"@,
        "Lo/Ro Surround mix gain"@,
        "Lo/Ro downmix loudness correction"@,
        "Lt/Rt Center mix gain"@,
        "Lt/Rt Surround mix gain"@,
        "Lt/Rt downmix loudness correction"@,
        "LFE mix gain"@,
        "Preferred downmix"@,
        "Previous downmix type 5-channel"@,
        "Previous upmix type 5-channel"@,
        "Previous upmix type 3/4"@,
        "Previous upmix type 3/2/2"@,
        "Phase 90 filter info"@,
        "Surround attenuation known"@,
        "LFE attenuation known"@,
    ]
}

fn preprocessing_labels() -> (r: Vec<&'static str>)
    ensures
        titles(r@) == preprocessing_titles(),
{
    let mut out: Vec<&'static str> = Vec::new();
    out.push("Previous mix type 2-channel");
    out.push("Phase 90 filter info 2-channel");
    out.push("Lo/Ro Center mix gain");
    out.push("Lo/Ro Surround mix gain");
    out.push("Lo/Ro downmix loudness correction");
    out.push("Lt/Rt Center mix gain");
    out.push("Lt/Rt Surround mix gain");
    out.push("Lt/Rt downmix loudness correction");
    out.push("LFE mix gain");
    out.push("Preferred downmix");
    out.push("Previous downmix type 5-channel");
    out.push("Previous upmix type 5-channel");
    out.push("Previous upmix type 3/4");
    out.push("Previous upmix type 3/2/2");
    out.push("Phase 90 filter info");
    out.push("Surround attenuation known");
    out.push("LFE attenuation known");
    assert(titles(out@) =~= preprocessing_titles());
    out
}

/// The fields of a substream's dialogue enhancement, in their order.
pub open spec fn dialogue_titles() -> Seq<Seq<char>> {
    seq![
        "Enabled"@,
        "Method"@,
        "Max gain"@,
        "Channel configuration"@,
    ]
}

fn dialogue_labels() -> (r: Vec<&'static str>)
    ensures
        titles(r@) == dialogue_titles(),
{
    let mut out: Vec<&'static str> = Vec::new();
    out.push("Enabled");
    out.push("Method");
    out.push("Max gain");
    out.push("Channel configuration");
    assert(titles(out@) =~= dialogue_titles());
    out
}

/// The places of fields that decide what the card says.
pub const BIT_RATE: usize = 2;

pub const ESTIMATED_BIT_RATE: usize = 3;

pub const SUMMARY: usize = 1;

pub const COMPATIBILITY: usize = 3;

pub const LOUDNESS: usize = 0;

pub const TRUE_PEAK: usize = 7;

pub const OBJECT_CODED: usize = 3;

impl Presentation {
    pub open spec fn wf(&self) -> bool {
        &&& self.fields@.len() == presentation_titles().len()
        &&& self.loudness@.len() == loudness_titles().len()
        &&& self.drc@.len() == drc_titles().len()
        &&& self.mixing@.len() == mixing_titles().len()
        &&& self.downmix@.len() == downmix_titles().len()
    }

    fn is_complete(&self) -> (r: bool)
        ensures
            r == self.wf(),
    {
        self.fields.len() == presentation_labels().len() && self.loudness.len()
            == loudness_labels().len() && self.drc.len() == drc_labels().len() && self.mixing.len()
            == mixing_labels().len() && self.downmix.len() == downmix_labels().len()
    }
}

impl Substream {
    pub open spec fn wf(&self) -> bool {
        &&& self.fields@.len() == substream_titles().len()
        &&& self.preprocessing@.len() == preprocessing_titles().len()
        &&& self.dialogue@.len() == dialogue_titles().len()
    }

    fn is_complete(&self) -> (r: bool)
        ensures
            r == self.wf(),
    {
        self.fields.len() == substream_labels().len() && self.preprocessing.len()
            == preprocessing_labels().len() && self.dialogue.len() == dialogue_labels().len()
    }

    /// The substream is said to carry objects.
    pub open spec fn is_object_coded(&self) -> bool {
        let field = self.fields@[OBJECT_CODED as int];
        field.status == FieldStatus::Present && field.value == Some(FieldValue::Bool(true))
    }
}

impl Report {
    /// Every field has its place.
    pub open spec fn wf(&self) -> bool {
        &&& self.audio@.len() == audio_titles().len()
        &&& forall|i: int|
            0 <= i < self.presentations@.len() ==> (#[trigger] self.presentations@[i]).wf()
        &&& forall|i: int| 0 <= i < self.substreams@.len() ==> (#[trigger] self.substreams@[i]).wf()
    }

    /// Whether every field that is shown is there.
    pub fn is_complete(&self) -> (r: bool)
        ensures
            r == self.wf(),
    {
        if self.audio.len() != audio_labels().len() {
            return false;
        }
        let mut at: usize = 0;
        while at < self.presentations.len()
            invariant
                at <= self.presentations.len(),
                forall|i: int| 0 <= i < at ==> (#[trigger] self.presentations@[i]).wf(),
            decreases self.presentations.len() - at,
        {
            if !self.presentations[at].is_complete() {
                assert(!self.presentations@[at as int].wf());
                return false;
            }
            at = at + 1;
        }
        let mut at: usize = 0;
        while at < self.substreams.len()
            invariant
                at <= self.substreams.len(),
                forall|i: int| 0 <= i < at ==> (#[trigger] self.substreams@[i]).wf(),
            decreases self.substreams.len() - at,
        {
            if !self.substreams[at].is_complete() {
                assert(!self.substreams@[at as int].wf());
                return false;
            }
            at = at + 1;
        }
        true
    }

    pub open spec fn has_objects(&self) -> bool {
        exists|i: int|
            0 <= i < self.substreams@.len() && (#[trigger] self.substreams@[i]).is_object_coded()
    }

    /// The bit rate that is stated, and else the one that was estimated.
    pub open spec fn bit_rate_field(&self) -> ReportedField {
        if self.audio@[BIT_RATE as int].status == FieldStatus::Present {
            self.audio@[BIT_RATE as int]
        } else {
            self.audio@[ESTIMATED_BIT_RATE as int]
        }
    }
}

/// The whole number of a field, where it has one.
pub open spec fn whole(field: ReportedField) -> Option<u64> {
    match field.value {
        Some(value) => value.whole_number(),
        None => None,
    }
}

fn whole_value(field: &ReportedField) -> (r: Option<u64>)
    ensures
        r == whole(*field),
{
    match &field.value {
        Some(value) => value.as_u64(),
        None => None,
    }
}

/// Text with something behind it, where there is something.
pub open spec fn with_note(text: Seq<char>, note: Option<Seq<char>>) -> Seq<char> {
    match note {
        Some(note) => text + " · "@ + note,
        None => text,
    }
}

fn preferred_bit_rate(report: &Report) -> (r: &ReportedField)
    requires
        report.wf(),
    ensures
        *r == report.bit_rate_field(),
{
    if report.audio[BIT_RATE].status == FieldStatus::Present {
        &report.audio[BIT_RATE]
    } else {
        &report.audio[ESTIMATED_BIT_RATE]
    }
}

fn has_object_coded_audio(report: &Report) -> (r: bool)
    requires
        report.wf(),
    ensures
        r == report.has_objects(),
{
    let mut at: usize = 0;
    while at < report.substreams.len()
        invariant
            at <= report.substreams.len(),
            report.wf(),
            forall|i: int|
                0 <= i < at ==> !(#[trigger] report.substreams@[i]).is_object_coded(),
        decreases report.substreams.len() - at,
    {
        assert(report.substreams@[at as int].wf());
        let field = &report.substreams[at].fields[OBJECT_CODED];
        let objects = match &field.value {
            Some(FieldValue::Bool(value)) => *value,
            _ => false,
        };
        if field.status == FieldStatus::Present && objects {
            assert(report.substreams@[at as int].is_object_coded());
            return true;
        }
        at = at + 1;
    }
    false
}

/// The bit rate, and the core that it stands for where objects are coded.
pub fn bit_rate_and_core_text(report: &Report) -> (r: String)
    requires
        report.wf(),
    ensures
        r@ == with_note(
            report.bit_rate_field().summary_text(),
            if report.has_objects() && whole(report.bit_rate_field()) is Some {
                core_layout_of(whole(report.bit_rate_field())->0)
            } else {
                None
            },
        ),
{
    let field = preferred_bit_rate(report);
    let mut text = field_summary_text(field);
    if !has_object_coded_audio(report) {
        return text;
    }
    if let Some(rate) = whole_value(field) {
        if let Some(layout) = object_core_layout(rate) {
            text.append(" · ");
            text.append(layout);
        }
    }
    text
}

/// What the first presentation holds, and its profile where objects are coded.
pub fn content_summary_text(report: &Report) -> (r: String)
    requires
        report.wf(),
    ensures
        r@ == (if report.presentations@.len() == 0 {
            "Not present"@
        } else {
            let fields = report.presentations@[0].fields@;
            with_note(
                compact(fields[SUMMARY as int].summary_text()),
                if report.has_objects() && whole(fields[COMPATIBILITY as int]) is Some {
                    profile_of(whole(fields[COMPATIBILITY as int])->0)
                } else {
                    None
                },
            )
        }),
{
    if report.presentations.len() == 0 {
        return "Not present".to_owned();
    }
    assert(report.presentations@[0].wf());
    let presentation = &report.presentations[0];
    let summary = field_summary_text(&presentation.fields[SUMMARY]);
    let mut text = compact_content_summary(summary.as_str());
    if !has_object_coded_audio(report) {
        return text;
    }
    if let Some(level) = whole_value(&presentation.fields[COMPATIBILITY]) {
        if let Some(profile) = object_profile(level) {
            text.append(" · ");
            text.append(profile);
        }
    }
    text
}

/// Loudness and true peak of the first presentation.
pub fn loudness_text(report: &Report) -> (r: String)
    requires
        report.wf(),
    ensures
        r@ == (if report.presentations@.len() == 0 {
            "Not present"@
        } else {
            report.presentations@[0].loudness@[LOUDNESS as int].summary_text() + " · "@
                + report.presentations@[0].loudness@[TRUE_PEAK as int].summary_text()
        }),
{
    if report.presentations.len() == 0 {
        return "Not present".to_owned();
    }
    assert(report.presentations@[0].wf());
    let presentation = &report.presentations[0];
    let mut text = field_summary_text(&presentation.loudness[LOUDNESS]);
    text.append(" · ");
    let peak = field_summary_text(&presentation.loudness[TRUE_PEAK]);
    text.append(peak.as_str());
    text
}

/// How much there is of what.
pub fn counts_text(report: &Report) -> (r: String)
    ensures
        r@ == decimal(report.presentations@.len()) + " P · "@ + decimal(report.substreams@.len())
            + " SS · "@ + decimal(report.issues@.len()) + " issues"@,
{
    let mut text = decimal_text(report.presentations.len() as u64);
    text.append(" P · ");
    push_decimal(&mut text, report.substreams.len() as u64);
    text.append(" SS · ");
    push_decimal(&mut text, report.issues.len() as u64);
    text.append(" issues");
    text
}

/// What was counted, behind its word.
pub open spec fn part_text(word: Seq<char>, number: Option<nat>) -> Seq<Seq<char>> {
    match number {
        Some(number) => seq![word + decimal(number)],
        None => Seq::empty(),
    }
}

/// The parts with separators between them.
pub open spec fn joined(parts: Seq<Seq<char>>) -> Seq<char>
    decreases parts.len(),
{
    if parts.len() == 0 {
        Seq::empty()
    } else if parts.len() == 1 {
        parts[0]
    } else {
        joined(parts.drop_last()) + " · "@ + parts.last()
    }
}

pub open spec fn natural(number: Option<u32>) -> Option<nat> {
    match number {
        Some(number) => Some(number as nat),
        None => None,
    }
}

/// Where an issue came up.
pub open spec fn context_text(
    frame: Option<u64>,
    presentation: Option<u32>,
    substream: Option<u32>,
) -> Seq<char> {
    joined(
        part_text(
            "frame "@,
            match frame {
                Some(frame) => Some(frame as nat),
                None => None,
            },
        ) + part_text("presentation "@, natural(presentation)) + part_text(
            "substream "@,
            natural(substream),
        ),
    )
}

fn add_part(out: &mut String, first: bool, word: &str, number: u64, Ghost(parts): Ghost<Seq<Seq<char>>>)
    requires
        old(out)@ == joined(parts),
        first == (parts.len() == 0),
    ensures
        final(out)@ == joined(parts.push(word@ + decimal(number as nat))),
{
    let ghost more = parts.push(word@ + decimal(number as nat));
    assert(more.drop_last() =~= parts);
    if !first {
        out.append(" · ");
    }
    let ghost before = out@;
    out.append(word);
    push_decimal(out, number);
    assert(out@ =~= before + (word@ + decimal(number as nat)));
    assert(first ==> out@ =~= more[0]);
}

pub fn issue_context(frame: Option<u64>, presentation: Option<u32>, substream: Option<u32>) -> (r:
    String)
    ensures
        r@ == context_text(frame, presentation, substream),
{
    let mut out = String::new();
    let mut first = true;
    let ghost mut parts: Seq<Seq<char>> = Seq::empty();
    assert(out@ =~= joined(parts));
    if let Some(frame) = frame {
        add_part(&mut out, first, "frame ", frame, Ghost(parts));
        first = false;
        proof {
            parts = parts.push("frame "@ + decimal(frame as nat));
        }
    }
    if let Some(presentation) = presentation {
        add_part(&mut out, first, "presentation ", presentation as u64, Ghost(parts));
        first = false;
        proof {
            parts = parts.push("presentation "@ + decimal(presentation as nat));
        }
    }
    if let Some(substream) = substream {
        add_part(&mut out, first, "substream ", substream as u64, Ghost(parts));
        proof {
            parts = parts.push("substream "@ + decimal(substream as nat));
        }
    }
    assert(parts =~= part_text(
        "frame "@,
        match frame {
            Some(frame) => Some(frame as nat),
            None => None,
        },
    ) + part_text("presentation "@, natural(presentation)) + part_text(
        "substream "@,
        natural(substream),
    ));
    out
}

/// One section of the table of details.
#[derive(Debug, Clone, Copy, PartialEq, Eq, Structural)]
pub enum SectionId {
    Audio,
    Presentation(u32),
    Substream(u32),
    Issues,
    Loudness(u32),
    Drc(u32),
    Mixing(u32),
    Downmix(u32),
    Preprocessing(u32),
    Dialogue(u32),
}

/// A section that the reader opened or closed.
#[derive(Debug, Clone, Copy, PartialEq, Eq, Structural)]
pub struct Disclosure {
    pub section: SectionId,
    pub open: bool,
}

/// A section is open where the reader last left it, and else as it starts.
pub open spec fn is_open(disclosures: Seq<Disclosure>, section: SectionId, default_open: bool) -> bool
    decreases disclosures.len(),
{
    if disclosures.len() == 0 {
        default_open
    } else if disclosures.last().section == section {
        disclosures.last().open
    } else {
        is_open(disclosures.drop_last(), section, default_open)
    }
}

fn find_open(disclosures: &Vec<Disclosure>, section: SectionId, default_open: bool) -> (r: bool)
    ensures
        r == is_open(disclosures@, section, default_open),
{
    let mut at: usize = disclosures.len();
    assert(disclosures@.take(at as int) =~= disclosures@);
    while at > 0
        invariant
            at <= disclosures.len(),
            is_open(disclosures@, section, default_open) == is_open(
                disclosures@.take(at as int),
                section,
                default_open,
            ),
        decreases at,
    {
        let last = disclosures[at - 1];
        assert(disclosures@.take(at as int).last() == last);
        assert(disclosures@.take(at as int).drop_last() =~= disclosures@.take(at - 1));
        if last.section == section {
            return last.open;
        }
        at = at - 1;
    }
    default_open
}

#[derive(Debug)]
pub enum DetailTableRow {
    Section { title: String, section: SectionId, default_open: bool, open: bool, depth: u8 },
    Field { label: String, value: String, depth: u8, alternate: bool },
}

pub enum RowModel {
    Section { title: Seq<char>, section: SectionId, default_open: bool, open: bool, depth: u8 },
    Field { label: Seq<char>, value: Seq<char>, depth: u8, alternate: bool },
}

pub open spec fn row_model(row: DetailTableRow) -> RowModel {
    match row {
        DetailTableRow::Section { title, section, default_open, open, depth } => RowModel::Section {
            title: title@,
            section,
            default_open,
            open,
            depth,
        },
        DetailTableRow::Field { label, value, depth, alternate } => RowModel::Field {
            label: label@,
            value: value@,
            depth,
            alternate,
        },
    }
}

/// The table while it is being collected. Fields alternate over all sections.
#[derive(Debug)]
pub struct DetailTable {
    pub disclosures: Vec<Disclosure>,
    pub rows: Vec<DetailTableRow>,
    pub field_depth: u8,
    pub alternate: bool,
}

#[verifier::ext_equal]
pub struct TableModel {
    pub disclosures: Seq<Disclosure>,
    pub rows: Seq<RowModel>,
    pub field_depth: u8,
    pub alternate: bool,
}

impl View for DetailTable {
    type V = TableModel;

    open spec fn view(&self) -> TableModel {
        TableModel {
            disclosures: self.disclosures@,
            rows: self.rows@.map_values(|row: DetailTableRow| row_model(row)),
            field_depth: self.field_depth,
            alternate: self.alternate,
        }
    }
}

impl TableModel {
    pub open spec fn field(self, label: Seq<char>, value: Seq<char>) -> TableModel {
        TableModel {
            rows: self.rows.push(
                RowModel::Field {
                    label,
                    value,
                    depth: self.field_depth,
                    alternate: self.alternate,
                },
            ),
            alternate: !self.alternate,
            ..self
        }
    }

    /// A section's own row. What it holds follows where it is open, one deeper.
    pub open spec fn section(
        self,
        title: Seq<char>,
        section: SectionId,
        default_open: bool,
        depth: u8,
    ) -> TableModel {
        let open = is_open(self.disclosures, section, default_open);
        TableModel {
            rows: self.rows.push(
                RowModel::Section { title, section, default_open, open, depth },
            ),
            field_depth: if open {
                (depth + 1) as u8
            } else {
                self.field_depth
            },
            ..self
        }
    }

    pub open spec fn at_depth(self, depth: u8) -> TableModel {
        TableModel { field_depth: depth, ..self }
    }

    /// Fields under their labels, in full.
    pub open spec fn fields(self, labels: Seq<Seq<char>>, fields: Seq<ReportedField>) -> TableModel
        decreases fields.len(),
    {
        if fields.len() == 0 {
            self
        } else {
            self.fields(labels, fields.drop_last()).field(
                labels[fields.len() - 1],
                fields.last().full_text(true),
            )
        }
    }

    /// A section that holds nothing but fields.
    pub open spec fn group(
        self,
        title: Seq<char>,
        section: SectionId,
        depth: u8,
        labels: Seq<Seq<char>>,
        fields: Seq<ReportedField>,
    ) -> TableModel {
        let opened = self.section(title, section, false, depth);
        if is_open(self.disclosures, section, false) {
            opened.fields(labels, fields).at_depth(self.field_depth)
        } else {
            opened
        }
    }

    pub open spec fn audio(self, report: Report) -> TableModel {
        let opened = self.section("Audio"@, SectionId::Audio, true, 0);
        if is_open(self.disclosures, SectionId::Audio, true) {
            opened.field("Codec"@, report.codec@).field(
                "Source"@,
                source_kind_title(report.source_kind),
            ).fields(audio_titles(), report.audio@).field(
                "Frames"@,
                decimal(report.frame_count as nat),
            ).at_depth(self.field_depth)
        } else {
            opened
        }
    }

    pub open spec fn presentation(self, presentation: Presentation) -> TableModel {
        let index = presentation.index;
        let opened = self.section(
            "Presentation "@ + decimal(index as nat),
            SectionId::Presentation(index),
            true,
            0,
        );
        if is_open(self.disclosures, SectionId::Presentation(index), true) {
            opened.fields(presentation_titles(), presentation.fields@).group(
                "Loudness"@,
                SectionId::Loudness(index),
                1,
                loudness_titles(),
                presentation.loudness@,
            ).group(
                "Dynamic range control"@,
                SectionId::Drc(index),
                1,
                drc_titles(),
                presentation.drc@,
            ).group(
                "Mixing metadata"@,
                SectionId::Mixing(index),
                1,
                mixing_titles(),
                presentation.mixing@,
            ).group(
                "Downmix"@,
                SectionId::Downmix(index),
                1,
                downmix_titles(),
                presentation.downmix@,
            ).at_depth(self.field_depth)
        } else {
            opened
        }
    }

    pub open spec fn presentations(self, presentations: Seq<Presentation>) -> TableModel
        decreases presentations.len(),
    {
        if presentations.len() == 0 {
            self
        } else {
            self.presentations(presentations.drop_last()).presentation(presentations.last())
        }
    }

    pub open spec fn substream(self, substream: Substream) -> TableModel {
        let index = substream.index;
        let opened = self.section(
            "Substream "@ + decimal(index as nat),
            SectionId::Substream(index),
            false,
            0,
        );
        if is_open(self.disclosures, SectionId::Substream(index), false) {
            opened.fields(substream_titles(), substream.fields@).group(
                "Preprocessing"@,
                SectionId::Preprocessing(index),
                1,
                preprocessing_titles(),
                substream.preprocessing@,
            ).group(
                "Dialogue Enhancement"@,
                SectionId::Dialogue(index),
                1,
                dialogue_titles(),
                substream.dialogue@,
            ).at_depth(self.field_depth)
        } else {
            opened
        }
    }

    pub open spec fn substreams(self, substreams: Seq<Substream>) -> TableModel
        decreases substreams.len(),
    {
        if substreams.len() == 0 {
            self
        } else {
            self.substreams(substreams.drop_last()).substream(substreams.last())
        }
    }

    /// An issue, and where it came up if that is known.
    pub open spec fn issue(self, issue: Issue) -> TableModel {
        let told = self.field(issue.severity@ + " · "@ + issue.code@, issue.message@);
        let context = context_text(
            issue.frame_index,
            issue.presentation_id,
            issue.substream_index,
        );
        if context.len() == 0 {
            told
        } else {
            told.field("Context"@, context)
        }
    }

    pub open spec fn issue_list(self, issues: Seq<Issue>) -> TableModel
        decreases issues.len(),
    {
        if issues.len() == 0 {
            self
        } else {
            self.issue_list(issues.drop_last()).issue(issues.last())
        }
    }

    pub open spec fn issues(self, issues: Seq<Issue>) -> TableModel {
        let opened = self.section(
            "Issues ("@ + decimal(issues.len()) + ")"@,
            SectionId::Issues,
            issues.len() > 0,
            0,
        );
        if is_open(self.disclosures, SectionId::Issues, issues.len() > 0) {
            (if issues.len() == 0 {
                opened.field("Status"@, "None"@)
            } else {
                opened.issue_list(issues)
            }).at_depth(self.field_depth)
        } else {
            opened
        }
    }

    pub open spec fn report(self, report: Report) -> TableModel {
        self.audio(report).presentations(report.presentations@).substreams(
            report.substreams@,
        ).issues(report.issues@)
    }
}

impl DetailTable {
    pub fn new(disclosures: Vec<Disclosure>) -> (r: Self)
        ensures
            r@ == (TableModel {
                disclosures: disclosures@,
                rows: Seq::empty(),
                field_depth: 0,
                alternate: false,
            }),
    {
        let r = DetailTable { disclosures, rows: Vec::new(), field_depth: 0, alternate: false };
        assert(r@.rows =~= Seq::<RowModel>::empty());
        r
    }

    fn field(&mut self, label: String, value: String)
        ensures
            final(self)@ == old(self)@.field(label@, value@),
    {
        self.rows.push(
            DetailTableRow::Field {
                label,
                value,
                depth: self.field_depth,
                alternate: self.alternate,
            },
        );
        self.alternate = !self.alternate;
        assert(self@.rows =~= old(self)@.field(label@, value@).rows);
        assert(self@ =~= old(self)@.field(label@, value@));
    }

    fn section(&mut self, title: String, section: SectionId, default_open: bool, depth: u8) -> (r:
        bool)
        requires
            depth < 255,
        ensures
            final(self)@ == old(self)@.section(title@, section, default_open, depth),
            r == is_open(old(self)@.disclosures, section, default_open),
    {
        let open = find_open(&self.disclosures, section, default_open);
        self.rows.push(DetailTableRow::Section { title, section, default_open, open, depth });
        if open {
            self.field_depth = depth + 1;
        }
        assert(self@.rows =~= old(self)@.section(title@, section, default_open, depth).rows);
        assert(self@ =~= old(self)@.section(title@, section, default_open, depth));
        open
    }

    fn leave(&mut self, depth: u8)
        ensures
            final(self)@ == old(self)@.at_depth(depth),
    {
        self.field_depth = depth;
        assert(self@ =~= old(self)@.at_depth(depth));
    }

    fn fields(&mut self, labels: &Vec<&'static str>, fields: &Vec<ReportedField>)
        requires
            labels@.len() == fields@.len(),
        ensures
            final(self)@ == old(self)@.fields(titles(labels@), fields@),
    {
        let mut at: usize = 0;
        while at < fields.len()
            invariant
                at <= fields.len() == labels.len(),
                self@ == old(self)@.fields(titles(labels@), fields@.take(at as int)),
            decreases fields.len() - at,
        {
            proof {
                let so_far = fields@.take(at + 1);
                assert(so_far.last() == fields@[at as int]);
                assert(so_far.drop_last() =~= fields@.take(at as int));
                assert(titles(labels@)[at as int] == labels@[at as int]@);
            }
            let label = labels[at].to_owned();
            let value = field_text(&fields[at], true);
            self.field(label, value);
            at = at + 1;
        }
        assert(fields@.take(at as int) =~= fields@);
    }

    fn group(
        &mut self,
        title: &str,
        section: SectionId,
        depth: u8,
        labels: &Vec<&'static str>,
        fields: &Vec<ReportedField>,
    )
        requires
            depth < 255,
            labels@.len() == fields@.len(),
        ensures
            final(self)@ == old(self)@.group(title@, section, depth, titles(labels@), fields@),
    {
        let before: u8 = self.field_depth;
        if self.section(title.to_owned(), section, false, depth) {
            self.fields(labels, fields);
            self.leave(before);
        }
    }

    fn audio(&mut self, report: &Report)
        requires
            report.wf(),
        ensures
            final(self)@ == old(self)@.audio(*report),
    {
        let before: u8 = self.field_depth;
        if self.section("Audio".to_owned(), SectionId::Audio, true, 0) {
            self.field("Codec".to_owned(), report.codec.clone());
            self.field("Source".to_owned(), source_kind_text(report.source_kind).to_owned());
            let labels = audio_labels();
            assert(titles(labels@).len() == labels@.len());
            self.fields(&labels, &report.audio);
            self.field("Frames".to_owned(), decimal_text(report.frame_count));
            self.leave(before);
        }
    }

    fn presentation(&mut self, presentation: &Presentation)
        requires
            presentation.wf(),
        ensures
            final(self)@ == old(self)@.presentation(*presentation),
    {
        let before: u8 = self.field_depth;
        let index: u32 = presentation.index;
        let mut title = "Presentation ".to_owned();
        push_decimal(&mut title, index as u64);
        if self.section(title, SectionId::Presentation(index), true, 0) {
            let labels = presentation_labels();
            assert(titles(labels@).len() == labels@.len());
            self.fields(&labels, &presentation.fields);
            let loudness = loudness_labels();
            assert(titles(loudness@).len() == loudness@.len());
            self.group(
                "Loudness",
                SectionId::Loudness(index),
                1,
                &loudness,
                &presentation.loudness,
            );
            let drc = drc_labels();
            assert(titles(drc@).len() == drc@.len());
            self.group(
                "Dynamic range control",
                SectionId::Drc(index),
                1,
                &drc,
                &presentation.drc,
            );
            let mixing = mixing_labels();
            assert(titles(mixing@).len() == mixing@.len());
            self.group(
                "Mixing metadata",
                SectionId::Mixing(index),
                1,
                &mixing,
                &presentation.mixing,
            );
            let downmix = downmix_labels();
            assert(titles(downmix@).len() == downmix@.len());
            self.group(
                "Downmix",
                SectionId::Downmix(index),
                1,
                &downmix,
                &presentation.downmix,
            );
            self.leave(before);
        }
    }

    fn substream(&mut self, substream: &Substream)
        requires
            substream.wf(),
        ensures
            final(self)@ == old(self)@.substream(*substream),
    {
        let before: u8 = self.field_depth;
        let index: u32 = substream.index;
        let mut title = "Substream ".to_owned();
        push_decimal(&mut title, index as u64);
        if self.section(title, SectionId::Substream(index), false, 0) {
            let labels = substream_labels();
            assert(titles(labels@).len() == labels@.len());
            self.fields(&labels, &substream.fields);
            let preprocessing = preprocessing_labels();
            assert(titles(preprocessing@).len() == preprocessing@.len());
            self.group(
                "Preprocessing",
                SectionId::Preprocessing(index),
                1,
                &preprocessing,
                &substream.preprocessing,
            );
            let dialogue = dialogue_labels();
            assert(titles(dialogue@).len() == dialogue@.len());
            self.group(
                "Dialogue Enhancement",
                SectionId::Dialogue(index),
                1,
                &dialogue,
                &substream.dialogue,
            );
            self.leave(before);
        }
    }

    fn issue(&mut self, issue: &Issue)
        ensures
            final(self)@ == old(self)@.issue(*issue),
    {
        let mut label = issue.severity.clone();
        label.append(" · ");
        label.append(issue.code.as_str());
        self.field(label, issue.message.clone());
        let context = issue_context(
            issue.frame_index,
            issue.presentation_id,
            issue.substream_index,
        );
        if context.as_str().unicode_len() != 0 {
            self.field("Context".to_owned(), context);
        }
    }

    fn issues(&mut self, issues: &Vec<Issue>)
        ensures
            final(self)@ == old(self)@.issues(issues@),
    {
        let before: u8 = self.field_depth;
        let mut title = "Issues (".to_owned();
        push_decimal(&mut title, issues.len() as u64);
        title.append(")");
        if self.section(title, SectionId::Issues, issues.len() > 0, 0) {
            if issues.len() == 0 {
                self.field("Status".to_owned(), "None".to_owned());
            } else {
                let ghost opened = self@;
                let mut at: usize = 0;
                while at < issues.len()
                    invariant
                        at <= issues.len(),
                        self@ == opened.issue_list(issues@.take(at as int)),
                    decreases issues.len() - at,
                {
                    proof {
                        let so_far = issues@.take(at + 1);
                        assert(so_far.last() == issues@[at as int]);
                        assert(so_far.drop_last() =~= issues@.take(at as int));
                    }
                    self.issue(&issues[at]);
                    at = at + 1;
                }
                assert(issues@.take(at as int) =~= issues@);
            }
            self.leave(before);
        }
    }
}

/// The rows of the table of details.
pub fn collect_report_rows(report: &Report, disclosures: Vec<Disclosure>) -> (r: Vec<
    DetailTableRow,
>)
    requires
        report.wf(),
    ensures
        r@.map_values(|row: DetailTableRow| row_model(row)) == (TableModel {
            disclosures: disclosures@,
            rows: Seq::empty(),
            field_depth: 0,
            alternate: false,
        }).report(*report).rows,
{
    let mut table = DetailTable::new(disclosures);
    table.audio(report);
    let ghost before = table@;
    let mut at: usize = 0;
    while at < report.presentations.len()
        invariant
            at <= report.presentations.len(),
            report.wf(),
            table@ == before.presentations(report.presentations@.take(at as int)),
        decreases report.presentations.len() - at,
    {
        proof {
            let so_far = report.presentations@.take(at + 1);
            assert(so_far.last() == report.presentations@[at as int]);
            assert(so_far.drop_last() =~= report.presentations@.take(at as int));
            assert(report.presentations@[at as int].wf());
        }
        table.presentation(&report.presentations[at]);
        at = at + 1;
    }
    assert(report.presentations@.take(at as int) =~= report.presentations@);
    let ghost before = table@;
    let mut next: usize = 0;
    while next < report.substreams.len()
        invariant
            next <= report.substreams.len(),
            report.wf(),
            table@ == before.substreams(report.substreams@.take(next as int)),
        decreases report.substreams.len() - next,
    {
        proof {
            let so_far = report.substreams@.take(next + 1);
            assert(so_far.last() == report.substreams@[next as int]);
            assert(so_far.drop_last() =~= report.substreams@.take(next as int));
            assert(report.substreams@[next as int].wf());
        }
        table.substream(&report.substreams[next]);
        next = next + 1;
    }
    assert(report.substreams@.take(next as int) =~= report.substreams@);
    table.issues(&report.issues);
    table.rows
}

/// Only the main role and a configuration of a single group are hidden: a
/// summary without either reads as it is.
pub proof fn nothing_else_is_hidden(s: Seq<char>)
    requires
        last_opening(s, s.len() as int) < 0,
        !ends_with(s, " main"@),
    ensures
        compact(s) == s,
{
}

/// The fields that the card shows stand where their titles say.
pub proof fn the_card_shows_the_fields_of_these_titles()
    ensures
        audio_titles()[BIT_RATE as int] == "Bit rate"@,
        audio_titles()[ESTIMATED_BIT_RATE as int] == "Estimated average bit rate"@,
        presentation_titles()[SUMMARY as int] == "Summary"@,
        presentation_titles()[COMPATIBILITY as int] == "Minimal compatibility level"@,
        loudness_titles()[LOUDNESS as int] == "Loudness"@,
        loudness_titles()[TRUE_PEAK as int] == "Maximum true peak"@,
        substream_titles()[OBJECT_CODED as int] == "Object coded"@,
        audio_titles().len() == 13,
        presentation_titles().len() == 10,
        loudness_titles().len() == 10,
        drc_titles().len() == 5,
        mixing_titles().len() == 3,
        downmix_titles().len() == 7,
        substream_titles().len() == 5,
        preprocessing_titles().len() == 17,
        dialogue_titles().len() == 4,
{
}

/// The bit rate that the stream declares is shown, and the estimated one where it declares
/// none. Objects are coded where a substream says so.
pub proof fn a_declared_bit_rate_is_shown_first(report: Report, i: int)
    requires
        report.wf(),
    ensures
        report.audio@[2].status is Present ==> report.bit_rate_field() == report.audio@[2],
        !(report.audio@[2].status is Present) ==> report.bit_rate_field() == report.audio@[3],
        0 <= i < report.substreams@.len() && report.substreams@[i].fields@[3].status is Present
            && report.substreams@[i].fields@[3].value == Some(FieldValue::Bool(true))
            ==> report.has_objects(),
        report.has_objects() ==> report.substreams@.len() > 0,
{
    if 0 <= i < report.substreams@.len() && report.substreams@[i].fields@[3].status is Present
        && report.substreams@[i].fields@[3].value == Some(FieldValue::Bool(true)) {
        assert(report.substreams@[i].is_object_coded());
    }
}

/// Two bit rates tell a core layout and two levels an object profile; no other does.
pub proof fn known_rates_and_levels_have_names(number: u64)
    ensures
        core_layout_of(768) == Some("5.1.4 (9.1)"@),
        core_layout_of(1_500) == Some("7.1.4 (11.1)"@),
        number != 768 && number != 1_500 ==> core_layout_of(number) is None,
        profile_of(3) == Some("16 objects (L3)"@),
        profile_of(4) == Some("20 objects (L4)"@),
        number != 3 && number != 4 ==> profile_of(number) is None,
        source_kind_title(SourceKind::Mp4) == "MP4"@,
        source_kind_title(SourceKind::AnnexG) == "Annex G"@,
{
}

proof fn lemma_last_opening(s: Seq<char>, to: int, at: int)
    requires
        0 <= at < to <= s.len(),
        at + 1 < s.len(),
        s[at] == ' ' && s[at + 1] == '(',
        forall|i: int| at < i < to ==> !(#[trigger] s[i] == ' ' && i + 1 < s.len() && s[i + 1] == '('),
    ensures
        last_opening(s, to) == at,
    decreases to,
{
    if to - 1 > at {
        assert(!(s[to - 1] == ' ' && to < s.len() && s[to] == '('));
        lemma_last_opening(s, to - 1, at);
    }
}

/// A description in which a configuration stands in brackets loses the configuration where
/// it says nothing new, and its main role in any case; any other configuration stays.
pub proof fn only_what_says_nothing_new_is_left_out(
    description: Seq<char>,
    configuration: Seq<char>,
)
    requires
        configuration.len() > 0,
        forall|i: int| 0 <= i < configuration.len() ==> #[trigger] configuration[i] != ' ',
    ensures
        ({
            let s = description + " ("@ + configuration + ")"@;
            &&& configuration == "single_group"@ ==> compact(s) == without_main(description)
            &&& configuration != "single_group"@ ==> compact(s) == without_main(description) + " ("@
                + configuration + ")"@
        }),
        without_main(description + " main"@) == description,
        !ends_with(description, " main"@) ==> without_main(description) == description,
{
    reveal_strlit(" (");
    reveal_strlit(")");
    reveal_strlit(" main");
    let s = description + " ("@ + configuration + ")"@;
    let at = description.len() as int;
    assert(s[at] == ' ' && s[at + 1] == '(');
    assert forall|i: int| at < i < s.len() implies !(#[trigger] s[i] == ' ' && i + 1 < s.len()
        && s[i + 1] == '(') by {
        if at + 1 < i < s.len() - 1 {
            assert(s[i] == configuration[i - at - 2]);
        }
    }
    lemma_last_opening(s, s.len() as int, at);
    assert(s.last() == ')');
    assert(s.take(at) =~= description);
    assert(s.subrange(at + 2, s.len() - 1) =~= configuration);
    let main = description + " main"@;
    assert(main.skip(main.len() - 5) =~= " main"@);
    assert(main.take(main.len() - 5) =~= description);
}

/// What was disclosed last of a section counts, and its default where nothing was.
pub proof fn what_was_disclosed_last_counts(
    disclosures: Seq<Disclosure>,
    section: SectionId,
    other: SectionId,
    open: bool,
    default_open: bool,
)
    ensures
        is_open(disclosures.push((Disclosure { section, open })), section, default_open) == open,
        other != section ==> is_open(
            disclosures.push((Disclosure { section, open })),
            other,
            default_open,
        ) == is_open(disclosures, other, default_open),
        is_open(Seq::empty(), section, default_open) == default_open,
{
    assert(disclosures.push((Disclosure { section, open })).drop_last() =~= disclosures);
}

/// Fields are shown in their order, each under its own title with what was reported of it;
/// every other row is shaded.
pub proof fn fields_are_shown_under_their_titles(
    table: TableModel,
    labels: Seq<Seq<char>>,
    fields: Seq<ReportedField>,
    i: int,
)
    requires
        0 <= i < fields.len(),
    ensures
        ({
            let next = table.fields(labels, fields);
            let row = next.rows[table.rows.len() + i];
            &&& next.rows.len() == table.rows.len() + fields.len()
            &&& next.rows.take(table.rows.len() as int) == table.rows
            &&& row is Field
            &&& row->label == labels[i]
            &&& row->value == fields[i].full_text(true)
            &&& row->Field_depth == table.field_depth
            &&& row->alternate == (table.alternate == (i % 2 == 0))
            &&& next.alternate == (table.alternate == (fields.len() % 2 == 0))
            &&& next.disclosures == table.disclosures
            &&& next.field_depth == table.field_depth
        }),
    decreases fields.len(),
{
    let front = fields.drop_last();
    if front.len() > 0 {
        fields_are_shown_under_their_titles(
            table,
            labels,
            front,
            if i < front.len() {
                i
            } else {
                0
            },
        );
    }
    let before = table.fields(labels, front);
    let next = table.fields(labels, fields);
    assert(next.rows == before.rows.push(next.rows.last()));
    assert(before.rows.take(table.rows.len() as int) =~= table.rows);
    assert(next.rows.take(table.rows.len() as int) =~= table.rows);
    if i < front.len() {
        assert(next.rows[table.rows.len() + i] == before.rows[table.rows.len() + i]);
        assert(front[i] == fields[i]);
    }
}

/// A section is one row, which says whether it is open; what is in it stands one step
/// further in. A group that is closed shows nothing more.
pub proof fn a_closed_section_shows_nothing_more(
    table: TableModel,
    title: Seq<char>,
    section: SectionId,
    depth: u8,
    labels: Seq<Seq<char>>,
    fields: Seq<ReportedField>,
)
    requires
        depth < 255,
        fields.len() > 0,
    ensures
        ({
            let open = is_open(table.disclosures, section, false);
            let next = table.group(title, section, depth, labels, fields);
            let at = table.rows.len() as int;
            let row = next.rows[at];
            let first = next.rows[at + 1];
            &&& row is Section
            &&& row->title == title
            &&& row->section == section
            &&& row->open == open
            &&& row->Section_depth == depth
            &&& !open ==> next.rows.len() == table.rows.len() + 1
            &&& open ==> next.rows.len() == table.rows.len() + 1 + fields.len()
            &&& open ==> first is Field && first->Field_depth == depth + 1 && first->label
                == labels[0]
            &&& next.field_depth == table.field_depth
            &&& next.disclosures == table.disclosures
        }),
{
    let opened = table.section(title, section, false, depth);
    fields_are_shown_under_their_titles(opened, labels, fields, 0);
    let next = table.group(title, section, depth, labels, fields);
    if is_open(table.disclosures, section, false) {
        assert(next.rows.take(opened.rows.len() as int)[table.rows.len() as int]
            == opened.rows[table.rows.len() as int]);
    }
}

/// An issue tells its severity, its code and its message, and where it was found as far as
/// that is known.
pub proof fn an_issue_tells_where_it_was_found(table: TableModel, issue: Issue)
    ensures
        ({
            let next = table.issue(issue);
            let row = next.rows[table.rows.len() as int];
            &&& row is Field
            &&& row->label == issue.severity@ + " · "@ + issue.code@
            &&& row->value == issue.message@
            &&& issue.frame_index is None && issue.presentation_id is None
                && issue.substream_index is None ==> next.rows.len() == table.rows.len() + 1
            &&& issue.frame_index is Some && issue.presentation_id is None
                && issue.substream_index is None ==> next.rows.len() == table.rows.len() + 2
                && next.rows.last()->value == "frame "@ + decimal(issue.frame_index->0 as nat)
        }),
{
    reveal_with_fuel(joined, 2);
    reveal_strlit("frame ");
    let frame = part_text(
        "frame "@,
        match issue.frame_index {
            Some(frame) => Some(frame as nat),
            None => None,
        },
    );
    let presentation = part_text("presentation "@, natural(issue.presentation_id));
    let substream = part_text("substream "@, natural(issue.substream_index));
    if issue.presentation_id is None && issue.substream_index is None {
        assert(frame + presentation + substream =~= frame);
    }
}

/// A place is told by its parts in order: frame, presentation, substream.
pub proof fn a_place_is_told_by_its_parts(frame: u64, presentation: u32, substream: u32)
    ensures
        context_text(Some(frame), Some(presentation), None) == "frame "@ + decimal(frame as nat)
            + " · "@ + ("presentation "@ + decimal(presentation as nat)),
        context_text(None, Some(presentation), None) == "presentation "@ + decimal(
            presentation as nat,
        ),
        context_text(None, None, Some(substream)) == "substream "@ + decimal(substream as nat),
        context_text(None, Some(presentation), Some(substream)) == "presentation "@ + decimal(
            presentation as nat,
        ) + " · "@ + ("substream "@ + decimal(substream as nat)),
        context_text(None, None, None).len() == 0,
{
    reveal_with_fuel(joined, 3);
    let f = "frame "@ + decimal(frame as nat);
    let p = "presentation "@ + decimal(presentation as nat);
    let s = "substream "@ + decimal(substream as nat);
    let none = Seq::<Seq<char>>::empty();
    assert(seq![f] + seq![p] + none =~= seq![f, p]);
    assert(none + seq![p] + none =~= seq![p]);
    assert(none + none + seq![s] =~= seq![s]);
    assert(none + seq![p] + seq![s] =~= seq![p, s]);
    assert(none + none + none =~= none);
    assert(seq![f, p].drop_last() =~= seq![f]);
    assert(seq![p, s].drop_last() =~= seq![p]);
}

/// Each field of a table stands under its own title.
pub proof fn each_field_has_its_title()
    ensures
        audio_titles()[0] == "Track index"@,
        audio_titles()[1] == "Duration"@,
        audio_titles()[2] == "Bit rate"@,
        audio_titles()[3] == "Estimated average bit rate"@,
        audio_titles()[4] == "Bitstream version"@,
        audio_titles()[5] == "Frame rate"@,
        audio_titles()[6] == "Sample rate"@,
        audio_titles()[7] == "I-frame"@,
        audio_titles()[8] == "I-frame interval"@,
        audio_titles()[9] == "Sync word"@,
        audio_titles()[10] == "CRC errors"@,
        audio_titles()[11] == "Number of presentations"@,
        audio_titles()[12] == "Number of audio substreams"@,
        presentation_titles()[0] == "Presentation ID"@,
        presentation_titles()[1] == "Summary"@,
        presentation_titles()[2] == "Type"@,
        presentation_titles()[3] == "Minimal compatibility level"@,
        presentation_titles()[4] == "Dialogue normalization"@,
        presentation_titles()[5] == "Language"@,
        presentation_titles()[6] == "Multi-PID"@,
        presentation_titles()[7] == "Bit rate"@,
        presentation_titles()[8] == "Audio substreams"@,
        presentation_titles()[9] == "Metadata authentication ID"@,
        loudness_titles()[0] == "Loudness"@,
        loudness_titles()[1] == "Version"@,
        loudness_titles()[2] == "Regulation type"@,
        loudness_titles()[3] == "Correction type"@,
        loudness_titles()[4] == "Dialogue Intelligence"@,
        loudness_titles()[5] == "Integrated loudness (speech-gated)"@,
        loudness_titles()[6] == "Integrated loudness (level-gated)"@,
        loudness_titles()[7] == "Maximum true peak"@,
        loudness_titles()[8] == "Maximum momentary loudness"@,
        loudness_titles()[9] == "Loudness range"@,
        drc_titles()[0] == "Enhanced AC-3 profile"@,
        drc_titles()[1] == "Home theater AVR"@,
        drc_titles()[2] == "Flat-panel TV"@,
        drc_titles()[3] == "Portable speakers"@,
        drc_titles()[4] == "Portable headphones"@,
        mixing_titles()[0] == "Main audio ducking level"@,
        mixing_titles()[1] == "Main audio ducking level, Center"@,
        mixing_titles()[2] == "Main audio ducking level, Front"@,
        downmix_titles()[0] == "Lo/Ro Center mix gain"@,
        downmix_titles()[1] == "Lo/Ro Surround mix gain"@,
        downmix_titles()[2] == "Lt/Rt Center mix gain"@,
        downmix_titles()[3] == "Lt/Rt Surround mix gain"@,
        downmix_titles()[4] == "LFE mix info"@,
        downmix_titles()[5] == "LFE mix gain"@,
        downmix_titles()[6] == "Preferred downmix"@,
        substream_titles()[0] == "Summary"@,
        substream_titles()[1] == "Channel configuration"@,
        substream_titles()[2] == "Channel layout"@,
        substream_titles()[3] == "Object coded"@,
        substream_titles()[4] == "Bit rate"@,
        preprocessing_titles()[0] == "Previous mix type 2-channel"@,
        preprocessing_titles()[1] == "Phase 90 filter info 2-channel"@,
        preprocessing_titles()[2] == "Lo/Ro Center mix gain"@,
        preprocessing_titles()[3] == "Lo/Ro Surround mix gain"@,
        preprocessing_titles()[4] == "Lo/Ro downmix loudness correction"@,
        preprocessing_titles()[5] == "Lt/Rt Center mix gain"@,
        preprocessing_titles()[6] == "Lt/Rt Surround mix gain"@,
        preprocessing_titles()[7] == "Lt/Rt downmix loudness correction"@,
        preprocessing_titles()[8] == "LFE mix gain"@,
        preprocessing_titles()[9] == "Preferred downmix"@,
        preprocessing_titles()[10] == "Previous downmix type 5-channel"@,
        preprocessing_titles()[11] == "Previous upmix type 5-channel"@,
        preprocessing_titles()[12] == "Previous upmix type 3/4"@,
        preprocessing_titles()[13] == "Previous upmix type 3/2/2"@,
        preprocessing_titles()[14] == "Phase 90 filter info"@,
        preprocessing_titles()[15] == "Surround attenuation known"@,
        preprocessing_titles()[16] == "LFE attenuation known"@,
        dialogue_titles()[0] == "Enabled"@,
        dialogue_titles()[1] == "Method"@,
        dialogue_titles()[2] == "Max gain"@,
        dialogue_titles()[3] == "Channel configuration"@,
{
}

/// A known core or profile is noted behind what it belongs to, and only where objects are
/// coded.
pub proof fn what_is_known_of_objects_is_noted(report: Report, r: String, content: String)
    requires
        report.wf(),
        call_ensures(bit_rate_and_core_text, (&report,), r),
        call_ensures(content_summary_text, (&report,), content),
    ensures
        !report.has_objects() ==> r@ == report.bit_rate_field().summary_text(),
        report.has_objects() && whole(report.bit_rate_field()) == Some(768u64) ==> r@
            == report.bit_rate_field().summary_text() + " · "@ + "5.1.4 (9.1)"@,
        report.has_objects() && whole(report.bit_rate_field()) == Some(1_500u64) ==> r@
            == report.bit_rate_field().summary_text() + " · "@ + "7.1.4 (11.1)"@,
        report.presentations@.len() == 0 ==> content@ == "Not present"@,
        report.presentations@.len() > 0 && !report.has_objects() ==> content@ == compact(
            report.presentations@[0].fields@[1].summary_text(),
        ),
        report.presentations@.len() > 0 && report.has_objects() && whole(
            report.presentations@[0].fields@[3],
        ) == Some(3u64) ==> content@ == compact(report.presentations@[0].fields@[1].summary_text())
            + " · "@ + "16 objects (L3)"@,
        report.presentations@.len() > 0 && report.has_objects() && whole(
            report.presentations@[0].fields@[3],
        ) == Some(4u64) ==> content@ == compact(report.presentations@[0].fields@[1].summary_text())
            + " · "@ + "20 objects (L4)"@,
{
}

/// The issues stand under their number, in a section that is open by itself only where there
/// are any; one that is opened without any says so.
pub proof fn the_issues_are_counted(table: TableModel, issues: Seq<Issue>)
    requires
        table.disclosures.len() == 0,
    ensures
        ({
            let next = table.issues(issues);
            let row = next.rows[table.rows.len() as int];
            &&& row is Section
            &&& row->title == "Issues ("@ + decimal(issues.len()) + ")"@
            &&& row->section is Issues
            &&& row->Section_depth == 0
            &&& row->open <==> issues.len() > 0
            &&& issues.len() == 0 ==> next.rows.len() == table.rows.len() + 1
            &&& issues.len() > 0 ==> next.rows.len() > table.rows.len() + issues.len()
            &&& next.field_depth == table.field_depth
        }),
{
    let opened = table.section(
        "Issues ("@ + decimal(issues.len()) + ")"@,
        SectionId::Issues,
        issues.len() > 0,
        0,
    );
    lemma_issue_rows(opened, issues);
    let at = table.rows.len() as int;
    assert(opened.rows.len() == at + 1);
    assert(opened.issue_list(issues).rows.take(at + 1)[at] == opened.rows[at]);
}

proof fn lemma_issue_rows(table: TableModel, issues: Seq<Issue>)
    ensures
        table.issue_list(issues).rows.len() >= table.rows.len() + issues.len(),
        table.issue_list(issues).rows.take(table.rows.len() as int) == table.rows,
    decreases issues.len(),
{
    if issues.len() > 0 {
        let before = table.issue_list(issues.drop_last());
        lemma_issue_rows(table, issues.drop_last());
        let after = before.issue(issues.last());
        assert(after.rows.len() > before.rows.len());
        assert forall|i: int| 0 <= i < table.rows.len() implies after.rows[i]
            == table.rows[i] by {
            assert(before.rows.take(table.rows.len() as int)[i] == table.rows[i]);
            assert(after.rows[i] == before.rows[i]);
        }
        assert(after.rows.take(table.rows.len() as int) =~= table.rows);
    } else {
        assert(table.rows.take(table.rows.len() as int) =~= table.rows);
    }
}

} // verus!
