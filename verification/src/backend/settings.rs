//! What the listener asks of the output.
use super::output::{OutputDeviceSelection, Platform, SpatialBackendKind};
use crate::head_tracking::HeadSource;
use crate::hptf_profile::Adjustment;
use crate::numeric::{equal, finite, is_finite, same_value};
use crate::text::contains_char;
use vstd::prelude::*;
use vstd::string::*;

verus! {

#[derive(Debug, Clone, Copy, PartialEq, Eq, Structural)]
pub enum SpeakerLayout {
    SevenOneFour,
    NineOneSix,
    TwentyTwoTwo,
}

impl Default for SpeakerLayout {
    fn default() -> (r: Self)
        ensures
            r == SpeakerLayout::SevenOneFour,
    {
        SpeakerLayout::SevenOneFour
    }
}

impl SpeakerLayout {
    pub const ALL: [SpeakerLayout; 3] = [
        SpeakerLayout::SevenOneFour,
        SpeakerLayout::NineOneSix,
        SpeakerLayout::TwentyTwoTwo,
    ];

    pub open spec fn title(self) -> Seq<char> {
        match self {
            SpeakerLayout::SevenOneFour => "7.1.4"@,
            SpeakerLayout::NineOneSix => "9.1.6"@,
            SpeakerLayout::TwentyTwoTwo => "22.2"@,
        }
    }

    pub fn label(self) -> (r: &'static str)
        ensures
            r@ == self.title(),
    {
        match self {
            SpeakerLayout::SevenOneFour => "7.1.4",
            SpeakerLayout::NineOneSix => "9.1.6",
            SpeakerLayout::TwentyTwoTwo => "22.2",
        }
    }

    pub open spec fn core_name(self) -> Seq<char> {
        match self {
            SpeakerLayout::SevenOneFour => "4+7+0"@,
            SpeakerLayout::NineOneSix => "9.1.6"@,
            SpeakerLayout::TwentyTwoTwo => "9+10+3"@,
        }
    }

    /// The renderer's name for the layout.
    pub fn core_id(self) -> (r: &'static str)
        ensures
            r@ == self.core_name(),
    {
        match self {
            SpeakerLayout::SevenOneFour => "4+7+0",
            SpeakerLayout::NineOneSix => "9.1.6",
            SpeakerLayout::TwentyTwoTwo => "9+10+3",
        }
    }

    pub open spec fn budget(self) -> u32 {
        match self {
            SpeakerLayout::SevenOneFour => 0,
            SpeakerLayout::NineOneSix => 4,
            SpeakerLayout::TwentyTwoTwo => 11,
        }
    }

    /// How many dynamic objects the layout needs beside the system's own bed.
    pub fn dynamic_budget(self) -> (r: u32)
        ensures
            r == self.budget(),
    {
        match self {
            SpeakerLayout::SevenOneFour => 0,
            SpeakerLayout::NineOneSix => 4,
            SpeakerLayout::TwentyTwoTwo => 11,
        }
    }
}

/// The two knobs on top of a headphone profile are single-precision patterns.
#[derive(Debug)]
pub struct OutputSettings {
    pub mode: SpatialBackendKind,
    pub layout: SpeakerLayout,
    pub split_lfe: bool,
    pub atmos_label_assist: bool,
    pub sofa: String,
    /// The headphone profile; empty is off.
    pub hptf: String,
    pub hptf_auto_trim: bool,
    pub hptf_bass_db: u32,
    pub hptf_tilt_db: u32,
    pub native_device: OutputDeviceSelection,
    pub stereo_device: OutputDeviceSelection,
    pub head_source: HeadSource,
}

/// Settings with their texts by characters.
#[verifier::ext_equal]
pub struct SettingsModel {
    pub mode: SpatialBackendKind,
    pub layout: SpeakerLayout,
    pub split_lfe: bool,
    pub atmos_label_assist: bool,
    pub sofa: Seq<char>,
    pub hptf: Seq<char>,
    pub hptf_auto_trim: bool,
    pub hptf_bass_db: u32,
    pub hptf_tilt_db: u32,
    pub native_device: Option<Seq<char>>,
    pub stereo_device: Option<Seq<char>>,
    pub head_source: HeadSource,
}

impl View for OutputSettings {
    type V = SettingsModel;

    open spec fn view(&self) -> SettingsModel {
        SettingsModel {
            mode: self.mode,
            layout: self.layout,
            split_lfe: self.split_lfe,
            atmos_label_assist: self.atmos_label_assist,
            sofa: self.sofa@,
            hptf: self.hptf@,
            hptf_auto_trim: self.hptf_auto_trim,
            hptf_bass_db: self.hptf_bass_db,
            hptf_tilt_db: self.hptf_tilt_db,
            native_device: self.native_device.endpoint(),
            stereo_device: self.stereo_device.endpoint(),
            head_source: self.head_source,
        }
    }
}

/// What the renderer is set to.
#[derive(Debug)]
pub struct RendererSettings {
    pub binaural: bool,
    pub layout: String,
    pub sofa: String,
    pub split_lfe: bool,
}

#[verifier::ext_equal]
pub struct RendererModel {
    pub binaural: bool,
    pub layout: Seq<char>,
    pub sofa: Seq<char>,
    pub split_lfe: bool,
}

impl View for RendererSettings {
    type V = RendererModel;

    open spec fn view(&self) -> RendererModel {
        RendererModel {
            binaural: self.binaural,
            layout: self.layout@,
            sofa: self.sofa@,
            split_lfe: self.split_lfe,
        }
    }
}

impl RendererSettings {
    pub fn same(&self, other: &RendererSettings) -> (r: bool)
        ensures
            r == (self@ == other@),
    {
        self.binaural == other.binaural && self.layout == other.layout && self.sofa == other.sofa
            && self.split_lfe == other.split_lfe
    }
}

/// The headphone compensation that the renderer is asked for.
#[derive(Debug)]
pub struct HptfSettings {
    pub profile: String,
    pub auto_trim: bool,
}

/// One request for headphone compensation: a profile and the knobs on top.
#[derive(Debug)]
pub struct HptfRequest {
    pub settings: HptfSettings,
    pub adjustment: Adjustment,
}

#[verifier::ext_equal]
pub struct HptfModel {
    pub profile: Seq<char>,
    pub auto_trim: bool,
    pub adjustment: Adjustment,
}

impl View for HptfRequest {
    type V = HptfModel;

    open spec fn view(&self) -> HptfModel {
        HptfModel {
            profile: self.settings.profile@,
            auto_trim: self.settings.auto_trim,
            adjustment: self.adjustment,
        }
    }
}

/// Both add the same on top of a profile.
pub open spec fn adjusts_alike(a: Adjustment, b: Adjustment) -> bool {
    same_value(a.bass_db, b.bass_db) && same_value(a.tilt_db_per_octave, b.tilt_db_per_octave)
}

impl HptfModel {
    /// Both ask for the same compensation.
    pub open spec fn asks(self, other: HptfModel) -> bool {
        &&& self.profile == other.profile
        &&& self.auto_trim == other.auto_trim
        &&& adjusts_alike(self.adjustment, other.adjustment)
    }
}

impl HptfRequest {
    pub fn same(&self, other: &HptfRequest) -> (r: bool)
        ensures
            r == self@.asks(other@),
    {
        self.settings.profile == other.settings.profile && self.settings.auto_trim
            == other.settings.auto_trim && equal(self.adjustment.bass_db, other.adjustment.bass_db)
            && equal(self.adjustment.tilt_db_per_octave, other.adjustment.tilt_db_per_octave)
    }

    pub fn dup(&self) -> (r: HptfRequest)
        ensures
            r == *self,
    {
        HptfRequest {
            settings: HptfSettings {
                profile: self.settings.profile.clone(),
                auto_trim: self.settings.auto_trim,
            },
            adjustment: self.adjustment,
        }
    }
}

/// A device whose identity a stored file can be trusted with.
pub open spec fn sound_device(device: Option<Seq<char>>) -> Option<Seq<char>> {
    match device {
        Some(id) => if id.len() == 0 || id.contains('\0') {
            None
        } else {
            Some(id)
        },
        None => None,
    }
}

pub open spec fn sound_text(text: Seq<char>) -> Seq<char> {
    if text.contains('\0') {
        Seq::empty()
    } else {
        text
    }
}

pub open spec fn sound_knob(bits: u32) -> u32 {
    if is_finite(bits) {
        bits
    } else {
        0
    }
}

impl SettingsModel {
    pub open spec fn resolved(self, platform: Platform) -> SpatialBackendKind {
        self.mode.resolves_to(platform)
    }

    /// The settings with everything replaced that this platform cannot use.
    pub open spec fn repaired(self, platform: Platform) -> SettingsModel {
        SettingsModel {
            mode: if self.mode.runs_on(platform) {
                self.mode
            } else {
                SpatialBackendKind::Automatic
            },
            sofa: sound_text(self.sofa),
            hptf: sound_text(self.hptf),
            hptf_bass_db: sound_knob(self.hptf_bass_db),
            hptf_tilt_db: sound_knob(self.hptf_tilt_db),
            head_source: if self.head_source == HeadSource::AirPods && !platform.macos {
                HeadSource::Manual
            } else {
                self.head_source
            },
            native_device: sound_device(self.native_device),
            stereo_device: sound_device(self.stereo_device),
            ..self
        }
    }

    /// Going from one to the other takes another output.
    pub open spec fn rebuilds(self, other: SettingsModel, platform: Platform) -> bool {
        ||| self.resolved(platform) != other.resolved(platform)
        ||| self.resolved(platform) == SpatialBackendKind::SystemSpatial && self.layout
            != other.layout
        ||| self.native_device != other.native_device
        ||| self.stereo_device != other.stereo_device
    }

    /// The player forms the headphone feed itself, so it can be compensated.
    pub open spec fn compensates(self, platform: Platform) -> bool {
        self.resolved(platform) == SpatialBackendKind::SafBinaural
    }

    pub open spec fn renderer(self, platform: Platform) -> RendererModel {
        RendererModel {
            binaural: self.compensates(platform),
            layout: self.layout.core_name(),
            sofa: if self.compensates(platform) {
                self.sofa
            } else {
                Seq::empty()
            },
            split_lfe: self.split_lfe,
        }
    }

    pub open spec fn adjustment(self, platform: Platform) -> Adjustment {
        if !self.compensates(platform) || self.hptf.len() == 0 {
            Adjustment { bass_db: 0, tilt_db_per_octave: 0 }
        } else {
            Adjustment {
                bass_db: self.hptf_bass_db,
                tilt_db_per_octave: self.hptf_tilt_db,
            }.within_travel()
        }
    }

    /// The compensation that these settings ask for.
    pub open spec fn compensation(self, platform: Platform) -> HptfModel {
        HptfModel {
            profile: if self.compensates(platform) {
                self.hptf
            } else {
                Seq::empty()
            },
            auto_trim: self.hptf_auto_trim,
            adjustment: self.adjustment(platform),
        }
    }

    /// The system's content label applies to this output.
    pub open spec fn labels(self, platform: Platform) -> bool {
        self.resolved(platform) == SpatialBackendKind::SystemSpatial && self.layout
            == SpeakerLayout::SevenOneFour
    }

    pub open spec fn fresh() -> SettingsModel {
        SettingsModel {
            mode: SpatialBackendKind::Automatic,
            layout: SpeakerLayout::SevenOneFour,
            split_lfe: true,
            atmos_label_assist: true,
            sofa: Seq::empty(),
            hptf: Seq::empty(),
            hptf_auto_trim: false,
            hptf_bass_db: 0,
            hptf_tilt_db: 0,
            native_device: None,
            stereo_device: None,
            head_source: HeadSource::Automatic,
        }
    }
}

impl Default for OutputSettings {
    fn default() -> (r: Self)
        ensures
            r@ == SettingsModel::fresh(),
    {
        let r = OutputSettings {
            mode: SpatialBackendKind::Automatic,
            layout: SpeakerLayout::SevenOneFour,
            split_lfe: true,
            atmos_label_assist: true,
            sofa: String::new(),
            hptf: String::new(),
            hptf_auto_trim: false,
            hptf_bass_db: 0,
            hptf_tilt_db: 0,
            native_device: OutputDeviceSelection::SystemDefault,
            stereo_device: OutputDeviceSelection::SystemDefault,
            head_source: HeadSource::Automatic,
        };
        assert(r@ =~= SettingsModel::fresh());
        r
    }
}

fn sound(text: String) -> (r: String)
    ensures
        r@ == sound_text(text@),
{
    if contains_char(text.as_str(), '\0') {
        String::new()
    } else {
        text
    }
}

fn sound_selection(device: OutputDeviceSelection) -> (r: OutputDeviceSelection)
    ensures
        r.endpoint() == sound_device(device.endpoint()),
{
    match device {
        OutputDeviceSelection::EndpointId(id) => if id.as_str().unicode_len() == 0
            || contains_char(id.as_str(), '\0') {
            OutputDeviceSelection::SystemDefault
        } else {
            OutputDeviceSelection::EndpointId(id)
        },
        OutputDeviceSelection::SystemDefault => OutputDeviceSelection::SystemDefault,
    }
}

impl OutputSettings {
    pub fn dup(&self) -> (r: Self)
        ensures
            r == *self,
    {
        OutputSettings {
            mode: self.mode,
            layout: self.layout,
            split_lfe: self.split_lfe,
            atmos_label_assist: self.atmos_label_assist,
            sofa: self.sofa.clone(),
            hptf: self.hptf.clone(),
            hptf_auto_trim: self.hptf_auto_trim,
            hptf_bass_db: self.hptf_bass_db,
            hptf_tilt_db: self.hptf_tilt_db,
            native_device: self.native_device.dup(),
            stereo_device: self.stereo_device.dup(),
            head_source: self.head_source,
        }
    }

    pub fn atmos_label_applicable(&self, platform: Platform) -> (r: bool)
        ensures
            r == self@.labels(platform),
    {
        self.mode.resolved(platform) == SpatialBackendKind::SystemSpatial && self.layout
            == SpeakerLayout::SevenOneFour
    }

    /// Headphone compensation applies to the feed that the player renders
    /// itself, and to no other.
    pub fn hptf_applicable(&self, platform: Platform) -> (r: bool)
        ensures
            r == self@.compensates(platform),
    {
        self.mode.resolved(platform) == SpatialBackendKind::SafBinaural
    }

    pub fn hptf(&self, platform: Platform) -> (r: HptfSettings)
        ensures
            r.profile@ == self@.compensation(platform).profile,
            r.auto_trim == self@.hptf_auto_trim,
    {
        HptfSettings {
            profile: if self.hptf_applicable(platform) {
                self.hptf.clone()
            } else {
                String::new()
            },
            auto_trim: self.hptf_auto_trim,
        }
    }

    /// The knobs within their travel; at rest where there is nothing to adjust.
    pub fn hptf_adjustment(&self, platform: Platform) -> (r: Adjustment)
        ensures
            r == self@.adjustment(platform),
    {
        if !self.hptf_applicable(platform) || self.hptf.as_str().unicode_len() == 0 {
            return Adjustment::default();
        }
        Adjustment { bass_db: self.hptf_bass_db, tilt_db_per_octave: self.hptf_tilt_db }.clamped()
    }

    /// The whole request for compensation.
    pub fn hptf_request(&self, platform: Platform) -> (r: HptfRequest)
        ensures
            r@ == self@.compensation(platform),
    {
        HptfRequest {
            settings: self.hptf(platform),
            adjustment: self.hptf_adjustment(platform),
        }
    }

    /// Replaces everything that this platform cannot use.
    pub fn validated(self, platform: Platform) -> (r: Self)
        ensures
            r@ == self@.repaired(platform),
    {
        let head_source = if self.head_source == HeadSource::AirPods && !platform.macos {
            HeadSource::Manual
        } else {
            self.head_source
        };
        let mode = if self.mode.supported(platform) {
            self.mode
        } else {
            SpatialBackendKind::Automatic
        };
        let r = OutputSettings {
            mode,
            layout: self.layout,
            split_lfe: self.split_lfe,
            atmos_label_assist: self.atmos_label_assist,
            sofa: sound(self.sofa),
            hptf: sound(self.hptf),
            hptf_auto_trim: self.hptf_auto_trim,
            hptf_bass_db: if finite(self.hptf_bass_db) {
                self.hptf_bass_db
            } else {
                0
            },
            hptf_tilt_db: if finite(self.hptf_tilt_db) {
                self.hptf_tilt_db
            } else {
                0
            },
            native_device: sound_selection(self.native_device),
            stereo_device: sound_selection(self.stereo_device),
            head_source,
        };
        assert(r@ =~= self@.repaired(platform));
        r
    }

    pub fn needs_rebuild(&self, other: &Self, platform: Platform) -> (r: bool)
        ensures
            r == self@.rebuilds(other@, platform),
    {
        let mode = self.mode.resolved(platform);
        mode != other.mode.resolved(platform) || (mode == SpatialBackendKind::SystemSpatial
            && self.layout != other.layout) || !self.native_device.same(&other.native_device)
            || !self.stereo_device.same(&other.stereo_device)
    }

    /// The device that a session is opened on: the stream's own for the feed that
    /// the player renders itself, and the system's choice, which has no name, for
    /// any other.
    pub fn session_device(&self, device: &OutputDeviceSelection, platform: Platform) -> (r: String)
        ensures
            r@ == (match device.endpoint() {
                Some(id) if self@.compensates(platform) => id,
                _ => Seq::empty(),
            }),
    {
        match device {
            OutputDeviceSelection::EndpointId(id) if self.hptf_applicable(platform) => id.clone(),
            _ => String::new(),
        }
    }

    pub fn renderer(&self, platform: Platform) -> (r: RendererSettings)
        ensures
            r@ == self@.renderer(platform),
    {
        let binaural = self.mode.resolved(platform) == SpatialBackendKind::SafBinaural;
        RendererSettings {
            binaural,
            layout: self.layout.core_id().to_owned(),
            sofa: if binaural {
                self.sofa.clone()
            } else {
                String::new()
            },
            split_lfe: self.split_lfe,
        }
    }
}

/// Validated settings are valid: another pass changes nothing.
pub proof fn validating_twice_is_validating_once(settings: SettingsModel, platform: Platform)
    ensures
        settings.repaired(platform).repaired(platform) == settings.repaired(platform),
{
    let once = settings.repaired(platform);
    assert(!Seq::<char>::empty().contains('\0'));
    assert(once.repaired(platform) =~= once);
}

/// What validated settings hold can be used as it stands.
pub proof fn validated_settings_can_be_used(settings: SettingsModel, platform: Platform)
    ensures
        ({
            let valid = settings.repaired(platform);
            &&& valid.mode.runs_on(platform)
            &&& !valid.sofa.contains('\0')
            &&& !valid.hptf.contains('\0')
            &&& is_finite(valid.hptf_bass_db)
            &&& is_finite(valid.hptf_tilt_db)
            &&& valid.head_source == HeadSource::AirPods ==> platform.macos
            &&& valid.native_device is Some ==> valid.native_device->0.len() > 0
                && !valid.native_device->0.contains('\0')
            &&& valid.stereo_device is Some ==> valid.stereo_device->0.len() > 0
                && !valid.stereo_device->0.contains('\0')
        }),
{
    assert(!Seq::<char>::empty().contains('\0'));
}

/// Needing another output is symmetric, and no settings need another output
/// than themselves.
pub proof fn rebuilding_is_symmetric(a: SettingsModel, b: SettingsModel, platform: Platform)
    ensures
        a.rebuilds(b, platform) == b.rebuilds(a, platform),
        !a.rebuilds(a, platform),
{
}

/// A headphone profile, its preamp policy, the knobs, the content label, the
/// HRTF, the routing of the low frequencies and the head source all change
/// without another output.
pub proof fn hot_settings_need_no_rebuild(
    a: SettingsModel,
    b: SettingsModel,
    platform: Platform,
)
    requires
        a.mode == b.mode,
        a.layout == b.layout,
        a.native_device == b.native_device,
        a.stereo_device == b.stereo_device,
    ensures
        !a.rebuilds(b, platform),
{
}

/// Only the feed that the player renders itself can be compensated: on any
/// other output no profile and no knob reaches the renderer.
pub proof fn only_the_own_headphone_feed_is_compensated(
    settings: SettingsModel,
    platform: Platform,
)
    requires
        settings.resolved(platform) != SpatialBackendKind::SafBinaural,
    ensures
        settings.compensation(platform).profile.len() == 0,
        settings.compensation(platform).adjustment == (Adjustment {
            bass_db: 0,
            tilt_db_per_octave: 0,
        }),
{
}

/// Settings that are sound stay as they are. What is repaired is an output that does not
/// run here, a text or a device that no system call would take, a knob that is no number,
/// and a sensor that is not here; each falls back by itself.
pub proof fn only_what_is_unsound_is_repaired(settings: SettingsModel, platform: Platform)
    ensures
        ({
            let valid = settings.repaired(platform);
            &&& settings.mode.runs_on(platform) ==> valid.mode == settings.mode
            &&& !settings.mode.runs_on(platform) ==> valid.mode == SpatialBackendKind::Automatic
            &&& !settings.sofa.contains('\0') ==> valid.sofa == settings.sofa
            &&& settings.sofa.contains('\0') ==> valid.sofa.len() == 0
            &&& !settings.hptf.contains('\0') ==> valid.hptf == settings.hptf
            &&& settings.hptf.contains('\0') ==> valid.hptf.len() == 0
            &&& is_finite(settings.hptf_bass_db) ==> valid.hptf_bass_db == settings.hptf_bass_db
            &&& !is_finite(settings.hptf_bass_db) ==> valid.hptf_bass_db == 0
            &&& is_finite(settings.hptf_tilt_db) ==> valid.hptf_tilt_db == settings.hptf_tilt_db
            &&& !is_finite(settings.hptf_tilt_db) ==> valid.hptf_tilt_db == 0
            &&& platform.macos ==> valid.head_source == settings.head_source
            &&& settings.head_source != HeadSource::AirPods ==> valid.head_source
                == settings.head_source
            &&& !platform.macos && settings.head_source == HeadSource::AirPods
                ==> valid.head_source == HeadSource::Manual
            &&& settings.native_device is Some && settings.native_device->0.len() > 0
                && !settings.native_device->0.contains('\0') ==> valid.native_device
                == settings.native_device
            &&& settings.native_device is Some && settings.native_device->0.len() == 0
                ==> valid.native_device is None
            &&& settings.stereo_device is Some && settings.stereo_device->0.len() > 0
                && !settings.stereo_device->0.contains('\0') ==> valid.stereo_device
                == settings.stereo_device
            &&& settings.stereo_device is Some && settings.stereo_device->0.contains('\0')
                ==> valid.stereo_device is None
            &&& settings.native_device is None ==> valid.native_device is None
            &&& settings.stereo_device is None ==> valid.stereo_device is None
            &&& valid.layout == settings.layout
            &&& valid.split_lfe == settings.split_lfe
            &&& valid.atmos_label_assist == settings.atmos_label_assist
            &&& valid.hptf_auto_trim == settings.hptf_auto_trim
        }),
{
}

/// Another output, another device, and another layout of the system's own bed each need
/// another output.
pub proof fn another_output_or_device_needs_a_rebuild(
    a: SettingsModel,
    b: SettingsModel,
    platform: Platform,
)
    ensures
        a.resolved(platform) != b.resolved(platform) ==> a.rebuilds(b, platform),
        a.native_device != b.native_device ==> a.rebuilds(b, platform),
        a.stereo_device != b.stereo_device ==> a.rebuilds(b, platform),
        a.resolved(platform) == SpatialBackendKind::SystemSpatial && a.layout != b.layout
            ==> a.rebuilds(b, platform),
        a.resolved(platform) == b.resolved(platform) && a.resolved(platform)
            != SpatialBackendKind::SystemSpatial && a.native_device == b.native_device
            && a.stereo_device == b.stereo_device ==> !a.rebuilds(b, platform),
        !a.rebuilds(a, platform),
{
}

/// On headphones the renderer is asked for its binaural feed with the listener's own
/// responses; anywhere else for the layout, without them.
pub proof fn the_renderer_is_asked_for_what_the_output_plays(
    settings: SettingsModel,
    platform: Platform,
)
    ensures
        ({
            let asked = settings.renderer(platform);
            &&& asked.binaural <==> settings.resolved(platform) == SpatialBackendKind::SafBinaural
            &&& asked.binaural ==> asked.sofa == settings.sofa
            &&& !asked.binaural ==> asked.sofa.len() == 0
            &&& asked.split_lfe == settings.split_lfe
            &&& settings.layout is SevenOneFour ==> asked.layout == "4+7+0"@
            &&& settings.layout is NineOneSix ==> asked.layout == "9.1.6"@
            &&& settings.layout is TwentyTwoTwo ==> asked.layout == "9+10+3"@
        }),
{
}

/// On headphones a profile is asked for as it was chosen, with the knobs within their
/// travel on top. Without a profile the knobs are at rest.
pub proof fn a_profile_is_asked_for_with_its_knobs(settings: SettingsModel, platform: Platform)
    requires
        settings.resolved(platform) == SpatialBackendKind::SafBinaural,
    ensures
        ({
            let asked = settings.compensation(platform);
            &&& asked.profile == settings.hptf
            &&& asked.auto_trim == settings.hptf_auto_trim
            &&& settings.hptf.len() == 0 ==> asked.adjustment.bass_db == 0
                && asked.adjustment.tilt_db_per_octave == 0
            &&& settings.hptf.len() > 0 && !crate::numeric::below(
                settings.hptf_bass_db,
                0xc0c0_0000,
            ) && !crate::numeric::below(0x40c0_0000, settings.hptf_bass_db)
                ==> asked.adjustment.bass_db == settings.hptf_bass_db
            &&& settings.hptf.len() > 0 && crate::numeric::below(0x40c0_0000, settings.hptf_bass_db)
                ==> asked.adjustment.bass_db == 0x40c0_0000
            &&& settings.hptf.len() > 0 && crate::numeric::below(settings.hptf_bass_db, 0xc0c0_0000)
                ==> asked.adjustment.bass_db == 0xc0c0_0000
            &&& settings.hptf.len() > 0 && !crate::numeric::below(
                settings.hptf_tilt_db,
                0xc000_0000,
            ) && !crate::numeric::below(0x4000_0000, settings.hptf_tilt_db)
                ==> asked.adjustment.tilt_db_per_octave == settings.hptf_tilt_db
            &&& settings.hptf.len() > 0 && crate::numeric::below(0x4000_0000, settings.hptf_tilt_db)
                ==> asked.adjustment.tilt_db_per_octave == 0x4000_0000
        }),
{
}

/// Only the system's own bed in its plain layout carries the content label.
pub proof fn only_the_plain_bed_is_labelled(settings: SettingsModel, platform: Platform)
    ensures
        settings.labels(platform) <==> settings.resolved(platform)
            == SpatialBackendKind::SystemSpatial && settings.layout is SevenOneFour,
        settings.mode != SpatialBackendKind::Automatic ==> settings.resolved(platform)
            == settings.mode,
        settings.mode == SpatialBackendKind::Automatic ==> settings.resolved(platform)
            == platform.automatic,
{
}

/// An output runs where the system or the build has it; the automatic one everywhere.
pub proof fn an_output_runs_where_it_is_had(platform: Platform)
    ensures
        SpatialBackendKind::Automatic.runs_on(platform),
        SpatialBackendKind::WindowsSpatialAudio.runs_on(platform) <==> platform.windows,
        SpatialBackendKind::SystemSpatial.runs_on(platform) <==> platform.renderer,
        SpatialBackendKind::SafBinaural.runs_on(platform) <==> platform.renderer,
{
}

/// Each layout has its own name, and needs as many objects beside the bed as it has
/// speakers beyond it.
pub proof fn each_layout_has_its_name_and_budget()
    ensures
        SpeakerLayout::SevenOneFour.title() == "7.1.4"@,
        SpeakerLayout::NineOneSix.title() == "9.1.6"@,
        SpeakerLayout::TwentyTwoTwo.title() == "22.2"@,
        SpeakerLayout::SevenOneFour.budget() == 0,
        SpeakerLayout::NineOneSix.budget() == 16 - 12,
        SpeakerLayout::TwentyTwoTwo.budget() == 24 - 12 - 1,
{
}

/// Two requests ask for the same exactly where profile, trim and knobs agree.
pub proof fn requests_are_one_where_they_agree(a: HptfModel, b: HptfModel)
    ensures
        a.asks(b) <==> a.profile == b.profile && a.auto_trim == b.auto_trim && same_value(
            a.adjustment.bass_db,
            b.adjustment.bass_db,
        ) && same_value(a.adjustment.tilt_db_per_octave, b.adjustment.tilt_db_per_octave),
        a.asks(b) <==> b.asks(a),
{
}

/// A new player chooses its output by itself, for a plain bed with the low frequencies split
/// off and labelled, without a profile.
pub proof fn a_new_player_chooses_by_itself()
    ensures
        ({
            let fresh = SettingsModel::fresh();
            &&& fresh.mode is Automatic
            &&& fresh.layout is SevenOneFour
            &&& fresh.split_lfe
            &&& fresh.atmos_label_assist
            &&& fresh.sofa.len() == 0
            &&& fresh.hptf.len() == 0
            &&& !fresh.hptf_auto_trim
            &&& fresh.hptf_bass_db == 0
            &&& fresh.hptf_tilt_db == 0
            &&& fresh.native_device is None
            &&& fresh.stereo_device is None
            &&& fresh.head_source is Automatic
        }),
{
}

} // verus!
