//! Preferences for PoseBridge sensors.
use crate::head_tracking::BRIDGE_SMOOTHING_MS;
use crate::numeric::{clamp, clamped, finite, is_finite};
use vstd::prelude::*;
use vstd::string::*;

verus! {

#[derive(Debug, Clone, Copy, PartialEq, Eq, Structural)]
pub enum Transport {
    Ble,
    Usb,
}

impl Default for Transport {
    fn default() -> (r: Self)
        ensures
            r == Transport::Ble,
    {
        Transport::Ble
    }
}

#[derive(Debug, Clone, Copy, PartialEq, Eq, Structural)]
pub enum Input {
    Automatic,
    RegisterQuaternion,
}

impl Default for Input {
    fn default() -> (r: Self)
        ensures
            r == Input::Automatic,
    {
        Input::Automatic
    }
}

/// The rate of a serial line that nothing else is known of.
pub const BAUD: u32 = 115_200;

/// One sensor and how it is used.
#[derive(Debug)]
pub struct Device {
    pub transport: Transport,
    pub id: String,
    pub name: String,
    pub baud: u32,
    pub mounting: [i8; 3],
    pub input: Input,
    pub throughput: bool,
}

impl Device {
    /// A device that nothing was set up on.
    pub open spec fn is_fresh(
        self,
        transport: Transport,
        id: Seq<char>,
        name: Seq<char>,
    ) -> bool {
        &&& self.transport == transport
        &&& self.id@ == id
        &&& self.name@ == name
        &&& self.baud == BAUD
        &&& self.mounting@ == seq![0i8, 0i8, 0i8]
        &&& self.input == Input::Automatic
        &&& !self.throughput
    }

    /// It is the device of this name on this transport.
    pub open spec fn is_named(self, transport: Transport, id: Seq<char>) -> bool {
        self.transport == transport && self.id@ == id
    }

    /// The device with everything replaced that cannot be used here.
    pub open spec fn repaired(self, windows: bool) -> Device {
        Device {
            baud: if self.baud == 0 {
                BAUD
            } else {
                self.baud
            },
            throughput: self.throughput && windows,
            ..self
        }
    }

    pub fn dup(&self) -> (r: Self)
        ensures
            r == *self,
    {
        Device {
            transport: self.transport,
            id: self.id.clone(),
            name: self.name.clone(),
            baud: self.baud,
            mounting: self.mounting,
            input: self.input,
            throughput: self.throughput,
        }
    }

    fn repair(&mut self, windows: bool)
        ensures
            *final(self) == old(self).repaired(windows),
    {
        if self.baud == 0 {
            self.baud = BAUD;
        }
        if !windows {
            self.throughput = false;
        }
    }
}

impl Default for Device {
    fn default() -> (r: Self)
        ensures
            r.is_fresh(Transport::Ble, Seq::empty(), Seq::empty()),
    {
        let r = Device {
            transport: Transport::Ble,
            id: String::new(),
            name: String::new(),
            baud: BAUD,
            mounting: [0, 0, 0],
            input: Input::Automatic,
            throughput: false,
        };
        assert(r.mounting@ =~= seq![0i8, 0i8, 0i8]);
        r
    }
}

/// Fifty milliseconds, in single precision.
pub const SMOOTHING_LIMIT_MS: u32 = 0x4248_0000;

#[derive(Debug)]
pub struct Preferences {
    pub device: Device,
    pub remembered: Vec<Device>,
    /// Single precision.
    pub smoothing_ms: u32,
    pub max_age_ms: u32,
}

impl Default for Preferences {
    fn default() -> (r: Self)
        ensures
            r.device.is_fresh(Transport::Ble, Seq::empty(), Seq::empty()),
            r.remembered@.len() == 0,
            r.smoothing_ms == BRIDGE_SMOOTHING_MS,
            r.max_age_ms == 100,
    {
        Preferences {
            device: Device::default(),
            remembered: Vec::new(),
            smoothing_ms: BRIDGE_SMOOTHING_MS,
            max_age_ms: 100,
        }
    }
}

/// The smoothing that is used: ten milliseconds for what is no number, and
/// within its travel.
pub open spec fn sound_smoothing(bits: u32) -> u32 {
    clamped(
        if is_finite(bits) {
            bits
        } else {
            BRIDGE_SMOOTHING_MS
        },
        0,
        SMOOTHING_LIMIT_MS,
    )
}

pub open spec fn sound_age(milliseconds: u32) -> u32 {
    if milliseconds < 50 {
        50
    } else if milliseconds > 500 {
        500
    } else {
        milliseconds
    }
}

/// The devices but for the one of this name.
pub open spec fn without(devices: Seq<Device>, transport: Transport, id: Seq<char>) -> Seq<Device> {
    devices.filter(|d: Device| !d.is_named(transport, id))
}

/// The remembered devices once `device` was remembered too: it stands last, and
/// nothing else stands for it. A device without a name is not remembered.
pub open spec fn remembering(devices: Seq<Device>, device: Device) -> Seq<Device> {
    if device.id@.len() == 0 {
        devices
    } else {
        without(devices, device.transport, device.id@).push(device)
    }
}

/// The first device of this name.
pub open spec fn recalled(devices: Seq<Device>, transport: Transport, id: Seq<char>) -> Option<
    Device,
>
    decreases devices.len(),
{
    if devices.len() == 0 {
        None
    } else if devices[0].is_named(transport, id) {
        Some(devices[0])
    } else {
        recalled(devices.drop_first(), transport, id)
    }
}

impl Preferences {
    /// Replaces everything that a stored file cannot be trusted with.
    pub fn validate(&mut self, windows: bool)
        ensures
            final(self).smoothing_ms == sound_smoothing(old(self).smoothing_ms),
            final(self).max_age_ms == sound_age(old(self).max_age_ms),
            final(self).device == old(self).device.repaired(windows),
            final(self).remembered@ == old(self).remembered@.map_values(
                |d: Device| d.repaired(windows),
            ),
    {
        if !finite(self.smoothing_ms) {
            self.smoothing_ms = BRIDGE_SMOOTHING_MS;
        }
        self.smoothing_ms = clamp(self.smoothing_ms, 0, SMOOTHING_LIMIT_MS);
        if self.max_age_ms < 50 {
            self.max_age_ms = 50;
        } else if self.max_age_ms > 500 {
            self.max_age_ms = 500;
        }
        self.device.repair(windows);
        let mut devices: Vec<Device> = Vec::new();
        let mut at: usize = 0;
        while at < self.remembered.len()
            invariant
                at <= self.remembered.len(),
                devices@ =~= self.remembered@.take(at as int).map_values(
                    |d: Device| d.repaired(windows),
                ),
            decreases self.remembered.len() - at,
        {
            let mut device = self.remembered[at].dup();
            device.repair(windows);
            devices.push(device);
            at = at + 1;
        }
        assert(self.remembered@.take(at as int) =~= self.remembered@);
        self.remembered = devices;
    }

    /// Remembers how the current device is used.
    pub fn remember(&mut self)
        ensures
            final(self).remembered@ == remembering(old(self).remembered@, old(self).device),
            final(self).device == old(self).device,
            final(self).smoothing_ms == old(self).smoothing_ms,
            final(self).max_age_ms == old(self).max_age_ms,
    {
        if self.device.id.as_str().unicode_len() == 0 {
            return ;
        }
        let ghost keeps = |d: Device| !d.is_named(self.device.transport, self.device.id@);
        let mut kept: Vec<Device> = Vec::new();
        let mut at: usize = 0;
        proof {
            reveal(Seq::filter);
            assert(self.remembered@.take(0) =~= Seq::<Device>::empty());
        }
        while at < self.remembered.len()
            invariant
                at <= self.remembered.len(),
                keeps == (|d: Device| !d.is_named(self.device.transport, self.device.id@)),
                kept@ =~= self.remembered@.take(at as int).filter(keeps),
            decreases self.remembered.len() - at,
        {
            let device = &self.remembered[at];
            proof {
                reveal(Seq::filter);
                let so_far = self.remembered@.take(at + 1);
                assert(so_far.last() == *device);
                assert(so_far.drop_last() =~= self.remembered@.take(at as int));
            }
            if device.transport != self.device.transport || device.id != self.device.id {
                kept.push(device.dup());
            }
            at = at + 1;
        }
        assert(self.remembered@.take(at as int) =~= self.remembered@);
        kept.push(self.device.dup());
        self.remembered = kept;
    }

    /// Turns to another device: as it was remembered, or set up afresh. The
    /// current one is remembered first.
    pub fn select(&mut self, transport: Transport, id: String, name: String)
        ensures
            final(self).remembered@ == remembering(old(self).remembered@, old(self).device),
            match recalled(final(self).remembered@, transport, id@) {
                Some(device) => final(self).device == device,
                None => final(self).device.is_fresh(transport, id@, name@),
            },
            final(self).smoothing_ms == old(self).smoothing_ms,
            final(self).max_age_ms == old(self).max_age_ms,
    {
        self.remember();
        let mut at: usize = 0;
        assert(self.remembered@.skip(0) =~= self.remembered@);
        while at < self.remembered.len()
            invariant
                at <= self.remembered.len(),
                self.remembered@ == remembering(old(self).remembered@, old(self).device),
                self.smoothing_ms == old(self).smoothing_ms,
                self.max_age_ms == old(self).max_age_ms,
                recalled(self.remembered@, transport, id@) == recalled(
                    self.remembered@.skip(at as int),
                    transport,
                    id@,
                ),
            decreases self.remembered.len() - at,
        {
            assert(self.remembered@.skip(at as int)[0] == self.remembered@[at as int]);
            assert(self.remembered@.skip(at as int).drop_first() =~= self.remembered@.skip(at + 1));
            if self.remembered[at].transport == transport && self.remembered[at].id == id {
                self.device = self.remembered[at].dup();
                return ;
            }
            at = at + 1;
        }
        let mut device = Device::default();
        device.transport = transport;
        device.id = id;
        device.name = name;
        self.device = device;
    }
}

proof fn lemma_without_excludes(devices: Seq<Device>, transport: Transport, id: Seq<char>)
    ensures
        forall|i: int|
            0 <= i < without(devices, transport, id).len() ==> !(#[trigger] without(
                devices,
                transport,
                id,
            )[i]).is_named(transport, id),
    decreases devices.len(),
{
    reveal(Seq::filter);
    if devices.len() > 0 {
        lemma_without_excludes(devices.drop_last(), transport, id);
    }
}

proof fn lemma_recalled_behind(
    devices: Seq<Device>,
    device: Device,
    transport: Transport,
    id: Seq<char>,
)
    requires
        forall|i: int| 0 <= i < devices.len() ==> !(#[trigger] devices[i]).is_named(transport, id),
        device.is_named(transport, id),
    ensures
        recalled(devices.push(device), transport, id) == Some(device),
    decreases devices.len(),
{
    let all = devices.push(device);
    if devices.len() > 0 {
        assert(all[0] == devices[0]);
        assert(all.drop_first() =~= devices.drop_first().push(device));
        assert forall|i: int| 0 <= i < devices.drop_first().len() implies !(
        #[trigger] devices.drop_first()[i]).is_named(transport, id) by {
            assert(devices.drop_first()[i] == devices[i + 1]);
        }
        lemma_recalled_behind(devices.drop_first(), device, transport, id);
    }
}

/// A device comes back as it was left: remembering one and asking for it by
/// name gives the very same settings.
pub proof fn a_remembered_device_comes_back_as_it_was(devices: Seq<Device>, device: Device)
    requires
        device.id@.len() > 0,
    ensures
        recalled(remembering(devices, device), device.transport, device.id@) == Some(device),
{
    lemma_without_excludes(devices, device.transport, device.id@);
    lemma_recalled_behind(
        without(devices, device.transport, device.id@),
        device,
        device.transport,
        device.id@,
    );
}

/// No device is remembered twice.
pub open spec fn distinct(devices: Seq<Device>) -> bool {
    forall|i: int, j: int|
        0 <= i < j < devices.len() ==> !(#[trigger] devices[i]).is_named(
            (#[trigger] devices[j]).transport,
            devices[j].id@,
        )
}

proof fn lemma_without_distinct(devices: Seq<Device>, transport: Transport, id: Seq<char>)
    requires
        distinct(devices),
    ensures
        distinct(without(devices, transport, id)),
        forall|i: int|
            0 <= i < without(devices, transport, id).len() ==> devices.contains(
                #[trigger] without(devices, transport, id)[i],
            ),
    decreases devices.len(),
{
    reveal(Seq::filter);
    if devices.len() > 0 {
        let front = devices.drop_last();
        lemma_without_distinct(front, transport, id);
        let rest = without(front, transport, id);
        let all = without(devices, transport, id);
        assert forall|i: int| 0 <= i < all.len() implies devices.contains(#[trigger] all[i]) by {
            if i < rest.len() {
                assert(front.contains(rest[i]));
                let k = choose|k: int| 0 <= k < front.len() && front[k] == rest[i];
                assert(devices[k] == rest[i]);
            } else {
                assert(all[i] == devices[devices.len() - 1]);
            }
        }
        assert forall|i: int, j: int| 0 <= i < j < all.len() implies !(
        #[trigger] all[i]).is_named((#[trigger] all[j]).transport, all[j].id@) by {
            if j < rest.len() {
                assert(all[i] == rest[i] && all[j] == rest[j]);
            } else {
                assert(all[i] == rest[i]);
                assert(front.contains(rest[i]));
                let k = choose|k: int| 0 <= k < front.len() && front[k] == rest[i];
                assert(devices[k] == rest[i]);
                assert(all[j] == devices[devices.len() - 1]);
            }
        }
    }
}

/// Remembering keeps every device once.
pub proof fn remembering_keeps_devices_distinct(devices: Seq<Device>, device: Device)
    requires
        distinct(devices),
    ensures
        distinct(remembering(devices, device)),
{
    if device.id@.len() > 0 {
        lemma_without_distinct(devices, device.transport, device.id@);
        lemma_without_excludes(devices, device.transport, device.id@);
    }
}

/// Valid preferences stay as they are.
pub proof fn validating_preferences_twice_changes_nothing(
    smoothing: u32,
    age: u32,
    device: Device,
    windows: bool,
)
    ensures
        sound_smoothing(sound_smoothing(smoothing)) == sound_smoothing(smoothing),
        sound_age(sound_age(age)) == sound_age(age),
        device.repaired(windows).repaired(windows) == device.repaired(windows),
{
}

/// Samples count for fifty to five hundred milliseconds, and smoothing takes none to fifty;
/// what was asked for counts within those bounds.
pub proof fn preferences_stay_within_their_bounds(smoothing: u32, age: u32)
    ensures
        50 <= sound_age(age) <= 500,
        50 <= age <= 500 ==> sound_age(age) == age,
        age < 50 ==> sound_age(age) == 50,
        age > 500 ==> sound_age(age) == 500,
        smoothing <= 0x4248_0000 ==> sound_smoothing(smoothing) == smoothing,
        0x4248_0000 < smoothing < 0x7f80_0000 ==> sound_smoothing(smoothing) == 0x4248_0000,
        0x8000_0000 < smoothing < 0xff80_0000 ==> sound_smoothing(smoothing) == 0,
        !is_finite(smoothing) ==> sound_smoothing(smoothing) == 0x4120_0000,
{
}

/// A device is repaired where its rate is none and where it asks for what only Windows has.
pub proof fn only_an_unusable_device_is_repaired(device: Device, windows: bool)
    ensures
        ({
            let next = device.repaired(windows);
            &&& device.baud > 0 ==> next.baud == device.baud
            &&& device.baud == 0 ==> next.baud == 115_200
            &&& next.throughput <==> device.throughput && windows
            &&& next.id == device.id
            &&& next.name == device.name
            &&& next.transport == device.transport
            &&& next.mounting == device.mounting
            &&& next.input == device.input
        }),
{
}

/// A device is found by its transport and its name together; the first of that name.
pub proof fn a_device_is_found_by_transport_and_name(
    devices: Seq<Device>,
    i: int,
    transport: Transport,
    id: Seq<char>,
)
    ensures
        0 <= i < devices.len() && devices[i].transport == transport && devices[i].id@ == id && (
        forall|j: int|
            0 <= j < i ==> !((#[trigger] devices[j]).transport == transport && devices[j].id@ == id))
            ==> recalled(devices, transport, id) == Some(devices[i]),
        recalled(devices, transport, id) is Some ==> recalled(devices, transport, id)->0.transport
            == transport && recalled(devices, transport, id)->0.id@ == id,
    decreases devices.len(),
{
    if devices.len() > 0 {
        let rest = devices.drop_first();
        a_device_is_found_by_transport_and_name(rest, i - 1, transport, id);
        if 0 < i < devices.len() {
            assert(rest[i - 1] == devices[i]);
            if forall|j: int|
                0 <= j < i ==> !((#[trigger] devices[j]).transport == transport && devices[j].id@
                    == id) {
                assert(!(devices[0].transport == transport && devices[0].id@ == id));
                assert forall|j: int| 0 <= j < i - 1 implies !((#[trigger] rest[j]).transport
                    == transport && rest[j].id@ == id) by {
                    assert(rest[j] == devices[j + 1]);
                }
            }
        }
    }
}

/// A device that nothing was set up on runs at 115200 baud, mounted straight, and finds its
/// input by itself.
pub proof fn a_fresh_device_is_set_up_plainly(
    device: Device,
    transport: Transport,
    id: Seq<char>,
    name: Seq<char>,
    i: int,
)
    requires
        device.is_fresh(transport, id, name),
    ensures
        device.is_named(transport, id),
        device.name@ == name,
        device.baud == 115_200,
        device.mounting@.len() == 3,
        0 <= i < 3 ==> device.mounting@[i] == 0,
        device.input is Automatic,
        !device.throughput,
{
}

} // verus!
