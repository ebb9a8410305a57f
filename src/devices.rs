use vstd::prelude::*;

use crate::model::{channel_views, Channel, ChannelView, Device, DeviceView};

verus! {

/// Devices as plain values.
pub open spec fn device_views(ds: Seq<Device>) -> Seq<DeviceView> {
    ds.map_values(|d: Device| d@)
}

/// Whether a device of id `id` is listed.
pub open spec fn has_device(devs: Seq<DeviceView>, id: Seq<char>) -> bool {
    exists|i: int| 0 <= i < devs.len() && #[trigger] devs[i].id == id
}

/// No two listed devices share an id.
pub open spec fn unique_ids(devs: Seq<DeviceView>) -> bool {
    forall|i: int, j: int|
        0 <= i < devs.len() && 0 <= j < devs.len() && i != j ==> #[trigger] devs[i].id
            != #[trigger] devs[j].id
}

/// The list after `d` was stored: it replaces the device of its id in place, or
/// comes last when its id is new.
pub open spec fn upserted(devs: Seq<DeviceView>, d: DeviceView) -> Seq<DeviceView> {
    if has_device(devs, d.id) {
        Seq::new(devs.len(), |j: int| if devs[j].id == d.id { d } else { devs[j] })
    } else {
        devs.push(d)
    }
}

/// A device after it disconnected: not connected, no drift, no channel quality.
pub open spec fn disconnected(d: DeviceView) -> DeviceView {
    DeviceView {
        connected: false,
        drift_us: 0,
        channels: Seq::new(
            d.channels.len(),
            |k: int| ChannelView { signal_quality: None, ..d.channels[k] },
        ),
        ..d
    }
}

/// The list after the device of id `id`, if any, disconnected.
pub open spec fn disconnected_in(devs: Seq<DeviceView>, id: Seq<char>) -> Seq<DeviceView> {
    Seq::new(devs.len(), |j: int| if devs[j].id == id { disconnected(devs[j]) } else { devs[j] })
}

/// The list after the device of id `id`, if any, reported a battery level.
pub open spec fn with_battery(devs: Seq<DeviceView>, id: Seq<char>, level: u8) -> Seq<DeviceView> {
    Seq::new(
        devs.len(),
        |j: int|
            if devs[j].id == id {
                DeviceView { battery: level, ..devs[j] }
            } else {
                devs[j]
            },
    )
}

/// The list after the device of id `id`, if any, got a new clock drift.
pub open spec fn with_drift(devs: Seq<DeviceView>, id: Seq<char>, drift: i64) -> Seq<DeviceView> {
    Seq::new(
        devs.len(),
        |j: int|
            if devs[j].id == id {
                DeviceView { drift_us: drift, ..devs[j] }
            } else {
                devs[j]
            },
    )
}

/// Analysis results as plain values.
pub open spec fn results_view(rs: Seq<(String, Option<u32>)>) -> Seq<(Seq<char>, Option<u32>)> {
    rs.map_values(|e: (String, Option<u32>)| (e.0@, e.1))
}

/// The last result listed for channel `id`, if any.
pub open spec fn result_for(rs: Seq<(Seq<char>, Option<u32>)>, id: Seq<char>) -> Option<Option<u32>>
    decreases rs.len(),
{
    if rs.len() == 0 {
        None
    } else if rs.last().0 == id {
        Some(rs.last().1)
    } else {
        result_for(rs.drop_last(), id)
    }
}

/// A quality held to at most one, in parts per million.
pub open spec fn bounded_quality(q: u32) -> u32 {
    if q > 1_000_000 {
        1_000_000
    } else {
        q
    }
}

/// A channel after the results: with a result for it, its quality is the last
/// one, held to at most 1_000_000 ppm, or 0 where that analysis found too little to
/// rate; without a result it is unchanged.
pub open spec fn rated(c: ChannelView, rs: Seq<(Seq<char>, Option<u32>)>) -> ChannelView {
    match result_for(rs, c.id) {
        Some(Some(q)) => ChannelView { signal_quality: Some(bounded_quality(q)), ..c },
        Some(None) => ChannelView { signal_quality: Some(0), ..c },
        None => c,
    }
}

/// The list after analysis results were written into the channels.
pub open spec fn with_qualities(devs: Seq<DeviceView>, rs: Seq<(Seq<char>, Option<u32>)>) -> Seq<
    DeviceView,
> {
    Seq::new(
        devs.len(),
        |j: int|
            DeviceView {
                channels: Seq::new(devs[j].channels.len(), |k: int| rated(devs[j].channels[k], rs)),
                ..devs[j]
            },
    )
}

/// Copies a list of devices.
pub fn copy_devices(ds: &Vec<Device>) -> (r: Vec<Device>)
    ensures
        device_views(r@) == device_views(ds@),
{
    let mut r: Vec<Device> = Vec::new();
    let mut i: usize = 0;
    while i < ds.len()
        invariant
            i <= ds.len(),
            r@.len() == i,
            forall|j: int| 0 <= j < i ==> (#[trigger] r@[j])@ == ds@[j]@,
        decreases ds.len() - i,
    {
        r.push(ds[i].copy_of());
        i += 1;
    }
    assert(device_views(r@) =~= device_views(ds@));
    r
}

fn last_result(results: &Vec<(String, Option<u32>)>, id: &String) -> (r: Option<Option<u32>>)
    ensures
        r == result_for(results_view(results@), id@),
{
    let mut i: usize = results.len();
    assert(results@.subrange(0, i as int) =~= results@);
    while i > 0
        invariant
            i <= results@.len(),
            result_for(results_view(results@), id@) == result_for(
                results_view(results@.subrange(0, i as int)),
                id@,
            ),
        decreases i,
    {
        let ghost prefix = results@.subrange(0, i as int);
        assert(results_view(prefix).drop_last() =~= results_view(results@.subrange(0, i - 1)));
        if results[i - 1].0 == *id {
            return Some(results[i - 1].1);
        }
        i -= 1;
    }
    assert(results_view(results@.subrange(0, 0)).len() == 0);
    None
}

/// The known devices, keyed by id, in the order they were first seen.
pub struct DeviceStore {
    devices: Vec<Device>,
}

impl View for DeviceStore {
    type V = Seq<DeviceView>;

    closed spec fn view(&self) -> Seq<DeviceView> {
        device_views(self.devices@)
    }
}

impl DeviceStore {
    /// No two stored devices share an id.
    pub open spec fn wf(&self) -> bool {
        unique_ids(self@)
    }

    /// An empty store.
    pub fn new() -> (r: Self)
        ensures
            r.wf(),
            r@ == Seq::<DeviceView>::empty(),
    {
        let r = DeviceStore { devices: Vec::new() };
        assert(r@ =~= Seq::<DeviceView>::empty());
        r
    }

    fn find(&self, id: &String) -> (r: Option<usize>)
        requires
            self.wf(),
        ensures
            match r {
                Some(i) => i < self@.len() && self@[i as int].id == id@,
                None => !has_device(self@, id@),
            },
    {
        let mut i: usize = 0;
        while i < self.devices.len()
            invariant
                i <= self.devices@.len(),
                self@.len() == self.devices@.len(),
                forall|j: int| 0 <= j < i ==> (#[trigger] self@[j]).id != id@,
            decreases self.devices@.len() - i,
        {
            assert(self@[i as int] == self.devices@[i as int]@);
            if self.devices[i].id == *id {
                return Some(i);
            }
            i += 1;
        }
        None
    }

    /// Copies of all devices, in store order.
    pub fn values(&self) -> (r: Vec<Device>)
        ensures
            device_views(r@) == self@,
    {
        copy_devices(&self.devices)
    }

    /// Stores `device`, replacing the device of the same id.
    pub fn upsert(&mut self, device: Device)
        requires
            old(self).wf(),
        ensures
            final(self).wf(),
            final(self)@ == upserted(old(self)@, device@),
    {
        let ghost before = self@;
        let ghost d = device@;
        match self.find(&device.id) {
            Some(i) => {
                self.devices.set(i, device);
                assert forall|j: int| 0 <= j < before.len() && before[j].id == d.id implies j
                    == i by {
                    if j != i {
                        assert(before[j].id != before[i as int].id);
                    }
                }
                assert(self@ =~= upserted(before, d));
            },
            None => {
                self.devices.push(device);
                assert(self@ =~= upserted(before, d));
            },
        }
    }

    /// Marks the device of id `id` disconnected, clearing its drift and its channel
    /// qualities, and returns its channels; `None`, changing nothing, for an unknown
    /// id.
    pub fn mark_disconnected(&mut self, id: &String) -> (r: Option<Vec<Channel>>)
        requires
            old(self).wf(),
        ensures
            final(self).wf(),
            final(self)@ == disconnected_in(old(self)@, id@),
            r.is_some() == has_device(old(self)@, id@),
            r.is_some() ==> exists|i: int|
                0 <= i < old(self)@.len() && #[trigger] old(self)@[i].id == id@ && channel_views(
                    r.unwrap()@,
                ) == old(self)@[i].channels,
    {
        let ghost before = self@;
        match self.find(id) {
            Some(i) => {
                let old_dev = &self.devices[i];
                let channels = crate::model::copy_channels(&old_dev.channels);
                let mut cleared: Vec<Channel> = Vec::new();
                let mut k: usize = 0;
                while k < old_dev.channels.len()
                    invariant
                        k <= old_dev.channels@.len(),
                        cleared@.len() == k,
                        forall|m: int|
                            0 <= m < k ==> (#[trigger] cleared@[m])@ == (ChannelView {
                                signal_quality: None,
                                ..old_dev.channels@[m]@
                            }),
                    decreases old_dev.channels@.len() - k,
                {
                    let mut c = old_dev.channels[k].copy_of();
                    c.signal_quality = None;
                    cleared.push(c);
                    k += 1;
                }
                let dev = Device {
                    id: old_dev.id.clone(),
                    serial: old_dev.serial,
                    name: old_dev.name.clone(),
                    battery: old_dev.battery,
                    drift_us: 0,
                    connected: false,
                    channels: cleared,
                };
                assert(dev@ == disconnected(before[i as int]) ) by {
                    assert(channel_views(dev.channels@) =~= disconnected(before[i as int]).channels);
                }
                self.devices.set(i, dev);
                assert forall|j: int| 0 <= j < before.len() && before[j].id == id@ implies j
                    == i by {
                    if j != i {
                        assert(before[j].id != before[i as int].id);
                    }
                }
                assert(self@ =~= disconnected_in(before, id@));
                Some(channels)
            },
            None => {
                assert(self@ =~= disconnected_in(before, id@));
                None
            },
        }
    }

    /// Sets the battery level of the device of id `id`, if any.
    pub fn set_battery(&mut self, id: &String, level: u8)
        requires
            old(self).wf(),
        ensures
            final(self).wf(),
            final(self)@ == with_battery(old(self)@, id@, level),
    {
        let ghost before = self@;
        match self.find(id) {
            Some(i) => {
                let mut dev = self.devices[i].copy_of();
                dev.battery = level;
                self.devices.set(i, dev);
                assert forall|j: int| 0 <= j < before.len() && before[j].id == id@ implies j
                    == i by {
                    if j != i {
                        assert(before[j].id != before[i as int].id);
                    }
                }
                assert(self@ =~= with_battery(before, id@, level));
            },
            None => {
                assert(self@ =~= with_battery(before, id@, level));
            },
        }
    }

    /// Sets the clock drift of the device of id `id`, if any.
    pub fn set_drift(&mut self, id: &String, drift: i64)
        requires
            old(self).wf(),
        ensures
            final(self).wf(),
            final(self)@ == with_drift(old(self)@, id@, drift),
    {
        let ghost before = self@;
        match self.find(id) {
            Some(i) => {
                let mut dev = self.devices[i].copy_of();
                dev.drift_us = drift;
                self.devices.set(i, dev);
                assert forall|j: int| 0 <= j < before.len() && before[j].id == id@ implies j
                    == i by {
                    if j != i {
                        assert(before[j].id != before[i as int].id);
                    }
                }
                assert(self@ =~= with_drift(before, id@, drift));
            },
            None => {
                assert(self@ =~= with_drift(before, id@, drift));
            },
        }
    }

    /// Writes analysis results into the channels they name: a channel takes the
    /// quality of the last result for its id (`rated`): that quality held to one, or
    /// 0 where the analysis found too little to rate.
    pub fn set_qualities(&mut self, results: &Vec<(String, Option<u32>)>)
        requires
            old(self).wf(),
        ensures
            final(self).wf(),
            final(self)@ == with_qualities(old(self)@, results_view(results@)),
    {
        let ghost before = self@;
        let ghost rs = results_view(results@);
        let mut i: usize = 0;
        while i < self.devices.len()
            invariant
                i <= self.devices@.len(),
                self@.len() == before.len(),
                rs == results_view(results@),
                forall|j: int| 0 <= j < i ==> #[trigger] self@[j] == with_qualities(before, rs)[j],
                forall|j: int| i <= j < before.len() ==> #[trigger] self@[j] == before[j],
            decreases self.devices@.len() - i,
        {
            let dev = &self.devices[i];
            let mut channels: Vec<Channel> = Vec::new();
            let mut k: usize = 0;
            while k < dev.channels.len()
                invariant
                    rs == results_view(results@),
                    k <= dev.channels@.len(),
                    channels@.len() == k,
                    forall|m: int|
                        0 <= m < k ==> (#[trigger] channels@[m])@ == rated(dev.channels@[m]@, rs),
                decreases dev.channels@.len() - k,
            {
                let mut c = dev.channels[k].copy_of();
                match last_result(results, &c.id) {
                    Some(Some(q)) => {
                        c.signal_quality = Some(
                            if q > 1_000_000 {
                                1_000_000
                            } else {
                                q
                            },
                        );
                    },
                    Some(None) => {
                        c.signal_quality = Some(0);
                    },
                    None => {},
                }
                channels.push(c);
                k += 1;
            }
            let new_dev = Device {
                id: dev.id.clone(),
                serial: dev.serial,
                name: dev.name.clone(),
                battery: dev.battery,
                drift_us: dev.drift_us,
                connected: dev.connected,
                channels,
            };
            assert(new_dev@ == with_qualities(before, rs)[i as int]) by {
                assert(self@[i as int] == self.devices@[i as int]@);
                assert(dev@ == before[i as int]);
                assert forall|m: int| 0 <= m < dev.channels@.len() implies #[trigger] channel_views(
                    dev.channels@,
                )[m] == dev.channels@[m]@ by {}
                assert(channel_views(new_dev.channels@) =~= with_qualities(
                    before,
                    rs,
                )[i as int].channels);
            }
            let ghost prev = self.devices@;
            self.devices.set(i, new_dev);
            assert(self.devices@ =~= prev.update(i as int, new_dev));
            assert(self@[i as int] == new_dev@);
            assert forall|j: int| 0 <= j < before.len() && j != i implies #[trigger] self@[j]
                == device_views(prev)[j] by {}
            i += 1;
        }
        assert(self@ =~= with_qualities(before, rs));
        assert forall|a: int, b: int|
            0 <= a < self@.len() && 0 <= b < self@.len() && a != b implies #[trigger] self@[a].id
            != #[trigger] self@[b].id by {
            assert(before[a].id != before[b].id);
        }
    }
}

} // verus!
