use vstd::prelude::*;

use crate::devices::{
    device_views, disconnected_in, has_device, unique_ids, results_view, upserted, with_battery, with_drift,
    with_qualities, DeviceStore,
};
use crate::frame::samples_view;
use crate::model::{channel_views, Channel, ChannelType, ChannelView, Device, DeviceView, VVCoreConfig};
use crate::storage::{appended, fresh_channel, window, ChannelState, DataStorage};

verus! {

/// What the transport side reports to the bus.
#[derive(Debug, Clone)]
pub enum ExternalBleEvent {
    DeviceConnected(Device),
    DeviceDisconnected(String),
    BatteryLevelChanged(String, u8),
    DriftChanged(String, i64),
    /// New samples per channel id, in the order they were decoded.
    DataReceived(Vec<(String, Vec<i32>)>),
}

/// A request to analyse the analysis window of one channel.
#[derive(Debug, Clone)]
pub struct AnalysisJob {
    pub channel_id: String,
    pub channel_type: ChannelType,
    pub window: Vec<Option<i32>>,
}

/// What the bus hands on after an event: the device snapshot for the observer, if
/// the devices are to be announced, the observer windows of the channels that got
/// samples, and the analyses that are due.
pub struct BusOutput {
    pub devices_changed: Option<Vec<Device>>,
    pub new_data: Vec<(String, Vec<Option<i32>>)>,
    pub jobs: Vec<AnalysisJob>,
}

/// Why a configuration cannot be used.
#[derive(Debug, Clone, Copy, PartialEq, Eq, Structural)]
pub enum ConfigError {
    /// Both window lengths are zero.
    EmptyWindows,
    /// A window length does not fit the machine's memory.
    WindowTooLarge,
}

/// The sample store after channels were added, in order.
pub open spec fn with_channels(m: Map<Seq<char>, ChannelState>, chans: Seq<ChannelView>, hist: nat) -> Map<
    Seq<char>,
    ChannelState,
>
    decreases chans.len(),
{
    if chans.len() == 0 {
        m
    } else {
        with_channels(m, chans.drop_last(), hist).insert(
            chans.last().id,
            fresh_channel(hist, chans.last().channel_type),
        )
    }
}

/// The sample store after channels were removed.
pub open spec fn without_channels(m: Map<Seq<char>, ChannelState>, chans: Seq<ChannelView>) -> Map<
    Seq<char>,
    ChannelState,
>
    decreases chans.len(),
{
    if chans.len() == 0 {
        m
    } else {
        without_channels(m, chans.drop_last()).remove(chans.last().id)
    }
}

/// The channels of the listed device of id `id`.
pub open spec fn stored_channels(devs: Seq<DeviceView>, id: Seq<char>) -> Seq<ChannelView> {
    devs[choose|i: int| 0 <= i < devs.len() && #[trigger] devs[i].id == id].channels
}

/// One channel's samples arriving: they are appended, and the counter restarts
/// when it reached `interval`. An unknown channel is skipped.
pub open spec fn data_step(
    m: Map<Seq<char>, ChannelState>,
    e: (Seq<char>, Seq<i32>),
    interval: u32,
) -> Map<Seq<char>, ChannelState> {
    if m.contains_key(e.0) {
        let st = appended(m[e.0], e.1);
        if st.counter >= interval {
            m.insert(e.0, ChannelState { counter: 0, ..st })
        } else {
            m.insert(e.0, st)
        }
    } else {
        m
    }
}

/// The sample store after a batch of samples, taken in order.
pub open spec fn data_effect(
    m: Map<Seq<char>, ChannelState>,
    es: Seq<(Seq<char>, Seq<i32>)>,
    interval: u32,
) -> Map<Seq<char>, ChannelState>
    decreases es.len(),
{
    if es.len() == 0 {
        m
    } else {
        data_step(data_effect(m, es.drop_last(), interval), es.last(), interval)
    }
}

/// The observer windows a batch produces: one per known channel, in batch order.
pub open spec fn data_windows(
    m: Map<Seq<char>, ChannelState>,
    es: Seq<(Seq<char>, Seq<i32>)>,
    interval: u32,
    len: nat,
) -> Seq<(Seq<char>, Seq<Option<i32>>)>
    decreases es.len(),
{
    if es.len() == 0 {
        Seq::empty()
    } else {
        let prev = data_effect(m, es.drop_last(), interval);
        let rest = data_windows(m, es.drop_last(), interval, len);
        let e = es.last();
        if prev.contains_key(e.0) {
            rest.push((e.0, window(appended(prev[e.0], e.1).history, len)))
        } else {
            rest
        }
    }
}

/// The analyses a batch makes due: one for each known ECG or PPG channel whose
/// counter reached `interval`, with its analysis window, in batch order.
pub open spec fn data_jobs(
    m: Map<Seq<char>, ChannelState>,
    es: Seq<(Seq<char>, Seq<i32>)>,
    interval: u32,
    len: nat,
) -> Seq<(Seq<char>, ChannelType, Seq<Option<i32>>)>
    decreases es.len(),
{
    if es.len() == 0 {
        Seq::empty()
    } else {
        let prev = data_effect(m, es.drop_last(), interval);
        let rest = data_jobs(m, es.drop_last(), interval, len);
        let e = es.last();
        if prev.contains_key(e.0) && appended(prev[e.0], e.1).counter >= interval
            && appended(prev[e.0], e.1).data_type != ChannelType::CNT {
            let st = appended(prev[e.0], e.1);
            rest.push((e.0, st.data_type, window(st.history, len)))
        } else {
            rest
        }
    }
}

/// Samples handed to the bus in two batches have the same effect as in one: the
/// sample store ends the same, and the observer windows and analysis jobs are those
/// of the first batch followed by those of the second, in order.
pub proof fn lemma_batches_compose(
    m: Map<Seq<char>, ChannelState>,
    a: Seq<(Seq<char>, Seq<i32>)>,
    b: Seq<(Seq<char>, Seq<i32>)>,
    interval: u32,
    observer_len: nat,
    analysis_len: nat,
)
    ensures
        data_effect(m, a + b, interval) == data_effect(data_effect(m, a, interval), b, interval),
        data_windows(m, a + b, interval, observer_len) == data_windows(m, a, interval, observer_len)
            + data_windows(data_effect(m, a, interval), b, interval, observer_len),
        data_jobs(m, a + b, interval, analysis_len) == data_jobs(m, a, interval, analysis_len)
            + data_jobs(data_effect(m, a, interval), b, interval, analysis_len),
    decreases b.len(),
{
    if b.len() == 0 {
        assert(a + b =~= a);
        assert(data_windows(m, a, interval, observer_len) + Seq::empty() =~= data_windows(
            m,
            a,
            interval,
            observer_len,
        ));
        assert(data_jobs(m, a, interval, analysis_len) + Seq::empty() =~= data_jobs(
            m,
            a,
            interval,
            analysis_len,
        ));
    } else {
        lemma_batches_compose(m, a, b.drop_last(), interval, observer_len, analysis_len);
        assert((a + b).drop_last() =~= a + b.drop_last());
        assert((a + b).last() == b.last());
        let m2 = data_effect(m, a, interval);
        let wa = data_windows(m, a, interval, observer_len);
        let wb = data_windows(m2, b.drop_last(), interval, observer_len);
        let ja = data_jobs(m, a, interval, analysis_len);
        let jb = data_jobs(m2, b.drop_last(), interval, analysis_len);
        let prev = data_effect(m2, b.drop_last(), interval);
        let e = b.last();
        if prev.contains_key(e.0) {
            let w = (e.0, window(appended(prev[e.0], e.1).history, observer_len));
            assert((wa + wb).push(w) =~= wa + wb.push(w));
        }
        if prev.contains_key(e.0) && appended(prev[e.0], e.1).counter >= interval
            && appended(prev[e.0], e.1).data_type != ChannelType::CNT {
            let st = appended(prev[e.0], e.1);
            let j = (e.0, st.data_type, window(st.history, analysis_len));
            assert((ja + jb).push(j) =~= ja + jb.push(j));
        }
    }
}

/// Observer windows as plain values.
pub open spec fn windows_view(ws: Seq<(String, Vec<Option<i32>>)>) -> Seq<(Seq<char>, Seq<Option<i32>>)> {
    ws.map_values(|w: (String, Vec<Option<i32>>)| (w.0@, w.1@))
}

/// Analysis jobs as plain values.
pub open spec fn jobs_view(js: Seq<AnalysisJob>) -> Seq<(Seq<char>, ChannelType, Seq<Option<i32>>)> {
    js.map_values(|j: AnalysisJob| (j.channel_id@, j.channel_type, j.window@))
}

fn copy_samples(v: &Vec<i32>) -> (r: Vec<i32>)
    ensures
        r@ == v@,
{
    let mut r: Vec<i32> = Vec::new();
    let mut i: usize = 0;
    while i < v.len()
        invariant
            i <= v@.len(),
            r@ == v@.subrange(0, i as int),
        decreases v@.len() - i,
    {
        r.push(v[i]);
        i += 1;
        assert(r@ =~= v@.subrange(0, i as int));
    }
    assert(v@.subrange(0, i as int) =~= v@);
    r
}

/// The single writer of the device store and the sample store.
///
/// Every transport event is applied to the stores in arrival order; what the
/// observer is told is computed from the stores right after the event.
pub struct EventBus {
    devices: DeviceStore,
    samples: DataStorage,
    analysis_interval: u32,
}

impl EventBus {
    pub closed spec fn wf(&self) -> bool {
        self.devices.wf() && self.samples.wf()
    }

    /// The device store, in order of first connection.
    pub closed spec fn devices(&self) -> Seq<DeviceView> {
        self.devices@
    }

    /// The sample store, keyed by channel id.
    pub closed spec fn samples(&self) -> Map<Seq<char>, ChannelState> {
        self.samples@
    }

    /// Samples per channel between two analyses.
    pub closed spec fn interval(&self) -> u32 {
        self.analysis_interval
    }

    /// Length of the window handed to the observer.
    pub closed spec fn observer_len(&self) -> nat {
        self.samples.observer_len()
    }

    /// Length of the window handed to the analyzers.
    pub closed spec fn analysis_len(&self) -> nat {
        self.samples.analysis_len()
    }

    /// Number of samples each channel keeps.
    pub closed spec fn hist_len(&self) -> nat {
        self.samples.hist_len()
    }

    /// Both windows fit in the history every channel keeps, and every kept history
    /// has that length.
    pub proof fn lemma_windows_fit(&self)
        requires
            self.wf(),
        ensures
            self.hist_len() >= self.observer_len(),
            self.hist_len() >= self.analysis_len(),
            forall|k: Seq<char>| #[trigger]
                self.samples().contains_key(k) ==> self.samples()[k].history.len()
                    == self.hist_len(),
    {
        self.samples.lemma_windows_fit();
    }

    /// A bus with empty stores for `config`; fails when both window lengths are
    /// zero or a window length does not fit the machine.
    pub fn new(config: &VVCoreConfig) -> (r: Result<EventBus, ConfigError>)
        ensures
            !config.valid() ==> r == Err::<EventBus, ConfigError>(ConfigError::EmptyWindows),
            config.valid() && 2 * config.hist_size_api <= usize::MAX && 2
                * config.hist_size_analytics <= usize::MAX ==> r is Ok,
            config.valid() && !(2 * config.hist_size_api <= usize::MAX && 2
                * config.hist_size_analytics <= usize::MAX) ==> r == Err::<EventBus, ConfigError>(
                ConfigError::WindowTooLarge,
            ),
            r is Ok ==> {
                let b = r->Ok_0;
                &&& b.wf()
                &&& b.devices() == Seq::<DeviceView>::empty()
                &&& b.samples() == Map::<Seq<char>, ChannelState>::empty()
                &&& b.interval() == config.analysis_interval_points
                &&& b.hist_len() >= b.observer_len()
                &&& b.hist_len() >= b.analysis_len()
                &&& b.observer_len() == config.hist_size_api
                &&& b.analysis_len() == config.hist_size_analytics
            },
    {
        if !config.is_valid() {
            return Err(ConfigError::EmptyWindows);
        }
        let half = usize::MAX / 2;
        if config.hist_size_api as u64 > half as u64 || config.hist_size_analytics as u64
            > half as u64 {
            return Err(ConfigError::WindowTooLarge);
        }
        let a = config.hist_size_api as usize;
        let b = config.hist_size_analytics as usize;
        Ok(EventBus {
            devices: DeviceStore::new(),
            samples: DataStorage::new(a, b),
            analysis_interval: config.analysis_interval_points,
        })
    }

    /// Copies of all known devices, as the observer receives them.
    pub fn snapshot(&self) -> (r: Vec<Device>)
        requires
            self.wf(),
        ensures
            device_views(r@) == self.devices(),
    {
        self.devices.values()
    }

    fn add_channels(&mut self, chans: &Vec<Channel>)
        requires
            old(self).wf(),
        ensures
            final(self).wf(),
            final(self).devices() == old(self).devices(),
            final(self).samples() == with_channels(
                old(self).samples(),
                channel_views(chans@),
                old(self).hist_len(),
            ),
            final(self).interval() == old(self).interval(),
            final(self).observer_len() == old(self).observer_len(),
            final(self).analysis_len() == old(self).analysis_len(),
            final(self).hist_len() == old(self).hist_len(),
    {
        let ghost m0 = self.samples@;
        let ghost cs = channel_views(chans@);
        let mut k: usize = 0;
        while k < chans.len()
            invariant
                self.wf(),
                k <= chans@.len(),
                cs == channel_views(chans@),
                self.devices@ == old(self).devices@,
                self.samples.hist_len() == old(self).samples.hist_len(),
                self.samples.observer_len() == old(self).samples.observer_len(),
                self.samples.analysis_len() == old(self).samples.analysis_len(),
                self.analysis_interval == old(self).analysis_interval,
                self.samples@ == with_channels(m0, cs.subrange(0, k as int), self.samples.hist_len()),
            decreases chans@.len() - k,
        {
            self.samples.add_channel(chans[k].id.clone(), chans[k].channel_type);
            k += 1;
            assert(cs.subrange(0, k as int).drop_last() =~= cs.subrange(0, k - 1));
        }
        assert(cs.subrange(0, k as int) =~= cs);
    }

    fn remove_channels(&mut self, chans: &Vec<Channel>)
        requires
            old(self).wf(),
        ensures
            final(self).wf(),
            final(self).devices() == old(self).devices(),
            final(self).samples() == without_channels(old(self).samples(), channel_views(chans@)),
            final(self).interval() == old(self).interval(),
            final(self).observer_len() == old(self).observer_len(),
            final(self).analysis_len() == old(self).analysis_len(),
            final(self).hist_len() == old(self).hist_len(),
    {
        let ghost m0 = self.samples@;
        let ghost cs = channel_views(chans@);
        let mut k: usize = 0;
        while k < chans.len()
            invariant
                self.wf(),
                k <= chans@.len(),
                cs == channel_views(chans@),
                self.devices@ == old(self).devices@,
                self.samples.hist_len() == old(self).samples.hist_len(),
                self.samples.observer_len() == old(self).samples.observer_len(),
                self.samples.analysis_len() == old(self).samples.analysis_len(),
                self.analysis_interval == old(self).analysis_interval,
                self.samples@ == without_channels(m0, cs.subrange(0, k as int)),
            decreases chans@.len() - k,
        {
            self.samples.remove_channel(chans[k].id.clone());
            k += 1;
            assert(cs.subrange(0, k as int).drop_last() =~= cs.subrange(0, k - 1));
        }
        assert(cs.subrange(0, k as int) =~= cs);
    }

    fn ingest(&mut self, batch: &Vec<(String, Vec<i32>)>) -> (r: BusOutput)
        requires
            old(self).wf(),
        ensures
            final(self).wf(),
            final(self).devices() == old(self).devices(),
            final(self).samples() == data_effect(
                old(self).samples(),
                samples_view(batch@),
                old(self).interval(),
            ),
            final(self).interval() == old(self).interval(),
            final(self).observer_len() == old(self).observer_len(),
            final(self).analysis_len() == old(self).analysis_len(),
            final(self).hist_len() == old(self).hist_len(),
            r.devices_changed.is_none(),
            windows_view(r.new_data@) == data_windows(
                old(self).samples(),
                samples_view(batch@),
                old(self).interval(),
                old(self).observer_len(),
            ),
            jobs_view(r.jobs@) == data_jobs(
                old(self).samples(),
                samples_view(batch@),
                old(self).interval(),
                old(self).analysis_len(),
            ),
    {
        let ghost m0 = self.samples@;
        let ghost es = samples_view(batch@);
        let ghost interval = self.analysis_interval;
        let ghost alen = self.samples.observer_len();
        let ghost blen = self.samples.analysis_len();
        let mut new_data: Vec<(String, Vec<Option<i32>>)> = Vec::new();
        let mut jobs: Vec<AnalysisJob> = Vec::new();
        let mut k: usize = 0;
        while k < batch.len()
            invariant
                self.wf(),
                k <= batch@.len(),
                es == samples_view(batch@),
                interval == self.analysis_interval,
                self.devices@ == old(self).devices@,
                self.analysis_interval == old(self).analysis_interval,
                self.samples.hist_len() == old(self).samples.hist_len(),
                alen == self.samples.observer_len(),
                blen == self.samples.analysis_len(),
                self.samples.observer_len() == old(self).samples.observer_len(),
                self.samples.analysis_len() == old(self).samples.analysis_len(),
                self.samples@ == data_effect(m0, es.subrange(0, k as int), interval),
                windows_view(new_data@) == data_windows(m0, es.subrange(0, k as int), interval, alen),
                jobs_view(jobs@) == data_jobs(m0, es.subrange(0, k as int), interval, blen),
            decreases batch@.len() - k,
        {
            let ghost pre = es.subrange(0, k as int);
            let ghost cur = es.subrange(0, k + 1);
            assert(cur.drop_last() =~= pre);
            assert(cur.last() == es[k as int]);
            let ghost prev_nd = new_data@;
            let ghost prev_jobs = jobs@;
            let id = &batch[k].0;
            let points = copy_samples(&batch[k].1);
            match self.samples.add_datapoint(id.clone(), points) {
                Some((a, b, t, c)) => {
                    new_data.push((id.clone(), a));
                    assert(windows_view(new_data@) =~= windows_view(prev_nd).push(
                        (id@, new_data@.last().1@),
                    ));
                    if c >= self.analysis_interval {
                        match t {
                            ChannelType::CNT => {},
                            _ => {
                                jobs.push(
                                    AnalysisJob { channel_id: id.clone(), channel_type: t, window: b },
                                );
                                assert(jobs_view(jobs@) =~= jobs_view(prev_jobs).push(
                                    (id@, t, jobs@.last().window@),
                                ));
                            },
                        }
                        self.samples.reset_counter(id.clone());
                    }
                },
                None => {},
            }
            k += 1;
        }
        assert(es.subrange(0, k as int) =~= es);
        BusOutput { devices_changed: None, new_data, jobs }
    }

    /// Applies one transport event to the stores.
    ///
    /// - `DeviceConnected`: the device is stored (replacing one of the same id), each
    ///   of its channels gets an empty history, and the devices are announced.
    /// - `DeviceDisconnected`: a known device is marked disconnected, its channels
    ///   leave the sample store, and the devices are announced; an unknown id changes
    ///   nothing.
    /// - `BatteryLevelChanged`, `DriftChanged`: the device, if known, takes the value,
    ///   and the devices are announced.
    /// - `DataReceived`: the samples of each known channel are appended in order; each
    ///   such channel's observer window is handed on, and a channel whose counter
    ///   reached the analysis interval gets a zero counter and, if it is an ECG or
    ///   PPG channel, an analysis job. The
    ///   devices are announced only once the results are written back
    ///   (`apply_analysis`).
    ///
    /// An announced snapshot is the device store as it stands after the event.
    pub fn handle_transport(&mut self, event: ExternalBleEvent) -> (r: BusOutput)
        requires
            old(self).wf(),
        ensures
            final(self).wf(),
            final(self).hist_len() >= final(self).observer_len(),
            final(self).hist_len() >= final(self).analysis_len(),
            final(self).interval() == old(self).interval(),
            final(self).observer_len() == old(self).observer_len(),
            final(self).analysis_len() == old(self).analysis_len(),
            final(self).hist_len() == old(self).hist_len(),
            r.devices_changed.is_some() ==> device_views(r.devices_changed.unwrap()@)
                == final(self).devices(),
            match event {
                ExternalBleEvent::DeviceConnected(d) => {
                    &&& final(self).devices() == upserted(old(self).devices(), d@)
                    &&& final(self).samples() == with_channels(
                        old(self).samples(),
                        d@.channels,
                        old(self).hist_len(),
                    )
                    &&& r.devices_changed.is_some()
                    &&& r.new_data@.len() == 0
                    &&& r.jobs@.len() == 0
                },
                ExternalBleEvent::DeviceDisconnected(id) => {
                    &&& final(self).devices() == disconnected_in(old(self).devices(), id@)
                    &&& final(self).samples() == if has_device(old(self).devices(), id@) {
                        without_channels(
                            old(self).samples(),
                            stored_channels(old(self).devices(), id@),
                        )
                    } else {
                        old(self).samples()
                    }
                    &&& r.devices_changed.is_some() == has_device(old(self).devices(), id@)
                    &&& r.new_data@.len() == 0
                    &&& r.jobs@.len() == 0
                },
                ExternalBleEvent::BatteryLevelChanged(id, level) => {
                    &&& final(self).devices() == with_battery(old(self).devices(), id@, level)
                    &&& final(self).samples() == old(self).samples()
                    &&& r.devices_changed.is_some()
                    &&& r.new_data@.len() == 0
                    &&& r.jobs@.len() == 0
                },
                ExternalBleEvent::DriftChanged(id, drift) => {
                    &&& final(self).devices() == with_drift(old(self).devices(), id@, drift)
                    &&& final(self).samples() == old(self).samples()
                    &&& r.devices_changed.is_some()
                    &&& r.new_data@.len() == 0
                    &&& r.jobs@.len() == 0
                },
                ExternalBleEvent::DataReceived(batch) => {
                    &&& final(self).devices() == old(self).devices()
                    &&& final(self).samples() == data_effect(
                        old(self).samples(),
                        samples_view(batch@),
                        old(self).interval(),
                    )
                    &&& r.devices_changed.is_none()
                    &&& windows_view(r.new_data@) == data_windows(
                        old(self).samples(),
                        samples_view(batch@),
                        old(self).interval(),
                        old(self).observer_len(),
                    )
                    &&& jobs_view(r.jobs@) == data_jobs(
                        old(self).samples(),
                        samples_view(batch@),
                        old(self).interval(),
                        old(self).analysis_len(),
                    )
                },
            },
    {
        proof {
            self.samples.lemma_windows_fit();
        }
        match event {
            ExternalBleEvent::DeviceConnected(device) => {
                let channels = crate::model::copy_channels(&device.channels);
                self.devices.upsert(device);
                self.add_channels(&channels);
                let snapshot = self.snapshot();
                BusOutput { devices_changed: Some(snapshot), new_data: Vec::new(), jobs: Vec::new() }
            },
            ExternalBleEvent::DeviceDisconnected(id) => {
                let ghost devs = self.devices@;
                assert(unique_ids(devs));
                match self.devices.mark_disconnected(&id) {
                    Some(channels) => {
                        proof {
                            let i = choose|i: int|
                                0 <= i < devs.len() && #[trigger] devs[i].id == id@
                                    && channel_views(channels@) == devs[i].channels;
                            let j = choose|j: int| 0 <= j < devs.len() && #[trigger] devs[j].id == id@;
                            assert(i == j);
                        }
                        let snapshot = self.snapshot();
                        self.remove_channels(&channels);
                        BusOutput {
                            devices_changed: Some(snapshot),
                            new_data: Vec::new(),
                            jobs: Vec::new(),
                        }
                    },
                    None => BusOutput { devices_changed: None, new_data: Vec::new(), jobs: Vec::new() },
                }
            },
            ExternalBleEvent::BatteryLevelChanged(id, level) => {
                self.devices.set_battery(&id, level);
                let snapshot = self.snapshot();
                BusOutput { devices_changed: Some(snapshot), new_data: Vec::new(), jobs: Vec::new() }
            },
            ExternalBleEvent::DriftChanged(id, drift) => {
                self.devices.set_drift(&id, drift);
                let snapshot = self.snapshot();
                BusOutput { devices_changed: Some(snapshot), new_data: Vec::new(), jobs: Vec::new() }
            },
            ExternalBleEvent::DataReceived(batch) => self.ingest(&batch),
        }
    }

    /// Writes the results of the analyses of one batch into the channel records and
    /// returns the snapshot to announce; a channel takes the last result for it
    /// that is a quality. No results: nothing changes and nothing is announced.
    pub fn apply_analysis(&mut self, results: &Vec<(String, Option<u32>)>) -> (r: Option<Vec<Device>>)
        requires
            old(self).wf(),
        ensures
            final(self).wf(),
            final(self).hist_len() >= final(self).observer_len(),
            final(self).hist_len() >= final(self).analysis_len(),
            final(self).samples() == old(self).samples(),
            final(self).interval() == old(self).interval(),
            final(self).observer_len() == old(self).observer_len(),
            final(self).analysis_len() == old(self).analysis_len(),
            final(self).hist_len() == old(self).hist_len(),
            results@.len() == 0 ==> r.is_none() && final(self).devices() == old(self).devices(),
            results@.len() > 0 ==> {
                &&& final(self).devices() == with_qualities(old(self).devices(), results_view(results@))
                &&& r.is_some()
                &&& device_views(r.unwrap()@) == final(self).devices()
            },
    {
        proof {
            self.samples.lemma_windows_fit();
        }
        if results.len() == 0 {
            return None;
        }
        self.devices.set_qualities(results);
        Some(self.snapshot())
    }
}

} // verus!
