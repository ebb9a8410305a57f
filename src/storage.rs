use vstd::prelude::*;

use crate::model::ChannelType;
use crate::ringbuffer::{after_writes, SliceableRingBuffer};

verus! {

/// The history of one channel and the samples counted since its last analysis.
pub struct ChannelData {
    pub data: SliceableRingBuffer<Option<i32>>,
    pub data_type: ChannelType,
    pub datapoint_counter: u32,
}

/// A channel of the sample store as plain values.
pub struct ChannelState {
    /// The ring's contents, oldest first; `None` marks a slot never written.
    pub history: Seq<Option<i32>>,
    pub data_type: ChannelType,
    pub counter: u32,
}

impl ChannelData {
    pub open spec fn state(&self) -> ChannelState {
        ChannelState {
            history: self.data@,
            data_type: self.data_type,
            counter: self.datapoint_counter,
        }
    }
}

/// The state of a channel just added to a store whose rings have `hist_size` slots.
pub open spec fn fresh_channel(hist_size: nat, data_type: ChannelType) -> ChannelState {
    ChannelState {
        history: Seq::new(hist_size, |k: int| None),
        data_type,
        counter: 0,
    }
}

/// The counter after `n` more samples; it stays at `u32::MAX` once there.
pub open spec fn counted(counter: u32, n: nat) -> u32 {
    if counter + n > u32::MAX {
        u32::MAX
    } else {
        (counter + n) as u32
    }
}

/// Samples as the ring stores them.
pub open spec fn as_samples(points: Seq<i32>) -> Seq<Option<i32>> {
    points.map_values(|x: i32| Some(x))
}

/// The state of a channel after `points` were appended to it.
pub open spec fn appended(st: ChannelState, points: Seq<i32>) -> ChannelState {
    ChannelState {
        history: after_writes(st.history, as_samples(points)),
        data_type: st.data_type,
        counter: counted(st.counter, points.len()),
    }
}

/// The last `len` entries of a history.
pub open spec fn window(history: Seq<Option<i32>>, len: nat) -> Seq<Option<i32>> {
    history.subrange(history.len() - len, history.len() as int)
}

/// What appending hands back: the observer window, the analysis window, the
/// channel's kind and its counter.
pub type Appended = (Vec<Option<i32>>, Vec<Option<i32>>, ChannelType, u32);

struct ChannelSlot {
    id: String,
    channel: ChannelData,
}

/// Per-channel sample history, keyed by channel id.
///
/// Every ring has `max(ret_a_len, ret_b_len)` slots; `ret_a_len` is the length of
/// the window handed to the observer and `ret_b_len` that of the window handed to
/// the analyzers.
pub struct DataStorage {
    hist_size: usize,
    ret_a_len: usize,
    ret_b_len: usize,
    data: Vec<ChannelSlot>,
    channels: Ghost<Map<Seq<char>, ChannelState>>,
}

impl View for DataStorage {
    type V = Map<Seq<char>, ChannelState>;

    closed spec fn view(&self) -> Map<Seq<char>, ChannelState> {
        self.channels@
    }
}

impl DataStorage {
    /// Length of the observer window.
    pub closed spec fn observer_len(&self) -> nat {
        self.ret_a_len as nat
    }

    /// Length of the analysis window.
    pub closed spec fn analysis_len(&self) -> nat {
        self.ret_b_len as nat
    }

    /// Number of slots of every ring.
    pub closed spec fn hist_len(&self) -> nat {
        self.hist_size as nat
    }

    /// Both windows fit in the history every channel keeps, and every kept history
    /// has that length.
    pub proof fn lemma_windows_fit(&self)
        requires
            self.wf(),
        ensures
            self.hist_len() >= self.observer_len(),
            self.hist_len() >= self.analysis_len(),
            forall|k: Seq<char>| #[trigger]
                self@.contains_key(k) ==> self@[k].history.len() == self.hist_len(),
    {
        assert forall|k: Seq<char>| #[trigger]
            self@.contains_key(k) implies self@[k].history.len() == self.hist_len() by {
            let i = choose|i: int| 0 <= i < self.data@.len() && (#[trigger] self.data@[i]).id@ == k;
        }
    }

    pub closed spec fn wf(&self) -> bool {
        &&& self.hist_size > 0
        &&& 2 * self.hist_size <= usize::MAX
        &&& self.hist_size == if self.ret_a_len >= self.ret_b_len {
            self.ret_a_len
        } else {
            self.ret_b_len
        }
        &&& forall|i: int|
            0 <= i < self.data@.len() ==> {
                &&& (#[trigger] self.data@[i]).channel.data.wf()
                &&& self.data@[i].channel.data@.len() == self.hist_size
                &&& self.channels@.contains_key(self.data@[i].id@)
                &&& self.channels@[self.data@[i].id@] == self.data@[i].channel.state()
            }
        &&& forall|i: int, j: int|
            0 <= i < j < self.data@.len() ==> (#[trigger] self.data@[i]).id@
                != (#[trigger] self.data@[j]).id@
        &&& forall|k: Seq<char>|
            #[trigger] self.channels@.contains_key(k) ==> exists|i: int|
                0 <= i < self.data@.len() && (#[trigger] self.data@[i]).id@ == k
    }

    /// An empty store whose windows have lengths `ret_a_len` and `ret_b_len`.
    pub fn new(ret_a_len: usize, ret_b_len: usize) -> (r: Self)
        requires
            ret_a_len > 0 || ret_b_len > 0,
            2 * ret_a_len <= usize::MAX,
            2 * ret_b_len <= usize::MAX,
        ensures
            r.wf(),
            r@ == Map::<Seq<char>, ChannelState>::empty(),
            r.hist_len() >= r.observer_len(),
            r.hist_len() >= r.analysis_len(),
            r.observer_len() == ret_a_len,
            r.analysis_len() == ret_b_len,
            r.hist_len() == if ret_a_len >= ret_b_len {
                ret_a_len
            } else {
                ret_b_len
            },
    {
        let max = if ret_a_len >= ret_b_len {
            ret_a_len
        } else {
            ret_b_len
        };
        DataStorage {
            hist_size: max,
            ret_a_len,
            ret_b_len,
            data: Vec::new(),
            channels: Ghost(Map::empty()),
        }
    }

    fn find(&self, uuid: &String) -> (r: Option<usize>)
        requires
            self.wf(),
        ensures
            match r {
                Some(i) => i < self.data@.len() && self.data@[i as int].id@ == uuid@,
                None => !self@.contains_key(uuid@),
            },
    {
        let mut i: usize = 0;
        while i < self.data.len()
            invariant
                self.wf(),
                i <= self.data@.len(),
                forall|j: int| 0 <= j < i ==> (#[trigger] self.data@[j]).id@ != uuid@,
            decreases self.data@.len() - i,
        {
            if self.data[i].id == *uuid {
                return Some(i);
            }
            i += 1;
        }
        None
    }

    /// Adds a channel with an empty history and a zero counter; a channel of the
    /// same id is replaced.
    pub fn add_channel(&mut self, uuid: String, c_type: ChannelType)
        requires
            old(self).wf(),
        ensures
            final(self).wf(),
            final(self)@ == old(self)@.insert(uuid@, fresh_channel(old(self).hist_len(), c_type)),
            final(self).observer_len() == old(self).observer_len(),
            final(self).analysis_len() == old(self).analysis_len(),
            final(self).hist_len() == old(self).hist_len(),
    {
        let channel = ChannelData {
            data: SliceableRingBuffer::new(self.hist_size, None),
            data_type: c_type,
            datapoint_counter: 0,
        };
        assert(channel.state() == fresh_channel(self.hist_size as nat, c_type));
        let ghost key = uuid@;
        let ghost before = self.data@;
        let found = self.find(&uuid);
        self.channels = Ghost(self.channels@.insert(key, channel.state()));
        match found {
            Some(i) => {
                self.data.set(i, ChannelSlot { id: uuid, channel });
                assert forall|k: Seq<char>| #[trigger]
                    self.channels@.contains_key(k) implies exists|j: int|
                    0 <= j < self.data@.len() && (#[trigger] self.data@[j]).id@ == k by {
                    if k != key {
                        let j = choose|j: int| 0 <= j < before.len() && (#[trigger] before[j]).id@ == k;
                        assert(self.data@[j].id@ == k);
                    } else {
                        assert(self.data@[i as int].id@ == k);
                    }
                }
            },
            None => {
                self.data.push(ChannelSlot { id: uuid, channel });
                let n = self.data.len() - 1;
                assert forall|k: Seq<char>| #[trigger]
                    self.channels@.contains_key(k) implies exists|j: int|
                    0 <= j < self.data@.len() && (#[trigger] self.data@[j]).id@ == k by {
                    if k != key {
                        let j = choose|j: int| 0 <= j < before.len() && (#[trigger] before[j]).id@ == k;
                        assert(self.data@[j].id@ == k);
                    } else {
                        assert(self.data@[n as int].id@ == k);
                    }
                }
            },
        }
    }

    /// Removes a channel; an unknown id changes nothing.
    pub fn remove_channel(&mut self, uuid: String)
        requires
            old(self).wf(),
        ensures
            final(self).wf(),
            final(self)@ == old(self)@.remove(uuid@),
            final(self).observer_len() == old(self).observer_len(),
            final(self).analysis_len() == old(self).analysis_len(),
            final(self).hist_len() == old(self).hist_len(),
    {
        let ghost key = uuid@;
        let ghost before = self.data@;
        if let Some(i) = self.find(&uuid) {
            self.data.remove(i);
            self.channels = Ghost(self.channels@.remove(key));
            assert forall|j: int| 0 <= j < self.data@.len() implies #[trigger] self.data@[j].id@
                != key by {
                if j < i {
                    assert(before[j].id@ != before[i as int].id@);
                } else {
                    assert(before[j + 1].id@ != before[i as int].id@);
                }
            }
            assert forall|k: Seq<char>| #[trigger]
                self.channels@.contains_key(k) implies exists|j: int|
                0 <= j < self.data@.len() && (#[trigger] self.data@[j]).id@ == k by {
                let j = choose|j: int| 0 <= j < before.len() && (#[trigger] before[j]).id@ == k;
                if j < i {
                    assert(self.data@[j].id@ == k);
                } else {
                    assert(self.data@[j - 1].id@ == k);
                }
            }
        } else {
            assert(self.channels@.remove(key) =~= self.channels@);
        }
    }

    /// Appends `data_points` to a channel's history and counts them.
    ///
    /// Returns `None`, changing nothing, when the channel is unknown. Otherwise
    /// returns the observer window and the analysis window of the new history, the
    /// channel's kind and its new counter.
    pub fn add_datapoint(&mut self, uuid: String, data_points: Vec<i32>) -> (r: Option<Appended>)
        requires
            old(self).wf(),
        ensures
            final(self).wf(),
            final(self).observer_len() == old(self).observer_len(),
            final(self).analysis_len() == old(self).analysis_len(),
            final(self).hist_len() == old(self).hist_len(),
            final(self).hist_len() >= final(self).observer_len(),
            final(self).hist_len() >= final(self).analysis_len(),
            r.is_none() <==> !old(self)@.contains_key(uuid@),
            r.is_none() ==> final(self)@ == old(self)@,
            r.is_some() ==> {
                let st = appended(old(self)@[uuid@], data_points@);
                let (a, b, t, c) = r.unwrap();
                &&& final(self)@ == old(self)@.insert(uuid@, st)
                &&& a@ == window(st.history, old(self).observer_len())
                &&& b@ == window(st.history, old(self).analysis_len())
                &&& t == st.data_type
                &&& c == st.counter
            },
    {
        let found = self.find(&uuid);
        if found.is_none() {
            return None;
        }
        let i = found.unwrap();
        let ghost key = uuid@;
        let ghost before = self.data@;
        let ghost st0 = self.channels@[key];
        let mut slot = self.data.remove(i);
        let mut k: usize = 0;
        while k < data_points.len()
            invariant
                k <= data_points@.len(),
                slot.channel.data.wf(),
                slot.channel.data@.len() == st0.history.len(),
                slot.channel.state() == appended(st0, data_points@.subrange(0, k as int)),
                st0.history.len() > 0,
                slot.id@ == key,
            decreases data_points@.len() - k,
        {
            let ghost prev = data_points@.subrange(0, k as int);
            slot.channel.data.write(Some(data_points[k]));
            if slot.channel.datapoint_counter < u32::MAX {
                slot.channel.datapoint_counter = slot.channel.datapoint_counter + 1;
            }
            k += 1;
            let ghost next = data_points@.subrange(0, k as int);
            assert(as_samples(next).drop_last() =~= as_samples(prev));
            assert(slot.channel.state().history == appended(st0, next).history);
        }
        assert(data_points@.subrange(0, k as int) =~= data_points@);
        let ghost st = slot.channel.state();
        let a = vstd::slice::slice_to_vec(slot.channel.data.get_slice_with_len(self.ret_a_len));
        let b = vstd::slice::slice_to_vec(slot.channel.data.get_slice_with_len(self.ret_b_len));
        let t = slot.channel.data_type;
        let c = slot.channel.datapoint_counter;
        self.data.insert(i, slot);
        self.channels = Ghost(self.channels@.insert(key, st));
        assert(self.data@ =~= before.update(i as int, self.data@[i as int]));
        assert forall|k2: Seq<char>| #[trigger]
            self.channels@.contains_key(k2) implies exists|j: int|
            0 <= j < self.data@.len() && (#[trigger] self.data@[j]).id@ == k2 by {
            let j = choose|j: int| 0 <= j < before.len() && (#[trigger] before[j]).id@ == k2;
            assert(self.data@[j].id@ == k2);
        }
        Some((a, b, t, c))
    }

    /// Sets a channel's counter to zero; an unknown id changes nothing.
    pub fn reset_counter(&mut self, uuid: String)
        requires
            old(self).wf(),
        ensures
            final(self).wf(),
            final(self).observer_len() == old(self).observer_len(),
            final(self).analysis_len() == old(self).analysis_len(),
            final(self).hist_len() == old(self).hist_len(),
            !old(self)@.contains_key(uuid@) ==> final(self)@ == old(self)@,
            old(self)@.contains_key(uuid@) ==> final(self)@ == old(self)@.insert(
                uuid@,
                ChannelState { counter: 0, ..old(self)@[uuid@] },
            ),
    {
        if let Some(i) = self.find(&uuid) {
            let ghost key = uuid@;
            let ghost before = self.data@;
            let mut slot = self.data.remove(i);
            slot.channel.datapoint_counter = 0;
            let ghost st = slot.channel.state();
            self.data.insert(i, slot);
            self.channels = Ghost(self.channels@.insert(key, st));
            assert(self.data@ =~= before.update(i as int, self.data@[i as int]));
            assert forall|k2: Seq<char>| #[trigger]
                self.channels@.contains_key(k2) implies exists|j: int|
                0 <= j < self.data@.len() && (#[trigger] self.data@[j]).id@ == k2 by {
                let j = choose|j: int| 0 <= j < before.len() && (#[trigger] before[j]).id@ == k2;
                assert(self.data@[j].id@ == k2);
            }
        }
    }
}

/// Appending no samples leaves a channel's history and counter as they were.
pub proof fn lemma_append_nothing(st: ChannelState)
    ensures
        appended(st, Seq::empty()) == st,
{
    assert(as_samples(Seq::empty()) =~= Seq::<Option<i32>>::empty());
}

} // verus!
