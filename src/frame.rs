use vstd::prelude::*;
use vstd::string::*;

use crate::codec::le16;
use crate::model::{channel_views, Channel, ChannelType, ChannelView};

verus! {

/// Length of a data notification in bytes.
pub const DATA_FRAME_LEN: usize = 25;

/// Which channels a device streams.
#[derive(Debug, Clone, Copy, PartialEq, Eq, Structural)]
pub enum ChannelLayout {
    /// An ECG channel followed by PPG green, red and infrared.
    EcgAndPpg,
    /// PPG green, red and infrared only.
    PpgOnly,
}

/// Why a data frame was not decoded.
#[derive(Debug, Clone, Copy, PartialEq, Eq, Structural)]
pub enum FrameError {
    /// The frame is not 25 bytes long.
    WrongLength,
}

/// The layout a first frame shows: the ECG slot of all three tuples (bytes 1, 2,
/// 9, 10, 17 and 18) all zero means the device has no ECG.
pub open spec fn layout_of(b: Seq<u8>) -> ChannelLayout {
    if b[1] == 0 && b[2] == 0 && b[9] == 0 && b[10] == 0 && b[17] == 0 && b[18] == 0 {
        ChannelLayout::PpgOnly
    } else {
        ChannelLayout::EcgAndPpg
    }
}

/// Infers the channel layout from a device's first data frame.
pub fn infer_layout(first_data: &[u8]) -> (r: Result<ChannelLayout, FrameError>)
    ensures
        first_data@.len() != 25 ==> r == Err::<ChannelLayout, FrameError>(FrameError::WrongLength),
        first_data@.len() == 25 ==> r == Ok::<ChannelLayout, FrameError>(layout_of(first_data@)),
{
    if first_data.len() != DATA_FRAME_LEN {
        return Err(FrameError::WrongLength);
    }
    if first_data[1] == 0 && first_data[2] == 0 && first_data[9] == 0 && first_data[10] == 0
        && first_data[17] == 0 && first_data[18] == 0 {
        Ok(ChannelLayout::PpgOnly)
    } else {
        Ok(ChannelLayout::EcgAndPpg)
    }
}

/// The frame slots (0 for ECG, 1 to 3 for PPG green, red, infrared) that the
/// channels of a layout read, in channel order.
pub open spec fn layout_slots(layout: ChannelLayout) -> Seq<int> {
    match layout {
        ChannelLayout::EcgAndPpg => seq![0, 1, 2, 3],
        ChannelLayout::PpgOnly => seq![1, 2, 3],
    }
}

/// The name of the channel that reads a slot.
pub open spec fn slot_name(slot: int) -> Seq<char> {
    if slot == 0 {
        seq!['E', 'C', 'G']
    } else if slot == 1 {
        seq!['P', 'P', 'G', ' ', 'g', 'r', 'e', 'e', 'n']
    } else if slot == 2 {
        seq!['P', 'P', 'G', ' ', 'r', 'e', 'd']
    } else {
        seq!['P', 'P', 'G', ' ', 'I', 'R']
    }
}

/// The id of a device's channel of ordinal `k` (0 to 3): the device id, a dash and
/// the ordinal.
pub open spec fn channel_id(device: Seq<char>, k: int) -> Seq<char> {
    device + seq!['-', if k == 0 {
        '0'
    } else if k == 1 {
        '1'
    } else if k == 2 {
        '2'
    } else {
        '3'
    }]
}

/// The channel records of a device of layout `layout`, none yet analysed.
pub open spec fn layout_channels(device: Seq<char>, layout: ChannelLayout) -> Seq<ChannelView> {
    let slots = layout_slots(layout);
    Seq::new(
        slots.len(),
        |k: int|
            ChannelView {
                id: channel_id(device, k),
                name: slot_name(slots[k]),
                channel_type: if slots[k] == 0 {
                    ChannelType::ECG
                } else {
                    ChannelType::PPG
                },
                signal_quality: None,
            },
    )
}

fn make_channel(device: &String, suffix: &str, name: &str, channel_type: ChannelType) -> (r: Channel)
    ensures
        r@ == (ChannelView {
            id: device@ + suffix@,
            name: name@,
            channel_type,
            signal_quality: None,
        }),
{
    Channel {
        id: device.clone().concat(suffix),
        name: String::from_str(name),
        channel_type,
        signal_quality: None,
    }
}

/// The channel records of a device, in the order its frames carry them.
pub fn create_channels(device: &String, layout: ChannelLayout) -> (r: Vec<Channel>)
    ensures
        channel_views(r@) == layout_channels(device@, layout),
{
    proof {
        reveal_strlit("-0");
        reveal_strlit("-1");
        reveal_strlit("-2");
        reveal_strlit("-3");
        reveal_strlit("ECG");
        reveal_strlit("PPG green");
        reveal_strlit("PPG red");
        reveal_strlit("PPG IR");
        assert("-0"@ =~= seq!['-', '0']);
        assert("-1"@ =~= seq!['-', '1']);
        assert("-2"@ =~= seq!['-', '2']);
        assert("-3"@ =~= seq!['-', '3']);
        assert("ECG"@ =~= slot_name(0));
        assert("PPG green"@ =~= slot_name(1));
        assert("PPG red"@ =~= slot_name(2));
        assert("PPG IR"@ =~= slot_name(3));
    }
    let mut r: Vec<Channel> = Vec::new();
    match layout {
        ChannelLayout::EcgAndPpg => {
            r.push(make_channel(device, "-0", "ECG", ChannelType::ECG));
            r.push(make_channel(device, "-1", "PPG green", ChannelType::PPG));
            r.push(make_channel(device, "-2", "PPG red", ChannelType::PPG));
            r.push(make_channel(device, "-3", "PPG IR", ChannelType::PPG));
        },
        ChannelLayout::PpgOnly => {
            r.push(make_channel(device, "-0", "PPG green", ChannelType::PPG));
            r.push(make_channel(device, "-1", "PPG red", ChannelType::PPG));
            r.push(make_channel(device, "-2", "PPG IR", ChannelType::PPG));
        },
    }
    assert(channel_views(r@) =~= layout_channels(device@, layout));
    r
}

/// The sample of frame slot `slot` in tuple `tuple` (0 to 2): the ECG slot is a
/// signed 16-bit value, the PPG slots unsigned, all little-endian.
pub open spec fn sample_at(b: Seq<u8>, tuple: int, slot: int) -> i32 {
    let v = le16(b[1 + 8 * tuple + 2 * slot], b[2 + 8 * tuple + 2 * slot]);
    if slot == 0 && v >= 32768 {
        (v - 65536) as i32
    } else {
        v as i32
    }
}

/// The three samples of one slot, oldest first.
pub open spec fn slot_samples(b: Seq<u8>, slot: int) -> Seq<i32> {
    seq![sample_at(b, 0, slot), sample_at(b, 1, slot), sample_at(b, 2, slot)]
}

/// What a 25-byte frame holds for each channel of a layout, in channel order.
pub open spec fn frame_samples(device: Seq<char>, layout: ChannelLayout, b: Seq<u8>) -> Seq<
    (Seq<char>, Seq<i32>),
> {
    let slots = layout_slots(layout);
    Seq::new(slots.len(), |k: int| (channel_id(device, k), slot_samples(b, slots[k])))
}

/// Channel samples as plain values.
pub open spec fn samples_view(r: Seq<(String, Vec<i32>)>) -> Seq<(Seq<char>, Seq<i32>)> {
    r.map_values(|e: (String, Vec<i32>)| (e.0@, e.1@))
}

fn read_slot(value: &[u8], slot: usize) -> (r: Vec<i32>)
    requires
        value@.len() == 25,
        slot < 4,
    ensures
        r@ == slot_samples(value@, slot as int),
{
    let mut r: Vec<i32> = Vec::new();
    let mut tuple: usize = 0;
    while tuple < 3
        invariant
            value@.len() == 25,
            slot < 4,
            tuple <= 3,
            r@ == slot_samples(value@, slot as int).subrange(0, tuple as int),
        decreases 3 - tuple,
    {
        let at = 1 + 8 * tuple + 2 * slot;
        let v: u32 = value[at] as u32 + 256 * value[at + 1] as u32;
        let s: i32 = if slot == 0 && v >= 32768 {
            (v as i32) - 65536
        } else {
            v as i32
        };
        r.push(s);
        tuple += 1;
        assert(r@ =~= slot_samples(value@, slot as int).subrange(0, tuple as int));
    }
    assert(slot_samples(value@, slot as int).subrange(0, 3) =~= slot_samples(value@, slot as int));
    r
}

/// Decodes a data notification into the samples of each channel of the device.
pub fn decode_frame(device: &String, layout: ChannelLayout, value: &[u8]) -> (r: Result<
    Vec<(String, Vec<i32>)>,
    FrameError,
>)
    ensures
        value@.len() != 25 ==> r == Err::<Vec<(String, Vec<i32>)>, FrameError>(FrameError::WrongLength),
        value@.len() == 25 ==> r is Ok && samples_view(r->Ok_0@) == frame_samples(device@, layout, value@),
{
    if value.len() != DATA_FRAME_LEN {
        return Err(FrameError::WrongLength);
    }
    let channels = create_channels(device, layout);
    let first_slot: usize = match layout {
        ChannelLayout::EcgAndPpg => 0,
        ChannelLayout::PpgOnly => 1,
    };
    let mut r: Vec<(String, Vec<i32>)> = Vec::new();
    let mut k: usize = 0;
    assert(channels@.len() == channel_views(channels@).len());
    while k < channels.len()
        invariant
            value@.len() == 25,
            channels@.len() == layout_slots(layout).len(),
            channel_views(channels@) == layout_channels(device@, layout),
            first_slot == layout_slots(layout)[0],
            forall|j: int| 0 <= j < layout_slots(layout).len() ==> layout_slots(layout)[j] == first_slot + j,
            k <= channels@.len(),
            r@.len() == k,
            samples_view(r@) == frame_samples(device@, layout, value@).subrange(0, k as int),
        decreases channels@.len() - k,
    {
        assert(channel_views(channels@)[k as int] == channels@[k as int]@);
        let samples = read_slot(value, first_slot + k);
        let ghost before = r@;
        r.push((channels[k].id.clone(), samples));
        assert(samples_view(r@)[k as int] == frame_samples(device@, layout, value@)[k as int]);
        assert forall|j: int| 0 <= j < k implies samples_view(r@)[j] == #[trigger] samples_view(
            before,
        )[j] by {
            assert(r@[j] == before[j]);
        }
        k += 1;
        assert(samples_view(r@) =~= frame_samples(device@, layout, value@).subrange(0, k as int));
    }
    assert(frame_samples(device@, layout, value@).subrange(0, k as int) =~= frame_samples(
        device@,
        layout,
        value@,
    ));
    Ok(r)
}

} // verus!
