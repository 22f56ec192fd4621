//! One block of the audio stream: the sync word, the bias, the scale
//! factors of every channel and the quantized coefficients of the eight
//! sub-frames.

use crate::errors::{ErrorKind, ErrorView};
use crate::filetypes::bitreader::{peek_bits, ClData};
use crate::filetypes::channel::{spectrum, spectrum_pos, stage_one, Channel, ChannelView};
use vstd::prelude::*;
use vstd::slice::slice_to_vec;

verus! {

/// The error for a block that cannot be decoded.
pub open spec fn bad_block(message: Seq<char>) -> ErrorView {
    ErrorView { kind: ErrorKind::BadBlock, message }
}

/// Whether the channels fit the decoder for `groups` groups of sub-bands
/// above the coded ones: at most sixteen channels, each with its sub-bands
/// within the 128 of a sub-frame.
pub open spec fn decodable(channels: Seq<ChannelView>, groups: int) -> bool {
    &&& channels.len() <= 16
    &&& forall|i: int|
        0 <= i < channels.len() ==> {
            &&& (#[trigger] channels[i]).count <= 0x80
            &&& channels[i].kind != 2 ==> channels[i].value_3i + groups <= 0x80
        }
}

/// The channels after stage one has run on the first `k` of them, one after
/// the other, and the position after their bits.
pub open spec fn after_stage_one(
    channels: Seq<ChannelView>,
    data: Seq<u8>,
    size: int,
    pos: int,
    groups: int,
    bias: int,
    ath: Seq<u8>,
    k: nat,
) -> (Seq<ChannelView>, int)
    decreases k,
{
    if k == 0 {
        (channels, pos)
    } else {
        let (done, p) = after_stage_one(
            channels,
            data,
            size,
            pos,
            groups,
            bias,
            ath,
            (k - 1) as nat,
        );
        let (c, q) = stage_one(done[k - 1], data, size, p, groups, bias, ath);
        (done.update(k - 1, c), q)
    }
}

/// The position before the coefficients of channel `c` in sub-frame `f`,
/// where the coefficients of the block start at `start`: the sub-frames
/// follow each other, and in each the channels.
pub open spec fn frame_pos(
    channels: Seq<ChannelView>,
    data: Seq<u8>,
    size: int,
    start: int,
    f: nat,
    c: nat,
) -> int
    decreases f, c,
{
    if c > 0 {
        let ch = channels[c - 1];
        spectrum_pos(
            data,
            size,
            frame_pos(channels, data, size, start, f, (c - 1) as nat),
            ch.scale,
            ch.count as nat,
        )
    } else if f > 0 {
        frame_pos(channels, data, size, start, (f - 1) as nat, channels.len())
    } else {
        start
    }
}

/// The quantized coefficients of channel `c` in sub-frame `f`.
pub open spec fn frame_row(
    channels: Seq<ChannelView>,
    data: Seq<u8>,
    size: int,
    start: int,
    f: nat,
    c: nat,
) -> Seq<i32> {
    spectrum(
        data,
        size,
        frame_pos(channels, data, size, start, f, c),
        channels[c as int].scale,
        channels[c as int].count as int,
    )
}

/// What a decoded block gives: the channels as the block leaves them, and
/// the quantized coefficients by sub-frame and channel.
pub ghost struct BlockView {
    pub channels: Seq<ChannelView>,
    pub rows: Seq<Seq<Seq<i32>>>,
}

/// The views of a vector of channels.
pub open spec fn channel_views(channels: Seq<Channel>) -> Seq<ChannelView> {
    Seq::new(channels.len(), |i: int| channels[i]@)
}

/// The bias of a block: its 9-bit part, shifted by eight bits, less its
/// 7-bit part.
pub open spec fn block_bias(data: Seq<u8>, limit: int) -> int {
    peek_bits(data, limit, 16, 9) * 256 - peek_bits(data, limit, 25, 7)
}

/// What the bytes `data` of a block of `size` bytes, already put through the
/// cipher table, give for the given channels: nothing unless they start with
/// the sync word `0xFFFF`; else the channels after stage one, each with the
/// coefficients of the last sub-frame, and the coefficients of all eight.
pub open spec fn frames(
    channels: Seq<ChannelView>,
    data: Seq<u8>,
    size: u16,
    groups: int,
    ath: Seq<u8>,
) -> Option<BlockView> {
    let limit = size * 8 - 16;
    if peek_bits(data, limit, 0, 16) != 0xFFFF {
        None
    } else {
        let (staged, start) = after_stage_one(
            channels,
            data,
            limit,
            32,
            groups,
            block_bias(data, limit),
            ath,
            channels.len(),
        );
        Some(
            BlockView {
                channels: Seq::new(
                    staged.len(),
                    |c: int|
                        ChannelView {
                            block: frame_row(staged, data, limit, start, 7, c as nat),
                            ..staged[c]
                        },
                ),
                rows: Seq::new(
                    8,
                    |f: int|
                        Seq::new(
                            staged.len(),
                            |c: int| frame_row(staged, data, limit, start, f as nat, c as nat),
                        ),
                ),
            },
        )
    }
}

/// Stage one leaves the number of channels, and of each its kind and its
/// sub-band counts, as they were.
pub proof fn lemma_stage_one_keeps(
    channels: Seq<ChannelView>,
    data: Seq<u8>,
    size: int,
    pos: int,
    groups: int,
    bias: int,
    ath: Seq<u8>,
    k: nat,
)
    requires
        k <= channels.len(),
    ensures
        after_stage_one(channels, data, size, pos, groups, bias, ath, k).0.len() == channels.len(),
        forall|i: int|
            k <= i < channels.len() ==> after_stage_one(
                channels,
                data,
                size,
                pos,
                groups,
                bias,
                ath,
                k,
            ).0[i] == channels[i],
    decreases k,
{
    if k > 0 {
        lemma_stage_one_keeps(channels, data, size, pos, groups, bias, ath, (k - 1) as nat);
    }
}

/// Reads the block `data` of `block_size` bytes, already put through the
/// cipher table, into `channels`: stage one for every channel, then stage two
/// for every channel in each of the eight sub-frames. Returns the quantized
/// coefficients by sub-frame and channel, or nothing, with the channels
/// untouched, when the block does not start with the sync word.
pub fn decode_frames(
    channels: &mut Vec<Channel>,
    data: &[u8],
    block_size: u16,
    groups: u32,
    ath_table: &[u8; 0x80],
) -> (r: Option<Vec<Vec<[i32; 0x80]>>>)
    requires
        decodable(channel_views(old(channels)@), groups as int),
    ensures
        match r {
            Some(rows) => {
                &&& frames(
                    channel_views(old(channels)@),
                    data@,
                    block_size,
                    groups as int,
                    ath_table@,
                ) matches Some(b)
                &&& channel_views(final(channels)@) == b.channels
                &&& rows@.len() == 8
                &&& forall|f: int| 0 <= f < 8 ==> (#[trigger] rows@[f])@.len() == b.channels.len()
                &&& forall|f: int, c: int|
                    0 <= f < 8 && 0 <= c < b.channels.len() ==> (#[trigger] rows@[f]@[c])@
                        == b.rows[f][c]
            },
            None => {
                &&& frames(
                    channel_views(old(channels)@),
                    data@,
                    block_size,
                    groups as int,
                    ath_table@,
                ) is None
                &&& final(channels)@ == old(channels)@
            },
        },
{
    let ghost bytes = data@;
    let ghost limit = block_size * 8 - 16;
    let ghost before = channel_views(channels@);
    let mut reader = ClData::new(slice_to_vec(data), block_size as i32);
    let magic = reader.get_bit(16);
    if magic != 0xFFFF {
        return None;
    }
    let high = reader.get_bit(9);
    let low = reader.get_bit(7);
    let bias: i32 = (high * 256) as i32 - low as i32;
    assert(bias == block_bias(bytes, limit));
    let count = channels.len();
    let mut c: usize = 0;
    while c < count
        invariant
            c <= count,
            count == channels.len(),
            count == before.len(),
            decodable(before, groups as int),
            reader.bytes() == bytes,
            reader.limit() == limit,
            32 <= reader.position() <= 32 + 0x1000 * c,
            (channel_views(channels@), reader.position()) == after_stage_one(
                before,
                bytes,
                limit,
                32,
                groups as int,
                bias as int,
                ath_table@,
                c as nat,
            ),
            forall|k: int| c <= k < count ==> (#[trigger] channels@[k])@ == before[k],
            forall|k: int| 0 <= k < c ==> (#[trigger] channels@[k])@.wf(),
        decreases count - c,
    {
        let ghost done = channel_views(channels@);
        assert(done[c as int] == before[c as int]);
        channels[c].decode_one(&mut reader, groups, bias, ath_table.as_slice());
        assert(channel_views(channels@) =~= done.update(c as int, channels@[c as int]@));
        c += 1;
    }
    let ghost staged = channel_views(channels@);
    let ghost start = reader.position();
    let mut rows: Vec<Vec<[i32; 0x80]>> = Vec::new();
    let mut f: usize = 0;
    while f < 8
        invariant
            f <= 8,
            count == channels.len(),
            count == staged.len(),
            reader.bytes() == bytes,
            reader.limit() == limit,
            32 <= start <= 32 + 0x1000 * count,
            start <= reader.position() <= start + 0x800 * (16 * f),
            count <= 16,
            reader.position() == frame_pos(staged, bytes, limit, start, f as nat, 0),
            forall|k: int| 0 <= k < count ==> (#[trigger] staged[k]).wf(),
            forall|k: int|
                0 <= k < count ==> #[trigger] channels@[k]@ == (ChannelView {
                    block: channels@[k]@.block,
                    ..staged[k]
                }),
            f > 0 ==> forall|k: int|
                0 <= k < count ==> (#[trigger] channels@[k])@.block == frame_row(
                    staged,
                    bytes,
                    limit,
                    start,
                    (f - 1) as nat,
                    k as nat,
                ),
            rows@.len() == f,
            forall|g: int| 0 <= g < f ==> (#[trigger] rows@[g])@.len() == count,
            forall|g: int, k: int|
                0 <= g < f && 0 <= k < count ==> (#[trigger] rows@[g]@[k])@ == frame_row(
                    staged,
                    bytes,
                    limit,
                    start,
                    g as nat,
                    k as nat,
                ),
        decreases 8 - f,
    {
        let mut row: Vec<[i32; 0x80]> = Vec::new();
        let mut c: usize = 0;
        while c < count
            invariant
                c <= count,
                f < 8,
                count == channels.len(),
                count == staged.len(),
                reader.bytes() == bytes,
                reader.limit() == limit,
                32 <= start <= 32 + 0x1000 * count,
                start <= reader.position() <= start + 0x800 * (16 * f + c),
                count <= 16,
                reader.position() == frame_pos(staged, bytes, limit, start, f as nat, c as nat),
                forall|k: int| 0 <= k < count ==> (#[trigger] staged[k]).wf(),
                forall|k: int|
                    0 <= k < count ==> #[trigger] channels@[k]@ == (ChannelView {
                        block: channels@[k]@.block,
                        ..staged[k]
                    }),
                forall|k: int|
                    0 <= k < c ==> (#[trigger] channels@[k])@.block == frame_row(
                        staged,
                        bytes,
                        limit,
                        start,
                        f as nat,
                        k as nat,
                    ),
                row@.len() == c,
                forall|k: int|
                    0 <= k < c ==> (#[trigger] row@[k])@ == frame_row(
                        staged,
                        bytes,
                        limit,
                        start,
                        f as nat,
                        k as nat,
                    ),
            decreases count - c,
        {
            let ghost done = channels@;
            assert(staged[c as int].wf());
            assert(done[c as int]@.wf());
            channels[c].decode_two(&mut reader);
            assert(forall|k: int| 0 <= k < count && k != c ==> channels@[k] == done[k]);
            row.push(*channels[c].block());
            c += 1;
        }
        rows.push(row);
        f += 1;
    }
    proof {
        lemma_stage_one_keeps(
            before,
            bytes,
            limit,
            32,
            groups as int,
            bias as int,
            ath_table@,
            count as nat,
        );
        let b = frames(before, bytes, block_size, groups as int, ath_table@)->0;
        assert(channel_views(channels@) =~= b.channels);
    }
    Some(rows)
}

} // verus!
