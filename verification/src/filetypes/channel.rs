//! The integer state of one audio channel, and the two stages of block
//! decoding that read the bit stream.

use crate::errors::{ErrorKind, ErrorView, GICSError, GICSResult};
use crate::filetypes::bitreader::{peek_bits, two_to, ClData, POW2};
use crate::filetypes::tables::{CODE_BITS, CODE_LENGTH, CODE_VALUE, SCALE_LIST};
use vstd::prelude::*;

verus! {

/// What a channel holds between two stages of decoding.
pub struct Channel {
    value: [i8; 0x80],
    scale: [u8; 0x80],
    value2: [u8; 8],
    kind: u8,
    value_3i: u32,
    count: u32,
    block: [i32; 0x80],
}

/// The mathematical content of a [`Channel`].
pub ghost struct ChannelView {
    /// Scale-factor index of each sub-band.
    pub value: Seq<i8>,
    /// Quantizer resolution of each sub-band.
    pub scale: Seq<u8>,
    /// Intensity indices of the eight sub-frames (secondary channels only).
    pub value2: Seq<u8>,
    /// `0` regular, `1` primary of a stereo pair, `2` secondary of one.
    pub kind: u8,
    /// First sub-band above the coded ones.
    pub value_3i: u32,
    /// Number of coded sub-bands.
    pub count: u32,
    /// Quantized coefficients of the sub-frame decoded last.
    pub block: Seq<i32>,
}

impl View for Channel {
    type V = ChannelView;

    closed spec fn view(&self) -> ChannelView {
        ChannelView {
            value: self.value@,
            scale: self.scale@,
            value2: self.value2@,
            kind: self.kind,
            value_3i: self.value_3i,
            count: self.count,
            block: self.block@,
        }
    }
}

impl ChannelView {
    /// The channel before anything was decoded.
    pub open spec fn zeroed() -> ChannelView {
        ChannelView {
            value: Seq::new(0x80, |i: int| 0i8),
            scale: Seq::new(0x80, |i: int| 0u8),
            value2: Seq::new(8, |i: int| 0u8),
            kind: 0,
            value_3i: 0,
            count: 0,
            block: Seq::new(0x80, |i: int| 0i32),
        }
    }

    /// What stage two relies on: the coded sub-bands fit the arrays and
    /// every resolution indexes the code tables.
    pub open spec fn wf(self) -> bool {
        &&& self.count <= 0x80
        &&& forall|i: int| 0 <= i < 0x80 ==> #[trigger] self.scale[i] <= 15
    }
}

impl Channel {
    /// A channel with every field zero.
    pub fn new() -> (c: Self)
        ensures
            c@ == ChannelView::zeroed(),
            c@.wf(),
    {
        let c = Self {
            value: [0; 0x80],
            scale: [0; 0x80],
            value2: [0; 8],
            kind: 0,
            value_3i: 0,
            count: 0,
            block: [0; 0x80],
        };
        assert(c@.value =~= ChannelView::zeroed().value);
        assert(c@.scale =~= ChannelView::zeroed().scale);
        assert(c@.value2 =~= ChannelView::zeroed().value2);
        assert(c@.block =~= ChannelView::zeroed().block);
        c
    }

    /// Sets what the header decides of a channel: its kind and its sub-band
    /// counts.
    pub fn configure(&mut self, kind: u8, value_3i: u32, count: u32)
        ensures
            final(self)@ == (ChannelView { kind, value_3i, count, ..old(self)@ }),
    {
        self.kind = kind;
        self.value_3i = value_3i;
        self.count = count;
    }

    pub fn kind(&self) -> (r: u8)
        ensures
            r == self@.kind,
    {
        self.kind
    }

    pub fn value_3i(&self) -> (r: u32)
        ensures
            r == self@.value_3i,
    {
        self.value_3i
    }

    pub fn count(&self) -> (r: u32)
        ensures
            r == self@.count,
    {
        self.count
    }

    pub fn value(&self) -> (r: &[i8; 0x80])
        ensures
            r@ == self@.value,
    {
        &self.value
    }

    pub fn scale(&self) -> (r: &[u8; 0x80])
        ensures
            r@ == self@.scale,
    {
        &self.scale
    }

    pub fn value2(&self) -> (r: &[u8; 8])
        ensures
            r@ == self@.value2,
    {
        &self.value2
    }

    pub fn block(&self) -> (r: &[i32; 0x80])
        ensures
            r@ == self@.block,
    {
        &self.block
    }
}

// ---------------------------------------------------------------------------
// Stage one: scale factors
// ---------------------------------------------------------------------------

/// The 8-bit two's complement value that an integer wraps to.
pub open spec fn wrap_i8(v: int) -> i8 {
    (((v + 128) % 256) - 128) as i8
}

/// Half of `x`, rounded toward zero.
pub open spec fn half_toward_zero(x: int) -> int {
    if x >= 0 {
        x / 2
    } else {
        -((-x) / 2)
    }
}

/// One step of delta coding, `width` bits wide, at the position `p` with the
/// running value `v`: the position and the running value after it. A step
/// whose bits are all ones announces a plain 6-bit value; any other step
/// moves the running value by its bits less half the range.
pub open spec fn delta_next(data: Seq<u8>, size: int, width: int, p: int, v: int) -> (int, int) {
    let d = peek_bits(data, size, p, width);
    let escape = two_to(width) - 1;
    if d == escape {
        (p + width + 6, peek_bits(data, size, p + width, 6))
    } else {
        (p + width, v + d - escape / 2)
    }
}

/// Delta coding of the scale factors, `width` bits per step, from the bit
/// `start`: the position after sub-band `i` and the running value there.
pub open spec fn delta_state(data: Seq<u8>, size: int, start: int, width: int, i: nat) -> (
    int,
    int,
)
    decreases i,
{
    if i == 0 {
        (start + 6, peek_bits(data, size, start, 6))
    } else {
        let (p, v) = delta_state(data, size, start, width, (i - 1) as nat);
        delta_next(data, size, width, p, v)
    }
}

/// The scale-factor indices that the bits from `pos` on code for `count`
/// sub-bands, and the position after them. A 3-bit mode comes first: six and
/// above, plain 6-bit values; zero, all indices zero; otherwise delta coding
/// with that many bits per step.
pub open spec fn factors(data: Seq<u8>, size: int, pos: int, count: int, before: Seq<i8>) -> (
    Seq<i8>,
    int,
) {
    let mode = peek_bits(data, size, pos, 3);
    if mode >= 6 {
        (
            Seq::new(
                0x80,
                |i: int|
                    if i < count {
                        peek_bits(data, size, pos + 3 + 6 * i, 6) as i8
                    } else {
                        before[i]
                    },
            ),
            pos + 3 + 6 * count,
        )
    } else if mode == 0 {
        (Seq::new(0x80, |i: int| 0i8), pos + 3)
    } else {
        let last = if count > 0 {
            (count - 1) as nat
        } else {
            0
        };
        (
            Seq::new(
                0x80,
                |i: int|
                    if i <= last {
                        wrap_i8(delta_state(data, size, pos + 3, mode, i as nat).1)
                    } else {
                        before[i]
                    },
            ),
            delta_state(data, size, pos + 3, mode, last).0,
        )
    }
}

/// What follows the scale factors: for a secondary channel, eight 4-bit
/// intensity indices, unless the first reads fifteen, which alone is kept and
/// not consumed; for any other channel, `groups` 6-bit indices for the
/// sub-bands from `value_3i` on.
pub open spec fn extras(
    data: Seq<u8>,
    size: int,
    pos: int,
    kind: u8,
    value_3i: int,
    groups: int,
    value: Seq<i8>,
    value2: Seq<u8>,
) -> (Seq<i8>, Seq<u8>, int) {
    if kind == 2 {
        let first = peek_bits(data, size, pos, 4);
        if first < 15 {
            (value, Seq::new(8, |i: int| peek_bits(data, size, pos + 4 * i, 4) as u8), pos + 32)
        } else {
            (value, value2.update(0, first as u8), pos)
        }
    } else {
        (
            Seq::new(
                0x80,
                |j: int|
                    if value_3i <= j < value_3i + groups {
                        peek_bits(data, size, pos + 6 * (j - value_3i), 6) as i8
                    } else {
                        value[j]
                    },
            ),
            value2,
            pos + 6 * groups,
        )
    }
}

/// The quantizer resolution of sub-band `i`: none for a zero index;
/// otherwise the masking level `ath + (bias + i) / 256 - 5 value / 2 + 1`,
/// where a negative level gives 15, one above `0x38` gives 1, and any other
/// is looked up.
pub open spec fn resolution(value: i8, ath: u8, bias: int, i: int) -> u8 {
    if value == 0 {
        0
    } else {
        let level = ath + (bias + i) / 256 - half_toward_zero(value * 5) + 1;
        if level < 0 {
            15
        } else if level >= 0x39 {
            1
        } else {
            SCALE_LIST@[level]
        }
    }
}

/// The channel after stage one, and the position after its bits.
pub open spec fn stage_one(
    c: ChannelView,
    data: Seq<u8>,
    size: int,
    pos: int,
    groups: int,
    bias: int,
    ath: Seq<u8>,
) -> (ChannelView, int) {
    let (v1, mid) = factors(data, size, pos, c.count as int, c.value);
    let (v2, w2, end) = extras(data, size, mid, c.kind, c.value_3i as int, groups, v1, c.value2);
    (
        ChannelView {
            value: v2,
            value2: w2,
            scale: Seq::new(
                0x80,
                |i: int|
                    if i < c.count {
                        resolution(v2[i], ath[i], bias, i)
                    } else {
                        0u8
                    },
            ),
            ..c
        },
        end,
    )
}

// ---------------------------------------------------------------------------
// Stage two: quantized coefficients
// ---------------------------------------------------------------------------

/// The coefficient coded at `pos` for a sub-band of resolution `s`, and the
/// position after it. Below resolution 8 a prefix code is looked up and only
/// its own length is consumed; from 8 on the lowest bit is the sign and the
/// others the magnitude, and a zero gives its sign bit back.
pub open spec fn code_step(data: Seq<u8>, size: int, pos: int, s: u8) -> (int, int) {
    let n = CODE_BITS@[s as int] as int;
    let v = peek_bits(data, size, pos, n);
    if s < 8 {
        let idx = v + 16 * s;
        (CODE_VALUE@[idx] as int, pos + CODE_LENGTH@[idx])
    } else {
        let q = if v % 2 == 1 {
            -(v / 2)
        } else {
            v / 2
        };
        (
            q,
            if q == 0 {
                pos + n - 1
            } else {
                pos + n
            },
        )
    }
}

/// The position before the coefficient of sub-band `i`, when the
/// coefficients start at `pos`.
pub open spec fn spectrum_pos(data: Seq<u8>, size: int, pos: int, scale: Seq<u8>, i: nat) -> int
    decreases i,
{
    if i == 0 {
        pos
    } else {
        code_step(
            data,
            size,
            spectrum_pos(data, size, pos, scale, (i - 1) as nat),
            scale[i - 1],
        ).1
    }
}

/// The quantized coefficients of one sub-frame: those of the `count` coded
/// sub-bands, then zeros.
pub open spec fn spectrum(data: Seq<u8>, size: int, pos: int, scale: Seq<u8>, count: int) -> Seq<
    i32,
> {
    Seq::new(
        0x80,
        |i: int|
            if i < count {
                code_step(data, size, spectrum_pos(data, size, pos, scale, i as nat), scale[i]).0 as i32
            } else {
                0i32
            },
    )
}

/// The farthest a reader may stand for the decoding stages to move it
/// without leaving the range of its cursor.
pub const CURSOR_LIMIT: i64 = 0x4000_0000_0000_0000;

/// The running value of delta coding stays within fifteen per sub-band of
/// the range of a plain value, and the cursor within eleven bits per
/// sub-band.
proof fn lemma_delta_bounds(data: Seq<u8>, size: int, start: int, width: int, i: nat)
    requires
        1 <= width <= 5,
    ensures
        -15 * i <= delta_state(data, size, start, width, i).1 <= 63 + 15 * i,
        start + 6 <= delta_state(data, size, start, width, i).0 <= start + 6 + 11 * i,
    decreases i,
{
    crate::filetypes::bitreader::lemma_peek_bound(data, size, start, 6);
    if i > 0 {
        lemma_delta_bounds(data, size, start, width, (i - 1) as nat);
        let (p, v) = delta_state(data, size, start, width, (i - 1) as nat);
        crate::filetypes::bitreader::lemma_peek_bound(data, size, p, width);
        crate::filetypes::bitreader::lemma_peek_bound(data, size, p + width, 6);
    }
}

/// The 8-bit two's complement value that `v` wraps to.
fn wrap(v: i32) -> (r: i8)
    requires
        -0x1000 <= v <= 0x1000,
    ensures
        r == wrap_i8(v as int),
{
    (((v + 128 + 0x1000) % 256) - 128) as i8
}

/// Reads one step of delta coding.
fn delta_step(data: &mut ClData, width: u32, v: i32) -> (r: i32)
    requires
        1 <= width <= 5,
        -0x800 <= v <= 0x800,
        -CURSOR_LIMIT <= old(data).position() <= CURSOR_LIMIT + 0x1000,
    ensures
        (final(data).position(), r as int) == delta_next(
            old(data).bytes(),
            old(data).limit(),
            width as int,
            old(data).position(),
            v as int,
        ),
        final(data).bytes() == old(data).bytes(),
        final(data).limit() == old(data).limit(),
{
    let escape: u32 = POW2[width as usize] - 1;
    let d = data.get_bit(width);
    if d == escape {
        data.get_bit(6) as i32
    } else {
        v + d as i32 - (escape / 2) as i32
    }
}

impl Channel {
    /// Stage one: reads the scale factors of the channel from `data` and
    /// derives the quantizer resolution of every coded sub-band, for `a`
    /// groups of sub-bands above the coded ones, the bias `b` of the block and
    /// the hearing thresholds `ath_table`.
    pub fn decode_one(&mut self, data: &mut ClData, a: u32, b: i32, ath_table: &[u8])
        requires
            old(self)@.count <= 0x80,
            old(self)@.kind != 2 ==> old(self)@.value_3i + a <= 0x80,
            ath_table.len() >= old(self)@.count,
            -CURSOR_LIMIT <= old(data).position() <= CURSOR_LIMIT,
        ensures
            (final(self)@, final(data).position()) == stage_one(
                old(self)@,
                old(data).bytes(),
                old(data).limit(),
                old(data).position(),
                a as int,
                b as int,
                ath_table@,
            ),
            final(data).bytes() == old(data).bytes(),
            final(data).limit() == old(data).limit(),
            old(data).position() <= final(data).position() <= old(data).position() + 0x1000,
            final(self)@.wf(),
    {
        let ghost bytes = data.bytes();
        let ghost size = data.limit();
        let ghost pos = data.position();
        let count = self.count as usize;
        let mut value: [i8; 0x80] = self.value;
        let mode = data.get_bit(3);
        if mode >= 6 {
            let mut i: usize = 0;
            while i < count
                invariant
                    i <= count <= 0x80,
                    data.bytes() == bytes,
                    data.limit() == size,
                    data.position() == pos + 3 + 6 * i,
                    -CURSOR_LIMIT <= pos <= CURSOR_LIMIT,
                    forall|k: int|
                        0 <= k < i ==> value@[k] == peek_bits(bytes, size, pos + 3 + 6 * k, 6) as i8,
                    forall|k: int| i <= k < 0x80 ==> value@[k] == old(self)@.value[k],
                decreases count - i,
            {
                let v = data.get_bit(6);
                value[i] = v as i8;
                i += 1;
            }
            assert(value@ =~= factors(bytes, size, pos, count as int, old(self)@.value).0);
        } else if mode != 0 {
            let mut v1: i32 = data.get_bit(6) as i32;
            value[0] = v1 as i8;
            let mut i: usize = 1;
            proof {
                lemma_delta_bounds(bytes, size, pos + 3, mode as int, 0);
            }
            while i < count
                invariant
                    1 <= i <= 0x80,
                    i <= count || (count == 0 && i == 1),
                    count <= 0x80,
                    1 <= mode <= 5,
                    data.bytes() == bytes,
                    data.limit() == size,
                    -CURSOR_LIMIT <= pos <= CURSOR_LIMIT,
                    (data.position(), v1 as int) == delta_state(
                        bytes,
                        size,
                        pos + 3,
                        mode as int,
                        (i - 1) as nat,
                    ),
                    forall|k: int|
                        0 <= k < i ==> value@[k] == wrap_i8(
                            delta_state(bytes, size, pos + 3, mode as int, k as nat).1,
                        ),
                    forall|k: int| i <= k < 0x80 ==> value@[k] == old(self)@.value[k],
                decreases 0x80 - i,
            {
                proof {
                    lemma_delta_bounds(bytes, size, pos + 3, mode as int, (i - 1) as nat);
                    lemma_delta_bounds(bytes, size, pos + 3, mode as int, i as nat);
                }
                v1 = delta_step(data, mode, v1);
                value[i] = wrap(v1);
                i += 1;
            }
            proof {
                lemma_delta_bounds(bytes, size, pos + 3, mode as int, (i - 1) as nat);
            }
            assert(value@ =~= factors(bytes, size, pos, count as int, old(self)@.value).0);
            assert(data.position() == factors(bytes, size, pos, count as int, old(self)@.value).1);
        } else {
            value = [0; 0x80];
            assert(value@ =~= factors(bytes, size, pos, count as int, old(self)@.value).0);
        }
        let ghost (v1s, mid) = factors(bytes, size, pos, count as int, old(self)@.value);
        assert(value@ =~= v1s);
        assert(data.position() == mid);
        assert(pos + 3 <= mid <= pos + 3 + 6 + 11 * 0x80);
        let mut value2: [u8; 8] = self.value2;
        if self.kind == 2 {
            let first = data.check_bit(4);
            value2[0] = first as u8;
            if first < 15 {
                let mut i: usize = 0;
                while i < 8
                    invariant
                        i <= 8,
                        data.bytes() == bytes,
                        data.limit() == size,
                        data.position() == mid + 4 * i,
                        -CURSOR_LIMIT <= mid <= CURSOR_LIMIT + 0x800,
                        forall|k: int|
                            0 <= k < i ==> value2@[k] == peek_bits(bytes, size, mid + 4 * k, 4) as u8,
                    decreases 8 - i,
                {
                    value2[i] = data.get_bit(4) as u8;
                    i += 1;
                }
            }
        } else {
            let base = self.value_3i as usize;
            let mut i: usize = 0;
            while i < a as usize
                invariant
                    i <= a,
                    base + a <= 0x80,
                    data.bytes() == bytes,
                    data.limit() == size,
                    data.position() == mid + 6 * i,
                    -CURSOR_LIMIT <= mid <= CURSOR_LIMIT + 0x800,
                    forall|j: int|
                        base <= j < base + i ==> value@[j] == peek_bits(
                            bytes,
                            size,
                            mid + 6 * (j - base),
                            6,
                        ) as i8,
                    forall|j: int| 0 <= j < 0x80 && !(base <= j < base + i) ==> value@[j] == v1s[j],
                decreases a - i,
            {
                value[base + i] = data.get_bit(6) as i8;
                i += 1;
            }
        }
        let ghost (v2s, w2s, end) = extras(
            bytes,
            size,
            mid,
            old(self)@.kind,
            old(self)@.value_3i as int,
            a as int,
            v1s,
            old(self)@.value2,
        );
        assert(value@ =~= v2s);
        assert(value2@ =~= w2s);
        assert(data.position() == end);
        let mut scale: [u8; 0x80] = [0; 0x80];
        let mut i: usize = 0;
        while i < count
            invariant
                i <= count <= 0x80,
                ath_table.len() >= count,
                forall|k: int|
                    0 <= k < i ==> scale@[k] == resolution(value@[k], ath_table@[k], b as int, k),
                forall|k: int| i <= k < 0x80 ==> scale@[k] == 0,
                forall|k: int| 0 <= k < 0x80 ==> #[trigger] scale@[k] <= 15,
            decreases count - i,
        {
            let v: i32 = value[i] as i32;
            let s: u8 = if v != 0 {
                let t: i64 = b as i64 + i as i64;
                let shifted: i64 = if t >= 0 {
                    t / 256
                } else {
                    -((-t + 255) / 256)
                };
                let x: i32 = v * 5;
                let halved: i32 = if x >= 0 {
                    x / 2
                } else {
                    -((-x) / 2)
                };
                let level: i64 = ath_table[i] as i64 + shifted - halved as i64 + 1;
                if level < 0 {
                    15
                } else if level >= 0x39 {
                    1
                } else {
                    SCALE_LIST[level as usize]
                }
            } else {
                0
            };
            scale[i] = s;
            i += 1;
        }
        self.value = value;
        self.value2 = value2;
        self.scale = scale;
        assert(self@.scale =~= stage_one(
            old(self)@,
            bytes,
            size,
            pos,
            a as int,
            b as int,
            ath_table@,
        ).0.scale);
    }

    /// Stage two: reads the quantized coefficients of one sub-frame from
    /// `data`.
    pub fn decode_two(&mut self, data: &mut ClData)
        requires
            old(self)@.wf(),
            -CURSOR_LIMIT <= old(data).position() <= CURSOR_LIMIT,
        ensures
            final(self)@ == (ChannelView {
                block: spectrum(
                    old(data).bytes(),
                    old(data).limit(),
                    old(data).position(),
                    old(self)@.scale,
                    old(self)@.count as int,
                ),
                ..old(self)@
            }),
            final(data).position() == spectrum_pos(
                old(data).bytes(),
                old(data).limit(),
                old(data).position(),
                old(self)@.scale,
                old(self)@.count as nat,
            ),
            final(data).bytes() == old(data).bytes(),
            final(data).limit() == old(data).limit(),
            old(data).position() <= final(data).position() <= old(data).position() + 0x800,
    {
        let ghost bytes = data.bytes();
        let ghost size = data.limit();
        let ghost pos = data.position();
        let ghost scales = self@.scale;
        let count = self.count as usize;
        let mut block: [i32; 0x80] = [0; 0x80];
        let mut i: usize = 0;
        while i < count
            invariant
                i <= count <= 0x80,
                scales == self.scale@,
                forall|k: int| 0 <= k < 0x80 ==> #[trigger] scales[k] <= 15,
                data.bytes() == bytes,
                data.limit() == size,
                -CURSOR_LIMIT <= pos <= CURSOR_LIMIT,
                data.position() == spectrum_pos(bytes, size, pos, scales, i as nat),
                pos <= data.position() <= pos + 12 * i,
                forall|k: int|
                    0 <= k < i ==> block@[k] == code_step(
                        bytes,
                        size,
                        spectrum_pos(bytes, size, pos, scales, k as nat),
                        scales[k],
                    ).0 as i32,
                forall|k: int| i <= k < 0x80 ==> block@[k] == 0,
            decreases count - i,
        {
            let s: u8 = self.scale[i];
            assert(s == scales[i as int]);
            let bit_size: u8 = CODE_BITS[s as usize];
            let v: u32 = data.get_bit(bit_size as u32);
            let q: i32 = if s < 8 {
                let idx: usize = v as usize + 16 * (s as usize);
                assert(v < 16) by {
                    assert(bit_size <= 4);
                }
                data.add_bit(CODE_LENGTH[idx] as i32 - bit_size as i32);
                CODE_VALUE[idx] as i32
            } else {
                let magnitude: i32 = (v / 2) as i32;
                let q: i32 = if v % 2 == 1 {
                    -magnitude
                } else {
                    magnitude
                };
                if q == 0 {
                    data.add_bit(-1);
                }
                q
            };
            block[i] = q;
            i += 1;
        }
        self.block = block;
        assert(self@.block =~= spectrum(bytes, size, pos, scales, count as int));
    }
}

// ---------------------------------------------------------------------------
// Stages three and four: which coefficients are rebuilt from which
// ---------------------------------------------------------------------------

/// One coefficient of a high sub-band: it is the coefficient of the sub-band
/// `source`, times the entry `ratio` of the table of ratios.
#[derive(Clone, Copy, Debug, PartialEq, Eq, Structural)]
pub struct HighBand {
    pub target: usize,
    pub source: usize,
    pub ratio: usize,
}

/// The sub-bands that share the coefficients of a stereo pair: `count`
/// sub-bands from `first` on, weighted by the entry `ratio` of the table of
/// intensities.
#[derive(Clone, Copy, Debug, PartialEq, Eq, Structural)]
pub struct Intensity {
    pub ratio: usize,
    pub first: usize,
    pub count: usize,
}

/// The number of sub-bands that one group rebuilds: `beta`, or what is left
/// below `delta` from `gamma` on.
pub open spec fn group_size(beta: int, gamma: int, delta: int) -> int {
    if delta <= gamma {
        0
    } else if delta - gamma < beta {
        delta - gamma
    } else {
        beta
    }
}

/// The difference of scale-factor indices that picks the ratio of step `j`
/// of group `i`.
pub open spec fn ratio_index(c: ChannelView, gamma: int, i: int, j: int) -> int {
    c.value[c.value_3i + i] - c.value[gamma - 1 - j]
}

/// Step `j` of group `i`: the sub-bands go up from `gamma`, their sources
/// down from `gamma - 1`.
pub open spec fn high_band(c: ChannelView, gamma: int, i: int, j: int) -> HighBand {
    HighBand {
        target: (gamma + j) as usize,
        source: (gamma - 1 - j) as usize,
        ratio: ratio_index(c, gamma, i, j) as usize,
    }
}

/// Whether the walk of every group stays within the 128 sub-bands.
pub open spec fn walk_fits(c: ChannelView, alpha: int, beta: int, gamma: int, delta: int) -> bool {
    let n = group_size(beta, gamma, delta);
    alpha > 0 && n > 0 ==> gamma + n <= 0x80 && n <= gamma && c.value_3i + alpha <= 0x80
}

/// Whether every step finds its ratio in the table of 64 ratios.
pub open spec fn ratios_fit(c: ChannelView, alpha: int, beta: int, gamma: int, delta: int) -> bool {
    forall|i: int, j: int|
        0 <= i < alpha && 0 <= j < group_size(beta, gamma, delta) ==> 0 <= #[trigger] ratio_index(
            c,
            gamma,
            i,
            j,
        ) < 64
}

/// The error for a header whose registers lead outside the sub-bands.
pub open spec fn outside_bands() -> ErrorView {
    ErrorView { kind: ErrorKind::BadHeader, message: "Sub-band walk leaves the sub-bands"@ }
}

/// The error for a block whose scale factors have no ratio.
pub open spec fn no_ratio() -> ErrorView {
    ErrorView { kind: ErrorKind::BadBlock, message: "Scale factors without a ratio"@ }
}

/// What stage three does for `alpha` groups of `beta` sub-bands from `gamma`
/// up to `delta`: nothing for a secondary channel or without sub-bands in a
/// group; else the steps of every group, group by group.
pub open spec fn stage_three(c: ChannelView, alpha: int, beta: int, gamma: int, delta: int) -> Result<
    Option<Seq<Seq<HighBand>>>,
    ErrorView,
> {
    if c.kind == 2 || beta == 0 {
        Ok(None)
    } else if !walk_fits(c, alpha, beta, gamma, delta) {
        Err(outside_bands())
    } else if !ratios_fit(c, alpha, beta, gamma, delta) {
        Err(no_ratio())
    } else {
        Ok(
            Some(
                Seq::new(
                    alpha as nat,
                    |i: int|
                        Seq::new(
                            group_size(beta, gamma, delta) as nat,
                            |j: int| high_band(c, gamma, i, j),
                        ),
                ),
            ),
        )
    }
}

/// What stage four does for the channel `c` and the channel `next` paired
/// with it, in the sub-frame `index`, for `a` sub-bands from `b` on and `r07`
/// stereo sub-bands: nothing for a primary channel or without stereo
/// sub-bands.
pub open spec fn stage_four(c: ChannelView, index: int, a: int, b: int, r07: int, next: ChannelView) -> Result<
    Option<Intensity>,
    ErrorView,
> {
    if c.kind == 1 || r07 == 0 {
        Ok(None)
    } else if b + a > 0x80 {
        Err(outside_bands())
    } else if next.value2[index] >= 16 {
        Err(no_ratio())
    } else {
        Ok(
            Some(
                Intensity {
                    ratio: next.value2[index] as usize,
                    first: b as usize,
                    count: a as usize,
                },
            ),
        )
    }
}

/// The views of a vector of groups of steps.
pub open spec fn group_views(groups: Seq<Vec<HighBand>>) -> Seq<Seq<HighBand>> {
    Seq::new(groups.len(), |i: int| groups[i]@)
}

impl Channel {
    /// Stage three, as far as integers go: which coefficients of the high
    /// sub-bands are rebuilt from which coefficients below them, and with
    /// which ratio.
    pub fn decode_three(&self, alpha: u32, beta: u32, gamma: u32, delta: u32) -> (r: GICSResult<
        Option<Vec<Vec<HighBand>>>,
    >)
        ensures
            match r {
                Ok(Some(groups)) => stage_three(
                    self@,
                    alpha as int,
                    beta as int,
                    gamma as int,
                    delta as int,
                ) == Ok::<Option<Seq<Seq<HighBand>>>, ErrorView>(Some(group_views(groups@))),
                Ok(None) => stage_three(
                    self@,
                    alpha as int,
                    beta as int,
                    gamma as int,
                    delta as int,
                ) == Ok::<Option<Seq<Seq<HighBand>>>, ErrorView>(None),
                Err(e) => stage_three(
                    self@,
                    alpha as int,
                    beta as int,
                    gamma as int,
                    delta as int,
                ) == Err::<Option<Seq<Seq<HighBand>>>, ErrorView>(e@),
            },
    {
        if self.kind == 2 || beta == 0 {
            return Ok(None);
        }
        let n: u32 = if delta <= gamma {
            0
        } else if delta - gamma < beta {
            delta - gamma
        } else {
            beta
        };
        if alpha > 0 && n > 0 && (gamma as u64 + n as u64 > 0x80 || n > gamma || self.value_3i as u64
            + alpha as u64 > 0x80) {
            return Err(
                GICSError::with_kind(ErrorKind::BadHeader, "Sub-band walk leaves the sub-bands"),
            );
        }
        let ghost c = self@;
        let mut groups: Vec<Vec<HighBand>> = Vec::new();
        if alpha == 0 || n == 0 {
            // every group is empty
            let mut i: u32 = 0;
            while i < alpha
                invariant
                    i <= alpha,
                    groups@.len() == i,
                    alpha == 0 || n == 0,
                    forall|k: int| 0 <= k < i ==> (#[trigger] groups@[k])@.len() == 0,
                decreases alpha - i,
            {
                groups.push(Vec::new());
                i += 1;
            }
            assert(group_views(groups@) =~~= Seq::new(
                alpha as nat,
                |i: int| Seq::new(n as nat, |j: int| high_band(c, gamma as int, i, j)),
            ));
            return Ok(Some(groups));
        }
        let mut i: u32 = 0;
        while i < alpha
            invariant
                i <= alpha,
                c == self@,
                c.kind != 2,
                beta > 0,
                0 < n <= gamma,
                gamma + n <= 0x80,
                self.value_3i + alpha <= 0x80,
                n == group_size(beta as int, gamma as int, delta as int),
                groups@.len() == i,
                forall|k: int| 0 <= k < i ==> (#[trigger] groups@[k])@.len() == n,
                forall|k: int, j: int|
                    0 <= k < i && 0 <= j < n ==> 0 <= #[trigger] ratio_index(c, gamma as int, k, j)
                        < 64,
                forall|k: int, j: int|
                    0 <= k < i && 0 <= j < n ==> (#[trigger] groups@[k]@[j]) == high_band(
                        c,
                        gamma as int,
                        k,
                        j,
                    ),
            decreases alpha - i,
        {
            let mut group: Vec<HighBand> = Vec::new();
            let mut j: u32 = 0;
            while j < n
                invariant
                    j <= n,
                    i < alpha,
                    c == self@,
                    c.kind != 2,
                    beta > 0,
                    0 < n <= gamma,
                    gamma + n <= 0x80,
                    self.value_3i + alpha <= 0x80,
                    n == group_size(beta as int, gamma as int, delta as int),
                    group@.len() == j,
                    forall|t: int|
                        0 <= t < j ==> 0 <= #[trigger] ratio_index(c, gamma as int, i as int, t)
                            < 64,
                    forall|t: int|
                        0 <= t < j ==> (#[trigger] group@[t]) == high_band(
                            c,
                            gamma as int,
                            i as int,
                            t,
                        ),
                decreases n - j,
            {
                let source: usize = (gamma - 1 - j) as usize;
                let high: i32 = self.value[(self.value_3i + i) as usize] as i32;
                let low: i32 = self.value[source] as i32;
                let ratio: i32 = high - low;
                assert(ratio == ratio_index(c, gamma as int, i as int, j as int));
                if ratio < 0 || ratio >= 64 {
                    return Err(
                        GICSError::with_kind(ErrorKind::BadBlock, "Scale factors without a ratio"),
                    );
                }
                group.push(HighBand { target: (gamma + j) as usize, source, ratio: ratio as usize });
                j += 1;
            }
            groups.push(group);
            i += 1;
        }
        assert(group_views(groups@) =~~= Seq::new(
            alpha as nat,
            |i: int| Seq::new(n as nat, |j: int| high_band(c, gamma as int, i, j)),
        ));
        Ok(Some(groups))
    }

    /// Stage four, as far as integers go: which sub-bands of this channel
    /// and of the channel `chan` paired with it share their coefficients in
    /// the sub-frame `index`, and with which intensity.
    pub fn decode_four(&self, index: usize, a: u32, b: u32, c: u32, chan: &Self) -> (r: GICSResult<
        Option<Intensity>,
    >)
        requires
            index < 8,
        ensures
            match r {
                Ok(found) => stage_four(self@, index as int, a as int, b as int, c as int, chan@)
                    == Ok::<Option<Intensity>, ErrorView>(found),
                Err(e) => stage_four(self@, index as int, a as int, b as int, c as int, chan@)
                    == Err::<Option<Intensity>, ErrorView>(e@),
            },
    {
        if self.kind == 1 || c == 0 {
            return Ok(None);
        }
        if a as u64 + b as u64 > 0x80 {
            return Err(
                GICSError::with_kind(ErrorKind::BadHeader, "Sub-band walk leaves the sub-bands"),
            );
        }
        let ratio = chan.value2[index];
        if ratio >= 16 {
            return Err(GICSError::with_kind(ErrorKind::BadBlock, "Scale factors without a ratio"));
        }
        Ok(Some(Intensity { ratio: ratio as usize, first: b as usize, count: a as usize }))
    }
}

} // verus!
