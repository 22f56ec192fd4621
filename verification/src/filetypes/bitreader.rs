//! A big-endian bit reader over a byte buffer.

use vstd::prelude::*;

verus! {

/// The powers of two up to `2^24`.
pub const POW2: [u32; 25] = [
    0x1, 0x2, 0x4, 0x8, 0x10, 0x20, 0x40, 0x80,
    0x100, 0x200, 0x400, 0x800, 0x1000, 0x2000, 0x4000, 0x8000,
    0x1_0000, 0x2_0000, 0x4_0000, 0x8_0000, 0x10_0000, 0x20_0000, 0x40_0000, 0x80_0000,
    0x100_0000,
];

/// Two to the power `k`, for the powers up to 24 that a window of three bytes
/// can ask for.
pub open spec fn two_to(k: int) -> int {
    if k <= 0 {
        1
    } else if k >= 24 {
        0x100_0000
    } else {
        POW2@[k] as int
    }
}

/// The byte at index `i`, or zero beyond either end of the buffer.
pub open spec fn byte_at(data: Seq<u8>, i: int) -> int {
    if 0 <= i < data.len() {
        data[i] as int
    } else {
        0
    }
}

/// The 24-bit number made of the three bytes that start at index `at`.
pub open spec fn window(data: Seq<u8>, at: int) -> int {
    byte_at(data, at) * 0x1_0000 + byte_at(data, at + 1) * 0x100 + byte_at(data, at + 2)
}

/// The number formed by the `n` bits that follow bit `bit` of `data`, most
/// significant bit first, where the stream holds `size` bits. It is zero when
/// the bits asked for do not all lie in the stream, or when `bit` lies outside
/// the buffer.
pub open spec fn peek_bits(data: Seq<u8>, size: int, bit: int, n: int) -> int {
    if bit + n <= size && 0 <= bit && bit / 8 < data.len() {
        (window(data, bit / 8) % two_to(24 - bit % 8)) / two_to(24 - bit % 8 - n)
    } else {
        0
    }
}

/// A bit cursor over a buffer whose last two bytes are not part of the
/// stream.
pub struct ClData {
    data: Vec<u8>,
    size: i64,
    bit: i64,
}

impl ClData {
    #[verifier::type_invariant]
    spec fn size_in_range(&self) -> bool {
        -0x4_0000_0010 <= self.size <= 0x3_FFFF_FFE8
    }

    /// The buffer.
    pub closed spec fn bytes(&self) -> Seq<u8> {
        self.data@
    }

    /// The number of bits in the stream.
    pub closed spec fn limit(&self) -> int {
        self.size as int
    }

    /// The cursor, in bits from the start of the buffer.
    pub closed spec fn position(&self) -> int {
        self.bit as int
    }

    /// What reading `n` bits at the cursor gives.
    pub open spec fn peek(&self, n: int) -> int {
        peek_bits(self.bytes(), self.limit(), self.position(), n)
    }

    /// A reader at the start of `data`, for a stream of `size` bytes of
    /// which the last two are left out.
    pub fn new(data: Vec<u8>, size: i32) -> (r: Self)
        ensures
            r.bytes() == data@,
            r.limit() == size * 8 - 16,
            r.position() == 0,
    {
        Self { data, size: (size as i64) * 8 - 16, bit: 0 }
    }

    /// The next `bit_size` bits, without moving the cursor.
    pub fn check_bit(&self, bit_size: u32) -> (v: u32)
        requires
            bit_size <= 16,
        ensures
            v == self.peek(bit_size as int),
            v < two_to(bit_size as int),
    {
        proof {
            use_type_invariant(self);
        }
        if self.bit < 0 || self.bit > self.size - (bit_size as i64) {
            return 0;
        }
        let offset: u64 = (self.bit / 8) as u64;
        let len: u64 = self.data.len() as u64;
        if offset >= len {
            return 0;
        }
        let b0: u32 = self.data[offset as usize] as u32;
        let b1: u32 = if offset + 1 < len {
            self.data[(offset + 1) as usize] as u32
        } else {
            0
        };
        let b2: u32 = if offset + 2 < len {
            self.data[(offset + 2) as usize] as u32
        } else {
            0
        };
        let word: u32 = b0 * 0x1_0000 + b1 * 0x100 + b2;
        let used: usize = (self.bit % 8) as usize;
        let keep: u32 = POW2[24 - used];
        let drop: u32 = POW2[24 - used - bit_size as usize];
        assert(keep == two_to(24 - used));
        assert(drop == two_to(24 - used - bit_size));
        assert(word == window(self.bytes(), self.position() / 8));
        let v: u32 = (word % keep) / drop;
        proof {
            lemma_field_bound(word as int, 24 - used, 24 - used - bit_size);
        }
        v
    }

    /// The next `bit_size` bits; the cursor moves past them.
    pub fn get_bit(&mut self, bit_size: u32) -> (v: u32)
        requires
            bit_size <= 16,
            old(self).position() + bit_size <= i64::MAX,
        ensures
            v == old(self).peek(bit_size as int),
            v < two_to(bit_size as int),
            final(self).position() == old(self).position() + bit_size,
            final(self).bytes() == old(self).bytes(),
            final(self).limit() == old(self).limit(),
    {
        proof {
            use_type_invariant(&*self);
        }
        let v = self.check_bit(bit_size);
        self.bit = self.bit + bit_size as i64;
        v
    }

    /// Moves the cursor by `bit_size` bits, backward when it is negative.
    pub fn add_bit(&mut self, bit_size: i32)
        requires
            i64::MIN <= old(self).position() + bit_size <= i64::MAX,
        ensures
            final(self).position() == old(self).position() + bit_size,
            final(self).bytes() == old(self).bytes(),
            final(self).limit() == old(self).limit(),
    {
        proof {
            use_type_invariant(&*self);
        }
        self.bit = self.bit + bit_size as i64;
    }
}

/// What is read as `n` bits is below `2^n`.
pub proof fn lemma_peek_bound(data: Seq<u8>, size: int, bit: int, n: int)
    requires
        0 <= n <= 16,
    ensures
        0 <= peek_bits(data, size, bit, n) < two_to(n),
{
    if bit + n <= size && 0 <= bit && bit / 8 < data.len() {
        lemma_field_bound(window(data, bit / 8), 24 - bit % 8, 24 - bit % 8 - n);
    }
}

/// A field cut out of a word by a remainder and a quotient of powers of two
/// is smaller than `2^(hi - lo)`.
pub proof fn lemma_field_bound(word: int, hi: int, lo: int)
    requires
        0 <= word,
        0 <= lo <= hi <= 24,
    ensures
        0 <= (word % two_to(hi)) / two_to(lo) < two_to(hi - lo),
{
    let p = two_to(lo);
    let q = two_to(hi - lo);
    let r = word % two_to(hi);
    lemma_two_to_adds(hi - lo, lo);
    assert(two_to(hi) == q * p);
    assert(0 <= r < q * p);
    assert(r / p < q) by (nonlinear_arith)
        requires
            0 <= r < q * p,
            p > 0,
    ;
    assert(0 <= r / p) by (nonlinear_arith)
        requires
            0 <= r,
            p > 0,
    ;
}

/// The powers of two multiply as their exponents add.
pub proof fn lemma_two_to_adds(a: int, b: int)
    requires
        0 <= a,
        0 <= b,
        a + b <= 24,
    ensures
        two_to(a + b) == two_to(a) * two_to(b),
        two_to(a) > 0,
    decreases b,
{
    if b > 0 {
        lemma_two_to_adds(a, b - 1);
        assert(two_to(b) == 2 * two_to(b - 1));
        assert(two_to(a + b) == 2 * two_to(a + b - 1));
        assert(two_to(a) * (2 * two_to(b - 1)) == 2 * (two_to(a) * two_to(b - 1)))
            by (nonlinear_arith);
    }
}

} // verus!
