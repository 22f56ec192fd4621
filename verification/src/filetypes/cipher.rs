//! The substitution tables that hide audio blocks, as mathematics.

use vstd::prelude::*;

verus! {

/// One step of the linear congruential walk `v -> 13 v + 11 (mod 256)`.
pub open spec fn lcg_next(v: u8) -> u8 {
    ((v as int * 13 + 11) % 256) as u8
}

/// One step of the walk that never rests on `0` or `0xFF`: where the plain
/// step lands on one of them, it is taken once more.
pub open spec fn skip_edges(v: u8) -> u8 {
    let w = lcg_next(v);
    if w == 0 || w == 0xFF {
        lcg_next(w)
    } else {
        w
    }
}

/// The value of the walk after `n` steps from `0`.
pub open spec fn walk_state(n: nat) -> u8
    decreases n,
{
    if n == 0 {
        0
    } else {
        skip_edges(walk_state((n - 1) as nat))
    }
}

/// The table of cipher type `1`.
pub open spec fn walk_table() -> Seq<u8> {
    Seq::new(
        256,
        |i: int|
            if i == 0 {
                0u8
            } else if i == 0xFF {
                0xFFu8
            } else {
                walk_state((i + 1) as nat)
            },
    )
}

/// The table of cipher type `0`.
pub open spec fn identity_table() -> Seq<u8> {
    Seq::new(256, |i: int| i as u8)
}

/// The number whose little-endian bytes are `b`.
pub open spec fn le32(b: Seq<u8>) -> int {
    b[0] as int + b[1] as int * 0x100 + b[2] as int * 0x1_0000 + b[3] as int * 0x100_0000
}

/// The 64-bit key made of the low half `key1` and the high half `key2`,
/// less one, modulo `2^64`.
pub open spec fn seed_key(key1: Seq<u8>, key2: Seq<u8>) -> int {
    (le32(key1) + le32(key2) * 0x1_0000_0000 - 1) % 0x1_0000_0000_0000_0000
}

/// Byte `i` of `key`, counted from the least significant.
pub open spec fn key_byte(key: int, i: int) -> u8 {
    if i == 0 {
        (key % 0x100) as u8
    } else if i == 1 {
        ((key / 0x100) % 0x100) as u8
    } else if i == 2 {
        ((key / 0x1_0000) % 0x100) as u8
    } else if i == 3 {
        ((key / 0x100_0000) % 0x100) as u8
    } else if i == 4 {
        ((key / 0x1_0000_0000) % 0x100) as u8
    } else if i == 5 {
        ((key / 0x100_0000_0000) % 0x100) as u8
    } else if i == 6 {
        ((key / 0x1_0000_0000_0000) % 0x100) as u8
    } else {
        ((key / 0x100_0000_0000_0000) % 0x100) as u8
    }
}

/// The eight seed bytes of a key.
pub open spec fn seed_bytes(key: int) -> Seq<u8> {
    Seq::new(8, |i: int| key_byte(key, i))
}

/// The sixteen row seeds derived from the seed bytes `s`.
pub open spec fn row_seeds(s: Seq<u8>) -> Seq<u8> {
    seq![
        s[1], s[1] ^ s[6], s[2] ^ s[3], s[2],
        s[2] ^ s[1], s[3] ^ s[4], s[3], s[3] ^ s[2],
        s[4] ^ s[5], s[4], s[4] ^ s[3], s[5] ^ s[6],
        s[5], s[5] ^ s[4], s[6] ^ s[1], s[6],
    ]
}

/// One step of the nibble walk that the byte `b` selects:
/// `k -> k * m + a (mod 16)` with `m = ((b & 1) << 3) | 5` and
/// `a = (b & 0xE) | 1`.
pub open spec fn nibble_next(b: u8, k: u8) -> u8 {
    ((k * (((b & 1) << 3) | 5) + ((b & 0xE) | 1)) as u8) & 0xF
}

/// The nibble walk of `b` after `n` steps from `b >> 4`.
pub open spec fn nibble_state(b: u8, n: nat) -> u8
    decreases n,
{
    if n == 0 {
        b >> 4
    } else {
        nibble_next(b, nibble_state(b, (n - 1) as nat))
    }
}

/// The sixteen nibbles that the byte `b` expands to.
pub open spec fn nibbles(b: u8) -> Seq<u8> {
    Seq::new(16, |j: int| nibble_state(b, (j + 1) as nat))
}

/// Entry `idx` of the intermediate table of cipher type `0x38`: the high
/// nibble comes from the expansion of the first seed byte, the low nibble
/// from the expansion of the row's seed.
pub open spec fn mixed(s: Seq<u8>, idx: int) -> u8 {
    (nibbles(s[0])[idx / 16] * 16 + nibbles(row_seeds(s)[idx / 16])[idx % 16]) as u8
}

/// The entries of the intermediate table in the order in which the stride
/// `0x11` visits them.
pub open spec fn visited(s: Seq<u8>) -> Seq<u8> {
    Seq::new(256, |n: int| mixed(s, (0x11 * (n + 1)) % 256))
}

/// Whether a table entry is one of the two pinned values.
pub open spec fn is_edge(a: u8) -> bool {
    a == 0 || a == 0xFF
}

/// The visited entries that are neither `0` nor `0xFF`, in visit order.
pub open spec fn kept(s: Seq<u8>) -> Seq<u8> {
    visited(s).filter(|a: u8| !is_edge(a))
}

/// The table of cipher type `0x38` for the key halves `key1` (low) and
/// `key2` (high).
pub open spec fn keyed_table(key1: Seq<u8>, key2: Seq<u8>) -> Seq<u8> {
    let k = kept(seed_bytes(seed_key(key1, key2)));
    Seq::new(
        256,
        |i: int|
            if i == 0 {
                0u8
            } else if i == 0xFF {
                0xFFu8
            } else if i - 1 < k.len() {
                k[i - 1]
            } else {
                0u8
            },
    )
}

/// The cipher table that a header's cipher type selects; an unknown type
/// leaves the table `before` as it is.
pub open spec fn cipher_table(tp: u16, key1: Seq<u8>, key2: Seq<u8>, before: Seq<u8>) -> Seq<u8> {
    if tp == 0 {
        identity_table()
    } else if tp == 1 {
        walk_table()
    } else if tp == 0x38 {
        keyed_table(key1, key2)
    } else {
        before
    }
}

/// A block after the byte-wise substitution through `table`.
pub open spec fn substituted(table: Seq<u8>, data: Seq<u8>, size: int) -> Seq<u8> {
    Seq::new(
        data.len(),
        |i: int|
            if i < size {
                table[data[i] as int]
            } else {
                data[i]
            },
    )
}

proof fn lemma_nibble_bounds(b: u8, k: u8)
    by (bit_vector)
    ensures
        ((b & 1) << 3) | 5 <= 13,
        (b & 0xE) | 1 <= 15,
        b >> 4 <= 15,
        k & 0xF <= 15,
{
}

/// Every nibble of an expansion is below sixteen.
pub proof fn lemma_nibble_range(b: u8, n: nat)
    ensures
        nibble_state(b, n) <= 15,
{
    if n == 0 {
        lemma_nibble_bounds(b, 0);
    } else {
        let k = nibble_state(b, (n - 1) as nat);
        lemma_nibble_bounds(b, ((k * (((b & 1) << 3) | 5) + ((b & 0xE) | 1)) as u8));
    }
}

/// The sixteen nibbles that `val` expands to.
pub fn init_cipher56_table(val: u8) -> (table: [u8; 0x10])
    ensures
        table@ == nibbles(val),
{
    let mut table: [u8; 0x10] = [0; 0x10];
    let mul: u8 = ((val & 1) << 3) | 5;
    let add: u8 = (val & 0xE) | 1;
    let mut key: u8 = val >> 4;
    proof {
        lemma_nibble_bounds(val, 0);
    }
    let mut j: usize = 0;
    while j < 0x10
        invariant
            j <= 0x10,
            mul == ((val & 1) << 3) | 5,
            add == (val & 0xE) | 1,
            mul <= 13,
            add <= 15,
            key <= 15,
            key == nibble_state(val, j as nat),
            forall|k: int| 0 <= k < j ==> table@[k] == nibble_state(val, (k + 1) as nat),
        decreases 0x10 - j,
    {
        assert(key * mul <= 195) by (nonlinear_arith)
            requires
                key <= 15,
                mul <= 13,
        ;
        proof {
            lemma_nibble_bounds(val, (key * mul + add) as u8);
        }
        key = (key * mul + add) & 0xF;
        table[j] = key;
        j += 1;
    }
    assert(table@ =~= nibbles(val));
    table
}


/// Builds in `table` the cipher table of type `tp` from the key halves
/// `key1` (low) and `key2` (high); a type that is not known leaves the table
/// as it is.
pub fn init_mask(tp: u16, key1: &[u8; 4], key2: &[u8; 4], table: &mut [u8; 0x100])
    ensures
        final(table)@ == cipher_table(tp, key1@, key2@, old(table)@),
{
    if tp == 0 {
        let mut i: usize = 0;
        while i < 0x100
            invariant
                i <= 0x100,
                forall|k: int| 0 <= k < i ==> table@[k] == k as u8,
            decreases 0x100 - i,
        {
            table[i] = i as u8;
            i += 1;
        }
        assert(table@ =~= identity_table());
    } else if tp == 1 {
        let mut v: u8 = 0;
        let mut i: usize = 0;
        while i < 0xFF
            invariant
                i <= 0xFF,
                v == walk_state(i as nat),
                forall|k: int| 0 <= k < i ==> table@[k] == walk_state((k + 1) as nat),
            decreases 0xFF - i,
        {
            v = ((v as u32 * 13 + 11) % 256) as u8;
            if v == 0 || v == 0xFF {
                v = ((v as u32 * 13 + 11) % 256) as u8;
            }
            table[i] = v;
            i += 1;
        }
        table[0] = 0;
        table[0xFF] = 0xFF;
        assert(table@ =~= walk_table());
    } else if tp == 0x38 {
        *table = keyed(key1, key2);
    }
}

/// The eight seed bytes of the key made of `key1` (low) and `key2` (high).
fn seeds(key1: &[u8; 4], key2: &[u8; 4]) -> (t1: [u8; 8])
    ensures
        t1@ == seed_bytes(seed_key(key1@, key2@)),
{
    let low: u64 = key1[0] as u64 + key1[1] as u64 * 0x100 + key1[2] as u64 * 0x1_0000
        + key1[3] as u64 * 0x100_0000;
    let high: u64 = key2[0] as u64 + key2[1] as u64 * 0x100 + key2[2] as u64 * 0x1_0000
        + key2[3] as u64 * 0x100_0000;
    let key: u64 = (low + high * 0x1_0000_0000).wrapping_sub(1);
    assert(key == seed_key(key1@, key2@));
    let t1: [u8; 8] = [
        (key % 0x100) as u8,
        ((key / 0x100) % 0x100) as u8,
        ((key / 0x1_0000) % 0x100) as u8,
        ((key / 0x100_0000) % 0x100) as u8,
        ((key / 0x1_0000_0000) % 0x100) as u8,
        ((key / 0x100_0000_0000) % 0x100) as u8,
        ((key / 0x1_0000_0000_0000) % 0x100) as u8,
        ((key / 0x100_0000_0000_0000) % 0x100) as u8,
    ];
    assert(t1@ =~= seed_bytes(key as int));
    t1
}

/// The intermediate table that the seed bytes `t1` give.
fn mix(t1: &[u8; 8]) -> (t3: [u8; 0x100])
    ensures
        forall|k: int| 0 <= k < 0x100 ==> t3@[k] == mixed(t1@, k),
{
    let ghost s = t1@;
    let t2: [u8; 16] = [
        t1[1],
        t1[1] ^ t1[6],
        t1[2] ^ t1[3],
        t1[2],
        t1[2] ^ t1[1],
        t1[3] ^ t1[4],
        t1[3],
        t1[3] ^ t1[2],
        t1[4] ^ t1[5],
        t1[4],
        t1[4] ^ t1[3],
        t1[5] ^ t1[6],
        t1[5],
        t1[5] ^ t1[4],
        t1[6] ^ t1[1],
        t1[6],
    ];
    assert(t2@ =~= row_seeds(s));
    let mut t3: [u8; 0x100] = [0; 0x100];
    let t31 = init_cipher56_table(t1[0]);
    let mut i: usize = 0;
    while i < 0x10
        invariant
            i <= 0x10,
            s == t1@,
            t31@ == nibbles(s[0]),
            t2@ == row_seeds(s),
            forall|k: int| 0 <= k < i * 16 ==> t3@[k] == mixed(s, k),
        decreases 0x10 - i,
    {
        let t32 = init_cipher56_table(t2[i]);
        let hi: u8 = t31[i];
        proof {
            lemma_nibble_range(s[0], (i + 1) as nat);
            assert(hi == nibbles(s[0])[i as int]);
            assert(hi <= 15);
        }
        let mut j: usize = 0;
        while j < 0x10
            invariant
                i < 0x10,
                j <= 0x10,
                s == t1@,
                hi <= 15,
                hi == nibbles(s[0])[i as int],
                t2@ == row_seeds(s),
                t32@ == nibbles(t2@[i as int]),
                forall|k: int| 0 <= k < i * 16 + j ==> t3@[k] == mixed(s, k),
            decreases 0x10 - j,
        {
            let lo: u8 = t32[j];
            proof {
                lemma_nibble_range(t2@[i as int], (j + 1) as nat);
                assert(lo == nibbles(t2@[i as int])[j as int]);
                assert(lo <= 15);
                assert((i * 16 + j) / 16 == i && (i * 16 + j) % 16 == j);
            }
            t3[i * 16 + j] = hi * 16 + lo;
            j += 1;
        }
        i += 1;
    }
    t3
}

/// The entry of `t3` that the stride `0x11` reaches at step `n`, counted
/// from zero.
pub open spec fn stride_entry(t3: Seq<u8>, n: int) -> u8 {
    t3[(0x11 * (n + 1)) % 256]
}

/// Of the first `n` entries that the stride reaches, those that are neither
/// `0` nor `0xFF`.
pub open spec fn stride_kept(t3: Seq<u8>, n: int) -> Seq<u8> {
    Seq::new(256, |k: int| stride_entry(t3, k)).take(n).filter(|a: u8| !is_edge(a))
}

proof fn lemma_stride_step(t3: Seq<u8>, n: int)
    requires
        0 <= n <= 256,
    ensures
        n == 0 ==> stride_kept(t3, n) == Seq::<u8>::empty(),
        n > 0 ==> stride_kept(t3, n) == if is_edge(stride_entry(t3, n - 1)) {
            stride_kept(t3, n - 1)
        } else {
            stride_kept(t3, n - 1).push(stride_entry(t3, n - 1))
        },
{
    reveal(Seq::filter);
    let all = Seq::new(256, |k: int| stride_entry(t3, k));
    if n > 0 {
        assert(all.take(n).drop_last() =~= all.take(n - 1));
    }
}

/// Walks `t3` with the stride `0x11` and collects what is kept into the
/// entries `1..0xFF` of a table whose ends are pinned.
fn collect(t3: &[u8; 0x100]) -> (table: [u8; 0x100])
    ensures
        table@[0] == 0,
        table@[0xFF] == 0xFF,
        forall|k: int|
            1 <= k < 0xFF ==> table@[k] == if k - 1 < stride_kept(t3@, 256).len() {
                stride_kept(t3@, 256)[k - 1]
            } else {
                0u8
            },
{
    let mut table: [u8; 0x100] = [0; 0x100];
    let mut filled: usize = 1;
    let mut n: usize = 0;
    proof {
        lemma_stride_step(t3@, 0);
    }
    while n < 0x100
        invariant
            n <= 0x100,
            filled == 1 + stride_kept(t3@, n as int).len(),
            filled <= n + 1,
            forall|k: int|
                1 <= k < filled && k < 0xFF ==> table@[k] == stride_kept(t3@, n as int)[k - 1],
            forall|k: int| filled <= k < 0x100 ==> table@[k] == 0,
        decreases 0x100 - n,
    {
        let a = t3[(0x11 * (n + 1)) % 256];
        proof {
            lemma_stride_step(t3@, (n + 1) as int);
        }
        if a != 0 && a != 0xFF {
            if filled < 0xFF {
                table[filled] = a;
            }
            filled += 1;
        }
        n += 1;
    }
    table[0] = 0;
    table[0xFF] = 0xFF;
    table
}

/// The cipher table of type `0x38` for the key halves `key1` (low) and
/// `key2` (high).
fn keyed(key1: &[u8; 4], key2: &[u8; 4]) -> (table: [u8; 0x100])
    ensures
        table@ == keyed_table(key1@, key2@),
{
    let t1 = seeds(key1, key2);
    let t3 = mix(&t1);
    let table = collect(&t3);
    proof {
        let s = t1@;
        assert(Seq::new(256, |k: int| stride_entry(t3@, k)) =~= visited(s));
        assert(visited(s).take(256) =~= visited(s));
        assert(stride_kept(t3@, 256) == kept(s));
        assert(table@ =~= keyed_table(key1@, key2@));
    }
    table
}

} // verus!
