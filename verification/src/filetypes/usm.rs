//! The container: its chunks, the masks that hide its video chunks, and the
//! streams it carries.

use crate::demux::{
    first_track, lemma_total_with_audio, track_views, with_audio, AudioTrack, Demuxable,
    DemuxOutput, Streams, TrackView,
};
use crate::errors::{ErrorKind, ErrorView, GICSError, GICSResult};
use crate::text::{decimal, file_stem, push_decimal, stem_text};
use crate::tools::{be16, be32, make_be16, make_be32};
use vstd::prelude::*;
use vstd::slice::{slice_subrange, slice_to_vec};
use vstd::string::StringExecFns;
use vstd::utf8::{decode_utf8, encode_utf8};
use vstd::wrapping::u8_specs::{wrapping_add, wrapping_sub};

verus! {

/// The signature of a video chunk, `@SFV`.
pub const SIG_VIDEO: u32 = 0x4053_4656;

/// The signature of an audio chunk, `@SFA`.
pub const SIG_AUDIO: u32 = 0x4053_4641;

/// Where the masked part of a video body starts.
pub const CLEAR_PREFIX: usize = 0x40;

/// The fields of a chunk header.
#[derive(Clone, Copy, Debug, PartialEq, Eq, Structural)]
pub struct USMInfo {
    pub sig: u32,
    pub data_size: u32,
    pub data_offset: u8,
    pub padding_size: u16,
    pub chno: u8,
    pub data_type: u8,
    pub frame_time: u32,
    pub frame_rate: u32,
}

impl USMInfo {
    /// The header with every field zero.
    pub open spec fn zeroed() -> USMInfo {
        USMInfo {
            sig: 0,
            data_size: 0,
            data_offset: 0,
            padding_size: 0,
            chno: 0,
            data_type: 0,
            frame_time: 0,
            frame_rate: 0,
        }
    }

    /// The fields that the 32 header bytes `h` hold.
    pub open spec fn parsed(h: Seq<u8>) -> USMInfo {
        USMInfo {
            sig: be32(h[0], h[1], h[2], h[3]) as u32,
            data_size: be32(h[4], h[5], h[6], h[7]) as u32,
            data_offset: h[9],
            padding_size: be16(h[10], h[11]) as u16,
            chno: h[12],
            data_type: h[15],
            frame_time: be32(h[16], h[17], h[18], h[19]) as u32,
            frame_rate: be32(h[20], h[21], h[22], h[23]) as u32,
        }
    }

    /// The number of body bytes of the chunk.
    pub open spec fn body_size(self) -> int {
        self.data_size - self.data_offset - self.padding_size
    }

    /// Reads the fields from the 32 bytes of a chunk header.
    pub fn parse(h: &[u8]) -> (info: Self)
        requires
            h.len() == 32,
        ensures
            info == USMInfo::parsed(h@),
    {
        USMInfo {
            sig: make_be32(slice_subrange(h, 0, 4)),
            data_size: make_be32(slice_subrange(h, 4, 8)),
            data_offset: h[9],
            padding_size: make_be16(slice_subrange(h, 10, 12)),
            chno: h[12],
            data_type: h[15],
            frame_time: make_be32(slice_subrange(h, 16, 20)),
            frame_rate: make_be32(slice_subrange(h, 20, 24)),
        }
    }
}

impl Default for USMInfo {
    fn default() -> (info: Self)
        ensures
            info == USMInfo::zeroed(),
    {
        Self {
            sig: 0,
            data_size: 0,
            data_offset: 0,
            padding_size: 0,
            chno: 0,
            data_type: 0,
            frame_time: 0,
            frame_rate: 0,
        }
    }
}

// ---------------------------------------------------------------------------
// Masks
// ---------------------------------------------------------------------------

/// The first video mask, from the two key halves `key1` and `key2`, each of
/// four bytes.
pub open spec fn video_mask_1(key1: Seq<u8>, key2: Seq<u8>) -> Seq<u8> {
    let m00 = key1[0];
    let m01 = key1[1];
    let m02 = key1[2];
    let m03 = wrapping_sub(key1[3], 0x34);
    let m04 = wrapping_add(key2[0], 0xF9);
    let m05 = key2[1] ^ 0x13;
    let m06 = wrapping_add(key2[2], 0x61);
    let m07 = m00 ^ 0xFF;
    let m08 = wrapping_add(m02, m01);
    let m09 = wrapping_sub(m01, m07);
    let m0a = m02 ^ 0xFF;
    let m0b = m01 ^ 0xFF;
    let m0c = wrapping_add(m0b, m09);
    let m0d = wrapping_sub(m08, m03);
    let m0e = m0d ^ 0xFF;
    let m0f = wrapping_sub(m0a, m0b);
    let m10 = wrapping_sub(m08, m0f);
    let m11 = m10 ^ m07;
    let m12 = m0f ^ 0xFF;
    let m13 = m03 ^ 0x10;
    let m14 = wrapping_sub(m04, 0x32);
    let m15 = wrapping_add(m05, 0xED);
    let m16 = m06 ^ 0xF3;
    let m17 = wrapping_sub(m13, m0f);
    let m18 = wrapping_add(m15, m07);
    let m19 = wrapping_sub(0x21, m13);
    let m1a = m14 ^ m17;
    let m1b = wrapping_add(m16, m16);
    let m1c = wrapping_add(m17, 0x44);
    let m1d = wrapping_add(m03, m04);
    let m1e = wrapping_sub(m05, m16);
    let m1f = m1d ^ m13;
    seq![
        m00, m01, m02, m03, m04, m05, m06, m07,
        m08, m09, m0a, m0b, m0c, m0d, m0e, m0f,
        m10, m11, m12, m13, m14, m15, m16, m17,
        m18, m19, m1a, m1b, m1c, m1d, m1e, m1f,
    ]
}

/// The second video mask: the complement of the first.
pub open spec fn video_mask_2(key1: Seq<u8>, key2: Seq<u8>) -> Seq<u8> {
    Seq::new(32, |i: int| video_mask_1(key1, key2)[i] ^ 0xFF)
}

/// The letters `URUC`.
pub const AUDIO_LETTERS: [u8; 4] = [85, 82, 85, 67];

/// The audio mask: the second video mask, with a letter in every odd place.
pub open spec fn audio_mask(key1: Seq<u8>, key2: Seq<u8>) -> Seq<u8> {
    Seq::new(
        32,
        |i: int|
            if i % 2 == 1 {
                AUDIO_LETTERS@[(i / 2) % 4]
            } else {
                video_mask_1(key1, key2)[i] ^ 0xFF
            },
    )
}

// ---------------------------------------------------------------------------
// Video bodies
// ---------------------------------------------------------------------------

/// Byte `j` of a video body `b` after the rolling pass with the mask `m2`.
/// The pass leaves the first `0x140` bytes; from there on each byte is masked
/// with what the byte 32 places before it became, and the first 32 with the
/// mask alone.
pub open spec fn rolled(m2: Seq<u8>, b: Seq<u8>, j: int) -> u8
    decreases j,
{
    if j < 0x140 {
        b[j]
    } else if j < 0x160 {
        b[j] ^ m2[(j - 0x40) % 32]
    } else {
        b[j] ^ (rolled(m2, b, j - 32) ^ m2[(j - 0x40) % 32])
    }
}

/// The mask that the fixed pass applies to the byte at `0x40 + i`: the mask
/// `m1`, folded with every rolled byte at `0x140 + i'` for the `i'` up to `i`
/// in the same place of the mask.
pub open spec fn folded(m1: Seq<u8>, m2: Seq<u8>, b: Seq<u8>, i: int) -> u8
    decreases i,
{
    if i < 0 {
        0
    } else if i < 32 {
        m1[i] ^ rolled(m2, b, 0x140 + i)
    } else {
        folded(m1, m2, b, i - 32) ^ rolled(m2, b, 0x140 + i)
    }
}

/// Whether a video body of `size` bytes is long enough to be masked.
pub open spec fn maskable(size: int) -> bool {
    size >= 0x40 && size - 0x40 >= 0x200
}

/// A video body whose first `size` bytes went through both passes. The first
/// `0x40` bytes stay clear, and a body with fewer than `0x200` bytes after
/// them is left as it is.
pub open spec fn unmasked(m1: Seq<u8>, m2: Seq<u8>, b: Seq<u8>, size: int) -> Seq<u8> {
    if maskable(size) {
        Seq::new(
            b.len(),
            |j: int|
                if j < 0x40 || j >= size {
                    b[j]
                } else if j < 0x140 {
                    b[j] ^ folded(m1, m2, b, j - 0x40)
                } else {
                    rolled(m2, b, j)
                },
        )
    } else {
        b
    }
}

/// The name of the video output of the container named `filename`: its
/// name with the extension `ivf`.
pub open spec fn video_name(filename: Seq<char>) -> Seq<char> {
    decode_utf8(file_stem(encode_utf8(filename))) + ".ivf"@
}

/// The name of the audio output for the channel `chno` of the container
/// named `filename`: the name without its extension, an underscore, the
/// channel number and the extension `hca`.
pub open spec fn audio_name(filename: Seq<char>, chno: u8) -> Seq<char> {
    decode_utf8(file_stem(encode_utf8(filename))) + "_"@ + decimal(chno as nat) + ".hca"@
}

/// A container file: its name, its key and the masks made from the key.
pub struct USMFile {
    filename: String,
    key1: [u8; 4],
    key2: [u8; 4],
    video_mask_1: [u8; 32],
    video_mask_2: [u8; 32],
    audio_mask: [u8; 32],
}

/// The mathematical content of a [`USMFile`].
pub ghost struct USMFileView {
    pub filename: Seq<char>,
    pub key1: Seq<u8>,
    pub key2: Seq<u8>,
    pub video_mask_1: Seq<u8>,
    pub video_mask_2: Seq<u8>,
    pub audio_mask: Seq<u8>,
}

impl View for USMFile {
    type V = USMFileView;

    closed spec fn view(&self) -> USMFileView {
        USMFileView {
            filename: self.filename@,
            key1: self.key1@,
            key2: self.key2@,
            video_mask_1: self.video_mask_1@,
            video_mask_2: self.video_mask_2@,
            audio_mask: self.audio_mask@,
        }
    }
}

impl USMFileView {
    /// The masks are those of the key.
    pub open spec fn wf(self) -> bool {
        &&& self.key1.len() == 4
        &&& self.key2.len() == 4
        &&& self.video_mask_1 == video_mask_1(self.key1, self.key2)
        &&& self.video_mask_2 == video_mask_2(self.key1, self.key2)
        &&& self.audio_mask == audio_mask(self.key1, self.key2)
    }
}

impl USMFile {
    /// The container named `filename`, for the key halves `key1` and
    /// `key2`, each little-endian.
    pub fn new(filename: &str, key1: [u8; 4], key2: [u8; 4]) -> (file: Self)
        ensures
            file@.filename == filename@,
            file@.key1 == key1@,
            file@.key2 == key2@,
            file@.wf(),
    {
        let mut res = Self {
            filename: filename.to_owned(),
            key1,
            key2,
            video_mask_1: [0; 32],
            video_mask_2: [0; 32],
            audio_mask: [0; 32],
        };
        res.init_mask(key1, key2);
        res
    }

    /// Builds the three masks from the key halves `key1` and `key2`.
    pub fn init_mask(&mut self, key1: [u8; 4], key2: [u8; 4])
        ensures
            final(self)@ == (USMFileView {
                video_mask_1: video_mask_1(key1@, key2@),
                video_mask_2: video_mask_2(key1@, key2@),
                audio_mask: audio_mask(key1@, key2@),
                ..old(self)@
            }),
    {
        let mut m: [u8; 32] = [0; 32];
        m[0x00] = key1[0];
        m[0x01] = key1[1];
        m[0x02] = key1[2];
        m[0x03] = key1[3].wrapping_sub(0x34);
        m[0x04] = key2[0].wrapping_add(0xF9);
        m[0x05] = key2[1] ^ 0x13;
        m[0x06] = key2[2].wrapping_add(0x61);
        m[0x07] = m[0x00] ^ 0xFF;
        m[0x08] = m[0x02].wrapping_add(m[0x01]);
        m[0x09] = m[0x01].wrapping_sub(m[0x07]);
        m[0x0A] = m[0x02] ^ 0xFF;
        m[0x0B] = m[0x01] ^ 0xFF;
        m[0x0C] = m[0x0B].wrapping_add(m[0x09]);
        m[0x0D] = m[0x08].wrapping_sub(m[0x03]);
        m[0x0E] = m[0x0D] ^ 0xFF;
        m[0x0F] = m[0x0A].wrapping_sub(m[0x0B]);
        m[0x10] = m[0x08].wrapping_sub(m[0x0F]);
        m[0x11] = m[0x10] ^ m[0x07];
        m[0x12] = m[0x0F] ^ 0xFF;
        m[0x13] = m[0x03] ^ 0x10;
        m[0x14] = m[0x04].wrapping_sub(0x32);
        m[0x15] = m[0x05].wrapping_add(0xED);
        m[0x16] = m[0x06] ^ 0xF3;
        m[0x17] = m[0x13].wrapping_sub(m[0x0F]);
        m[0x18] = m[0x15].wrapping_add(m[0x07]);
        m[0x19] = 0x21_u8.wrapping_sub(m[0x13]);
        m[0x1A] = m[0x14] ^ m[0x17];
        m[0x1B] = m[0x16].wrapping_add(m[0x16]);
        m[0x1C] = m[0x17].wrapping_add(0x44);
        m[0x1D] = m[0x03].wrapping_add(m[0x04]);
        m[0x1E] = m[0x05].wrapping_sub(m[0x16]);
        m[0x1F] = m[0x1D] ^ m[0x13];
        assert(m@ =~= video_mask_1(key1@, key2@));
        let mut m2: [u8; 32] = [0; 32];
        let mut ma: [u8; 32] = [0; 32];
        let mut i: usize = 0;
        while i < 0x20
            invariant
                i <= 0x20,
                m@ == video_mask_1(key1@, key2@),
                forall|k: int| 0 <= k < i ==> m2@[k] == m@[k] ^ 0xFF,
                forall|k: int| 0 <= k < i ==> ma@[k] == audio_mask(key1@, key2@)[k],
            decreases 0x20 - i,
        {
            m2[i] = m[i] ^ 0xFF;
            ma[i] = if i % 2 == 1 {
                AUDIO_LETTERS[(i / 2) % 4]
            } else {
                m[i] ^ 0xFF
            };
            i += 1;
        }
        assert(m2@ =~= video_mask_2(key1@, key2@));
        assert(ma@ =~= audio_mask(key1@, key2@));
        self.video_mask_1 = m;
        self.video_mask_2 = m2;
        self.audio_mask = ma;
    }

    /// Takes the masks off the first `size` bytes of the video body `data`.
    pub fn mask_video(&self, data: &mut [u8], size: usize)
        requires
            size <= old(data).len(),
        ensures
            final(data)@ == unmasked(
                self@.video_mask_1,
                self@.video_mask_2,
                old(data)@,
                size as int,
            ),
    {
        unmask(&self.video_mask_1, &self.video_mask_2, data, size);
    }

    pub fn filename(&self) -> (name: &str)
        ensures
            name@ == self@.filename,
    {
        self.filename.as_str()
    }

    /// The name of the file that takes the video stream.
    pub fn video_name(&self) -> (name: String)
        ensures
            name@ == video_name(self@.filename),
    {
        let mut name = String::from_str(stem_text(self.filename.as_str()));
        name.append(".ivf");
        name
    }

    /// The name of the file that takes the audio stream of the channel
    /// `chno`.
    pub fn audio_name(&self, chno: u8) -> (name: String)
        ensures
            name@ == audio_name(self@.filename, chno),
    {
        let mut name = String::from_str(stem_text(self.filename.as_str()));
        name.append("_");
        push_decimal(&mut name, chno as u64);
        name.append(".hca");
        name
    }

    pub fn video_mask_1(&self) -> (m: &[u8; 32])
        ensures
            m@ == self@.video_mask_1,
    {
        &self.video_mask_1
    }

    pub fn video_mask_2(&self) -> (m: &[u8; 32])
        ensures
            m@ == self@.video_mask_2,
    {
        &self.video_mask_2
    }

    pub fn audio_mask(&self) -> (m: &[u8; 32])
        ensures
            m@ == self@.audio_mask,
    {
        &self.audio_mask
    }
}

/// Takes the masks `m1` and `m2` off the first `size` bytes of the video body
/// `data`: first the rolling pass over the bytes from `0x140` on, then the
/// fixed pass over the `0x100` bytes before them.
pub fn unmask(m1: &[u8; 32], m2: &[u8; 32], data: &mut [u8], size: usize)
    requires
        size <= old(data).len(),
    ensures
        final(data)@ == unmasked(m1@, m2@, old(data)@, size as int),
{
    if size < CLEAR_PREFIX {
        return ;
    }
    let span = size - CLEAR_PREFIX;
    if span < 0x200 {
        return ;
    }
    let ghost b = data@;
    let mut mask: [u8; 32] = *m2;
    let mut i: usize = 0x100;
    while i < span
        invariant
            0x100 <= i <= span,
            span == size - 0x40,
            size <= data.len(),
            data.len() == b.len(),
            forall|j: int| 0 <= j < 0x40 + i ==> data@[j] == rolled(m2@, b, j),
            forall|j: int| 0x40 + i <= j < data.len() ==> data@[j] == b[j],
            forall|t: int|
                0x100 <= t < i && i - 32 <= t ==> mask@[t % 32] == #[trigger] rolled(
                    m2@,
                    b,
                    0x40 + t,
                ) ^ m2@[t % 32],
            forall|k: int| i - 0x100 <= k < 32 ==> mask@[k] == m2@[k],
        decreases span - i,
    {
        let k: usize = i % 32;
        let ghost before = mask@;
        proof {
            if i >= 0x120 {
                assert(before[(i - 32) % 32] == rolled(m2@, b, 0x40 + (i - 32)) ^ m2@[(i - 32) % 32]);
                lemma_xor_assoc(b[0x40 + i], rolled(m2@, b, 0x40 + i - 32), m2@[k as int]);
            }
        }
        data[i + 0x40] = data[i + 0x40] ^ mask[k];
        assert(data@[0x40 + i] == rolled(m2@, b, 0x40 + i));
        mask[k] = data[i + 0x40] ^ m2[k];
        proof {
            assert forall|t: int| 0x100 <= t < i + 1 && i + 1 - 32 <= t implies mask@[t % 32]
                == #[trigger] rolled(m2@, b, 0x40 + t) ^ m2@[t % 32] by {
                if t != i {
                    assert(t % 32 != i % 32);
                    assert(mask@[t % 32] == before[t % 32]);
                }
            }
        }
        i += 1;
    }
    let ghost r = data@;
    let mut mask: [u8; 32] = *m1;
    let mut i: usize = 0;
    while i < 0x100
        invariant
            i <= 0x100,
            span >= 0x200,
            span == size - 0x40,
            size <= data.len(),
            data.len() == b.len(),
            r.len() == b.len(),
            forall|j: int| 0 <= j < size ==> r[j] == rolled(m2@, b, j),
            forall|j: int| 0 <= j < 0x40 ==> data@[j] == b[j],
            forall|j: int|
                0x40 <= j < 0x40 + i ==> data@[j] == b[j] ^ folded(m1@, m2@, b, j - 0x40),
            forall|j: int| 0x40 + i <= j < 0x140 ==> data@[j] == b[j],
            forall|j: int| 0x140 <= j < data.len() ==> data@[j] == r[j],
            forall|j: int| size <= j < data.len() ==> r[j] == b[j],
            forall|t: int|
                0 <= t < i && i - 32 <= t ==> mask@[t % 32] == #[trigger] folded(m1@, m2@, b, t),
            forall|k: int| i <= k < 32 ==> mask@[k] == m1@[k],
        decreases 0x100 - i,
    {
        let k: usize = i % 32;
        let ghost before = mask@;
        proof {
            if i >= 32 {
                assert(before[(i - 32) % 32] == folded(m1@, m2@, b, i - 32));
            }
            assert(0x140 + i < size);
            assert(data@[0x140 + i] == r[0x140 + i]);
            assert(r[0x140 + i] == rolled(m2@, b, 0x140 + i));
            assert(b[0x40 + i] == rolled(m2@, b, 0x40 + i));
        }
        mask[k] = mask[k] ^ data[0x100 + i + 0x40];
        assert(mask@[k as int] == folded(m1@, m2@, b, i as int));
        data[i + 0x40] = data[i + 0x40] ^ mask[k];
        proof {
            assert forall|t: int| 0 <= t < i + 1 && i + 1 - 32 <= t implies mask@[t % 32]
                == #[trigger] folded(m1@, m2@, b, t) by {
                if t != i {
                    assert(t % 32 != i % 32);
                    assert(mask@[t % 32] == before[t % 32]);
                }
            }
        }
        i += 1;
    }
    assert(data@ =~= unmasked(m1@, m2@, b, size as int));
}

proof fn lemma_xor_assoc(a: u8, b: u8, c: u8)
    by (bit_vector)
    ensures
        (a ^ b) ^ c == a ^ (b ^ c),
        a ^ b == b ^ a,
{
}

// ---------------------------------------------------------------------------
// Chunks and streams
// ---------------------------------------------------------------------------

/// A chunk: the fields of its header and its body.
pub ghost struct ChunkView {
    pub info: USMInfo,
    pub body: Seq<u8>,
}

/// The header fields of the chunk that starts at `pos`.
pub open spec fn info_at(data: Seq<u8>, pos: int) -> USMInfo {
    USMInfo::parsed(data.subrange(pos, pos + 32))
}

/// Whether a whole chunk stands at `pos`: its 32 header bytes, a data offset
/// that leaves room for them, a body size that is not negative, and all of
/// its `8 + data_size` bytes within the input.
pub open spec fn chunk_fits(data: Seq<u8>, pos: int) -> bool {
    &&& 0 <= pos
    &&& pos + 32 <= data.len()
    &&& info_at(data, pos).data_offset >= 0x18
    &&& info_at(data, pos).body_size() >= 0
    &&& pos + 8 + info_at(data, pos).data_size <= data.len()
}

/// The chunk that starts at `pos`. Its body follows the data offset, counted
/// from the ninth byte of the chunk.
pub open spec fn chunk_at(data: Seq<u8>, pos: int) -> ChunkView {
    let info = info_at(data, pos);
    ChunkView {
        info,
        body: data.subrange(
            pos + 8 + info.data_offset,
            pos + 8 + info.data_offset + info.body_size(),
        ),
    }
}

/// The chunks from `pos` to the end of the input, if the input is made of
/// whole chunks from there on.
pub open spec fn chunk_list(data: Seq<u8>, pos: int) -> Option<Seq<ChunkView>>
    decreases data.len() - pos,
{
    if pos >= data.len() {
        Some(Seq::empty())
    } else if !chunk_fits(data, pos) {
        None
    } else {
        match chunk_list(data, pos + 8 + info_at(data, pos).data_size) {
            None => None,
            Some(rest) => Some(seq![chunk_at(data, pos)] + rest),
        }
    }
}

/// Whether a chunk carries video that is extracted.
pub open spec fn is_video(info: USMInfo) -> bool {
    info.sig == SIG_VIDEO && info.data_type == 0
}

/// Whether a chunk carries audio that is extracted.
pub open spec fn is_audio(info: USMInfo) -> bool {
    info.sig == SIG_AUDIO && info.data_type == 0
}

/// The streams after one more chunk: a video body is unmasked and added to
/// the video stream, an audio body is added as it is to the stream of its
/// channel, and any other chunk is passed over.
pub open spec fn absorbed(s: Streams, m1: Seq<u8>, m2: Seq<u8>, c: ChunkView) -> Streams {
    if is_video(c.info) {
        Streams { video: s.video + unmasked(m1, m2, c.body, c.body.len() as int), ..s }
    } else if is_audio(c.info) {
        Streams { audio: with_audio(s.audio, c.info.chno, c.body), ..s }
    } else {
        s
    }
}

/// The streams that a list of chunks carries.
pub open spec fn streams_of(m1: Seq<u8>, m2: Seq<u8>, chunks: Seq<ChunkView>) -> Streams
    decreases chunks.len(),
{
    if chunks.len() == 0 {
        Streams::empty()
    } else {
        absorbed(streams_of(m1, m2, chunks.drop_last()), m1, m2, chunks.last())
    }
}

/// The error for a container that is not made of whole chunks.
pub open spec fn bad_container() -> ErrorView {
    ErrorView { kind: ErrorKind::BadContainer, message: "Truncated or malformed chunk"@ }
}

/// What demultiplexing `data` with the masks `m1` and `m2` gives.
pub open spec fn demuxed_with(m1: Seq<u8>, m2: Seq<u8>, data: Seq<u8>) -> Result<
    Streams,
    ErrorView,
> {
    match chunk_list(data, 0) {
        None => Err(bad_container()),
        Some(chunks) => Ok(streams_of(m1, m2, chunks)),
    }
}

fn malformed() -> (e: GICSError)
    ensures
        e@ == bad_container(),
{
    GICSError::with_kind(ErrorKind::BadContainer, "Truncated or malformed chunk")
}

/// Adds `body` to the track of the channel `chno`, which is made if there is
/// none.
fn add_audio(tracks: &mut Vec<AudioTrack>, chno: u8, body: Vec<u8>)
    ensures
        track_views(final(tracks)@) == with_audio(track_views(old(tracks)@), chno, body@),
{
    let ghost before = track_views(tracks@);
    let mut piece = body;
    let mut i: usize = 0;
    while i < tracks.len()
        invariant
            i <= tracks.len(),
            piece@ == body@,
            tracks@ == old(tracks)@,
            before == track_views(tracks@),
            first_track(before, chno, 0) == first_track(before, chno, i as int),
        decreases tracks.len() - i,
    {
        assert(before[i as int] == tracks@[i as int]@);
        if tracks[i].chno() == chno {
            tracks[i].append(&mut piece);
            assert(first_track(before, chno, 0) == i);
            assert(track_views(tracks@) =~= before.update(
                i as int,
                TrackView { chno, data: before[i as int].data + body@ },
            ));
            return ;
        }
        i += 1;
    }
    assert(first_track(before, chno, 0) == before.len());
    tracks.push(AudioTrack::new(chno, piece));
    assert(track_views(tracks@) =~= before.push(TrackView { chno, data: body@ }));
}

impl Demuxable for USMFile {
    open spec fn demuxed(&self, data: Seq<u8>) -> Result<Streams, ErrorView> {
        demuxed_with(self@.video_mask_1, self@.video_mask_2, data)
    }

    fn demux(self, video_extract: bool, audio_extract: bool, data: &[u8]) -> (r: GICSResult<
        DemuxOutput,
    >) {
        let ghost m1 = self@.video_mask_1;
        let ghost m2 = self@.video_mask_2;
        let mut video: Vec<u8> = Vec::new();
        let mut audio: Vec<AudioTrack> = Vec::new();
        let mut pos: usize = 0;
        let ghost mut seen: Seq<ChunkView> = Seq::empty();
        assert(seen + chunk_list(data@, 0)->0 =~= chunk_list(data@, 0)->0);
        assert(track_views(audio@) =~= Seq::<TrackView>::empty());
        while pos < data.len()
            invariant
                pos <= data.len(),
                m1 == self@.video_mask_1,
                m2 == self@.video_mask_2,
                chunk_list(data@, 0) == match chunk_list(data@, pos as int) {
                    None => None::<Seq<ChunkView>>,
                    Some(rest) => Some(seen + rest),
                },
                (Streams { video: video@, audio: track_views(audio@) }) == streams_of(
                    m1,
                    m2,
                    seen,
                ),
            decreases data.len() - pos,
        {
            if data.len() - pos < 32 {
                return Err(malformed());
            }
            let info = USMInfo::parse(slice_subrange(data, pos, pos + 32));
            assert(info == info_at(data@, pos as int));
            if info.data_offset < 0x18 || (info.data_size as u64) < info.data_offset as u64
                + info.padding_size as u64 || ((data.len() - pos - 8) as u64)
                < info.data_size as u64 {
                return Err(malformed());
            }
            let size: usize = (info.data_size - info.data_offset as u32
                - info.padding_size as u32) as usize;
            let first: usize = pos + 8 + info.data_offset as usize;
            let mut body = slice_to_vec(slice_subrange(data, first, first + size));
            let ghost chunk = chunk_at(data@, pos as int);
            assert(body@ == chunk.body);
            let next: usize = pos + 8 + info.data_size as usize;
            proof {
                let rest = chunk_list(data@, next as int);
                if let Some(r) = rest {
                    assert(seen + (seq![chunk] + r) =~= seen.push(chunk) + r);
                }
                assert(seen.push(chunk).drop_last() =~= seen);
            }
            if info.sig == SIG_VIDEO {
                if info.data_type == 0 {
                    self.mask_video(body.as_mut_slice(), size);
                    video.append(&mut body);
                }
            } else if info.sig == SIG_AUDIO {
                if info.data_type == 0 {
                    add_audio(&mut audio, info.chno, body);
                }
            }
            proof {
                seen = seen.push(chunk);
            }
            pos = next;
        }
        Ok(DemuxOutput::new(video, audio))
    }
}

// ---------------------------------------------------------------------------
// Laws
// ---------------------------------------------------------------------------

/// The number of body bytes of the audio chunks that are extracted.
pub open spec fn audio_body_bytes(chunks: Seq<ChunkView>) -> nat
    decreases chunks.len(),
{
    if chunks.len() == 0 {
        0
    } else {
        audio_body_bytes(chunks.drop_last()) + if is_audio(chunks.last().info) {
            chunks.last().body.len()
        } else {
            0
        }
    }
}

/// The audio streams hold together exactly the bytes of the audio chunks
/// that are extracted.
pub proof fn lemma_audio_partition(m1: Seq<u8>, m2: Seq<u8>, chunks: Seq<ChunkView>)
    ensures
        streams_of(m1, m2, chunks).audio_bytes() == audio_body_bytes(chunks),
    decreases chunks.len(),
{
    if chunks.len() > 0 {
        lemma_audio_partition(m1, m2, chunks.drop_last());
        let before = streams_of(m1, m2, chunks.drop_last());
        let c = chunks.last();
        if !is_video(c.info) && is_audio(c.info) {
            lemma_total_with_audio(before.audio, c.info.chno, c.body);
        }
    }
}

/// Chunks that are neither video nor audio leave no stream: a container made
/// of such chunks alone gives an empty video stream and no audio stream.
pub proof fn lemma_unknown_chunks(m1: Seq<u8>, m2: Seq<u8>, chunks: Seq<ChunkView>)
    requires
        forall|i: int|
            0 <= i < chunks.len() ==> (#[trigger] chunks[i]).info.sig != SIG_VIDEO
                && chunks[i].info.sig != SIG_AUDIO,
    ensures
        streams_of(m1, m2, chunks) == Streams::empty(),
    decreases chunks.len(),
{
    if chunks.len() > 0 {
        assert forall|i: int| 0 <= i < chunks.drop_last().len() implies (
        #[trigger] chunks.drop_last()[i]).info.sig != SIG_VIDEO && chunks.drop_last()[i].info.sig
            != SIG_AUDIO by {
            assert(chunks.drop_last()[i] == chunks[i]);
        }
        lemma_unknown_chunks(m1, m2, chunks.drop_last());
        assert(chunks.last() == chunks[chunks.len() - 1]);
    }
}

/// A container made of chunks that are neither video nor audio gives an
/// empty video stream and no audio stream.
pub proof fn lemma_unknown_container(m1: Seq<u8>, m2: Seq<u8>, data: Seq<u8>)
    requires
        chunk_list(data, 0) is Some,
        forall|i: int|
            0 <= i < chunk_list(data, 0)->0.len() ==> (#[trigger] chunk_list(data, 0)->0[i]).info.sig
                != SIG_VIDEO && chunk_list(data, 0)->0[i].info.sig != SIG_AUDIO,
    ensures
        demuxed_with(m1, m2, data) == Ok::<Streams, ErrorView>(Streams::empty()),
{
    lemma_unknown_chunks(m1, m2, chunk_list(data, 0)->0);
}

/// The audio streams of a container hold together exactly the body bytes of
/// its audio chunks of data type zero.
pub proof fn lemma_container_audio_bytes(m1: Seq<u8>, m2: Seq<u8>, data: Seq<u8>)
    ensures
        demuxed_with(m1, m2, data) matches Ok(s) ==> s.audio_bytes() == audio_body_bytes(
            chunk_list(data, 0)->0,
        ),
{
    if chunk_list(data, 0) is Some {
        lemma_audio_partition(m1, m2, chunk_list(data, 0)->0);
    }
}

/// An empty container gives no stream and no error.
pub proof fn lemma_empty_container(m1: Seq<u8>, m2: Seq<u8>)
    ensures
        demuxed_with(m1, m2, Seq::empty()) == Ok::<Streams, ErrorView>(Streams::empty()),
{
}

/// Whether every byte of `b` from `0x140` up to `end` is zero.
pub open spec fn zero_tail(b: Seq<u8>, end: int) -> bool {
    forall|t: int| 0x140 <= t < end ==> #[trigger] b[t] == 0
}

/// Where the feedback of the rolling pass stops mattering for a body of
/// `size` bytes: 32 bytes before its end, but not before `0x240`.
pub open spec fn feedback_end(size: int) -> int {
    if size - 32 > 0x240 {
        size - 32
    } else {
        0x240
    }
}

proof fn lemma_xor_zero(a: u8, b: u8)
    by (bit_vector)
    ensures
        a ^ 0 == a,
        0 ^ a == a,
        (a ^ b == a) ==> b == 0,
{
}

proof fn lemma_rolled_plain(z: Seq<u8>, b: Seq<u8>, size: int, j: int)
    requires
        0 <= j < size <= b.len(),
        z.len() == 32,
        forall|k: int| 0 <= k < 32 ==> z[k] == 0,
        zero_tail(b, size - 32),
    ensures
        rolled(z, b, j) == b[j],
    decreases j,
{
    lemma_xor_zero(b[j], 0);
    lemma_xor_zero(0, 0);
    assert(z[(j - 0x40) % 32] == 0);
    if j >= 0x160 {
        lemma_rolled_plain(z, b, size, j - 32);
        assert(b[j - 32] == 0);
    }
}

proof fn lemma_folded_plain(z: Seq<u8>, b: Seq<u8>, size: int, i: int)
    requires
        0 <= i < 0x100,
        0x240 <= size <= b.len(),
        z.len() == 32,
        forall|k: int| 0 <= k < 32 ==> z[k] == 0,
        zero_tail(b, feedback_end(size)),
    ensures
        folded(z, z, b, i) == 0,
    decreases i,
{
    lemma_xor_zero(0, 0);
    lemma_rolled_plain(z, b, size, 0x140 + i);
    assert(b[0x140 + i] == 0);
    if i >= 32 {
        lemma_folded_plain(z, b, size, i - 32);
    }
}

/// With both masks zero, unmasking leaves a body as it is exactly when the
/// body is too short to be masked or is zero where the masks feed on it:
/// from `0x140` up to 32 bytes before its end, and up to `0x240` at least.
/// The rolling pass masks each byte with the byte 32 places before it, so
/// zero masks alone do not make it the identity.
pub proof fn lemma_zero_masks(z: Seq<u8>, b: Seq<u8>, size: int)
    requires
        0 <= size <= b.len(),
        z.len() == 32,
        forall|k: int| 0 <= k < 32 ==> z[k] == 0,
        maskable(size) ==> zero_tail(b, feedback_end(size)),
    ensures
        unmasked(z, z, b, size) == b,
{
    if maskable(size) {
        assert forall|j: int| 0 <= j < b.len() implies unmasked(z, z, b, size)[j] == b[j] by {
            if j < 0x40 || j >= size {
            } else if j < 0x140 {
                lemma_folded_plain(z, b, size, j - 0x40);
                lemma_xor_zero(b[j], 0);
            } else {
                lemma_rolled_plain(z, b, size, j);
            }
        }
        assert(unmasked(z, z, b, size) =~= b);
    }
}

/// With both masks zero, a body that unmasking leaves as it is is too short
/// to be masked or is zero where the masks feed on it.
pub proof fn lemma_zero_masks_only(z: Seq<u8>, b: Seq<u8>, size: int)
    requires
        0 <= size <= b.len(),
        z.len() == 32,
        forall|k: int| 0 <= k < 32 ==> z[k] == 0,
        unmasked(z, z, b, size) == b,
        maskable(size),
    ensures
        zero_tail(b, feedback_end(size)),
{
    let out = unmasked(z, z, b, size);
    assert forall|t: int| 0x140 <= t < feedback_end(size) implies #[trigger] b[t] == 0 by {
        assert(out[t] == b[t]);
        assert(rolled(z, b, t) == b[t]);
        if t < size - 32 {
            assert(out[t + 32] == b[t + 32]);
            assert(rolled(z, b, t + 32) == b[t + 32] ^ (rolled(z, b, t) ^ z[(t + 32 - 0x40) % 32]));
            lemma_xor_zero(rolled(z, b, t), 0);
            lemma_xor_zero(b[t + 32], rolled(z, b, t));
        } else {
            lemma_folded_zero(z, b, size, t - 0x140);
            let i = t - 0x140;
            lemma_xor_zero(rolled(z, b, t), 0);
            if i >= 32 {
                lemma_folded_zero(z, b, size, i - 32);
            }
        }
    }
}

proof fn lemma_folded_zero(z: Seq<u8>, b: Seq<u8>, size: int, i: int)
    requires
        0 <= i < 0x100,
        0x240 <= size <= b.len(),
        z.len() == 32,
        forall|k: int| 0 <= k < 32 ==> z[k] == 0,
        unmasked(z, z, b, size) == b,
    ensures
        folded(z, z, b, i) == 0,
{
    let out = unmasked(z, z, b, size);
    assert(out[0x40 + i] == b[0x40 + i]);
    lemma_xor_zero(b[0x40 + i], folded(z, z, b, i));
}

} // verus!
