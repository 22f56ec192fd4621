//! The RIFF/WAVE header that precedes the decoded samples.

use crate::errors::{ErrorKind, ErrorView, GICSError, GICSResult};
use vstd::prelude::*;

verus! {

/// The two bytes of `x`, least significant first.
pub open spec fn le16(x: u16) -> Seq<u8> {
    seq![(x % 0x100) as u8, (x / 0x100) as u8]
}

/// The four bytes of `x`, least significant first.
pub open spec fn le32(x: u32) -> Seq<u8> {
    seq![
        (x % 0x100) as u8,
        ((x / 0x100) % 0x100) as u8,
        ((x / 0x1_0000) % 0x100) as u8,
        (x / 0x100_0000) as u8,
    ]
}

/// The four bytes of the two's complement of `v`, least significant first.
pub open spec fn le32_signed(v: i32) -> Seq<u8> {
    le32(
        (if v < 0 {
            v + 0x1_0000_0000
        } else {
            v as int
        }) as u32,
    )
}

fn push_all(out: &mut Vec<u8>, bytes: &[u8])
    ensures
        final(out)@ == old(out)@ + bytes@,
{
    let mut i: usize = 0;
    while i < bytes.len()
        invariant
            i <= bytes.len(),
            out@ == old(out)@ + bytes@.take(i as int),
        decreases bytes.len() - i,
    {
        out.push(bytes[i]);
        assert(bytes@.take(i + 1) =~= bytes@.take(i as int).push(bytes@[i as int]));
        i += 1;
    }
    assert(bytes@.take(bytes.len() as int) =~= bytes@);
}

fn push_le16(out: &mut Vec<u8>, x: u16)
    ensures
        final(out)@ == old(out)@ + le16(x),
{
    out.push((x % 0x100) as u8);
    out.push((x / 0x100) as u8);
    assert(final(out)@ =~= old(out)@ + le16(x));
}

fn push_le32(out: &mut Vec<u8>, x: u32)
    ensures
        final(out)@ == old(out)@ + le32(x),
{
    out.push((x % 0x100) as u8);
    out.push(((x / 0x100) % 0x100) as u8);
    out.push(((x / 0x1_0000) % 0x100) as u8);
    out.push((x / 0x100_0000) as u8);
    assert(final(out)@ =~= old(out)@ + le32(x));
}

/// The letters `RIFF`.
pub const TAG_RIFF: [u8; 4] = [82, 73, 70, 70];

/// The letters `WAVE`.
pub const TAG_WAVE: [u8; 4] = [87, 65, 86, 69];

/// The letters `fmt ` (with a space).
pub const TAG_FORMAT: [u8; 4] = [102, 109, 116, 32];

/// The letters `smpl`.
pub const TAG_SAMPLE: [u8; 4] = [115, 109, 112, 108];

/// The letters `data`.
pub const TAG_DATA: [u8; 4] = [100, 97, 116, 97];

/// The `RIFF` and `fmt ` parts of a wave header.
#[derive(Clone, Copy, Debug)]
pub struct WaveRiff {
    pub riff: [u8; 4],
    pub riff_size: u32,
    pub wave: [u8; 4],
    pub fmt: [u8; 4],
    pub fmt_size: u32,
    pub fmt_type: u16,
    pub fmt_channel_count: u16,
    pub fmt_sampling_rate: u32,
    pub fmt_sampling_per_sec: u32,
    pub fmt_sampling_size: u16,
    pub fmt_bit_count: u16,
}

impl WaveRiff {
    /// The parts with their tags, the size of the format part, and zero
    /// everywhere else.
    pub open spec fn initial() -> WaveRiff {
        WaveRiff {
            riff: TAG_RIFF,
            riff_size: 0,
            wave: TAG_WAVE,
            fmt: TAG_FORMAT,
            fmt_size: 0x10,
            fmt_type: 0,
            fmt_channel_count: 0,
            fmt_sampling_rate: 0,
            fmt_sampling_per_sec: 0,
            fmt_sampling_size: 0,
            fmt_bit_count: 0,
        }
    }

    /// The 36 bytes of the parts: every field in order, numbers
    /// little-endian.
    pub open spec fn bytes(self) -> Seq<u8> {
        self.riff@ + le32(self.riff_size) + self.wave@ + self.fmt@ + le32(self.fmt_size) + le16(
            self.fmt_type,
        ) + le16(self.fmt_channel_count) + le32(self.fmt_sampling_rate) + le32(
            self.fmt_sampling_per_sec,
        ) + le16(self.fmt_sampling_size) + le16(self.fmt_bit_count)
    }

    pub fn build_byte_array(&self) -> (result: Vec<u8>)
        ensures
            result@ == self.bytes(),
    {
        let mut result: Vec<u8> = Vec::new();
        push_all(&mut result, self.riff.as_slice());
        push_le32(&mut result, self.riff_size);
        push_all(&mut result, self.wave.as_slice());
        push_all(&mut result, self.fmt.as_slice());
        push_le32(&mut result, self.fmt_size);
        push_le16(&mut result, self.fmt_type);
        push_le16(&mut result, self.fmt_channel_count);
        push_le32(&mut result, self.fmt_sampling_rate);
        push_le32(&mut result, self.fmt_sampling_per_sec);
        push_le16(&mut result, self.fmt_sampling_size);
        push_le16(&mut result, self.fmt_bit_count);
        assert(result@ =~= self.bytes());
        result
    }
}

impl Default for WaveRiff {
    fn default() -> (r: Self)
        ensures
            r == WaveRiff::initial(),
    {
        Self {
            riff: TAG_RIFF,
            riff_size: 0,
            wave: TAG_WAVE,
            fmt: TAG_FORMAT,
            fmt_size: 0x10,
            fmt_type: 0,
            fmt_channel_count: 0,
            fmt_sampling_rate: 0,
            fmt_sampling_per_sec: 0,
            fmt_sampling_size: 0,
            fmt_bit_count: 0,
        }
    }
}

/// The sampler part of a wave header, for a file with one loop.
#[derive(Clone, Copy, Debug)]
pub struct WaveSample {
    pub smpl: [u8; 4],
    pub smpl_size: u32,
    pub manufacturer: u32,
    pub product: u32,
    pub sample_period: u32,
    pub midi_unity_note: u32,
    pub midi_pitch_fraction: u32,
    pub smpte_format: u32,
    pub smpte_offset: u32,
    pub sample_loops: u32,
    pub sampler_data: u32,
    pub loop_identifier: u32,
    pub loop_type: u32,
    pub loop_start: u32,
    pub loop_end: u32,
    pub loop_fraction: u32,
    pub loop_play_count: u32,
}

impl WaveSample {
    /// The part with its tag and sizes, one loop, and zero everywhere else.
    pub open spec fn initial() -> WaveSample {
        WaveSample {
            smpl: TAG_SAMPLE,
            smpl_size: 0x3C,
            manufacturer: 0,
            product: 0,
            sample_period: 0,
            midi_unity_note: 0,
            midi_pitch_fraction: 0,
            smpte_format: 0,
            smpte_offset: 0,
            sample_loops: 1,
            sampler_data: 0x18,
            loop_identifier: 0,
            loop_type: 0,
            loop_start: 0,
            loop_end: 0,
            loop_fraction: 0,
            loop_play_count: 0,
        }
    }
}

impl Default for WaveSample {
    fn default() -> (r: Self)
        ensures
            r == WaveSample::initial(),
    {
        Self {
            smpl: TAG_SAMPLE,
            smpl_size: 0x3C,
            manufacturer: 0,
            product: 0,
            sample_period: 0,
            midi_unity_note: 0,
            midi_pitch_fraction: 0,
            smpte_format: 0,
            smpte_offset: 0,
            sample_loops: 1,
            sampler_data: 0x18,
            loop_identifier: 0,
            loop_type: 0,
            loop_start: 0,
            loop_end: 0,
            loop_fraction: 0,
            loop_play_count: 0,
        }
    }
}

/// The `data` part of a wave header.
#[derive(Clone, Copy, Debug)]
pub struct WaveData {
    pub data: [u8; 4],
    pub data_size: u32,
}

impl WaveData {
    /// The part with its tag and no data.
    pub open spec fn initial() -> WaveData {
        WaveData { data: TAG_DATA, data_size: 0 }
    }

    /// The eight bytes of the part.
    pub open spec fn bytes(self) -> Seq<u8> {
        self.data@ + le32(self.data_size)
    }

    pub fn set_data_size(&mut self, data_size: u32)
        ensures
            *final(self) == (WaveData { data_size, ..*old(self) }),
    {
        self.data_size = data_size;
    }

    pub fn build_byte_array(&self) -> (res: Vec<u8>)
        ensures
            res@ == self.bytes(),
    {
        let mut res: Vec<u8> = Vec::new();
        push_all(&mut res, self.data.as_slice());
        push_le32(&mut res, self.data_size);
        res
    }
}

impl Default for WaveData {
    fn default() -> (r: Self)
        ensures
            r == WaveData::initial(),
    {
        Self { data: TAG_DATA, data_size: 0 }
    }
}

/// Whether `mode` is a sample format: `0` float, or 8, 16, 24 or 32 bits.
pub open spec fn mode_ok(mode: u16) -> bool {
    mode == 0 || mode == 8 || mode == 0x10 || mode == 0x18 || mode == 0x20
}

/// The number of bits of a sample in the header: that of the mode, and 32
/// for float samples.
pub open spec fn bit_count(mode: u16) -> u16 {
    if mode > 0 {
        mode
    } else {
        32
    }
}

/// The number of bytes of one sample of every channel together.
pub open spec fn frame_bytes(channel_count: u16, mode: u16) -> int {
    bit_count(mode) / 8 * channel_count
}

/// The number of sample bytes of a file: every block holds eight sub-frames
/// of 128 samples for every channel.
pub open spec fn data_bytes(channel_count: u16, block_count: u32, mode: u16) -> int {
    block_count * 0x80 * 8 * frame_bytes(channel_count, mode)
}

/// Whether every size of the header fits its field.
pub open spec fn sizes_fit(
    channel_count: u16,
    sampling_rate: u32,
    block_count: u32,
    mode: u16,
) -> bool {
    &&& frame_bytes(channel_count, mode) <= u16::MAX
    &&& sampling_rate * frame_bytes(channel_count, mode) <= u32::MAX
    &&& 0x1C + 8 + data_bytes(channel_count, block_count, mode) <= u32::MAX
}

/// The two parts of the header of a file with the given channels, sampling
/// rate, number of blocks and sample format.
pub open spec fn header_parts(
    channel_count: u16,
    sampling_rate: u32,
    block_count: u32,
    mode: u16,
) -> (WaveRiff, WaveData) {
    let frame = frame_bytes(channel_count, mode);
    let data = data_bytes(channel_count, block_count, mode);
    (
        WaveRiff {
            riff_size: (0x1C + 8 + data) as u32,
            fmt_type: if mode > 0 {
                1
            } else {
                3
            },
            fmt_channel_count: channel_count,
            fmt_bit_count: bit_count(mode),
            fmt_sampling_rate: sampling_rate,
            fmt_sampling_size: frame as u16,
            fmt_sampling_per_sec: (sampling_rate * frame) as u32,
            ..WaveRiff::initial()
        },
        WaveData { data_size: data as u32, ..WaveData::initial() },
    )
}

/// The error for a sample format that is not supported.
pub open spec fn bad_mode() -> ErrorView {
    ErrorView { kind: ErrorKind::IOFailure, message: "Mode not supported"@ }
}

/// The error for a file whose sizes do not fit the header.
pub open spec fn too_large() -> ErrorView {
    ErrorView { kind: ErrorKind::IOFailure, message: "Audio too large for a wave file"@ }
}

/// What the header of a wave file is, if it can be written.
pub open spec fn wave_header(
    channel_count: u16,
    sampling_rate: u32,
    block_count: u32,
    mode: u16,
) -> Result<Seq<u8>, ErrorView> {
    if !mode_ok(mode) {
        Err(bad_mode())
    } else if !sizes_fit(channel_count, sampling_rate, block_count, mode) {
        Err(too_large())
    } else {
        let (riff, data) = header_parts(channel_count, sampling_rate, block_count, mode);
        Ok(riff.bytes() + data.bytes())
    }
}

/// Builds the 44 bytes that precede the samples of a wave file.
pub fn build_header(channel_count: u16, sampling_rate: u32, block_count: u32, mode: u16) -> (r:
    GICSResult<Vec<u8>>)
    ensures
        match r {
            Ok(bytes) => wave_header(channel_count, sampling_rate, block_count, mode) == Ok::<
                Seq<u8>,
                ErrorView,
            >(bytes@),
            Err(e) => wave_header(channel_count, sampling_rate, block_count, mode) == Err::<
                Seq<u8>,
                ErrorView,
            >(e@),
        },
{
    if !(mode == 0 || mode == 8 || mode == 0x10 || mode == 0x18 || mode == 0x20) {
        return Err(GICSError::with_kind(ErrorKind::IOFailure, "Mode not supported"));
    }
    let bits: u16 = if mode > 0 {
        mode
    } else {
        32
    };
    let width: u64 = (bits / 8) as u64;
    assert(width * channel_count <= 4 * 0xFFFF) by (nonlinear_arith)
        requires
            width <= 4,
            channel_count <= 0xFFFF,
    ;
    let frame: u64 = width * channel_count as u64;
    assert(sampling_rate * frame <= 0xFFFF_FFFF * 0x3_FFFC) by (nonlinear_arith)
        requires
            sampling_rate <= 0xFFFF_FFFF,
            frame <= 0x3_FFFC,
    ;
    let per_sec: u64 = sampling_rate as u64 * frame;
    let samples: u64 = block_count as u64 * 0x80 * 8;
    if frame > u16::MAX as u64 || per_sec > u32::MAX as u64 {
        return Err(GICSError::with_kind(ErrorKind::IOFailure, "Audio too large for a wave file"));
    }
    assert(samples * frame <= 0x3FF_FFFF_FC00 * 0xFFFF) by (nonlinear_arith)
        requires
            samples <= 0x3FF_FFFF_FC00,
            frame <= 0xFFFF,
    ;
    let data_size: u64 = samples * frame;
    assert(data_size == data_bytes(channel_count, block_count, mode)) by (nonlinear_arith)
        requires
            data_size == samples * frame,
            samples == block_count * 0x80 * 8,
            frame == frame_bytes(channel_count, mode),
    ;
    if 0x1C + 8 + data_size > u32::MAX as u64 {
        return Err(GICSError::with_kind(ErrorKind::IOFailure, "Audio too large for a wave file"));
    }
    let mut wav_riff = WaveRiff::default();
    wav_riff.fmt_type = if mode > 0 {
        1
    } else {
        3
    };
    wav_riff.fmt_channel_count = channel_count;
    wav_riff.fmt_bit_count = bits;
    wav_riff.fmt_sampling_rate = sampling_rate;
    wav_riff.fmt_sampling_size = frame as u16;
    wav_riff.fmt_sampling_per_sec = per_sec as u32;
    let mut wav_data = WaveData::default();
    wav_data.set_data_size(data_size as u32);
    wav_riff.riff_size = (0x1C + 8 + data_size) as u32;
    let mut header = wav_riff.build_byte_array();
    let mut tail = wav_data.build_byte_array();
    header.append(&mut tail);
    Ok(header)
}

/// The bytes written for one sample: the first `mode / 8` bytes of its
/// little-endian two's complement.
pub open spec fn sample_bytes(v: i32, mode: u16) -> Seq<u8> {
    le32_signed(v).take(mode as int / 8)
}

/// Writes one quantized sample at the end of `out`.
pub fn push_sample(out: &mut Vec<u8>, v: i32, mode: u16)
    requires
        mode <= 0x20,
    ensures
        final(out)@ == old(out)@ + sample_bytes(v, mode),
{
    let raw: u32 = if v < 0 {
        (v as i64 + 0x1_0000_0000) as u32
    } else {
        v as u32
    };
    let bytes: [u8; 4] = [
        (raw % 0x100) as u8,
        ((raw / 0x100) % 0x100) as u8,
        ((raw / 0x1_0000) % 0x100) as u8,
        (raw / 0x100_0000) as u8,
    ];
    assert(bytes@ =~= le32_signed(v));
    let count = (mode / 8) as usize;
    let mut i: usize = 0;
    while i < count
        invariant
            i <= count <= 4,
            out@ == old(out)@ + bytes@.take(i as int),
        decreases count - i,
    {
        out.push(bytes[i]);
        assert(bytes@.take(i + 1) =~= bytes@.take(i as int).push(bytes@[i as int]));
        i += 1;
    }
}

} // verus!
