//! The header of the audio file: its fields and its chain of chunks.

use crate::errors::{ErrorKind, ErrorView, GICSError, GICSResult};
use crate::filetypes::crc::{
    checksum, crc_matches, lemma_sealed_matches, lemma_top_byte, sealed,
};
use crate::tools::{be16, be24, be32};
use vstd::prelude::*;
use vstd::slice::{slice_subrange, slice_to_vec};

verus! {

/// The scalar fields of an audio header.
#[derive(Clone, Copy, Debug, PartialEq, Eq, Structural)]
pub struct HCAHeader {
    pub version: u16,
    pub data_offset: u16,
    pub channel_count: u16,
    pub sampling_rate: u32,
    pub block_count: u32,
    pub block_size: u16,
    pub comp_r01: u32,
    pub comp_r02: u32,
    pub comp_r03: u32,
    pub comp_r04: u32,
    pub comp_r05: u32,
    pub comp_r06: u32,
    pub comp_r07: u32,
    pub comp_r08: u32,
    pub comp_r09: u32,
    pub ath_type: u16,
    pub loop_flag: bool,
    pub cipher_type: u16,
    /// The volume, an IEEE-754 single, as its bit pattern.
    pub volume: u32,
}

/// The bit pattern of the volume `1.0`.
pub const UNIT_VOLUME: u32 = 0x3F80_0000;

impl HCAHeader {
    /// The header with every field zero.
    pub open spec fn zeroed() -> HCAHeader {
        HCAHeader {
            version: 0,
            data_offset: 0,
            channel_count: 0,
            sampling_rate: 0,
            block_count: 0,
            block_size: 0,
            comp_r01: 0,
            comp_r02: 0,
            comp_r03: 0,
            comp_r04: 0,
            comp_r05: 0,
            comp_r06: 0,
            comp_r07: 0,
            comp_r08: 0,
            comp_r09: 0,
            ath_type: 0,
            loop_flag: false,
            cipher_type: 0,
            volume: 0,
        }
    }
}

impl Default for HCAHeader {
    fn default() -> (h: Self)
        ensures
            h == HCAHeader::zeroed(),
    {
        Self {
            version: 0,
            data_offset: 0,
            channel_count: 0,
            sampling_rate: 0,
            block_count: 0,
            block_size: 0,
            comp_r01: 0,
            comp_r02: 0,
            comp_r03: 0,
            comp_r04: 0,
            comp_r05: 0,
            comp_r06: 0,
            comp_r07: 0,
            comp_r08: 0,
            comp_r09: 0,
            ath_type: 0,
            loop_flag: false,
            cipher_type: 0,
            volume: 0,
        }
    }
}

pub const TAG_HCA: [u8; 4] = [0x48, 0x43, 0x41, 0x00];

pub const TAG_FMT: [u8; 4] = [0x66, 0x6D, 0x74, 0x00];

pub const TAG_COMP: [u8; 4] = [0x63, 0x6F, 0x6D, 0x70];

pub const TAG_DEC: [u8; 4] = [0x64, 0x65, 0x63, 0x00];

pub const TAG_VBR: [u8; 4] = [0x76, 0x62, 0x72, 0x00];

pub const TAG_ATH: [u8; 4] = [0x61, 0x74, 0x68, 0x00];

pub const TAG_LOOP: [u8; 4] = [0x6C, 0x6F, 0x6F, 0x70];

pub const TAG_CIPH: [u8; 4] = [0x63, 0x69, 0x70, 0x68];

pub const TAG_RVA: [u8; 4] = [0x72, 0x76, 0x61, 0x00];

pub const TAG_COMM: [u8; 4] = [0x63, 0x6F, 0x6D, 0x6D];

pub const TAG_PAD: [u8; 4] = [0x70, 0x61, 0x64, 0x00];

/// Whether the four bytes at `at`, each with its top bit cleared, spell
/// `tag`. A file may set the top bits of its tags to mark itself encrypted.
pub open spec fn tagged(bytes: Seq<u8>, at: int, tag: Seq<u8>) -> bool {
    &&& 0 <= at
    &&& at + 4 <= bytes.len()
    &&& bytes[at] & 0x7F == tag[0]
    &&& bytes[at + 1] & 0x7F == tag[1]
    &&& bytes[at + 2] & 0x7F == tag[2]
    &&& bytes[at + 3] & 0x7F == tag[3]
}

/// Whether a chunk of `size` bytes with the given tag stands at `at`.
pub open spec fn present(bytes: Seq<u8>, at: int, tag: Seq<u8>, size: int) -> bool {
    tagged(bytes, at, tag) && at + size <= bytes.len()
}

/// `bytes` with the plain tag written at `at`.
pub open spec fn with_tag(bytes: Seq<u8>, at: int, tag: Seq<u8>) -> Seq<u8> {
    bytes.update(at, tag[0]).update(at + 1, tag[1]).update(at + 2, tag[2]).update(at + 3, tag[3])
}

/// A header while its chunks are read: the bytes, with the tags read so far
/// in plain form; the fields found so far; and where the next chunk starts.
pub ghost struct HeaderScan {
    pub bytes: Seq<u8>,
    pub fields: HCAHeader,
    pub at: int,
}

/// The error for a header that breaks the format.
pub open spec fn bad_header(message: Seq<char>) -> ErrorView {
    ErrorView { kind: ErrorKind::BadHeader, message }
}

/// The error for an input that ends before the bytes that are due.
pub open spec fn truncated() -> ErrorView {
    ErrorView { kind: ErrorKind::IOFailure, message: "failed to fill whole buffer"@ }
}

/// The file prefix: signature, version and the size of the header.
pub open spec fn scan_start(file: Seq<u8>) -> Result<HeaderScan, ErrorView> {
    if file.len() < 8 {
        Err(truncated())
    } else if !tagged(file, 0, TAG_HCA@) {
        Err(bad_header("unknown signature for version and data_offset block"@))
    } else {
        let data_offset = be16(file[6], file[7]);
        if file.len() < data_offset {
            Err(truncated())
        } else {
            let taken = file.take(data_offset);
            Ok(
                HeaderScan {
                    bytes: if data_offset >= 4 {
                        with_tag(taken, 0, TAG_HCA@)
                    } else {
                        taken
                    },
                    fields: HCAHeader {
                        version: be16(file[4], file[5]) as u16,
                        data_offset: data_offset as u16,
                        ..HCAHeader::zeroed()
                    },
                    at: 8,
                },
            )
        }
    }
}

/// The format chunk: channels, sampling rate, number of blocks.
pub open spec fn scan_fmt(s: HeaderScan) -> Result<HeaderScan, ErrorView> {
    let b = s.bytes;
    let at = s.at;
    if present(b, at, TAG_FMT@, 16) {
        Ok(
            HeaderScan {
                bytes: with_tag(b, at, TAG_FMT@),
                fields: HCAHeader {
                    channel_count: b[at + 4] as u16,
                    sampling_rate: be24(b[at + 5], b[at + 6], b[at + 7]) as u32,
                    block_count: be32(b[at + 8], b[at + 9], b[at + 10], b[at + 11]) as u32,
                    ..s.fields
                },
                at: at + 16,
            },
        )
    } else {
        Err(bad_header("Broken FMT header"@))
    }
}

/// Whether a block size is acceptable: zero, or at least eight.
pub open spec fn block_size_ok(block_size: u16) -> bool {
    block_size >= 8 || block_size == 0
}

/// Whether the first two compression registers are acceptable.
pub open spec fn registers_ok(r01: u32, r02: u32) -> bool {
    r01 <= r02 && r02 <= 0x1F
}

/// The compression chunk, in its long form.
pub open spec fn scan_comp_long(s: HeaderScan) -> Result<HeaderScan, ErrorView> {
    let b = s.bytes;
    let at = s.at;
    let block_size = be16(b[at + 4], b[at + 5]) as u16;
    if !block_size_ok(block_size) {
        Err(bad_header("invalid block size during HCA header reading"@))
    } else if !registers_ok(b[at + 6] as u32, b[at + 7] as u32) {
        Err(
            bad_header(
                "invalid comp register (1 and 2) values found during HCA header reading"@,
            ),
        )
    } else {
        Ok(
            HeaderScan {
                bytes: with_tag(b, at, TAG_COMP@),
                fields: HCAHeader {
                    block_size,
                    comp_r01: b[at + 6] as u32,
                    comp_r02: b[at + 7] as u32,
                    comp_r03: b[at + 8] as u32,
                    comp_r04: b[at + 9] as u32,
                    comp_r05: b[at + 10] as u32,
                    comp_r06: b[at + 11] as u32,
                    comp_r07: b[at + 12] as u32,
                    comp_r08: b[at + 13] as u32,
                    ..s.fields
                },
                at: at + 16,
            },
        )
    }
}

/// The compression chunk, in its short form.
pub open spec fn scan_comp_short(s: HeaderScan) -> Result<HeaderScan, ErrorView> {
    let b = s.bytes;
    let at = s.at;
    let block_size = be16(b[at + 4], b[at + 5]) as u16;
    let r05 = b[at + 8] as int;
    let r06 = if b[at + 11] > 0 {
        b[at + 9] as int
    } else {
        b[at + 8] as int + 1
    };
    if r06 > r05 {
        Err(bad_header("invalid sub-band counts found during HCA header reading"@))
    } else if !block_size_ok(block_size) {
        Err(bad_header("invalid block size found during HCA header reading"@))
    } else if !registers_ok(b[at + 6] as u32, b[at + 7] as u32) {
        Err(
            bad_header(
                "invalid comp register (1 and 2) values found during HCA header reading"@,
            ),
        )
    } else {
        Ok(
            HeaderScan {
                bytes: with_tag(b, at, TAG_DEC@),
                fields: HCAHeader {
                    block_size,
                    comp_r01: if b[at + 10] / 16 == 0 {
                        1
                    } else {
                        b[at + 6] as u32
                    },
                    comp_r02: b[at + 7] as u32,
                    comp_r03: (b[at + 10] / 16) as u32,
                    comp_r04: (b[at + 10] % 16) as u32,
                    comp_r05: r05 as u32,
                    comp_r06: r06 as u32,
                    comp_r07: (r05 - r06) as u32,
                    comp_r08: 0,
                    ..s.fields
                },
                at: at + 12,
            },
        )
    }
}

/// The compression chunk: one of its two forms must be there.
pub open spec fn scan_comp(s: HeaderScan) -> Result<HeaderScan, ErrorView> {
    if present(s.bytes, s.at, TAG_COMP@, 16) {
        scan_comp_long(s)
    } else if present(s.bytes, s.at, TAG_DEC@, 12) {
        scan_comp_short(s)
    } else {
        Err(bad_header("Invalid field"@))
    }
}

/// A chunk of `size` bytes that is skipped when it is there.
pub open spec fn scan_skipped(s: HeaderScan, tag: Seq<u8>, size: int, step: int) -> HeaderScan {
    if present(s.bytes, s.at, tag, size) {
        HeaderScan { bytes: with_tag(s.bytes, s.at, tag), at: s.at + step, ..s }
    } else {
        s
    }
}

/// The hearing-threshold chunk. Without it, files older than version 2 use
/// the table of type 1.
pub open spec fn scan_ath(s: HeaderScan) -> HeaderScan {
    let b = s.bytes;
    let at = s.at;
    if present(b, at, TAG_ATH@, 6) {
        HeaderScan {
            bytes: with_tag(b, at, TAG_ATH@),
            fields: HCAHeader { ath_type: be16(b[at + 4], b[at + 4]) as u16, ..s.fields },
            at: at + 6,
        }
    } else if s.fields.version < 0x200 {
        HeaderScan { fields: HCAHeader { ath_type: 1, ..s.fields }, ..s }
    } else {
        s
    }
}

/// The loop chunk.
pub open spec fn scan_loop(s: HeaderScan) -> HeaderScan {
    if present(s.bytes, s.at, TAG_LOOP@, 16) {
        HeaderScan {
            bytes: with_tag(s.bytes, s.at, TAG_LOOP@),
            fields: HCAHeader { loop_flag: true, ..s.fields },
            at: s.at + 16,
        }
    } else {
        HeaderScan { fields: HCAHeader { loop_flag: false, ..s.fields }, ..s }
    }
}

/// Whether a cipher type is one of the three known ones.
pub open spec fn cipher_type_ok(tp: u16) -> bool {
    tp == 0 || tp == 1 || tp == 0x38
}

/// The cipher chunk.
pub open spec fn scan_ciph(s: HeaderScan) -> Result<HeaderScan, ErrorView> {
    let b = s.bytes;
    let at = s.at;
    if present(b, at, TAG_CIPH@, 6) {
        let tp = be16(b[at + 4], b[at + 5]) as u16;
        if cipher_type_ok(tp) {
            Ok(
                HeaderScan {
                    bytes: with_tag(b, at, TAG_CIPH@),
                    fields: HCAHeader { cipher_type: tp, ..s.fields },
                    at: at + 6,
                },
            )
        } else {
            Err(bad_header("Invalid cipher type found during HCA header reading"@))
        }
    } else {
        Ok(HeaderScan { fields: HCAHeader { cipher_type: 0, ..s.fields }, ..s })
    }
}

/// The volume chunk.
pub open spec fn scan_rva(s: HeaderScan) -> HeaderScan {
    let b = s.bytes;
    let at = s.at;
    if present(b, at, TAG_RVA@, 8) {
        HeaderScan {
            bytes: with_tag(b, at, TAG_RVA@),
            fields: HCAHeader {
                volume: be32(b[at + 4], b[at + 5], b[at + 6], b[at + 7]) as u32,
                ..s.fields
            },
            at: at + 8,
        }
    } else {
        HeaderScan { fields: HCAHeader { volume: UNIT_VOLUME, ..s.fields }, ..s }
    }
}

/// The chunks that may follow the compression chunk, in their fixed order.
pub open spec fn scan_optional(s: HeaderScan) -> Result<HeaderScan, ErrorView> {
    match scan_ciph(scan_loop(scan_ath(scan_skipped(s, TAG_VBR@, 8, 8)))) {
        Err(e) => Err(e),
        Ok(c) => Ok(
            scan_skipped(scan_skipped(scan_rva(c), TAG_COMM@, 5, 5), TAG_PAD@, 4, 0),
        ),
    }
}

/// The whole header of `file`: its fields, and its bytes with plain tags and
/// a fresh checksum.
pub open spec fn scan_header(file: Seq<u8>) -> Result<HeaderScan, ErrorView> {
    match scan_start(file) {
        Err(e) => Err(e),
        Ok(s0) => match scan_fmt(s0) {
            Err(e) => Err(e),
            Ok(s1) => match scan_comp(s1) {
                Err(e) => Err(e),
                Ok(s2) => match scan_optional(s2) {
                    Err(e) => Err(e),
                    Ok(s3) => Ok(HeaderScan { bytes: sealed(s3.bytes), ..s3 }),
                },
            },
        },
    }
}

/// A header as it is read: the executable side of [`HeaderScan`].
struct Scanner {
    bytes: Vec<u8>,
    fields: HCAHeader,
    at: usize,
}

impl View for Scanner {
    type V = HeaderScan;

    closed spec fn view(&self) -> HeaderScan {
        HeaderScan { bytes: self.bytes@, fields: self.fields, at: self.at as int }
    }
}

fn has_chunk(bytes: &Vec<u8>, at: usize, tag: &[u8; 4], size: usize) -> (r: bool)
    requires
        4 <= size <= 16,
    ensures
        r == present(bytes@, at as int, tag@, size as int),
{
    let len = bytes.len();
    if len < size || at > len - size {
        return false;
    }
    (bytes[at] & 0x7F) == tag[0] && (bytes[at + 1] & 0x7F) == tag[1] && (bytes[at + 2] & 0x7F)
        == tag[2] && (bytes[at + 3] & 0x7F) == tag[3]
}

fn write_tag(bytes: &mut Vec<u8>, at: usize, tag: &[u8; 4])
    requires
        at + 4 <= old(bytes).len(),
    ensures
        final(bytes)@ == with_tag(old(bytes)@, at as int, tag@),
{
    bytes[at] = tag[0];
    bytes[at + 1] = tag[1];
    bytes[at + 2] = tag[2];
    bytes[at + 3] = tag[3];
}

fn read_be16(bytes: &Vec<u8>, at: usize) -> (r: u16)
    requires
        at + 2 <= bytes.len(),
    ensures
        r == be16(bytes@[at as int], bytes@[at + 1]),
{
    (bytes[at] as u16) * 0x100 + (bytes[at + 1] as u16)
}

fn read_be32(bytes: &Vec<u8>, at: usize) -> (r: u32)
    requires
        at + 4 <= bytes.len(),
    ensures
        r == be32(bytes@[at as int], bytes@[at + 1], bytes@[at + 2], bytes@[at + 3]),
{
    (bytes[at] as u32) * 0x100_0000 + (bytes[at + 1] as u32) * 0x1_0000 + (bytes[at + 2] as u32)
        * 0x100 + (bytes[at + 3] as u32)
}

pub fn broken(message: &str) -> (e: GICSError)
    ensures
        e@ == bad_header(message@),
{
    GICSError::with_kind(ErrorKind::BadHeader, message)
}

pub fn short_input() -> (e: GICSError)
    ensures
        e@ == truncated(),
{
    GICSError::with_kind(ErrorKind::IOFailure, "failed to fill whole buffer")
}

impl Scanner {
    fn start(file: &[u8]) -> (r: GICSResult<Scanner>)
        ensures
            match r {
                Ok(s) => scan_start(file@) == Ok::<HeaderScan, ErrorView>(s@),
                Err(e) => scan_start(file@) == Err::<HeaderScan, ErrorView>(e@),
            },
            r matches Ok(s) ==> s.at == 8,
    {
        if file.len() < 8 {
            return Err(short_input());
        }
        if !((file[0] & 0x7F) == TAG_HCA[0] && (file[1] & 0x7F) == TAG_HCA[1] && (file[2] & 0x7F)
            == TAG_HCA[2] && (file[3] & 0x7F) == TAG_HCA[3]) {
            return Err(broken("unknown signature for version and data_offset block"));
        }
        let version: u16 = (file[4] as u16) * 0x100 + (file[5] as u16);
        let data_offset: u16 = (file[6] as u16) * 0x100 + (file[7] as u16);
        if file.len() < data_offset as usize {
            return Err(short_input());
        }
        let mut bytes = slice_to_vec(slice_subrange(file, 0, data_offset as usize));
        assert(bytes@ == file@.take(data_offset as int));
        if data_offset >= 4 {
            write_tag(&mut bytes, 0, &TAG_HCA);
        }
        let mut fields = HCAHeader::default();
        fields.version = version;
        fields.data_offset = data_offset;
        Ok(Scanner { bytes, fields, at: 8 })
    }

    fn fmt(&mut self) -> (r: GICSResult<()>)
        requires
            old(self).at <= 0x100,
        ensures
            match r {
                Ok(_) => scan_fmt(old(self)@) == Ok::<HeaderScan, ErrorView>(final(self)@),
                Err(e) => scan_fmt(old(self)@) == Err::<HeaderScan, ErrorView>(e@),
            },
            final(self).at <= old(self).at + 16,
            final(self).bytes.len() == old(self).bytes.len(),
            r is Ok ==> final(self).bytes.len() >= 16,
    {
        let at = self.at;
        if !has_chunk(&self.bytes, at, &TAG_FMT, 16) {
            return Err(broken("Broken FMT header"));
        }
        self.fields.channel_count = self.bytes[at + 4] as u16;
        self.fields.sampling_rate = (self.bytes[at + 5] as u32) * 0x1_0000 + (self.bytes[at
            + 6] as u32) * 0x100 + (self.bytes[at + 7] as u32);
        self.fields.block_count = read_be32(&self.bytes, at + 8);
        write_tag(&mut self.bytes, at, &TAG_FMT);
        self.at = at + 16;
        Ok(())
    }

    fn comp(&mut self) -> (r: GICSResult<()>)
        requires
            old(self).at <= 0x100,
        ensures
            match r {
                Ok(_) => scan_comp(old(self)@) == Ok::<HeaderScan, ErrorView>(final(self)@),
                Err(e) => scan_comp(old(self)@) == Err::<HeaderScan, ErrorView>(e@),
            },
            final(self).at <= old(self).at + 16,
            final(self).bytes.len() == old(self).bytes.len(),
    {
        let at = self.at;
        if has_chunk(&self.bytes, at, &TAG_COMP, 16) {
            let block_size = read_be16(&self.bytes, at + 4);
            let r01 = self.bytes[at + 6] as u32;
            let r02 = self.bytes[at + 7] as u32;
            if !(block_size >= 8 || block_size == 0) {
                return Err(broken("invalid block size during HCA header reading"));
            }
            if !(r01 <= r02 && r02 <= 0x1F) {
                return Err(
                    broken(
                        "invalid comp register (1 and 2) values found during HCA header reading",
                    ),
                );
            }
            self.fields.block_size = block_size;
            self.fields.comp_r01 = r01;
            self.fields.comp_r02 = r02;
            self.fields.comp_r03 = self.bytes[at + 8] as u32;
            self.fields.comp_r04 = self.bytes[at + 9] as u32;
            self.fields.comp_r05 = self.bytes[at + 10] as u32;
            self.fields.comp_r06 = self.bytes[at + 11] as u32;
            self.fields.comp_r07 = self.bytes[at + 12] as u32;
            self.fields.comp_r08 = self.bytes[at + 13] as u32;
            write_tag(&mut self.bytes, at, &TAG_COMP);
            self.at = at + 16;
            Ok(())
        } else if has_chunk(&self.bytes, at, &TAG_DEC, 12) {
            let block_size = read_be16(&self.bytes, at + 4);
            let r01 = self.bytes[at + 6] as u32;
            let r02 = self.bytes[at + 7] as u32;
            let r03 = (self.bytes[at + 10] / 16) as u32;
            let r04 = (self.bytes[at + 10] % 16) as u32;
            let r05 = self.bytes[at + 8] as u32;
            let r06 = if self.bytes[at + 11] > 0 {
                self.bytes[at + 9] as u32
            } else {
                self.bytes[at + 8] as u32 + 1
            };
            if r06 > r05 {
                return Err(broken("invalid sub-band counts found during HCA header reading"));
            }
            if !(block_size >= 8 || block_size == 0) {
                return Err(broken("invalid block size found during HCA header reading"));
            }
            if !(r01 <= r02 && r02 <= 0x1F) {
                return Err(
                    broken(
                        "invalid comp register (1 and 2) values found during HCA header reading",
                    ),
                );
            }
            self.fields.block_size = block_size;
            self.fields.comp_r01 = if r03 == 0 {
                1
            } else {
                r01
            };
            self.fields.comp_r02 = r02;
            self.fields.comp_r03 = r03;
            self.fields.comp_r04 = r04;
            self.fields.comp_r05 = r05;
            self.fields.comp_r06 = r06;
            self.fields.comp_r07 = r05 - r06;
            self.fields.comp_r08 = 0;
            write_tag(&mut self.bytes, at, &TAG_DEC);
            self.at = at + 12;
            Ok(())
        } else {
            Err(broken("Invalid field"))
        }
    }

    fn skipped(&mut self, tag: &[u8; 4], size: usize, step: usize)
        requires
            old(self).at <= 0x100,
            4 <= size <= 16,
            step <= 16,
        ensures
            final(self)@ == scan_skipped(old(self)@, tag@, size as int, step as int),
            final(self).at <= old(self).at + 16,
            final(self).bytes.len() == old(self).bytes.len(),
    {
        if has_chunk(&self.bytes, self.at, tag, size) {
            write_tag(&mut self.bytes, self.at, tag);
            self.at = self.at + step;
        }
    }

    fn ath(&mut self)
        requires
            old(self).at <= 0x100,
        ensures
            final(self)@ == scan_ath(old(self)@),
            final(self).at <= old(self).at + 16,
            final(self).bytes.len() == old(self).bytes.len(),
    {
        let at = self.at;
        if has_chunk(&self.bytes, at, &TAG_ATH, 6) {
            let b = self.bytes[at + 4] as u16;
            self.fields.ath_type = b * 0x100 + b;
            write_tag(&mut self.bytes, at, &TAG_ATH);
            self.at = at + 6;
        } else if self.fields.version < 0x200 {
            self.fields.ath_type = 1;
        }
    }

    fn looping(&mut self)
        requires
            old(self).at <= 0x100,
        ensures
            final(self)@ == scan_loop(old(self)@),
            final(self).at <= old(self).at + 16,
            final(self).bytes.len() == old(self).bytes.len(),
    {
        if has_chunk(&self.bytes, self.at, &TAG_LOOP, 16) {
            write_tag(&mut self.bytes, self.at, &TAG_LOOP);
            self.fields.loop_flag = true;
            self.at = self.at + 16;
        } else {
            self.fields.loop_flag = false;
        }
    }

    fn ciph(&mut self) -> (r: GICSResult<()>)
        requires
            old(self).at <= 0x100,
        ensures
            match r {
                Ok(_) => scan_ciph(old(self)@) == Ok::<HeaderScan, ErrorView>(final(self)@),
                Err(e) => scan_ciph(old(self)@) == Err::<HeaderScan, ErrorView>(e@),
            },
            final(self).at <= old(self).at + 16,
            final(self).bytes.len() == old(self).bytes.len(),
    {
        let at = self.at;
        if has_chunk(&self.bytes, at, &TAG_CIPH, 6) {
            let tp = read_be16(&self.bytes, at + 4);
            if !(tp == 0 || tp == 1 || tp == 0x38) {
                return Err(broken("Invalid cipher type found during HCA header reading"));
            }
            self.fields.cipher_type = tp;
            write_tag(&mut self.bytes, at, &TAG_CIPH);
            self.at = at + 6;
        } else {
            self.fields.cipher_type = 0;
        }
        Ok(())
    }

    fn rva(&mut self)
        requires
            old(self).at <= 0x100,
        ensures
            final(self)@ == scan_rva(old(self)@),
            final(self).at <= old(self).at + 16,
            final(self).bytes.len() == old(self).bytes.len(),
    {
        let at = self.at;
        if has_chunk(&self.bytes, at, &TAG_RVA, 8) {
            self.fields.volume = read_be32(&self.bytes, at + 4);
            write_tag(&mut self.bytes, at, &TAG_RVA);
            self.at = at + 8;
        } else {
            self.fields.volume = UNIT_VOLUME;
        }
    }

    fn optional(&mut self) -> (r: GICSResult<()>)
        requires
            old(self).at <= 0x40,
        ensures
            match r {
                Ok(_) => scan_optional(old(self)@) == Ok::<HeaderScan, ErrorView>(final(self)@),
                Err(e) => scan_optional(old(self)@) == Err::<HeaderScan, ErrorView>(e@),
            },
            final(self).bytes.len() == old(self).bytes.len(),
    {
        self.skipped(&TAG_VBR, 8, 8);
        self.ath();
        self.looping();
        self.ciph()?;
        self.rva();
        self.skipped(&TAG_COMM, 5, 5);
        self.skipped(&TAG_PAD, 4, 0);
        Ok(())
    }
}

/// A loaded audio file: the header fields, the tables built from them, the

proof fn lemma_skipped_length(s: HeaderScan, tag: Seq<u8>, size: int, step: int)
    ensures
        scan_skipped(s, tag, size, step).bytes.len() == s.bytes.len(),
{
}

proof fn lemma_optional_length(s: HeaderScan)
    ensures
        scan_optional(s) matches Ok(t) ==> t.bytes.len() == s.bytes.len(),
{
    let a = scan_skipped(s, TAG_VBR@, 8, 8);
    let b = scan_ath(a);
    let c = scan_loop(b);
    assert(a.bytes.len() == s.bytes.len());
    assert(b.bytes.len() == a.bytes.len());
    assert(c.bytes.len() == b.bytes.len());
    if let Ok(d) = scan_ciph(c) {
        assert(d.bytes.len() == c.bytes.len());
        let e = scan_rva(d);
        assert(e.bytes.len() == d.bytes.len());
        let f = scan_skipped(e, TAG_COMM@, 5, 5);
        lemma_skipped_length(e, TAG_COMM@, 5, 5);
        lemma_skipped_length(f, TAG_PAD@, 4, 0);
    }
}

/// A header that scans carries the checksum of its own bytes.
pub proof fn lemma_scanned_checksum(file: Seq<u8>)
    ensures
        scan_header(file) matches Ok(s) ==> crc_matches(s.bytes),
{
    if let Ok(s) = scan_header(file) {
        let s0 = scan_start(file)->Ok_0;
        let s1 = scan_fmt(s0)->Ok_0;
        assert(s1.bytes.len() >= 24);
        let s2 = scan_comp(s1)->Ok_0;
        assert(s2.bytes.len() == s1.bytes.len());
        let s3 = scan_optional(s2)->Ok_0;
        lemma_optional_length(s2);
        lemma_sealed_matches(s3.bytes);
    }
}

/// Reads the header of `file`: its fields, and its bytes with plain tags and
/// a fresh checksum.
pub fn read_chunks(file: &[u8]) -> (r: GICSResult<(HCAHeader, Vec<u8>)>)
    ensures
        match r {
            Ok(found) => scan_header(file@) matches Ok(s) && s.fields == found.0 && s.bytes
                == found.1@,
            Err(e) => scan_header(file@) == Err::<HeaderScan, ErrorView>(e@),
        },
{
    let mut scan = Scanner::start(file)?;
    let ghost s0 = scan@;
    scan.fmt()?;
    let ghost s1 = scan@;
    scan.comp()?;
    let ghost s2 = scan@;
    scan.optional()?;
    let ghost s3 = scan@;
    let ghost unsealed = scan.bytes@;
    assert(scan_header(file@) == Ok::<HeaderScan, ErrorView>(
        HeaderScan { bytes: sealed(s3.bytes), ..s3 },
    ));
    let len = scan.bytes.len();
    let sum = checksum(scan.bytes.as_slice(), len - 2);
    proof {
        lemma_top_byte(sum, 0);
    }
    scan.bytes[len - 2] = (sum >> 8) as u8;
    scan.bytes[len - 1] = (sum & 0xFF) as u8;
    assert(scan.bytes@ == sealed(unsealed));
    Ok((scan.fields, scan.bytes))
}

} // verus!
