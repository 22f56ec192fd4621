//! The compressed audio file: what it holds once loaded, and the framing of
//! its blocks.

use crate::errors::{ErrorKind, ErrorView, GICSError, GICSResult};
use crate::filetypes::ath::{ath_init, ath_table};
use crate::filetypes::block::{
    bad_block, channel_views, decodable, decode_frames, frames, BlockView,
};
use crate::filetypes::channel::{Channel, ChannelView};
use crate::filetypes::cipher::{cipher_table, init_mask, substituted};
use crate::filetypes::crc::crc_matches;
use crate::filetypes::header::{
    bad_header, lemma_scanned_checksum, read_chunks, scan_header, short_input, truncated,
    HCAHeader,
};
use crate::filetypes::layout::{channel_init, configured_channel, high_groups, layout_ok};
use vstd::prelude::*;
use vstd::slice::{slice_subrange, slice_to_vec};

verus! {

/// The mathematical content of an [`HCAFile`].
pub ghost struct HCAFileView {
    /// Low half of the key, little-endian.
    pub key1: Seq<u8>,
    /// High half of the key, little-endian.
    pub key2: Seq<u8>,
    pub cipher_table: Seq<u8>,
    pub ath_table: Seq<u8>,
    pub encrypted: bool,
    pub hca_header: HCAHeader,
    pub channels: Seq<ChannelView>,
    /// The header bytes, with plain tags and a fresh checksum.
    pub header: Seq<u8>,
    /// The blocks.
    pub data: Seq<u8>,
}

/// What loading `file` with the key halves `key1` and `key2` gives.
pub open spec fn parse_file(file: Seq<u8>, key1: Seq<u8>, key2: Seq<u8>) -> Result<
    HCAFileView,
    ErrorView,
> {
    match scan_header(file) {
        Err(e) => Err(e),
        Ok(s) => {
            let h = s.fields;
            let data_size = h.block_size * h.block_count;
            let h1 = HCAHeader {
                comp_r03: if h.comp_r03 == 0 {
                    1
                } else {
                    h.comp_r03
                },
                ..h
            };
            if file.len() < h.data_offset + data_size {
                Err(truncated())
            } else if ath_table(h.ath_type, h.sampling_rate) is None {
                Err(
                    bad_header(
                        "ATH table kind unknown. What kind of ATH table are you using, dear?"@,
                    ),
                )
            } else if !(h1.comp_r01 == 1 && h1.comp_r02 == 15) {
                Err(
                    bad_header(
                        "Comp register values 1 and 2 invalid for channel initialization"@,
                    ),
                )
            } else if !layout_ok(h1) {
                Err(bad_header("Sub-band counts do not fit the channel layout"@))
            } else {
                let h2 = HCAHeader { comp_r09: high_groups(h1) as u32, ..h1 };
                Ok(
                    HCAFileView {
                        key1,
                        key2,
                        cipher_table: cipher_table(
                            h.cipher_type,
                            key1,
                            key2,
                            Seq::new(0x100, |i: int| 0u8),
                        ),
                        ath_table: ath_table(h.ath_type, h.sampling_rate)->0,
                        encrypted: true,
                        hca_header: h2,
                        channels: Seq::new(
                            h2.channel_count as nat,
                            |i: int| configured_channel(h2, i),
                        ),
                        header: s.bytes,
                        data: file.subrange(
                            h.data_offset as int,
                            h.data_offset + data_size,
                        ),
                    },
                )
            }
        },
    }
}

/// What decoding `block` with the tables and channels of `f` gives. The
/// block is first put through the cipher table; it must then start with the
/// sync word.
pub open spec fn decoded_block(f: HCAFileView, block: Seq<u8>) -> Result<BlockView, ErrorView> {
    let size = f.hca_header.block_size;
    let groups = f.hca_header.comp_r09 as int;
    let data = substituted(f.cipher_table, block, size as int);
    if block.len() < size {
        Err(bad_block("Block shorter than the block size"@))
    } else if !decodable(f.channels, groups) {
        Err(bad_header("Sub-band counts do not fit the channel layout"@))
    } else {
        match frames(f.channels, data, size, groups, f.ath_table) {
            None => Err(bad_block("Block does not start with the sync word"@)),
            Some(b) => Ok(b),
        }
    }
}

/// A loaded audio file: the header fields, the tables built from them, the
/// channels and the blocks.
pub struct HCAFile {
    key1: [u8; 4],
    key2: [u8; 4],
    cipher_table: [u8; 0x100],
    ath_table: [u8; 0x80],
    encrypted: bool,
    hca_header: HCAHeader,
    hca_channel: Vec<Channel>,
    header: Vec<u8>,
    data: Vec<u8>,
}

impl View for HCAFile {
    type V = HCAFileView;

    closed spec fn view(&self) -> HCAFileView {
        HCAFileView {
            key1: self.key1@,
            key2: self.key2@,
            cipher_table: self.cipher_table@,
            ath_table: self.ath_table@,
            encrypted: self.encrypted,
            hca_header: self.hca_header,
            channels: Seq::new(self.hca_channel@.len(), |i: int| self.hca_channel@[i]@),
            header: self.header@,
            data: self.data@,
        }
    }
}

/// A file that loads carries in its header the checksum of the header's own
/// bytes.
pub proof fn lemma_loaded_header_checksum(file: Seq<u8>, key1: Seq<u8>, key2: Seq<u8>)
    ensures
        parse_file(file, key1, key2) matches Ok(f) ==> crc_matches(f.header),
{
    lemma_scanned_checksum(file);
}

/// The channels of a file that loads fit the decoder: no block of such a file
/// is refused for its sub-band counts.
pub proof fn lemma_loaded_decodable(file: Seq<u8>, key1: Seq<u8>, key2: Seq<u8>)
    ensures
        parse_file(file, key1, key2) matches Ok(f) ==> decodable(
            f.channels,
            f.hca_header.comp_r09 as int,
        ),
{
    if let Ok(f) = parse_file(file, key1, key2) {
        let h = f.hca_header;
        let before = HCAHeader { comp_r09: scan_header(file)->Ok_0.fields.comp_r09, ..h };
        let spare = h.comp_r05 - (h.comp_r06 + h.comp_r07);
        assert(layout_ok(before));
        assert(high_groups(before) >= 0) by {
            if h.comp_r08 > 0 {
                assert(spare / (h.comp_r08 as int) >= 0) by (nonlinear_arith)
                    requires
                        spare >= 0,
                        h.comp_r08 > 0,
                ;
            }
        }
        assert forall|i: int| 0 <= i < f.channels.len() implies {
            &&& (#[trigger] f.channels[i]).count <= 0x80
            &&& f.channels[i].kind != 2 ==> f.channels[i].value_3i + h.comp_r09 <= 0x80
        } by {
            assert(f.channels[i] == configured_channel(h, i));
        }
    }
}

impl HCAFile {
    /// Loads the audio file whose bytes are `file`, for the key halves
    /// `key2` (high) and `key1` (low), each little-endian.
    pub fn new(file: &[u8], key2: [u8; 4], key1: [u8; 4]) -> (r: GICSResult<Self>)
        ensures
            match r {
                Ok(f) => parse_file(file@, key1@, key2@) == Ok::<HCAFileView, ErrorView>(f@),
                Err(e) => parse_file(file@, key1@, key2@) == Err::<HCAFileView, ErrorView>(e@),
            },
            r matches Ok(f) ==> crc_matches(f@.header),
    {
        let mut res = Self {
            key1,
            key2,
            cipher_table: [0; 0x100],
            ath_table: [0; 0x80],
            encrypted: false,
            hca_header: HCAHeader::default(),
            hca_channel: Vec::new(),
            header: Vec::new(),
            data: Vec::new(),
        };
        res.read_header(file)?;
        Ok(res)
    }

    /// Reads the header and the blocks of `file` into `self`, and builds the
    /// tables and the channels. The keys of `self` stay.
    pub fn read_header(&mut self, file: &[u8]) -> (r: GICSResult<()>)
        ensures
            match r {
                Ok(_) => parse_file(file@, old(self)@.key1, old(self)@.key2) == Ok::<
                    HCAFileView,
                    ErrorView,
                >(final(self)@),
                Err(e) => parse_file(file@, old(self)@.key1, old(self)@.key2) == Err::<
                    HCAFileView,
                    ErrorView,
                >(e@) && final(self)@ == old(self)@,
            },
            r is Ok ==> crc_matches(final(self)@.header),
    {
        proof {
            lemma_loaded_header_checksum(file@, old(self)@.key1, old(self)@.key2);
        }
        let (h, header) = read_chunks(file)?;
        assert(h.block_size * h.block_count <= 0xFFFF * 0xFFFF_FFFF) by (nonlinear_arith)
            requires
                h.block_size <= 0xFFFF,
                h.block_count <= 0xFFFF_FFFF,
        ;
        let data_size: u64 = h.block_size as u64 * h.block_count as u64;
        if (file.len() as u64) < h.data_offset as u64 + data_size {
            return Err(short_input());
        }
        let first = h.data_offset as usize;
        let data = slice_to_vec(slice_subrange(file, first, first + data_size as usize));
        let ath = ath_init(h.ath_type, h.sampling_rate)?;
        let mut table: [u8; 0x100] = [0; 0x100];
        assert(table@ =~= Seq::new(0x100, |i: int| 0u8));
        init_mask(h.cipher_type, &self.key1, &self.key2, &mut table);
        let mut fields = h;
        if fields.comp_r03 == 0 {
            fields.comp_r03 = 1;
        }
        let channels = channel_init(&mut fields)?;
        self.hca_header = fields;
        self.data = data;
        self.encrypted = true;
        self.ath_table = ath;
        self.cipher_table = table;
        self.hca_channel = channels;
        self.header = header;
        assert(self@.channels =~= Seq::new(
            fields.channel_count as nat,
            |i: int| configured_channel(fields, i),
        ));
        Ok(())
    }

    /// Replaces each of the first `block_size` bytes of `data` by its entry
    /// in the cipher table.
    pub fn mask(&self, data: &mut [u8], block_size: usize)
        requires
            block_size <= old(data).len(),
        ensures
            final(data)@ == substituted(self@.cipher_table, old(data)@, block_size as int),
    {
        let mut i: usize = 0;
        while i < block_size
            invariant
                i <= block_size <= data.len(),
                data.len() == old(data).len(),
                forall|k: int| 0 <= k < i ==> data@[k] == self.cipher_table@[old(data)@[k] as int],
                forall|k: int| i <= k < data.len() ==> data@[k] == old(data)@[k],
            decreases block_size - i,
        {
            let d = data[i];
            data[i] = self.cipher_table[d as usize];
            i += 1;
        }
        assert(data@ =~= substituted(self@.cipher_table, old(data)@, block_size as int));
    }

    /// Whether the sub-bands of every channel fit the decoder.
    fn check_layout(&self) -> (ok: bool)
        ensures
            ok == decodable(self@.channels, self@.hca_header.comp_r09 as int),
    {
        let groups = self.hca_header.comp_r09;
        if self.hca_channel.len() > 16 {
            return false;
        }
        let mut i: usize = 0;
        while i < self.hca_channel.len()
            invariant
                i <= self.hca_channel.len(),
                groups == self.hca_header.comp_r09,
                forall|k: int|
                    0 <= k < i ==> {
                        &&& (#[trigger] self@.channels[k]).count <= 0x80
                        &&& self@.channels[k].kind != 2 ==> self@.channels[k].value_3i + groups
                            <= 0x80
                    },
            decreases self.hca_channel.len() - i,
        {
            let c = &self.hca_channel[i];
            assert(c@ == self@.channels[i as int]);
            if c.count() > 0x80 || (c.kind() != 2 && c.value_3i() as u64 + groups as u64 > 0x80) {
                return false;
            }
            i += 1;
        }
        true
    }

    /// Decodes the integer content of one block: puts `data` through the
    /// cipher table, checks the sync word, reads the bias, runs stage one on
    /// every channel and then, for each of the eight sub-frames, stage two on
    /// every channel. Returns the quantized coefficients by sub-frame and
    /// channel.
    pub fn decode_block(&mut self, data: &mut [u8]) -> (r: GICSResult<Vec<Vec<[i32; 0x80]>>>)
        ensures
            match r {
                Ok(rows) => {
                    &&& decoded_block(old(self)@, old(data)@) matches Ok(b)
                    &&& final(self)@ == (HCAFileView { channels: b.channels, ..old(self)@ })
                    &&& rows@.len() == 8
                    &&& forall|f: int|
                        0 <= f < 8 ==> (#[trigger] rows@[f])@.len() == b.channels.len()
                    &&& forall|f: int, c: int|
                        0 <= f < 8 && 0 <= c < b.channels.len() ==> (#[trigger] rows@[f]@[c])@
                            == b.rows[f][c]
                },
                Err(e) => {
                    &&& decoded_block(old(self)@, old(data)@) == Err::<BlockView, ErrorView>(e@)
                    &&& final(self)@ == old(self)@
                },
            },
            final(data)@ == if old(data)@.len() >= old(self)@.hca_header.block_size
                && decodable(old(self)@.channels, old(self)@.hca_header.comp_r09 as int) {
                substituted(
                    old(self)@.cipher_table,
                    old(data)@,
                    old(self)@.hca_header.block_size as int,
                )
            } else {
                old(data)@
            },
    {
        let block_size = self.hca_header.block_size as usize;
        if data.len() < block_size {
            return Err(GICSError::with_kind(ErrorKind::BadBlock, "Block shorter than the block size"));
        }
        if !self.check_layout() {
            return Err(
                GICSError::with_kind(
                    ErrorKind::BadHeader,
                    "Sub-band counts do not fit the channel layout",
                ),
            );
        }
        self.mask(data, block_size);
        assert(channel_views(self.hca_channel@) =~= self@.channels);
        let found = decode_frames(
            &mut self.hca_channel,
            data,
            self.hca_header.block_size,
            self.hca_header.comp_r09,
            &self.ath_table,
        );
        assert(channel_views(self.hca_channel@) =~= self@.channels);
        match found {
            Some(rows) => Ok(rows),
            None => Err(
                GICSError::with_kind(ErrorKind::BadBlock, "Block does not start with the sync word"),
            ),
        }
    }

    pub fn hca_header(&self) -> (h: HCAHeader)
        ensures
            h == self@.hca_header,
    {
        self.hca_header
    }

    pub fn cipher_table(&self) -> (t: &[u8; 0x100])
        ensures
            t@ == self@.cipher_table,
    {
        &self.cipher_table
    }

    pub fn ath_table(&self) -> (t: &[u8; 0x80])
        ensures
            t@ == self@.ath_table,
    {
        &self.ath_table
    }

    pub fn encrypted(&self) -> (b: bool)
        ensures
            b == self@.encrypted,
    {
        self.encrypted
    }

    pub fn header(&self) -> (h: &Vec<u8>)
        ensures
            h@ == self@.header,
    {
        &self.header
    }

    pub fn data(&self) -> (d: &Vec<u8>)
        ensures
            d@ == self@.data,
    {
        &self.data
    }

    pub fn channel_count(&self) -> (n: usize)
        ensures
            n == self@.channels.len(),
    {
        self.hca_channel.len()
    }

    pub fn channel(&self, i: usize) -> (c: &Channel)
        requires
            i < self@.channels.len(),
        ensures
            c@ == self@.channels[i as int],
    {
        &self.hca_channel[i]
    }
}

} // verus!
