//! The checksum of the audio header.

use crate::errors::{ErrorKind, ErrorView, GICSError, GICSResult};
use crate::filetypes::tables::CRC_TABLE;
use crate::tools::be16;
use vstd::prelude::*;

verus! {

/// The checksum after one more byte.
pub open spec fn crc_step(sum: u16, byte: u8) -> u16 {
    (sum << 8) ^ CRC_TABLE@[((sum >> 8) ^ (byte as u16)) as int]
}

/// The CRC-16 of `data`, from the initial value zero.
pub open spec fn crc16(data: Seq<u8>) -> u16
    decreases data.len(),
{
    if data.len() == 0 {
        0
    } else {
        crc_step(crc16(data.drop_last()), data.last())
    }
}

/// Whether the last two bytes of `header` hold, big-endian, the checksum of
/// the bytes before them.
pub open spec fn crc_matches(header: Seq<u8>) -> bool {
    &&& header.len() >= 2
    &&& be16(header[header.len() - 2], header[header.len() - 1]) == crc16(
        header.take(header.len() - 2),
    )
}

/// `header` with the checksum of all but its last two bytes written,
/// big-endian, into these two.
pub open spec fn sealed(header: Seq<u8>) -> Seq<u8> {
    let n = header.len() - 2;
    let sum = crc16(header.take(n));
    header.update(n, (sum >> 8) as u8).update(n + 1, (sum & 0xFF) as u8)
}

pub proof fn lemma_top_byte(sum: u16, byte: u8)
    by (bit_vector)
    ensures
        (sum >> 8) ^ (byte as u16) < 256,
        sum >> 8 < 256,
        sum & 0xFF < 256,
        ((sum >> 8) as u8) as u16 * 0x100 + ((sum & 0xFF) as u8) as u16 == sum,
{
}

/// A header that was sealed carries the checksum of its own bytes.
pub proof fn lemma_sealed_matches(header: Seq<u8>)
    requires
        header.len() >= 2,
    ensures
        crc_matches(sealed(header)),
        sealed(header).len() == header.len(),
{
    let n = header.len() - 2;
    let sum = crc16(header.take(n));
    lemma_top_byte(sum, 0);
    assert(sealed(header).take(n) =~= header.take(n));
}

/// The CRC-16 of the first `size` bytes of `data`.
pub fn checksum(data: &[u8], size: usize) -> (sum: u16)
    requires
        size <= data.len(),
    ensures
        sum == crc16(data@.take(size as int)),
{
    let mut sum: u16 = 0;
    let mut i: usize = 0;
    assert(data@.take(0) =~= Seq::<u8>::empty());
    while i < size
        invariant
            i <= size <= data.len(),
            sum == crc16(data@.take(i as int)),
        decreases size - i,
    {
        proof {
            lemma_top_byte(sum, data@[i as int]);
            assert(data@.take(i + 1).drop_last() =~= data@.take(i as int));
        }
        sum = (sum << 8) ^ CRC_TABLE[((sum >> 8) ^ (data[i] as u16)) as usize];
        i += 1;
    }
    sum
}


/// The error for a header whose checksum does not match its bytes.
pub open spec fn bad_crc() -> ErrorView {
    ErrorView { kind: ErrorKind::BadCRC, message: "Header checksum mismatch"@ }
}

/// Checks that the last two bytes of `header` hold the checksum of the bytes
/// before them.
pub fn verify_checksum(header: &[u8]) -> (r: GICSResult<()>)
    ensures
        crc_matches(header@) ==> r is Ok,
        !crc_matches(header@) ==> (r matches Err(e) && e@ == bad_crc()),
{
    let len = header.len();
    if len < 2 {
        return Err(GICSError::with_kind(ErrorKind::BadCRC, "Header checksum mismatch"));
    }
    let sum = checksum(header, len - 2);
    let stored: u16 = (header[len - 2] as u16) * 0x100 + (header[len - 1] as u16);
    if sum == stored {
        Ok(())
    } else {
        Err(GICSError::with_kind(ErrorKind::BadCRC, "Header checksum mismatch"))
    }
}

} // verus!
