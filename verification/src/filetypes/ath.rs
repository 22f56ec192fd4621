//! The table of the absolute threshold of hearing.

use crate::errors::GICSResult;
use crate::filetypes::header::{bad_header, broken};
use crate::filetypes::tables::ATH_CURVE;
use vstd::prelude::*;

verus! {

/// Entry `i` of the hearing-threshold table at the given sampling rate.
pub open spec fn ath_entry(sampling_rate: u32, i: int) -> u8 {
    let index = (i * sampling_rate) / 0x2000;
    if index >= 0x28E {
        0xFF
    } else {
        ATH_CURVE@[index]
    }
}

/// The hearing-threshold table of the given type, if the type is known.
pub open spec fn ath_table(ath_type: u16, sampling_rate: u32) -> Option<Seq<u8>> {
    if ath_type == 0 {
        Some(Seq::new(0x80, |i: int| 0u8))
    } else if ath_type == 1 {
        Some(Seq::new(0x80, |i: int| ath_entry(sampling_rate, i)))
    } else {
        None
    }
}

/// Builds the hearing-threshold table of the given type.
pub fn ath_init(ath_type: u16, sampling_rate: u32) -> (r: GICSResult<[u8; 0x80]>)
    ensures
        match r {
            Ok(table) => ath_table(ath_type, sampling_rate) == Some(table@),
            Err(e) => ath_table(ath_type, sampling_rate) is None && e@ == bad_header(
                "ATH table kind unknown. What kind of ATH table are you using, dear?"@,
            ),
        },
{
    let mut table: [u8; 0x80] = [0; 0x80];
    if ath_type == 0 {
        assert(table@ =~= Seq::new(0x80, |i: int| 0u8));
        Ok(table)
    } else if ath_type == 1 {
        let mut i: usize = 0;
        while i < 0x80
            invariant
                i <= 0x80,
                forall|k: int| 0 <= k < i ==> table@[k] == ath_entry(sampling_rate, k),
            decreases 0x80 - i,
        {
            assert(i * sampling_rate <= 0x7F * 0xFFFF_FFFF) by (nonlinear_arith)
                requires
                    i <= 0x7F,
                    sampling_rate <= 0xFFFF_FFFF,
            ;
            let index: u64 = (i as u64 * sampling_rate as u64) / 0x2000;
            table[i] = if index >= 0x28E {
                0xFF
            } else {
                ATH_CURVE[index as usize]
            };
            i += 1;
        }
        assert(table@ =~= Seq::new(0x80, |i: int| ath_entry(sampling_rate, i)));
        Ok(table)
    } else {
        Err(broken("ATH table kind unknown. What kind of ATH table are you using, dear?"))
    }
}

} // verus!
