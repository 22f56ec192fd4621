//! How the channels of a file are typed and how many sub-bands each codes.

use crate::errors::GICSResult;
use crate::filetypes::channel::{Channel, ChannelView};
use crate::filetypes::header::{bad_header, broken, HCAHeader};
use vstd::prelude::*;

verus! {

/// `a / b` rounded up; zero when `b` is zero.
pub open spec fn ceil_div(a: int, b: int) -> int {
    if b > 0 {
        a / b + if a % b == 0 {
            0int
        } else {
            1int
        }
    } else {
        0
    }
}

/// The kind of the channel at position `p` of a group of `b` channels.
pub open spec fn kind_in_group(b: int, r04: u32, p: int) -> u8 {
    if b == 2 || b == 3 {
        if p == 0 {
            1
        } else if p == 1 {
            2
        } else {
            0
        }
    } else if b == 4 {
        if p == 0 {
            1
        } else if p == 1 {
            2
        } else if p == 2 && r04 == 0 {
            1
        } else if p == 3 && r04 == 0 {
            2
        } else {
            0
        }
    } else if b == 5 {
        if p == 0 {
            1
        } else if p == 1 {
            2
        } else if p == 3 && r04 <= 2 {
            1
        } else if p == 4 && r04 <= 2 {
            2
        } else {
            0
        }
    } else if b == 6 || b == 7 {
        if p == 0 || p == 4 {
            1
        } else if p == 1 || p == 5 {
            2
        } else {
            0
        }
    } else if b == 8 {
        if p == 0 || p == 4 || p == 6 {
            1
        } else if p == 1 || p == 5 || p == 7 {
            2
        } else {
            0
        }
    } else {
        0
    }
}

/// The kind of channel `i` in a file of `channel_count` channels in `r03`
/// groups (`r03 > 0`), where `r07` is the number of stereo sub-bands.
pub open spec fn channel_kind(channel_count: u16, r03: u32, r04: u32, r07: u32, i: int) -> u8 {
    let b = channel_count as int / r03 as int;
    if r07 != 0 && b > 1 && i < r03 * b {
        kind_in_group(b, r04, i % b)
    } else {
        0
    }
}

/// The channel that the header `h` configures at index `i`.
pub open spec fn configured_channel(h: HCAHeader, i: int) -> ChannelView {
    let kind = channel_kind(h.channel_count, h.comp_r03, h.comp_r04, h.comp_r07, i);
    ChannelView {
        kind,
        value_3i: (h.comp_r06 + h.comp_r07) as u32,
        count: (h.comp_r06 + if kind == 2 {
            0
        } else {
            h.comp_r07 as int
        }) as u32,
        ..ChannelView::zeroed()
    }
}

/// The number of groups of sub-bands above the coded ones.
pub open spec fn high_groups(h: HCAHeader) -> int {
    ceil_div(h.comp_r05 - (h.comp_r06 + h.comp_r07), h.comp_r08 as int)
}

/// Whether the channels and sub-bands that a header announces fit the
/// decoder: at most sixteen channels, and the coded sub-bands together with
/// the groups above them within the 128 sub-bands.
pub open spec fn layout_ok(h: HCAHeader) -> bool {
    &&& h.channel_count <= 16
    &&& h.comp_r06 + h.comp_r07 <= h.comp_r05
    &&& h.comp_r06 + h.comp_r07 + high_groups(h) <= 0x80
}


/// `a / b` rounded up, and zero when `b` is zero.
pub fn reformulate(a: u32, b: u32) -> (r: u32)
    ensures
        r == ceil_div(a as int, b as int),
{
    if b > 0 {
        assert(a % b != 0 ==> a / b < u32::MAX) by (nonlinear_arith)
            requires
                b > 0,
                a <= u32::MAX,
        ;
        a / b + (if a % b == 0 {
            0
        } else {
            1
        })
    } else {
        0
    }
}

/// The kind of the channel at position `p` of a group of `b` channels.
fn kind_at(b: u32, r04: u32, p: u32) -> (k: u8)
    ensures
        k == kind_in_group(b as int, r04, p as int),
{
    match b {
        2 | 3 => if p == 0 {
            1
        } else if p == 1 {
            2
        } else {
            0
        },
        4 => if p == 0 {
            1
        } else if p == 1 {
            2
        } else if p == 2 && r04 == 0 {
            1
        } else if p == 3 && r04 == 0 {
            2
        } else {
            0
        },
        5 => if p == 0 {
            1
        } else if p == 1 {
            2
        } else if p == 3 && r04 <= 2 {
            1
        } else if p == 4 && r04 <= 2 {
            2
        } else {
            0
        },
        6 | 7 => if p == 0 || p == 4 {
            1
        } else if p == 1 || p == 5 {
            2
        } else {
            0
        },
        8 => if p == 0 || p == 4 || p == 6 {
            1
        } else if p == 1 || p == 5 || p == 7 {
            2
        } else {
            0
        },
        _ => 0,
    }
}


/// Checks the sub-band registers of `h`, sets its ninth register and builds
/// its channels, each with its kind and its sub-band counts.
pub fn channel_init(h: &mut HCAHeader) -> (r: GICSResult<Vec<Channel>>)
    requires
        old(h).comp_r03 > 0,
    ensures
        match r {
            Ok(channels) => {
                &&& old(h).comp_r01 == 1
                &&& old(h).comp_r02 == 15
                &&& layout_ok(*old(h))
                &&& *final(h) == (HCAHeader { comp_r09: high_groups(*old(h)) as u32, ..*old(h) })
                &&& channels@.len() == old(h).channel_count
                &&& forall|i: int|
                    0 <= i < channels@.len() ==> (#[trigger] channels@[i])@ == configured_channel(
                        *final(h),
                        i,
                    )
            },
            Err(e) => {
                &&& *final(h) == *old(h)
                &&& if !(old(h).comp_r01 == 1 && old(h).comp_r02 == 15) {
                    e@ == bad_header(
                        "Comp register values 1 and 2 invalid for channel initialization"@,
                    )
                } else {
                    &&& !layout_ok(*old(h))
                    &&& e@ == bad_header("Sub-band counts do not fit the channel layout"@)
                }
            },
        },
{
    if !(h.comp_r01 == 1 && h.comp_r02 == 15) {
        return Err(broken("Comp register values 1 and 2 invalid for channel initialization"));
    }
    if h.channel_count > 16 || h.comp_r06 as u64 + h.comp_r07 as u64 > h.comp_r05 as u64 {
        return Err(broken("Sub-band counts do not fit the channel layout"));
    }
    let r09 = reformulate(h.comp_r05 - (h.comp_r06 + h.comp_r07), h.comp_r08);
    if h.comp_r06 as u64 + h.comp_r07 as u64 + r09 as u64 > 0x80 {
        return Err(broken("Sub-band counts do not fit the channel layout"));
    }
    h.comp_r09 = r09;
    let b: u32 = h.channel_count as u32 / h.comp_r03;
    let mut channels: Vec<Channel> = Vec::new();
    let mut i: u16 = 0;
    while i < h.channel_count
        invariant
            i <= h.channel_count <= 16,
            h.comp_r03 > 0,
            b == h.channel_count as u32 / h.comp_r03,
            h.comp_r06 + h.comp_r07 <= 0x80,
            channels@.len() == i,
            forall|j: int| 0 <= j < i ==> (#[trigger] channels@[j])@ == configured_channel(*h, j),
        decreases h.channel_count - i,
    {
        proof {
            lemma_group_bound(i as int, b as int, h.comp_r03 as int);
        }
        let kind: u8 = if h.comp_r07 != 0 && b > 1 && (i as u32) / b < h.comp_r03 {
            kind_at(b, h.comp_r04, (i as u32) % b)
        } else {
            0
        };
        let mut channel = Channel::new();
        channel.configure(
            kind,
            h.comp_r06 + h.comp_r07,
            h.comp_r06 + (if kind == 2 {
                0
            } else {
                h.comp_r07
            }),
        );
        channels.push(channel);
        i += 1;
    }
    Ok(channels)
}


/// A channel index below the channel count lies in one of the groups
/// exactly when its quotient by the group size is below the number of
/// groups.
proof fn lemma_group_bound(i: int, b: int, groups: int)
    requires
        0 <= i,
        0 <= groups,
    ensures
        b > 0 ==> ((i / b < groups) <==> (i < groups * b)),
{
    if b > 0 {
        assert((i / b < groups) <==> (i < groups * b)) by (nonlinear_arith)
            requires
                b > 0,
                0 <= i,
                0 <= groups,
        ;
    }
}

} // verus!
