//! Numbers as decimal text.

use vstd::prelude::*;
use vstd::string::StringExecFns;
use vstd::utf8::{decode_utf8, encode_utf8};

verus! {

/// The character of a decimal digit.
pub open spec fn digit_char(d: int) -> char {
    if d == 0 {
        '0'
    } else if d == 1 {
        '1'
    } else if d == 2 {
        '2'
    } else if d == 3 {
        '3'
    } else if d == 4 {
        '4'
    } else if d == 5 {
        '5'
    } else if d == 6 {
        '6'
    } else if d == 7 {
        '7'
    } else if d == 8 {
        '8'
    } else {
        '9'
    }
}

/// The decimal digits of `n`, without leading zeros.
pub open spec fn decimal(n: nat) -> Seq<char>
    decreases n,
{
    if n < 10 {
        seq![digit_char(n as int)]
    } else {
        decimal(n / 10).push(digit_char((n % 10) as int))
    }
}

/// The decimal text of an integer, with a minus sign when it is negative.
pub open spec fn signed_decimal(n: int) -> Seq<char> {
    if n < 0 {
        seq!['-'] + decimal((-n) as nat)
    } else {
        decimal(n as nat)
    }
}

/// The text of one decimal digit.
fn digit_text(d: u64) -> (s: &'static str)
    requires
        d < 10,
    ensures
        s@ == seq![digit_char(d as int)],
{
    proof {
        reveal_strlit("0");
        reveal_strlit("1");
        reveal_strlit("2");
        reveal_strlit("3");
        reveal_strlit("4");
        reveal_strlit("5");
        reveal_strlit("6");
        reveal_strlit("7");
        reveal_strlit("8");
        reveal_strlit("9");
    }
    let s = if d == 0 {
        "0"
    } else if d == 1 {
        "1"
    } else if d == 2 {
        "2"
    } else if d == 3 {
        "3"
    } else if d == 4 {
        "4"
    } else if d == 5 {
        "5"
    } else if d == 6 {
        "6"
    } else if d == 7 {
        "7"
    } else if d == 8 {
        "8"
    } else {
        "9"
    };
    assert(s@ =~= seq![digit_char(d as int)]);
    s
}

/// Adds the decimal digits of `n` at the end of `out`.
pub fn push_decimal(out: &mut String, n: u64)
    ensures
        final(out)@ == old(out)@ + decimal(n as nat),
    decreases n,
{
    if n >= 10 {
        push_decimal(out, n / 10);
    }
    out.append(digit_text(n % 10));
    assert(final(out)@ =~= old(out)@ + decimal(n as nat));
}

/// Adds the decimal text of `n` at the end of `out`.
pub fn push_signed_decimal(out: &mut String, n: i32)
    ensures
        final(out)@ == old(out)@ + signed_decimal(n as int),
{
    if n < 0 {
        proof {
            reveal_strlit("-");
        }
        out.append("-");
        push_decimal(out, (-(n as i64)) as u64);
        assert(final(out)@ =~= old(out)@ + signed_decimal(n as int));
    } else {
        push_decimal(out, n as u64);
    }
}

/// The byte of the full stop.
pub const DOT: u8 = 0x2E;

/// The first `n` bytes of `name` as text, where a full stop or the end of
/// the name stands at `n`.
pub fn cut_at_dot<'a>(name: &'a str, n: usize) -> (head: &'a str)
    requires
        n <= encode_utf8(name@).len(),
        n < encode_utf8(name@).len() ==> encode_utf8(name@)[n as int] == DOT,
    ensures
        encode_utf8(head@) == encode_utf8(name@).take(n as int),
        head@ == decode_utf8(encode_utf8(name@).take(n as int)),
{
    proof {
        let bytes = encode_utf8(name@);
        vstd::utf8::encode_utf8_valid_utf8(name@);
        if n < bytes.len() {
            vstd::utf8::is_char_boundary_iff_not_is_continuation_byte(bytes, n as int);
        } else {
            vstd::utf8::is_char_boundary_start_end_of_seq(bytes);
        }
    }
    let (head, _) = name.split_at(n);
    proof {
        assert(encode_utf8(head@) =~= encode_utf8(name@).take(n as int));
        vstd::utf8::encode_utf8_decode_utf8(head@);
    }
    head
}

/// The index of the last full stop of `name`, or `-1` when it holds none.
pub open spec fn last_dot(name: Seq<u8>) -> int
    decreases name.len(),
{
    if name.len() == 0 {
        -1
    } else if name.last() == DOT {
        name.len() - 1
    } else {
        last_dot(name.drop_last())
    }
}

/// A file name without its extension: the part before the last full stop,
/// unless that full stop is missing or comes first.
pub open spec fn file_stem(name: Seq<u8>) -> Seq<u8> {
    if last_dot(name) > 0 {
        name.take(last_dot(name))
    } else {
        name
    }
}

/// The last full stop of a name stands below its length, and a full stop
/// stands there.
pub proof fn lemma_last_dot(name: Seq<u8>)
    ensures
        -1 <= last_dot(name) < name.len(),
        last_dot(name) >= 0 ==> name[last_dot(name)] == DOT,
    decreases name.len(),
{
    if name.len() > 0 && name.last() != DOT {
        lemma_last_dot(name.drop_last());
    }
}

/// The file name `name` without its extension.
pub fn stem_text<'a>(name: &'a str) -> (stem: &'a str)
    ensures
        encode_utf8(stem@) == file_stem(encode_utf8(name@)),
        stem@ == decode_utf8(file_stem(encode_utf8(name@))),
{
    let bytes = name.as_bytes();
    let mut i: usize = bytes.len();
    proof {
        assert(bytes@.take(bytes.len() as int) =~= bytes@);
    }
    while i > 0 && bytes[i - 1] != DOT
        invariant
            i <= bytes.len(),
            bytes@ == encode_utf8(name@),
            last_dot(bytes@) == last_dot(bytes@.take(i as int)),
        decreases i,
    {
        proof {
            assert(bytes@.take(i as int).drop_last() =~= bytes@.take(i - 1));
        }
        i -= 1;
    }
    proof {
        lemma_last_dot(bytes@);
        if i > 0 {
            assert(bytes@.take(i as int).last() == DOT);
        }
    }
    if i >= 2 {
        cut_at_dot(name, i - 1)
    } else {
        proof {
            vstd::utf8::encode_utf8_decode_utf8(name@);
        }
        name
    }
}

} // verus!
