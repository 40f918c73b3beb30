//! Decimal and hexadecimal rendering of integers as ASCII bytes, and
//! decimal parsing, with round-trip lemmas. The JSON wire encoding and
//! the replication start command are built from these.

use vstd::prelude::*;

verus! {

/// The ASCII byte of a decimal digit.
pub open spec fn dec_digit(d: int) -> u8 {
    (0x30 + d) as u8
}

/// The ASCII decimal rendering of a non-negative integer, most
/// significant digit first, with no leading zeros ("0" for zero).
pub open spec fn dec_seq(n: nat) -> Seq<u8>
    decreases n,
{
    if n < 10 {
        seq![dec_digit(n as int)]
    } else {
        dec_seq(n / 10).push(dec_digit((n % 10) as int))
    }
}

/// The ASCII decimal rendering of a signed integer: a minus sign before
/// the magnitude when negative.
pub open spec fn dec_seq_signed(n: int) -> Seq<u8> {
    if n < 0 {
        seq![0x2du8] + dec_seq((-n) as nat)
    } else {
        dec_seq(n as nat)
    }
}

/// The ASCII byte of a hexadecimal digit, upper case.
pub open spec fn hex_digit(d: int) -> u8 {
    if d < 10 {
        (0x30 + d) as u8
    } else {
        (0x41 + (d - 10)) as u8
    }
}

/// The ASCII upper-case hexadecimal rendering of a non-negative integer,
/// no leading zeros ("0" for zero). This is the native textual form of
/// each half of an LSN.
pub open spec fn hex_seq(n: nat) -> Seq<u8>
    decreases n,
{
    if n < 16 {
        seq![hex_digit(n as int)]
    } else {
        hex_seq(n / 16).push(hex_digit((n % 16) as int))
    }
}

pub open spec fn is_dec_digit(b: u8) -> bool {
    0x30 <= b <= 0x39
}

/// The value of a sequence of ASCII decimal digits.
pub open spec fn dec_val(s: Seq<u8>) -> int
    decreases s.len(),
{
    if s.len() == 0 {
        0
    } else {
        dec_val(s.drop_last()) * 10 + (s.last() - 0x30)
    }
}

/// Every byte of a decimal rendering is a decimal digit.
pub proof fn lemma_dec_seq_digits(n: nat)
    ensures
        forall|i: int| 0 <= i < dec_seq(n).len() ==> is_dec_digit(#[trigger] dec_seq(n)[i]),
    decreases n,
{
    if n < 10 {
        assert(dec_seq(n) =~= seq![dec_digit(n as int)]);
        assert(is_dec_digit(dec_seq(n)[0]));
    } else {
        lemma_dec_seq_digits(n / 10);
        assert(dec_seq(n) =~= dec_seq(n / 10).push(dec_digit((n % 10) as int)));
        assert forall|i: int| 0 <= i < dec_seq(n).len() implies is_dec_digit(
            #[trigger] dec_seq(n)[i],
        ) by {
            if i < dec_seq(n / 10).len() {
                assert(dec_seq(n)[i] == dec_seq(n / 10)[i]);
            } else {
                assert(dec_seq(n)[i] == dec_digit((n % 10) as int));
            }
        }
    }
}

/// Reading back a decimal rendering yields the number that was rendered.
pub proof fn lemma_dec_round_trip(n: nat)
    ensures
        dec_val(dec_seq(n)) == n,
    decreases n,
{
    if n < 10 {
        let s = dec_seq(n);
        assert(s =~= seq![dec_digit(n as int)]);
        assert(s.drop_last() =~= Seq::<u8>::empty());
        assert(dec_val(s.drop_last()) == 0);
        assert(dec_val(s) == dec_val(s.drop_last()) * 10 + (s.last() - 0x30));
    } else {
        lemma_dec_round_trip(n / 10);
        assert(dec_seq(n) =~= dec_seq(n / 10).push(dec_digit((n % 10) as int)));
        assert(dec_seq(n).drop_last() =~= dec_seq(n / 10));
        assert(dec_seq(n).last() == dec_digit((n % 10) as int));
        assert(dec_val(dec_seq(n)) == (n / 10) * 10 + (n % 10));
        vstd::arithmetic::div_mod::lemma_fundamental_div_mod(n as int, 10);
    }
}

/// Append the decimal rendering of `n` to `out`.
pub fn push_dec_u64(out: &mut Vec<u8>, n: u64)
    ensures
        final(out)@ == old(out)@ + dec_seq(n as nat),
    decreases n,
{
    if n >= 10 {
        push_dec_u64(out, n / 10);
    }
    let d: u8 = (n % 10) as u8 + 0x30;
    out.push(d);
    proof {
        assert(final(out)@ =~= old(out)@ + dec_seq(n as nat));
    }
}

/// Append the decimal rendering of a signed `n` to `out`.
pub fn push_dec_i64(out: &mut Vec<u8>, n: i64)
    ensures
        final(out)@ == old(out)@ + dec_seq_signed(n as int),
{
    if n < 0 {
        out.push(0x2d);
        let wide: i128 = n as i128;
        let mag: u64 = (-wide) as u64;
        assert(mag == -(n as int)) by {
            assert(0 <= -(n as int) < 0x1_0000_0000_0000_0000);
        }
        push_dec_u64(out, mag);
        proof {
            assert(final(out)@ =~= old(out)@ + dec_seq_signed(n as int));
        }
    } else {
        push_dec_u64(out, n as u64);
    }
}

/// Append the hexadecimal rendering of `n` to `out`.
pub fn push_hex_u32(out: &mut Vec<u8>, n: u32)
    ensures
        final(out)@ == old(out)@ + hex_seq(n as nat),
    decreases n,
{
    if n >= 16 {
        push_hex_u32(out, n / 16);
    }
    let r: u32 = n % 16;
    let d: u8 = if r < 10 {
        r as u8 + 0x30
    } else {
        (r - 10) as u8 + 0x41
    };
    out.push(d);
    proof {
        assert(final(out)@ =~= old(out)@ + hex_seq(n as nat));
    }
}

/// Scan a run of decimal digits in `buf` starting at `pos`, returning
/// the value read and the position one past the last digit. `None` when
/// no digit stands at `pos` or the run's value does not fit in a `u64`.
pub fn read_dec_u64(buf: &Vec<u8>, pos: usize) -> (r: Option<(u64, usize)>)
    requires
        pos <= buf@.len(),
    ensures
        match r {
            Some(p) => {
                let (v, end) = p;
                &&& pos < end <= buf@.len()
                &&& forall|i: int| pos <= i < end ==> is_dec_digit(#[trigger] buf@[i])
                &&& (end < buf@.len() ==> !is_dec_digit(buf@[end as int]))
                &&& v as int == dec_val(buf@.subrange(pos as int, end as int))
            },
            None => pos == buf@.len() || !is_dec_digit(buf@[pos as int]) || exists|e: int|
                pos < e <= buf@.len() && (forall|j: int| pos <= j < e ==> is_dec_digit(
                    #[trigger] buf@[j],
                )) && dec_val(buf@.subrange(pos as int, e)) > u64::MAX,
        },
{
    if pos >= buf.len() || !(0x30 <= buf[pos] && buf[pos] <= 0x39) {
        return None;
    }
    let mut acc: u64 = 0;
    let mut i: usize = pos;
    proof {
        assert(buf@.subrange(pos as int, pos as int) =~= Seq::<u8>::empty());
    }
    while i < buf.len() && 0x30 <= buf[i] && buf[i] <= 0x39
        invariant
            pos <= i <= buf@.len(),
            forall|j: int| pos <= j < i ==> is_dec_digit(#[trigger] buf@[j]),
            acc as int == dec_val(buf@.subrange(pos as int, i as int)),
        decreases buf@.len() - i,
    {
        let d: u64 = (buf[i] - 0x30) as u64;
        if acc > (u64::MAX - d) / 10 {
            proof {
                let e = i + 1;
                assert(buf@.subrange(pos as int, e as int).drop_last()
                    =~= buf@.subrange(pos as int, i as int));
                assert(dec_val(buf@.subrange(pos as int, e as int))
                    == acc as int * 10 + d);
                assert(acc as int * 10 + d > u64::MAX) by {
                    assert(acc as int > (u64::MAX - d) / 10);
                };
                assert(forall|j: int| pos <= j < e ==> is_dec_digit(#[trigger] buf@[j]));
            }
            return None;
        }
        acc = acc * 10 + d;
        i = i + 1;
        proof {
            assert(buf@.subrange(pos as int, i as int).drop_last()
                =~= buf@.subrange(pos as int, i - 1));
        }
    }
    if i > pos {
        Some((acc, i))
    } else {
        None
    }
}

} // verus!
