//! Decimal images of numbers, for the `print` opcode.

use vstd::prelude::*;

verus! {

/// The decimal digits of a non-negative number, most significant first.
pub open spec fn dec_digits(v: int) -> Seq<u8>
    recommends
        v >= 0,
    decreases v,
{
    if v < 0 {
        Seq::empty()
    } else if v < 10 {
        seq![(48 + v) as u8]
    } else {
        dec_digits(v / 10).push((48 + v % 10) as u8)
    }
}

/// The decimal image of a number: a minus sign and then the digits of its
/// magnitude.
pub open spec fn int_image(n: int) -> Seq<u8> {
    if n < 0 {
        seq![45u8] + dec_digits(-n)
    } else {
        dec_digits(n)
    }
}

/// The digits of a non-negative number, executable counterpart of
/// `dec_digits`.
fn dec_bytes(v: u64) -> (r: Vec<u8>)
    ensures
        r@ == dec_digits(v as int),
    decreases v,
{
    if v < 10 {
        let mut r: Vec<u8> = Vec::new();
        r.push(48 + (v as u8));
        proof {
            assert(r@ =~= dec_digits(v as int));
        }
        r
    } else {
        let mut r = dec_bytes(v / 10);
        r.push(48 + ((v % 10) as u8));
        r
    }
}

/// Append the decimal image of `n` to `out`.
pub fn push_int_image(out: &mut Vec<u8>, n: i64)
    ensures
        final(out)@ == old(out)@ + int_image(n as int),
{
    let m: u64 = if n >= 0 {
        n as u64
    } else if n == i64::MIN {
        9223372036854775808u64
    } else {
        (-n) as u64
    };
    if n < 0 {
        out.push(45);
    }
    let mut digits = dec_bytes(m);
    out.append(&mut digits);
    proof {
        assert(out@ =~= old(out)@ + int_image(n as int));
    }
}

} // verus!
