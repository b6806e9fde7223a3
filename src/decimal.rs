use vstd::prelude::*;

verus! {

/// ASCII code of the digit zero.
pub const ZERO_DIGIT: u8 = 48;

/// ASCII code of the minus sign.
pub const MINUS_SIGN: u8 = 45;

/// The decimal digits of a natural number, most significant first, as ASCII.
pub open spec fn digits(n: nat) -> Seq<u8>
    decreases n,
{
    if n < 10 {
        seq![(ZERO_DIGIT + n) as u8]
    } else {
        digits(n / 10).push((ZERO_DIGIT + n % 10) as u8)
    }
}

/// An integer as decimal text: a minus sign for a negative number, then the
/// digits of its magnitude.
pub open spec fn decimal(v: int) -> Seq<u8> {
    if v < 0 {
        seq![MINUS_SIGN] + digits((-v) as nat)
    } else {
        digits(v as nat)
    }
}

fn push_digits(out: &mut Vec<u8>, n: u32)
    ensures
        final(out)@ == old(out)@ + digits(n as nat),
    decreases n,
{
    if n >= 10 {
        push_digits(out, n / 10);
    }
    out.push(ZERO_DIGIT + (n % 10) as u8);
    assert(final(out)@ =~= old(out)@ + digits(n as nat));
}

/// Appends a number's decimal text to `out`.
pub fn push_decimal(out: &mut Vec<u8>, v: i16)
    ensures
        final(out)@ == old(out)@ + decimal(v as int),
{
    if v < 0 {
        out.push(MINUS_SIGN);
        push_digits(out, (-(v as i32)) as u32);
        assert(final(out)@ =~= old(out)@ + decimal(v as int));
    } else {
        push_digits(out, v as u32);
    }
}

} // verus!
