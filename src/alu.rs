use vstd::prelude::*;

use crate::registries::{signed, wrap};

verus! {

use vstd::arithmetic::div_mod::{lemma_add_mod_noop, lemma_mul_mod_noop_general, lemma_sub_mod_noop};

/// The absolute value of an integer.
pub open spec fn abs(x: int) -> int {
    if x < 0 {
        -x
    } else {
        x
    }
}

/// Integer division truncated toward zero.
pub open spec fn quotient(a: int, b: int) -> int {
    if (a < 0) == (b < 0) {
        abs(a) / abs(b)
    } else {
        -(abs(a) / abs(b))
    }
}

proof fn lemma_signed_congruent(u: u16)
    ensures
        signed(u) % 0x10000 == u,
        wrap(signed(u)) == u,
{
}

/// `left + right + immediate` on 16-bit patterns, wrapping.
pub fn add3(left: u16, right: u16, imm: i16) -> (r: u16)
    ensures
        r == wrap(signed(left) + signed(right) + imm),
{
    let p = pattern(imm);
    let r = left.wrapping_add(right).wrapping_add(p);
    proof {
        let (x, y, z) = (signed(left), signed(right), imm as int);
        lemma_signed_congruent(left);
        lemma_signed_congruent(right);
        lemma_add_mod_noop(x, y, 0x10000);
        lemma_add_mod_noop(x + y, z, 0x10000);
    }
    r
}

/// `left - right - immediate` on 16-bit patterns, wrapping.
pub fn sub3(left: u16, right: u16, imm: i16) -> (r: u16)
    ensures
        r == wrap(signed(left) - signed(right) - imm),
{
    let p = pattern(imm);
    let r = left.wrapping_sub(right).wrapping_sub(p);
    proof {
        let (x, y, z) = (signed(left), signed(right), imm as int);
        lemma_signed_congruent(left);
        lemma_signed_congruent(right);
        lemma_sub_mod_noop(x, y, 0x10000);
        lemma_sub_mod_noop(x - y, z, 0x10000);
    }
    r
}

/// `left * right * immediate` on 16-bit patterns, wrapping.
pub fn mul3(left: u16, right: u16, imm: i16) -> (r: u16)
    ensures
        r == wrap(signed(left) * signed(right) * imm),
{
    let p = pattern(imm);
    let r = left.wrapping_mul(right).wrapping_mul(p);
    proof {
        let (x, y, z) = (signed(left), signed(right), imm as int);
        lemma_signed_congruent(left);
        lemma_signed_congruent(right);
        lemma_mul_mod_noop_general(x, y, 0x10000);
        lemma_mul_mod_noop_general(x * y, z, 0x10000);
    }
    r
}

/// `a / b` truncated toward zero, wrapping: the one quotient that leaves the
/// 16-bit range, `-32768 / -1`, gives `-32768`.
fn div2(a: i16, b: i16) -> (r: i16)
    requires
        b != 0,
    ensures
        r == signed(wrap(quotient(a as int, b as int))),
{
    match a.checked_div(b) {
        Some(q) => q,
        None => i16::MIN,
    }
}

/// `left / right / immediate` on 16-bit patterns, each quotient truncated
/// toward zero and wrapped.
pub fn div3(left: u16, right: u16, imm: i16) -> (r: u16)
    requires
        right != 0,
        imm != 0,
    ensures
        r == wrap(quotient(signed(wrap(quotient(signed(left), signed(right)))), imm as int)),
{
    let (a, b) = (to_signed(left), to_signed(right));
    let q = div2(div2(a, b), imm);
    pattern(q)
}

/// A 16-bit pattern read as a two's-complement number.
pub fn to_signed(u: u16) -> (r: i16)
    ensures
        r == signed(u),
{
    assert(u < 0x8000 ==> (u as i16) == u) by (bit_vector);
    assert(u >= 0x8000 ==> (u as i16) == u - 0x10000) by (bit_vector);
    #[verifier::truncate]
    (u as i16)
}

/// The two's-complement pattern of a signed number.
pub fn pattern(v: i16) -> (r: u16)
    ensures
        r == wrap(v as int),
{
    assert(v >= 0 ==> (v as u16) == v) by (bit_vector);
    assert(v < 0 ==> (v as u16) == v + 0x10000) by (bit_vector);
    #[verifier::truncate]
    (v as u16)
}

} // verus!
