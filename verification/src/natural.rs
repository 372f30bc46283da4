//! An arbitrary-precision natural number for numeric literals.
//!
//! The numeric-literal scanner must not wrap or overflow a fixed-width type,
//! so a literal's value is held as an unbounded natural: a big-endian vector
//! of bits with no leading zero.  The abstract value of a `Natural` is the
//! `nat` it denotes, available through its view.  The scanner only ever needs
//! one operation beyond construction: append a digit of a power-of-two base,
//! which shifts the value and adds the digit.

use vstd::prelude::*;

verus! {

/// The value denoted by a big-endian bit string.
pub open spec fn nat_of_bits(bits: Seq<bool>) -> nat
    decreases bits.len(),
{
    if bits.len() == 0 {
        0
    } else {
        2 * nat_of_bits(bits.drop_last()) + (if bits.last() {
            1nat
        } else {
            0nat
        })
    }
}

/// An unbounded natural number: the value of a numeric literal.
#[derive(Clone, Debug, PartialEq, Eq)]
pub struct Natural {
    bits: Vec<bool>,
}

impl View for Natural {
    type V = nat;

    closed spec fn view(&self) -> nat {
        nat_of_bits(self.bits@)
    }
}

impl Natural {
    /// The representation is canonical: no leading zero bit.
    pub closed spec fn wf(&self) -> bool {
        self.bits@.len() > 0 ==> self.bits@[0]
    }

    /// Zero.
    pub fn new() -> (r: Natural)
        ensures
            r.wf(),
            r@ == 0,
    {
        Natural { bits: Vec::new() }
    }

    /// Appends one low-order bit: the value doubles and gains `b`.
    fn push_bit(&mut self, b: bool)
        requires
            old(self).wf(),
        ensures
            final(self).wf(),
            final(self)@ == 2 * old(self)@ + (if b {
                1nat
            } else {
                0nat
            }),
    {
        if self.bits.len() == 0 && !b {
            // A leading zero denotes the same value and is not stored.
        } else {
            let ghost prev = self.bits@;
            self.bits.push(b);
            proof {
                assert(self.bits@.drop_last() =~= prev);
            }
        }
    }

    /// Appends one digit of the given base (2, 8 or 16): the value is
    /// multiplied by the base and the digit is added.
    pub fn push_digit(&mut self, base: u8, d: u8)
        requires
            old(self).wf(),
            base == 2 || base == 8 || base == 16,
            d < base,
        ensures
            final(self).wf(),
            final(self)@ == old(self)@ * base + d,
    {
        let ghost v0 = self@;
        if base == 2 {
            self.push_bit(d == 1);
        } else if base == 8 {
            let b2 = d / 4;
            let r = d % 4;
            let b1 = r / 2;
            let b0 = r % 2;
            self.push_bit(b2 == 1);
            self.push_bit(b1 == 1);
            self.push_bit(b0 == 1);
            proof {
                assert(d == 4 * b2 + 2 * b1 + b0);
                assert(self@ == 8 * v0 + 4 * b2 + 2 * b1 + b0);
            }
        } else {
            let b3 = d / 8;
            let r4 = d % 8;
            let b2 = r4 / 4;
            let r2 = r4 % 4;
            let b1 = r2 / 2;
            let b0 = r2 % 2;
            self.push_bit(b3 == 1);
            self.push_bit(b2 == 1);
            self.push_bit(b1 == 1);
            self.push_bit(b0 == 1);
            proof {
                assert(d == 8 * b3 + 4 * b2 + 2 * b1 + b0);
                assert(self@ == 16 * v0 + 8 * b3 + 4 * b2 + 2 * b1 + b0);
            }
        }
    }

    /// The natural denoting a machine integer; lets a caller state or test an
    /// expected literal value exactly.
    pub fn from_u64(v: u64) -> (r: Natural)
        ensures
            r.wf(),
            r@ == v,
    {
        let mut r = Natural::new();
        let mut k: u64 = 64;
        while k > 0
            invariant
                r.wf(),
                k <= 64,
                r@ == (if k == 64 {
                    0nat
                } else {
                    (v >> k) as nat
                }),
            decreases k,
        {
            let bit = ((v >> (k - 1)) & 1) == 1;
            proof {
                let kk = k;
                assert(((v >> ((kk - 1) as u64)) & 1) == 0 || ((v >> ((kk - 1) as u64)) & 1)
                    == 1) by (bit_vector);
                if k == 64 {
                    assert(v >> 63u64 == ((v >> 63u64) & 1)) by (bit_vector);
                } else {
                    assert(1 <= kk < 64 ==> (v >> ((kk - 1) as u64)) == 2 * (v >> kk) + ((v >> ((kk
                        - 1) as u64)) & 1)) by (bit_vector);
                }
            }
            r.push_bit(bit);
            k = k - 1;
        }
        proof {
            assert(v >> 0u64 == v) by (bit_vector);
        }
        r
    }
}

} // verus!
