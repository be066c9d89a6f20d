use vstd::prelude::*;

verus! {

/// A whole percentage, from 0 to 100.
#[derive(Clone, Copy, Debug, PartialEq, Eq, Structural)]
pub struct Percent {
    parts: u8,
}

impl Percent {
    #[verifier::type_invariant]
    spec fn at_most_whole(self) -> bool {
        self.parts <= 100
    }

    /// The percentage as a number from 0 to 100.
    pub closed spec fn value(self) -> nat {
        if self.parts <= 100 {
            self.parts as nat
        } else {
            100
        }
    }

    /// The percentage `x`, clamped to 100.
    pub fn from_percent(x: u8) -> (r: Percent)
        ensures
            r.value() == if x <= 100 { x as nat } else { 100 },
    {
        let parts: u8 = if x <= 100 { x } else { 100 };
        Percent { parts }
    }

    /// The percentage as a number from 0 to 100.
    pub fn deconstruct(self) -> (r: u8)
        ensures
            r as nat == self.value(),
            r <= 100,
    {
        proof {
            use_type_invariant(self);
        }
        self.parts
    }

    /// `floor(b * self / 100)`, computed without overflow.
    pub fn mul_floor(self, b: u128) -> (r: u128)
        ensures
            r as int == fee_of(self.value() as int, b as int),
            r <= b,
    {
        proof {
            use_type_invariant(self);
        }
        let p: u128 = self.parts as u128;
        let q: u128 = b / 100;
        let m: u128 = b % 100;
        assert(q * p <= b) by (nonlinear_arith)
            requires q == b / 100, p <= 100;
        assert(m * p < 10000) by (nonlinear_arith)
            requires m < 100, p <= 100;
        proof {
            lemma_fee_split(b as int, p as int);
        }
        q * p + (m * p) / 100
    }
}

/// `floor(amount * percent / 100)`: the part of `amount` that `percent` takes.
pub open spec fn fee_of(percent: int, amount: int) -> int {
    (amount * percent) / 100
}

proof fn lemma_fee_split(b: int, p: int)
    requires
        0 <= b,
        0 <= p <= 100,
    ensures
        (b / 100) * p + ((b % 100) * p) / 100 == fee_of(p, b),
        fee_of(p, b) <= b,
{
    let q = b / 100;
    let m = b % 100;
    assert(b == 100 * q + m) by (nonlinear_arith)
        requires q == b / 100, m == b % 100;
    assert(b * p == 100 * (q * p) + m * p) by (nonlinear_arith)
        requires b == 100 * q + m;
    assert((100 * (q * p) + m * p) / 100 == q * p + (m * p) / 100) by (nonlinear_arith)
        requires q >= 0, p >= 0, m >= 0;
    assert((b * p) / 100 <= b) by (nonlinear_arith)
        requires b >= 0, 0 <= p <= 100;
}

} // verus!
