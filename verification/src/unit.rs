//! Units of measure as exponent vectors.
//!
//! A unit is the product `2^p2 · 3^p3 · 5^p5 · π^pi · M^mass · L^length · …`:
//! four scale exponents (the prefix, e.g. `k = 2^3 · 5^3`) and eight dimension
//! exponents. Multiplying units adds exponents, dividing subtracts them and
//! inverting negates them. The exponent arithmetic accepts operands in
//! `[-200, 200]` (results then lie in `[-400, 400]`); this is the operating
//! range of the unit algebra, stated as [`Unit::operable`].

use vstd::prelude::*;

verus! {

/// Number of exponents carried by a unit.
pub const UNIT_EXPONENTS: usize = 12;

/// Largest magnitude an exponent may have to take part in unit arithmetic.
pub const EXPONENT_RANGE: i16 = 200;

/// A unit of measure: scale exponents for the primes 2, 3, 5 and for π, then
/// the exponents of mass, length, time, current, temperature, amount,
/// luminosity and angle.
#[derive(Clone, Copy, PartialEq, Eq, Debug, Structural)]
pub struct Unit {
    pub p2: i16,
    pub p3: i16,
    pub p5: i16,
    pub pi: i16,
    pub mass: i16,
    pub length: i16,
    pub time: i16,
    pub current: i16,
    pub temperature: i16,
    pub amount: i16,
    pub luminosity: i16,
    pub angle: i16,
}

/// The twelve exponents of a unit value, in declaration order.
pub open spec fn exps_of(u: Unit) -> Seq<int> {
    seq![
        u.p2 as int,
        u.p3 as int,
        u.p5 as int,
        u.pi as int,
        u.mass as int,
        u.length as int,
        u.time as int,
        u.current as int,
        u.temperature as int,
        u.amount as int,
        u.luminosity as int,
        u.angle as int,
    ]
}

/// The exponent vector of the dimensionless, unscaled unit `1`.
pub open spec fn spec_one() -> Seq<int> {
    Seq::new(12, |k: int| 0int)
}

/// Exponent vector of a product of units.
pub open spec fn spec_mul(a: Seq<int>, b: Seq<int>) -> Seq<int> {
    Seq::new(12, |k: int| a[k] + b[k])
}

/// Exponent vector of a quotient of units.
pub open spec fn spec_div(a: Seq<int>, b: Seq<int>) -> Seq<int> {
    Seq::new(12, |k: int| a[k] - b[k])
}

/// Exponent vector of a reciprocal unit.
pub open spec fn spec_inv(a: Seq<int>) -> Seq<int> {
    Seq::new(12, |k: int| -a[k])
}

/// Exponent vector of `u^n`.
pub open spec fn spec_pow(a: Seq<int>, n: nat) -> Seq<int> {
    Seq::new(12, |k: int| a[k] * n)
}

/// Two units share a dimension (they may differ only in scale).
pub open spec fn spec_same_dimension(a: Seq<int>, b: Seq<int>) -> bool {
    forall|k: int| 4 <= k < 12 ==> a[k] == b[k]
}

/// Every exponent of `a` lies in `[-bound, bound]`.
pub open spec fn exps_within(a: Seq<int>, bound: int) -> bool {
    a.len() == 12 && forall|k: int| 0 <= k < 12 ==> -bound <= #[trigger] a[k] <= bound
}

impl Unit {
    /// The twelve exponents of this unit.
    pub open spec fn exps(self) -> Seq<int> {
        exps_of(self)
    }

    /// This unit can take part in unit arithmetic: every exponent lies in
    /// `[-200, 200]`.
    pub open spec fn operable(self) -> bool {
        exps_within(self.exps(), 200)
    }

    /// Builds a unit from its twelve exponents, in declaration order.
    pub fn from_exponents(e: [i16; 12]) -> (r: Unit)
        ensures
            r.exps() =~= Seq::new(12, |k: int| e@[k] as int),
    {
        Unit {
            p2: e[0],
            p3: e[1],
            p5: e[2],
            pi: e[3],
            mass: e[4],
            length: e[5],
            time: e[6],
            current: e[7],
            temperature: e[8],
            amount: e[9],
            luminosity: e[10],
            angle: e[11],
        }
    }

    /// The twelve exponents of this unit, in declaration order.
    pub fn exponents(&self) -> (r: [i16; 12])
        ensures
            Seq::new(12, |k: int| r@[k] as int) =~= self.exps(),
    {
        [
            self.p2,
            self.p3,
            self.p5,
            self.pi,
            self.mass,
            self.length,
            self.time,
            self.current,
            self.temperature,
            self.amount,
            self.luminosity,
            self.angle,
        ]
    }

    /// The dimensionless, unscaled unit `1`.
    pub fn dimensionless() -> (r: Unit)
        ensures
            r.exps() =~= spec_one(),
    {
        Unit {
            p2: 0,
            p3: 0,
            p5: 0,
            pi: 0,
            mass: 0,
            length: 0,
            time: 0,
            current: 0,
            temperature: 0,
            amount: 0,
            luminosity: 0,
            angle: 0,
        }
    }

    /// Whether every exponent is within the operating range of the algebra.
    pub fn is_operable(&self) -> (r: bool)
        ensures
            r == self.operable(),
    {
        let lo: i16 = -200;
        let hi: i16 = 200;
        let ok = lo <= self.p2 && self.p2 <= hi && lo <= self.p3 && self.p3 <= hi && lo <= self.p5
            && self.p5 <= hi && lo <= self.pi && self.pi <= hi && lo <= self.mass && self.mass
            <= hi && lo <= self.length && self.length <= hi && lo <= self.time && self.time <= hi
            && lo <= self.current && self.current <= hi && lo <= self.temperature
            && self.temperature <= hi && lo <= self.amount && self.amount <= hi && lo
            <= self.luminosity && self.luminosity <= hi && lo <= self.angle && self.angle <= hi;
        proof {
            let e = self.exps();
            if ok {
                assert forall|k: int| 0 <= k < 12 implies -200 <= #[trigger] e[k] <= 200 by {}
            } else {
                assert(!(e[0] >= -200 && e[0] <= 200 && e[1] >= -200 && e[1] <= 200 && e[2] >= -200
                    && e[2] <= 200 && e[3] >= -200 && e[3] <= 200 && e[4] >= -200 && e[4] <= 200
                    && e[5] >= -200 && e[5] <= 200 && e[6] >= -200 && e[6] <= 200 && e[7] >= -200
                    && e[7] <= 200 && e[8] >= -200 && e[8] <= 200 && e[9] >= -200 && e[9] <= 200
                    && e[10] >= -200 && e[10] <= 200 && e[11] >= -200 && e[11] <= 200));
            }
        }
        ok
    }

    /// The product unit `self · other` (exponents add).
    pub fn mul(&self, other: &Unit) -> (r: Unit)
        requires
            self.operable(),
            other.operable(),
        ensures
            r.exps() =~= spec_mul(self.exps(), other.exps()),
    {
        proof {
            lemma_operable_fields(*self);
            lemma_operable_fields(*other);
        }
        Unit {
            p2: self.p2 + other.p2,
            p3: self.p3 + other.p3,
            p5: self.p5 + other.p5,
            pi: self.pi + other.pi,
            mass: self.mass + other.mass,
            length: self.length + other.length,
            time: self.time + other.time,
            current: self.current + other.current,
            temperature: self.temperature + other.temperature,
            amount: self.amount + other.amount,
            luminosity: self.luminosity + other.luminosity,
            angle: self.angle + other.angle,
        }
    }

    /// The quotient unit `self / other` (exponents subtract).
    pub fn div(&self, other: &Unit) -> (r: Unit)
        requires
            self.operable(),
            other.operable(),
        ensures
            r.exps() =~= spec_div(self.exps(), other.exps()),
    {
        proof {
            lemma_operable_fields(*self);
            lemma_operable_fields(*other);
        }
        Unit {
            p2: self.p2 - other.p2,
            p3: self.p3 - other.p3,
            p5: self.p5 - other.p5,
            pi: self.pi - other.pi,
            mass: self.mass - other.mass,
            length: self.length - other.length,
            time: self.time - other.time,
            current: self.current - other.current,
            temperature: self.temperature - other.temperature,
            amount: self.amount - other.amount,
            luminosity: self.luminosity - other.luminosity,
            angle: self.angle - other.angle,
        }
    }

    /// The reciprocal unit `1 / self` (exponents negate).
    pub fn inv(&self) -> (r: Unit)
        requires
            self.operable(),
        ensures
            r.exps() =~= spec_inv(self.exps()),
    {
        proof {
            lemma_operable_fields(*self);
        }
        Unit {
            p2: -self.p2,
            p3: -self.p3,
            p5: -self.p5,
            pi: -self.pi,
            mass: -self.mass,
            length: -self.length,
            time: -self.time,
            current: -self.current,
            temperature: -self.temperature,
            amount: -self.amount,
            luminosity: -self.luminosity,
            angle: -self.angle,
        }
    }

    /// Whether the two units are identical (all twelve exponents agree).
    pub fn unit_eq(&self, other: &Unit) -> (r: bool)
        ensures
            r == (self.exps() == other.exps()),
    {
        let r = *self == *other;
        proof {
            lemma_exps_injective(*self, *other);
        }
        r
    }

    /// Whether `self` can be rescaled to `other`: both have the same dimension
    /// and differ at most in their scale exponents.
    pub fn same_dimension(&self, other: &Unit) -> (r: bool)
        ensures
            r == spec_same_dimension(self.exps(), other.exps()),
    {
        let r = self.mass == other.mass && self.length == other.length && self.time
            == other.time && self.current == other.current && self.temperature
            == other.temperature && self.amount == other.amount && self.luminosity
            == other.luminosity && self.angle == other.angle;
        proof {
            let (a, b) = (self.exps(), other.exps());
            if !r {
                assert(!(a[4] == b[4] && a[5] == b[5] && a[6] == b[6] && a[7] == b[7] && a[8]
                    == b[8] && a[9] == b[9] && a[10] == b[10] && a[11] == b[11]));
            }
        }
        r
    }
}


/// Every exponent of `a` is even: the unit has a square root.
pub open spec fn spec_even(a: Seq<int>) -> bool {
    forall|k: int| 0 <= k < 12 ==> #[trigger] a[k] % 2 == 0
}

/// Exponent vector of the square root of a unit with even exponents.
pub open spec fn spec_sqrt(a: Seq<int>) -> Seq<int> {
    Seq::new(12, |k: int| a[k] / 2)
}

/// Half of an exponent, when it is even.
fn half(x: i16) -> (r: Option<i16>)
    ensures
        r is Some <==> x % 2 == 0,
        r matches Some(h) ==> h == x / 2 && h + h == x,
{
    let h = x / 2;
    if h + h == x {
        Some(h)
    } else {
        None
    }
}

impl Unit {
    /// The square root of the unit (half of every exponent), or `None` when
    /// some exponent is odd and the root is not a unit.
    pub fn sqrt(&self) -> (r: Option<Unit>)
        ensures
            r is Some <==> spec_even(self.exps()),
            r matches Some(u) ==> u.exps() == spec_sqrt(self.exps()) && spec_mul(u.exps(), u.exps()) == self.exps(),
    {
        let p2 = match half(self.p2) {
            Some(h) => h,
            None => {
                assert(self.exps()[0] % 2 != 0);
                return None;
            },
        };
        let p3 = match half(self.p3) {
            Some(h) => h,
            None => {
                assert(self.exps()[1] % 2 != 0);
                return None;
            },
        };
        let p5 = match half(self.p5) {
            Some(h) => h,
            None => {
                assert(self.exps()[2] % 2 != 0);
                return None;
            },
        };
        let pi = match half(self.pi) {
            Some(h) => h,
            None => {
                assert(self.exps()[3] % 2 != 0);
                return None;
            },
        };
        let mass = match half(self.mass) {
            Some(h) => h,
            None => {
                assert(self.exps()[4] % 2 != 0);
                return None;
            },
        };
        let length = match half(self.length) {
            Some(h) => h,
            None => {
                assert(self.exps()[5] % 2 != 0);
                return None;
            },
        };
        let time = match half(self.time) {
            Some(h) => h,
            None => {
                assert(self.exps()[6] % 2 != 0);
                return None;
            },
        };
        let current = match half(self.current) {
            Some(h) => h,
            None => {
                assert(self.exps()[7] % 2 != 0);
                return None;
            },
        };
        let temperature = match half(self.temperature) {
            Some(h) => h,
            None => {
                assert(self.exps()[8] % 2 != 0);
                return None;
            },
        };
        let amount = match half(self.amount) {
            Some(h) => h,
            None => {
                assert(self.exps()[9] % 2 != 0);
                return None;
            },
        };
        let luminosity = match half(self.luminosity) {
            Some(h) => h,
            None => {
                assert(self.exps()[10] % 2 != 0);
                return None;
            },
        };
        let angle = match half(self.angle) {
            Some(h) => h,
            None => {
                assert(self.exps()[11] % 2 != 0);
                return None;
            },
        };
        let r = Unit { p2, p3, p5, pi, mass, length, time, current, temperature, amount, luminosity, angle };
        assert(r.exps() =~= spec_sqrt(self.exps()));
        assert(spec_mul(r.exps(), r.exps()) =~= self.exps());
        Some(r)
    }
}

/// Field-wise reading of [`Unit::operable`].
pub proof fn lemma_operable_fields(u: Unit)
    requires
        u.operable(),
    ensures
        -200 <= u.p2 <= 200,
        -200 <= u.p3 <= 200,
        -200 <= u.p5 <= 200,
        -200 <= u.pi <= 200,
        -200 <= u.mass <= 200,
        -200 <= u.length <= 200,
        -200 <= u.time <= 200,
        -200 <= u.current <= 200,
        -200 <= u.temperature <= 200,
        -200 <= u.amount <= 200,
        -200 <= u.luminosity <= 200,
        -200 <= u.angle <= 200,
{
    let e = u.exps();
    assert(e[0] == u.p2 && e[1] == u.p3 && e[2] == u.p5 && e[3] == u.pi);
    assert(e[4] == u.mass && e[5] == u.length && e[6] == u.time && e[7] == u.current);
    assert(e[8] == u.temperature && e[9] == u.amount && e[10] == u.luminosity && e[11]
        == u.angle);
}

/// A unit is determined by its exponents.
pub proof fn lemma_exps_injective(a: Unit, b: Unit)
    ensures
        (a.exps() == b.exps()) == (a == b),
{
    if a.exps() == b.exps() {
        let (x, y) = (a.exps(), b.exps());
        assert(x[0] == y[0] && x[1] == y[1] && x[2] == y[2] && x[3] == y[3]);
        assert(x[4] == y[4] && x[5] == y[5] && x[6] == y[6] && x[7] == y[7]);
        assert(x[8] == y[8] && x[9] == y[9] && x[10] == y[10] && x[11] == y[11]);
    }
}

} // verus!
