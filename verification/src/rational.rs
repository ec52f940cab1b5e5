//! Exact rational scalars.
//!
//! Every quantity the laboratory computes with is a fraction `n / d` of two
//! 64-bit integers with a positive denominator. Results are produced
//! unreduced, exactly as the defining formula builds them, so each executable
//! operation returns precisely the numerator and denominator its mathematical
//! model names; an operation whose exact result does not fit the 64-bit
//! components reports `None` rather than rounding.

use vstd::prelude::*;

verus! {

/// The mathematical model of a rational scalar: an unbounded fraction.
pub struct RatView {
    pub n: int,
    pub d: int,
}

/// A fraction is meaningful only with a nonzero (here: positive) denominator.
pub open spec fn rv_valid(a: RatView) -> bool {
    a.d > 0
}

/// Two fractions denote the same rational number.
pub open spec fn rv_eqv(a: RatView, b: RatView) -> bool {
    a.n * b.d == b.n * a.d
}

/// `a` denotes a strictly smaller rational than `b` (for positive denominators).
pub open spec fn rv_lt(a: RatView, b: RatView) -> bool {
    a.n * b.d < b.n * a.d
}

/// Both components of the exact result fit the executable representation.
pub open spec fn rv_fits(a: RatView) -> bool {
    &&& i64::MIN as int <= a.n <= i64::MAX as int
    &&& 1 <= a.d <= i64::MAX as int
}

pub open spec fn rv_zero() -> RatView {
    RatView { n: 0, d: 1 }
}

pub open spec fn rv_one() -> RatView {
    RatView { n: 1, d: 1 }
}

pub open spec fn rv_add(a: RatView, b: RatView) -> RatView {
    RatView { n: a.n * b.d + b.n * a.d, d: a.d * b.d }
}

pub open spec fn rv_sub(a: RatView, b: RatView) -> RatView {
    RatView { n: a.n * b.d - b.n * a.d, d: a.d * b.d }
}

pub open spec fn rv_mul(a: RatView, b: RatView) -> RatView {
    RatView { n: a.n * b.n, d: a.d * b.d }
}

/// Division, with the sign moved into the numerator so the denominator stays
/// positive, exactly as the executable operation produces it.
pub open spec fn rv_div(a: RatView, b: RatView) -> RatView {
    if a.d * b.n < 0 {
        RatView { n: -(a.n * b.d), d: -(a.d * b.n) }
    } else {
        RatView { n: a.n * b.d, d: a.d * b.n }
    }
}

pub open spec fn rv_abs(a: RatView) -> RatView {
    if a.n < 0 {
        RatView { n: -a.n, d: a.d }
    } else {
        a
    }
}

/// `Some` exactly when the fraction fits the executable representation.
pub open spec fn rv_check(a: RatView) -> Option<RatView> {
    if rv_fits(a) {
        Some(a)
    } else {
        None
    }
}

/// Checked addition, propagating earlier failures.
pub open spec fn rv_add_c(a: Option<RatView>, b: Option<RatView>) -> Option<RatView> {
    match (a, b) {
        (Some(x), Some(y)) => rv_check(rv_add(x, y)),
        _ => None,
    }
}

/// Checked subtraction, propagating earlier failures.
pub open spec fn rv_sub_c(a: Option<RatView>, b: Option<RatView>) -> Option<RatView> {
    match (a, b) {
        (Some(x), Some(y)) => rv_check(rv_sub(x, y)),
        _ => None,
    }
}

/// Checked multiplication, propagating earlier failures.
pub open spec fn rv_mul_c(a: Option<RatView>, b: Option<RatView>) -> Option<RatView> {
    match (a, b) {
        (Some(x), Some(y)) => rv_check(rv_mul(x, y)),
        _ => None,
    }
}

/// The fraction denotes zero, stated on the numerator (for a meaningful
/// fraction this is exactly "denotes the rational zero").
pub open spec fn rv_is_zero(a: RatView) -> bool {
    a.n == 0
}

/// An exact rational scalar.
#[derive(Clone, Copy, Debug)]
pub struct Rat {
    pub n: i64,
    pub d: i64,
}

impl View for Rat {
    type V = RatView;

    open spec fn view(&self) -> RatView {
        RatView { n: self.n as int, d: self.d as int }
    }
}

/// Bound on the product of two 64-bit integers: it fits well inside 128 bits.
pub proof fn lemma_i64_mul_bound(a: int, b: int)
    by (nonlinear_arith)
    requires
        i64::MIN as int <= a <= i64::MAX as int,
        i64::MIN as int <= b <= i64::MAX as int,
    ensures
        -0x4000_0000_0000_0000_0000_0000_0000_0000 <= a * b
            <= 0x4000_0000_0000_0000_0000_0000_0000_0000,
{
}

/// The product of two positive integers is positive.
pub proof fn lemma_pos_mul_pos(a: int, b: int)
    by (nonlinear_arith)
    requires
        a > 0,
        b > 0,
    ensures
        a * b > 0,
{
}

/// The exact product of two 64-bit integers, computed in 128 bits.
pub(crate) fn wide_mul(a: i64, b: i64) -> (p: i128)
    ensures
        p == a as int * b as int,
{
    proof {
        lemma_i64_mul_bound(a as int, b as int);
    }
    (a as i128) * (b as i128)
}

impl Rat {
    /// The representation invariant: the denominator is positive.
    pub open spec fn inv(&self) -> bool {
        self.d >= 1
    }

    /// Build the fraction `n / d`.
    pub fn new(n: i64, d: i64) -> (r: Rat)
        requires
            d >= 1,
        ensures
            r.inv(),
            r@ == (RatView { n: n as int, d: d as int }),
    {
        Rat { n, d }
    }

    /// The integer `n`, as a rational.
    pub fn from_int(n: i64) -> (r: Rat)
        ensures
            r.inv(),
            r@ == (RatView { n: n as int, d: 1int }),
    {
        Rat { n, d: 1 }
    }

    pub fn zero() -> (r: Rat)
        ensures
            r.inv(),
            r@ == rv_zero(),
    {
        Rat { n: 0, d: 1 }
    }

    pub fn one() -> (r: Rat)
        ensures
            r.inv(),
            r@ == rv_one(),
    {
        Rat { n: 1, d: 1 }
    }

    /// The numerator as carried by the representation.
    pub fn numer(&self) -> (r: i64)
        ensures
            r as int == self@.n,
    {
        self.n
    }

    /// The denominator as carried by the representation.
    pub fn denom(&self) -> (r: i64)
        ensures
            r as int == self@.d,
    {
        self.d
    }

    /// Exact addition; `None` exactly when the exact result does not fit.
    pub fn add(self, o: Rat) -> (r: Option<Rat>)
        requires
            self.inv(),
            o.inv(),
        ensures
            r is Some <==> rv_fits(rv_add(self@, o@)),
            r matches Some(v) ==> v.inv() && v@ == rv_add(self@, o@),
    {
        let p1: i128 = wide_mul(self.n, o.d);
        let p2: i128 = wide_mul(o.n, self.d);
        let dd: i128 = wide_mul(self.d, o.d);
        proof {
            lemma_pos_mul_pos(self.d as int, o.d as int);
        }
        match p1.checked_add(p2) {
            None => None,
            Some(nn) => {
                if nn < i64::MIN as i128 || nn > i64::MAX as i128 || dd > i64::MAX as i128 {
                    None
                } else {
                    Some(Rat { n: nn as i64, d: dd as i64 })
                }
            },
        }
    }

    /// Exact subtraction; `None` exactly when the exact result does not fit.
    pub fn sub(self, o: Rat) -> (r: Option<Rat>)
        requires
            self.inv(),
            o.inv(),
        ensures
            r is Some <==> rv_fits(rv_sub(self@, o@)),
            r matches Some(v) ==> v.inv() && v@ == rv_sub(self@, o@),
    {
        let p1: i128 = wide_mul(self.n, o.d);
        let p2: i128 = wide_mul(o.n, self.d);
        let dd: i128 = wide_mul(self.d, o.d);
        proof {
            lemma_pos_mul_pos(self.d as int, o.d as int);
        }
        match p1.checked_sub(p2) {
            None => None,
            Some(nn) => {
                if nn < i64::MIN as i128 || nn > i64::MAX as i128 || dd > i64::MAX as i128 {
                    None
                } else {
                    Some(Rat { n: nn as i64, d: dd as i64 })
                }
            },
        }
    }

    /// Exact multiplication; `None` exactly when the exact result does not fit.
    pub fn mul(self, o: Rat) -> (r: Option<Rat>)
        requires
            self.inv(),
            o.inv(),
        ensures
            r is Some <==> rv_fits(rv_mul(self@, o@)),
            r matches Some(v) ==> v.inv() && v@ == rv_mul(self@, o@),
    {
        let nn: i128 = wide_mul(self.n, o.n);
        let dd: i128 = wide_mul(self.d, o.d);
        proof {
            lemma_pos_mul_pos(self.d as int, o.d as int);
        }
        if nn < i64::MIN as i128 || nn > i64::MAX as i128 || dd > i64::MAX as i128 {
            None
        } else {
            Some(Rat { n: nn as i64, d: dd as i64 })
        }
    }

    /// Exact division by a nonzero rational; `None` exactly when the exact
    /// result does not fit.
    pub fn div(self, o: Rat) -> (r: Option<Rat>)
        requires
            self.inv(),
            o.inv(),
            o@.n != 0,
        ensures
            r is Some <==> rv_fits(rv_div(self@, o@)),
            r matches Some(v) ==> v.inv() && v@ == rv_div(self@, o@),
    {
        let mut nn: i128 = wide_mul(self.n, o.d);
        let mut dd: i128 = wide_mul(self.d, o.n);
        proof {
            lemma_i64_mul_bound(self.n as int, o.d as int);
            lemma_i64_mul_bound(self.d as int, o.n as int);
            if o.n > 0 {
                lemma_pos_mul_pos(self.d as int, o.n as int);
            } else {
                lemma_pos_mul_pos(self.d as int, -(o.n as int));
                assert(self.d as int * (-(o.n as int)) == -(self.d as int * o.n as int))
                    by (nonlinear_arith);
            }
        }
        if dd < 0 {
            nn = -nn;
            dd = -dd;
        }
        proof {
            assert(nn as int == rv_div(self@, o@).n);
            assert(dd as int == rv_div(self@, o@).d);
            assert(dd >= 1);
        }
        if nn < i64::MIN as i128 || nn > i64::MAX as i128 || dd > i64::MAX as i128 {
            None
        } else {
            Some(Rat { n: nn as i64, d: dd as i64 })
        }
    }

    /// Exact absolute value; `None` exactly when the exact result does not fit.
    pub fn abs(self) -> (r: Option<Rat>)
        requires
            self.inv(),
        ensures
            r is Some <==> rv_fits(rv_abs(self@)),
            r matches Some(v) ==> v.inv() && v@ == rv_abs(self@),
    {
        if self.n < 0 {
            if self.n == i64::MIN {
                None
            } else {
                Some(Rat { n: -self.n, d: self.d })
            }
        } else {
            Some(self)
        }
    }

    /// Whether this fraction denotes zero.
    pub fn is_zero(&self) -> (r: bool)
        requires
            self.inv(),
        ensures
            r == rv_eqv(self@, rv_zero()),
    {
        self.n == 0
    }

    /// Whether this fraction denotes a strictly positive rational.
    pub fn is_positive(&self) -> (r: bool)
        requires
            self.inv(),
        ensures
            r == rv_lt(rv_zero(), self@),
    {
        self.n > 0
    }

    /// Exact comparison: does `self` denote a smaller rational than `o`?
    pub fn lt(&self, o: &Rat) -> (r: bool)
        requires
            self.inv(),
            o.inv(),
        ensures
            r == rv_lt(self@, o@),
    {
        let p1: i128 = wide_mul(self.n, o.d);
        let p2: i128 = wide_mul(o.n, self.d);
        p1 < p2
    }

    /// Exact equality test of the denoted rationals.
    pub fn eqv(&self, o: &Rat) -> (r: bool)
        ensures
            r == rv_eqv(self@, o@),
    {
        let p1: i128 = wide_mul(self.n, o.d);
        let p2: i128 = wide_mul(o.n, self.d);
        p1 == p2
    }
}

impl PartialEq for Rat {
    /// Equality of the denoted rationals, not of representations.
    fn eq(&self, o: &Rat) -> (r: bool) {
        let p1: i128 = wide_mul(self.n, o.d);
        let p2: i128 = wide_mul(o.n, self.d);
        p1 == p2
    }
}

impl vstd::std_specs::cmp::PartialEqSpecImpl for Rat {
    open spec fn obeys_eq_spec() -> bool {
        true
    }

    open spec fn eq_spec(&self, o: &Rat) -> bool {
        rv_eqv(self@, o@)
    }
}

/// The model of an optional scalar.
pub open spec fn opt_view(o: Option<Rat>) -> Option<RatView> {
    match o {
        Some(v) => Some(v@),
        None => None,
    }
}

/// The models of a vector of rational scalars.
pub open spec fn seq_view(s: Seq<Rat>) -> Seq<RatView> {
    Seq::new(s.len(), |i: int| s[i]@)
}

/// Every fraction in the sequence has a positive denominator.
pub open spec fn rv_valid_seq(s: Seq<RatView>) -> bool {
    forall|i: int| 0 <= i < s.len() ==> rv_valid(#[trigger] s[i])
}

/// Every element of the vector satisfies the representation invariant.
pub open spec fn inv_seq(s: Seq<Rat>) -> bool {
    forall|i: int| 0 <= i < s.len() ==> (#[trigger] s[i]).inv()
}

/// Every fraction in the sequence denotes zero.
pub open spec fn all_zero(s: Seq<RatView>) -> bool {
    forall|i: int| 0 <= i < s.len() ==> rv_is_zero(#[trigger] s[i])
}

/// Multiplying by zero gives zero, on either side.
pub proof fn lemma_zero_factor(a: int, b: int)
    by (nonlinear_arith)
    requires
        a == 0,
    ensures
        a * b == 0,
        b * a == 0,
{
}

/// Denoted-value equality, component by component.
pub open spec fn rv_eqv_seq(a: Seq<RatView>, b: Seq<RatView>) -> bool {
    a.len() == b.len() && forall|i: int| 0 <= i < a.len() ==> rv_eqv(#[trigger] a[i], b[i])
}

/// Adding a fraction that denotes zero leaves the denoted value unchanged.
pub proof fn lemma_add_zero(a: RatView, z: RatView)
    by (nonlinear_arith)
    requires
        rv_valid(a),
        rv_valid(z),
        rv_eqv(z, rv_zero()),
    ensures
        rv_eqv(rv_add(a, z), a),
{
}

/// Multiplying by a fraction that denotes zero denotes zero.
pub proof fn lemma_mul_zero(a: RatView, z: RatView)
    by (nonlinear_arith)
    requires
        rv_valid(a),
        rv_valid(z),
        rv_eqv(z, rv_zero()),
    ensures
        rv_eqv(rv_mul(a, z), rv_zero()),
        rv_eqv(rv_mul(z, a), rv_zero()),
{
}

/// Replacing a fraction by an equivalent one changes no strict comparison.
pub proof fn lemma_lt_respects_eqv(a: RatView, b: RatView, c: RatView)
    by (nonlinear_arith)
    requires
        rv_valid(a),
        rv_valid(b),
        rv_valid(c),
        rv_eqv(a, b),
    ensures
        rv_lt(a, c) == rv_lt(b, c),
        rv_lt(c, a) == rv_lt(c, b),
{
}

/// Adding a strictly larger amount to the same fraction gives a strictly
/// larger sum, and adding a nonnegative amount never decreases it.
pub proof fn lemma_add_monotone(a: RatView, p: RatView, n: RatView)
    by (nonlinear_arith)
    requires
        rv_valid(a),
        rv_valid(p),
        rv_valid(n),
    ensures
        rv_lt(p, n) ==> rv_lt(rv_add(a, p), rv_add(a, n)),
        !rv_lt(p, rv_zero()) ==> !rv_lt(rv_add(a, p), a),
{
}

/// The results of the four operations are meaningful fractions again.
pub proof fn lemma_ops_valid(a: RatView, b: RatView)
    by (nonlinear_arith)
    requires
        rv_valid(a),
        rv_valid(b),
    ensures
        rv_valid(rv_add(a, b)),
        rv_valid(rv_sub(a, b)),
        rv_valid(rv_mul(a, b)),
        b.n != 0 ==> rv_valid(rv_div(a, b)),
        rv_valid(rv_abs(a)),
{
}

} // verus!
