//! Plane vectors over exact rational scalars.
//!
//! The Euclidean norm of such a vector is a square root and generally
//! irrational, so no exact `norm` is offered here; collaborators that need
//! it compute it on their own floating-point copies.

use crate::rational::{
    lemma_i64_mul_bound, rv_abs, rv_add, rv_fits, rv_lt, rv_mul, rv_sub, wide_mul, Rat, RatView,
};
use vstd::prelude::*;

verus! {

/// The equality tolerance: one part in `2^52`.
pub open spec fn rv_eps52() -> RatView {
    RatView { n: 1, d: 0x10_0000_0000_0000 }
}

/// The two fractions denote values less than `2^-52` apart.
pub open spec fn rv_near(a: RatView, b: RatView) -> bool {
    rv_lt(rv_abs(rv_sub(a, b)), rv_eps52())
}

/// A magnitude of `2^74` or more, scaled by `2^52`, is at least `2^126` and
/// therefore no smaller than any product of two 64-bit denominators.
proof fn lemma_big_diff_not_near(m: int, dd: int)
    by (nonlinear_arith)
    requires
        m >= 18889465931478580854784,
        dd <= 0x4000_0000_0000_0000_0000_0000_0000_0000,
    ensures
        !(m * 0x10_0000_0000_0000 < dd),
{
}

/// Whether two scalars differ by less than `2^-52` in denoted value:
/// `|a - b| < 1/2^52`, decided exactly by cross-multiplication.
fn near(a: Rat, b: Rat) -> (r: bool)
    ensures
        r == rv_near(a@, b@),
{
    let p1: i128 = wide_mul(a.n, b.d);
    let p2: i128 = wide_mul(b.n, a.d);
    let dd: i128 = wide_mul(a.d, b.d);
    let ghost nn: int = a@.n * b@.d - b@.n * a@.d;
    proof {
        lemma_i64_mul_bound(a.d as int, b.d as int);
    }
    let num: i128 = match p1.checked_sub(p2) {
        Some(v) => v,
        None => {
            proof {
                if nn < 0 {
                    lemma_big_diff_not_near(-nn, dd as int);
                } else {
                    lemma_big_diff_not_near(nn, dd as int);
                }
            }
            return false;
        },
    };
    if num >= 18889465931478580854784 || num <= -18889465931478580854784 {
        proof {
            if nn < 0 {
                lemma_big_diff_not_near(-nn, dd as int);
            } else {
                lemma_big_diff_not_near(nn, dd as int);
            }
        }
        false
    } else {
        let mag: i128 = if num < 0 {
            -num
        } else {
            num
        };
        proof {
            assert((mag as int) * 0x10_0000_0000_0000 < 0x4000_0000_0000_0000_0000_0000_0000_0000)
                by (nonlinear_arith)
                requires
                    0 <= (mag as int) && (mag as int) < 18889465931478580854784,
            ;
        }
        let prod: i128 = mag * 0x10_0000_0000_0000;
        prod < dd
    }
}

#[derive(Clone, Copy, Debug)]
pub struct Vec2 {
    pub x: Rat,
    pub y: Rat,
}

impl Vec2 {
    /// Both components are meaningful fractions.
    pub open spec fn wf(&self) -> bool {
        self.x.inv() && self.y.inv()
    }

    pub fn new(x: Rat, y: Rat) -> (r: Vec2)
        ensures
            r.x == x,
            r.y == y,
    {
        Vec2 { x, y }
    }

    /// The dot product `x*x' + y*y'`; `None` exactly when an exact
    /// intermediate does not fit.
    pub fn dot(&self, v2: &Vec2) -> (r: Option<Rat>)
        requires
            self.wf(),
            v2.wf(),
        ensures
            r is Some <==> {
                &&& rv_fits(rv_mul(self.x@, v2.x@))
                &&& rv_fits(rv_mul(self.y@, v2.y@))
                &&& rv_fits(rv_add(rv_mul(self.x@, v2.x@), rv_mul(self.y@, v2.y@)))
            },
            r matches Some(v) ==> v.inv() && v@ == rv_add(
                rv_mul(self.x@, v2.x@),
                rv_mul(self.y@, v2.y@),
            ),
    {
        let a = match self.x.mul(v2.x) {
            Some(v) => v,
            None => return None,
        };
        let b = match self.y.mul(v2.y) {
            Some(v) => v,
            None => return None,
        };
        a.add(b)
    }

    /// Component-wise sum; `None` exactly when an exact component does not
    /// fit.
    pub fn add(&self, rhs: &Vec2) -> (r: Option<Vec2>)
        requires
            self.wf(),
            rhs.wf(),
        ensures
            r is Some <==> rv_fits(rv_add(self.x@, rhs.x@)) && rv_fits(rv_add(self.y@, rhs.y@)),
            r matches Some(v) ==> {
                &&& v.wf()
                &&& v.x@ == rv_add(self.x@, rhs.x@)
                &&& v.y@ == rv_add(self.y@, rhs.y@)
            },
    {
        let x = match self.x.add(rhs.x) {
            Some(v) => v,
            None => return None,
        };
        let y = match self.y.add(rhs.y) {
            Some(v) => v,
            None => return None,
        };
        Some(Vec2 { x, y })
    }

    /// Component-wise difference; `None` exactly when an exact component
    /// does not fit.
    pub fn sub(&self, rhs: &Vec2) -> (r: Option<Vec2>)
        requires
            self.wf(),
            rhs.wf(),
        ensures
            r is Some <==> rv_fits(rv_sub(self.x@, rhs.x@)) && rv_fits(rv_sub(self.y@, rhs.y@)),
            r matches Some(v) ==> {
                &&& v.wf()
                &&& v.x@ == rv_sub(self.x@, rhs.x@)
                &&& v.y@ == rv_sub(self.y@, rhs.y@)
            },
    {
        let x = match self.x.sub(rhs.x) {
            Some(v) => v,
            None => return None,
        };
        let y = match self.y.sub(rhs.y) {
            Some(v) => v,
            None => return None,
        };
        Some(Vec2 { x, y })
    }

    /// Scaling by a scalar; `None` exactly when an exact component does not
    /// fit.
    pub fn mul(&self, rhs: Rat) -> (r: Option<Vec2>)
        requires
            self.wf(),
            rhs.inv(),
        ensures
            r is Some <==> rv_fits(rv_mul(self.x@, rhs@)) && rv_fits(rv_mul(self.y@, rhs@)),
            r matches Some(v) ==> {
                &&& v.wf()
                &&& v.x@ == rv_mul(self.x@, rhs@)
                &&& v.y@ == rv_mul(self.y@, rhs@)
            },
    {
        let x = match self.x.mul(rhs) {
            Some(v) => v,
            None => return None,
        };
        let y = match self.y.mul(rhs) {
            Some(v) => v,
            None => return None,
        };
        Some(Vec2 { x, y })
    }
}

impl PartialEq for Vec2 {
    /// Approximate componentwise equality: each component pair must denote
    /// values less than `2^-52` apart, decided exactly. Like any absolute
    /// tolerance comparison this relation is reflexive and symmetric but
    /// not transitive; exact equality of the denoted values implies it.
    fn eq(&self, other: &Vec2) -> (r: bool) {
        near(self.x, other.x) && near(self.y, other.y)
    }
}

impl vstd::std_specs::cmp::PartialEqSpecImpl for Vec2 {
    open spec fn obeys_eq_spec() -> bool {
        true
    }

    open spec fn eq_spec(&self, other: &Vec2) -> bool {
        rv_near(self.x@, other.x@) && rv_near(self.y@, other.y@)
    }
}

} // verus!
