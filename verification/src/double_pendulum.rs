//! The double pendulum: a continuous four-state mechanical system with
//! masses `m1`, `m2` and lengths `l1`, `l2`, state
//! `[theta1, theta2, omega1, omega2]`, and the standard Lagrangian
//! angular-acceleration expressions with the gravitational constant fixed at
//! 9.81.
//!
//! The accelerations are rational in the sines and cosines of the angles,
//! and those trigonometric values are themselves transcendental, so they
//! enter as caller-supplied exact inputs (`PendulumTrig`); the algebra on
//! them is computed and verified exactly here.
//!
//! Both accelerations share the denominator
//! `D = l_i * (2*m1 + m2 - m2*cos(2*(theta1-theta2)))`, which vanishes at a
//! coordinate singularity of this reduction. When `|D| < 1e-6` the affected
//! acceleration is reported as exactly zero. This is a deliberate stability
//! fallback, not a physically exact result: it locally suppresses the
//! dynamics rather than modeling a damped transition, and callers cannot
//! distinguish it from a genuine zero acceleration.

use crate::integrators::{euler_steps, preserves_rest, rk4_steps};
use crate::rational::{
    all_zero, inv_seq, lemma_ops_valid, lemma_pos_mul_pos, lemma_zero_factor, opt_view, rv_abs,
    rv_add, rv_add_c, rv_check, rv_div, rv_is_zero, rv_lt, rv_mul, rv_mul_c, rv_one, rv_sub,
    rv_sub_c, rv_valid, rv_valid_seq, rv_zero, seq_view, Rat, RatView,
};
use vstd::prelude::*;

verus! {

pub struct DoublePendulum {
    pub m1: Rat,
    pub m2: Rat,
    pub l1: Rat,
    pub l2: Rat,
}

/// The exact trigonometric values of one configuration `(theta1, theta2)`,
/// with `delta = theta1 - theta2`. The caller computes them; the algebra
/// here takes them as given.
pub struct PendulumTrig {
    /// `sin(theta1)`
    pub sin_theta1: Rat,
    /// `sin(theta1 - 2*theta2)`
    pub sin_theta1_minus_2theta2: Rat,
    /// `sin(delta)`
    pub sin_delta: Rat,
    /// `cos(delta)`
    pub cos_delta: Rat,
    /// `cos(2*delta)`
    pub cos_two_delta: Rat,
    /// `cos(theta1)`
    pub cos_theta1: Rat,
}

/// The model of a trigonometric input bundle.
pub struct TrigView {
    pub sin_theta1: RatView,
    pub sin_theta1_minus_2theta2: RatView,
    pub sin_delta: RatView,
    pub cos_delta: RatView,
    pub cos_two_delta: RatView,
    pub cos_theta1: RatView,
}

impl View for PendulumTrig {
    type V = TrigView;

    open spec fn view(&self) -> TrigView {
        TrigView {
            sin_theta1: self.sin_theta1@,
            sin_theta1_minus_2theta2: self.sin_theta1_minus_2theta2@,
            sin_delta: self.sin_delta@,
            cos_delta: self.cos_delta@,
            cos_two_delta: self.cos_two_delta@,
            cos_theta1: self.cos_theta1@,
        }
    }
}

impl PendulumTrig {
    pub open spec fn wf(&self) -> bool {
        &&& self.sin_theta1.inv()
        &&& self.sin_theta1_minus_2theta2.inv()
        &&& self.sin_delta.inv()
        &&& self.cos_delta.inv()
        &&& self.cos_two_delta.inv()
        &&& self.cos_theta1.inv()
    }
}

/// All six trigonometric values are meaningful fractions.
pub open spec fn trig_valid(tr: TrigView) -> bool {
    &&& rv_valid(tr.sin_theta1)
    &&& rv_valid(tr.sin_theta1_minus_2theta2)
    &&& rv_valid(tr.sin_delta)
    &&& rv_valid(tr.cos_delta)
    &&& rv_valid(tr.cos_two_delta)
    &&& rv_valid(tr.cos_theta1)
}

/// The gravitational constant, 9.81.
pub open spec fn dp_g() -> RatView {
    RatView { n: 981, d: 100 }
}

/// The singularity guard threshold, 1e-6.
pub open spec fn dp_tiny() -> RatView {
    RatView { n: 1, d: 1000000 }
}

pub open spec fn rv_two() -> RatView {
    RatView { n: 2, d: 1 }
}

pub open spec fn rv_neg_one() -> RatView {
    RatView { n: -1, d: 1 }
}

/// The numerator of the first angular acceleration:
/// `-g*(2*m1+m2)*sin(t1) - m2*g*sin(t1-2*t2)
///  - 2*m2*sin(d)*(w2^2*l2 + w1^2*l1*cos(d))`.
pub open spec fn omega1_result(
    m1: RatView,
    m2: RatView,
    l1: RatView,
    l2: RatView,
    tr: TrigView,
    w1: RatView,
    w2: RatView,
) -> RatView {
    let term1 = rv_mul(
        rv_mul(rv_mul(rv_neg_one(), dp_g()), rv_add(rv_mul(rv_two(), m1), m2)),
        tr.sin_theta1,
    );
    let term2 = rv_mul(rv_mul(m2, dp_g()), tr.sin_theta1_minus_2theta2);
    let inner = rv_add(
        rv_mul(rv_mul(w2, w2), l2),
        rv_mul(rv_mul(rv_mul(w1, w1), l1), tr.cos_delta),
    );
    let term3 = rv_mul(rv_mul(rv_mul(rv_two(), m2), tr.sin_delta), inner);
    rv_sub(rv_sub(term1, term2), term3)
}

/// The shared denominator factor `2*m1 + m2 - m2*cos(2*delta)`, scaled by a
/// pendulum length.
pub open spec fn dp_denom(len: RatView, m1: RatView, m2: RatView, tr: TrigView) -> RatView {
    rv_mul(len, rv_sub(rv_add(rv_mul(rv_two(), m1), m2), rv_mul(m2, tr.cos_two_delta)))
}

/// The numerator of the second angular acceleration:
/// `2*sin(d)*(w1^2*l1*(m1+m2) + g*(m1+m2)*cos(t1) + w2^2*l2*m2*cos(d))`.
pub open spec fn omega2_result(
    m1: RatView,
    m2: RatView,
    l1: RatView,
    l2: RatView,
    tr: TrigView,
    w1: RatView,
    w2: RatView,
) -> RatView {
    let sm = rv_add(m1, m2);
    let t1 = rv_mul(rv_mul(rv_mul(w1, w1), l1), sm);
    let t2 = rv_mul(rv_mul(dp_g(), sm), tr.cos_theta1);
    let t3 = rv_mul(rv_mul(rv_mul(rv_mul(w2, w2), l2), m2), tr.cos_delta);
    rv_mul(rv_mul(rv_two(), tr.sin_delta), rv_add(rv_add(t1, t2), t3))
}

/// An acceleration: the quotient of its numerator by the shared denominator,
/// with the near-singular fallback to exactly zero.
pub open spec fn dp_accel(num: RatView, den: RatView) -> RatView {
    if rv_lt(rv_abs(den), dp_tiny()) {
        rv_zero()
    } else {
        rv_div(num, den)
    }
}

/// The checked counterpart of `dp_accel`, propagating earlier failures.
pub open spec fn dp_accel_c(num: Option<RatView>, den: Option<RatView>) -> Option<RatView> {
    match (num, den) {
        (Some(n), Some(d)) => if rv_lt(rv_abs(d), dp_tiny()) {
            Some(rv_zero())
        } else {
            rv_check(rv_div(n, d))
        },
        _ => None,
    }
}

/// The checked numerator of the first acceleration, exactly as the
/// executable code builds it.
pub open spec fn omega1_result_c(
    m1: RatView,
    m2: RatView,
    l1: RatView,
    l2: RatView,
    tr: TrigView,
    w1: RatView,
    w2: RatView,
) -> Option<RatView> {
    let c1 = rv_mul_c(Some(rv_neg_one()), Some(dp_g()));
    let c2 = rv_mul_c(Some(rv_two()), Some(m1));
    let c3 = rv_add_c(c2, Some(m2));
    let c4 = rv_mul_c(c1, c3);
    let term1 = rv_mul_c(c4, Some(tr.sin_theta1));
    let c5 = rv_mul_c(Some(m2), Some(dp_g()));
    let term2 = rv_mul_c(c5, Some(tr.sin_theta1_minus_2theta2));
    let c6 = rv_mul_c(Some(rv_two()), Some(m2));
    let c7 = rv_mul_c(c6, Some(tr.sin_delta));
    let c8 = rv_mul_c(Some(w2), Some(w2));
    let c9 = rv_mul_c(c8, Some(l2));
    let c10 = rv_mul_c(Some(w1), Some(w1));
    let c11 = rv_mul_c(c10, Some(l1));
    let c12 = rv_mul_c(c11, Some(tr.cos_delta));
    let c13 = rv_add_c(c9, c12);
    let term3 = rv_mul_c(c7, c13);
    rv_sub_c(rv_sub_c(term1, term2), term3)
}

/// The checked shared denominator, exactly as the executable code builds it.
pub open spec fn dp_denom_c(len: RatView, m1: RatView, m2: RatView, tr: TrigView) -> Option<
    RatView,
> {
    let c1 = rv_mul_c(Some(rv_two()), Some(m1));
    let c2 = rv_add_c(c1, Some(m2));
    let c3 = rv_mul_c(Some(m2), Some(tr.cos_two_delta));
    let c4 = rv_sub_c(c2, c3);
    rv_mul_c(Some(len), c4)
}

/// The checked numerator of the second acceleration, exactly as the
/// executable code builds it.
pub open spec fn omega2_result_c(
    m1: RatView,
    m2: RatView,
    l1: RatView,
    l2: RatView,
    tr: TrigView,
    w1: RatView,
    w2: RatView,
) -> Option<RatView> {
    let sm = rv_add_c(Some(m1), Some(m2));
    let c1 = rv_mul_c(Some(w1), Some(w1));
    let c2 = rv_mul_c(c1, Some(l1));
    let t1 = rv_mul_c(c2, sm);
    let c3 = rv_mul_c(Some(dp_g()), sm);
    let t2 = rv_mul_c(c3, Some(tr.cos_theta1));
    let c4 = rv_mul_c(Some(w2), Some(w2));
    let c5 = rv_mul_c(c4, Some(l2));
    let c6 = rv_mul_c(c5, Some(m2));
    let t3 = rv_mul_c(c6, Some(tr.cos_delta));
    let c7 = rv_mul_c(Some(rv_two()), Some(tr.sin_delta));
    let c8 = rv_add_c(t1, t2);
    let c9 = rv_add_c(c8, t3);
    rv_mul_c(c7, c9)
}

/// The first angular acceleration, fallback included.
pub open spec fn omega1_model(
    m1: RatView,
    m2: RatView,
    l1: RatView,
    l2: RatView,
    tr: TrigView,
    w1: RatView,
    w2: RatView,
) -> RatView {
    dp_accel(omega1_result(m1, m2, l1, l2, tr, w1, w2), dp_denom(l1, m1, m2, tr))
}

/// The second angular acceleration, fallback included.
pub open spec fn omega2_model(
    m1: RatView,
    m2: RatView,
    l1: RatView,
    l2: RatView,
    tr: TrigView,
    w1: RatView,
    w2: RatView,
) -> RatView {
    dp_accel(omega2_result(m1, m2, l1, l2, tr, w1, w2), dp_denom(l2, m1, m2, tr))
}

/// The first angular acceleration as the executable code computes it,
/// failure cases included.
pub open spec fn omega1_model_c(
    m1: RatView,
    m2: RatView,
    l1: RatView,
    l2: RatView,
    tr: TrigView,
    w1: RatView,
    w2: RatView,
) -> Option<RatView> {
    dp_accel_c(omega1_result_c(m1, m2, l1, l2, tr, w1, w2), dp_denom_c(l1, m1, m2, tr))
}

/// The second angular acceleration as the executable code computes it,
/// failure cases included.
pub open spec fn omega2_model_c(
    m1: RatView,
    m2: RatView,
    l1: RatView,
    l2: RatView,
    tr: TrigView,
    w1: RatView,
    w2: RatView,
) -> Option<RatView> {
    dp_accel_c(omega2_result_c(m1, m2, l1, l2, tr, w1, w2), dp_denom_c(l2, m1, m2, tr))
}

/// The exact right-hand side of the pendulum: `[w1, w2, a1, a2]`.
pub open spec fn dp_rhs_model(dp: DoublePendulum, tr: TrigView, s: Seq<RatView>) -> Seq<RatView> {
    seq![
        s[2],
        s[3],
        omega1_model(dp.m1@, dp.m2@, dp.l1@, dp.l2@, tr, s[2], s[3]),
        omega2_model(dp.m1@, dp.m2@, dp.l1@, dp.l2@, tr, s[2], s[3]),
    ]
}

/// Divide a numerator by the shared denominator, with the near-singular
/// fallback to exactly zero.
fn accel_from(num: Rat, den: Rat) -> (res: Option<Rat>)
    requires
        num.inv(),
        den.inv(),
    ensures
        opt_view(res) == dp_accel_c(Some(num@), Some(den@)),
        res matches Some(v) ==> v.inv() && v@ == dp_accel(num@, den@),
{
    let tiny = Rat::new(1, 1000000);
    let neg_tiny = Rat::new(-1, 1000000);
    let below = den.lt(&tiny);
    let above = neg_tiny.lt(&den);
    proof {
        assert(rv_lt(rv_abs(den@), dp_tiny()) == (rv_lt(den@, dp_tiny()) && rv_lt(
            RatView { n: -1, d: 1000000 },
            den@,
        )));
    }
    if below && above {
        Some(Rat::zero())
    } else {
        proof {
            assert(den@.n != 0);
        }
        num.div(den)
    }
}

/// The first angular acceleration. Relies on the caller for the
/// trigonometric values of the configuration.
fn omega_1_prime(m1: Rat, m2: Rat, l1: Rat, l2: Rat, trig: &PendulumTrig, omega1: Rat, omega2: Rat) -> (res: Option<Rat>)
    requires
        m1.inv(),
        m2.inv(),
        l1.inv(),
        l2.inv(),
        trig.wf(),
        omega1.inv(),
        omega2.inv(),
    ensures
        opt_view(res) == omega1_model_c(m1@, m2@, l1@, l2@, trig@, omega1@, omega2@),
        res matches Some(v) ==> v.inv() && v@ == omega1_model(
            m1@,
            m2@,
            l1@,
            l2@,
            trig@,
            omega1@,
            omega2@,
        ),
{
    let two = Rat::from_int(2);
    let neg_one = Rat::from_int(-1);
    let g = Rat::new(981, 100);
    let c1 = match neg_one.mul(g) {
        Some(v) => v,
        None => return None,
    };
    let c2 = match two.mul(m1) {
        Some(v) => v,
        None => return None,
    };
    let c3 = match c2.add(m2) {
        Some(v) => v,
        None => return None,
    };
    let c4 = match c1.mul(c3) {
        Some(v) => v,
        None => return None,
    };
    let term1 = match c4.mul(trig.sin_theta1) {
        Some(v) => v,
        None => return None,
    };
    let c5 = match m2.mul(g) {
        Some(v) => v,
        None => return None,
    };
    let term2 = match c5.mul(trig.sin_theta1_minus_2theta2) {
        Some(v) => v,
        None => return None,
    };
    let c6 = match two.mul(m2) {
        Some(v) => v,
        None => return None,
    };
    let c7 = match c6.mul(trig.sin_delta) {
        Some(v) => v,
        None => return None,
    };
    let c8 = match omega2.mul(omega2) {
        Some(v) => v,
        None => return None,
    };
    let c9 = match c8.mul(l2) {
        Some(v) => v,
        None => return None,
    };
    let c10 = match omega1.mul(omega1) {
        Some(v) => v,
        None => return None,
    };
    let c11 = match c10.mul(l1) {
        Some(v) => v,
        None => return None,
    };
    let c12 = match c11.mul(trig.cos_delta) {
        Some(v) => v,
        None => return None,
    };
    let c13 = match c9.add(c12) {
        Some(v) => v,
        None => return None,
    };
    let term3 = match c7.mul(c13) {
        Some(v) => v,
        None => return None,
    };
    let p = match term1.sub(term2) {
        Some(v) => v,
        None => return None,
    };
    let result = match p.sub(term3) {
        Some(v) => v,
        None => return None,
    };
    let d1 = match two.mul(m1) {
        Some(v) => v,
        None => return None,
    };
    let d2 = match d1.add(m2) {
        Some(v) => v,
        None => return None,
    };
    let d3 = match m2.mul(trig.cos_two_delta) {
        Some(v) => v,
        None => return None,
    };
    let d4 = match d2.sub(d3) {
        Some(v) => v,
        None => return None,
    };
    let denom = match l1.mul(d4) {
        Some(v) => v,
        None => return None,
    };
    accel_from(result, denom)
}

/// The second angular acceleration. Relies on the caller for the
/// trigonometric values of the configuration.
fn omega_2_prime(m1: Rat, m2: Rat, l1: Rat, l2: Rat, trig: &PendulumTrig, omega1: Rat, omega2: Rat) -> (res: Option<Rat>)
    requires
        m1.inv(),
        m2.inv(),
        l1.inv(),
        l2.inv(),
        trig.wf(),
        omega1.inv(),
        omega2.inv(),
    ensures
        opt_view(res) == omega2_model_c(m1@, m2@, l1@, l2@, trig@, omega1@, omega2@),
        res matches Some(v) ==> v.inv() && v@ == omega2_model(
            m1@,
            m2@,
            l1@,
            l2@,
            trig@,
            omega1@,
            omega2@,
        ),
{
    let two = Rat::from_int(2);
    let g = Rat::new(981, 100);
    let sm = match m1.add(m2) {
        Some(v) => v,
        None => return None,
    };
    let c1 = match omega1.mul(omega1) {
        Some(v) => v,
        None => return None,
    };
    let c2 = match c1.mul(l1) {
        Some(v) => v,
        None => return None,
    };
    let t1 = match c2.mul(sm) {
        Some(v) => v,
        None => return None,
    };
    let c3 = match g.mul(sm) {
        Some(v) => v,
        None => return None,
    };
    let t2 = match c3.mul(trig.cos_theta1) {
        Some(v) => v,
        None => return None,
    };
    let c4 = match omega2.mul(omega2) {
        Some(v) => v,
        None => return None,
    };
    let c5 = match c4.mul(l2) {
        Some(v) => v,
        None => return None,
    };
    let c6 = match c5.mul(m2) {
        Some(v) => v,
        None => return None,
    };
    let t3 = match c6.mul(trig.cos_delta) {
        Some(v) => v,
        None => return None,
    };
    let c7 = match two.mul(trig.sin_delta) {
        Some(v) => v,
        None => return None,
    };
    let c8 = match t1.add(t2) {
        Some(v) => v,
        None => return None,
    };
    let c9 = match c8.add(t3) {
        Some(v) => v,
        None => return None,
    };
    let result = match c7.mul(c9) {
        Some(v) => v,
        None => return None,
    };
    let d1 = match two.mul(m1) {
        Some(v) => v,
        None => return None,
    };
    let d2 = match d1.add(m2) {
        Some(v) => v,
        None => return None,
    };
    let d3 = match m2.mul(trig.cos_two_delta) {
        Some(v) => v,
        None => return None,
    };
    let d4 = match d2.sub(d3) {
        Some(v) => v,
        None => return None,
    };
    let denom = match l2.mul(d4) {
        Some(v) => v,
        None => return None,
    };
    accel_from(result, denom)
}

impl DoublePendulum {
    /// All four parameters are meaningful fractions.
    pub open spec fn wf(&self) -> bool {
        self.m1.inv() && self.m2.inv() && self.l1.inv() && self.l2.inv()
    }

    /// The fixed length of every valid state vector for this system.
    pub fn dimension(&self) -> (r: usize)
        ensures
            r == 4,
    {
        4
    }

    /// The exact right-hand side `[w1, w2, a1, a2]` at a state
    /// `[theta1, theta2, w1, w2]`, given the trigonometric values of the
    /// configuration; `None` exactly when an exact intermediate of either
    /// acceleration is not representable.
    pub fn rhs_with_trig(&self, t: Rat, state: &Vec<Rat>, trig: &PendulumTrig) -> (res: Option<
        Vec<Rat>,
    >)
        requires
            self.wf(),
            t.inv(),
            trig.wf(),
            inv_seq(state@),
            state@.len() == 4,
        ensures
            res is Some <==> {
                &&& omega1_model_c(
                    self.m1@,
                    self.m2@,
                    self.l1@,
                    self.l2@,
                    trig@,
                    state@[2]@,
                    state@[3]@,
                ) is Some
                &&& omega2_model_c(
                    self.m1@,
                    self.m2@,
                    self.l1@,
                    self.l2@,
                    trig@,
                    state@[2]@,
                    state@[3]@,
                ) is Some
            },
            res matches Some(v) ==> {
                &&& inv_seq(v@)
                &&& v@.len() == 4
                &&& seq_view(v@) == dp_rhs_model(*self, trig@, seq_view(state@))
            },
    {
        let w1 = state[2];
        let w2 = state[3];
        let a1 = match omega_1_prime(self.m1, self.m2, self.l1, self.l2, trig, w1, w2) {
            Some(v) => v,
            None => return None,
        };
        let a2 = match omega_2_prime(self.m1, self.m2, self.l1, self.l2, trig, w1, w2) {
            Some(v) => v,
            None => return None,
        };
        let mut out: Vec<Rat> = Vec::new();
        out.push(w1);
        out.push(w2);
        out.push(a1);
        out.push(a2);
        proof {
            assert(seq_view(out@) =~= dp_rhs_model(*self, trig@, seq_view(state@)));
        }
        Some(out)
    }
}

impl Default for DoublePendulum {
    /// Unit masses and unit lengths.
    fn default() -> (r: DoublePendulum)
        ensures
            r.wf(),
            r.m1@ == rv_one(),
            r.m2@ == rv_one(),
            r.l1@ == rv_one(),
            r.l2@ == rv_one(),
    {
        DoublePendulum {
            m1: Rat::from_int(1),
            m2: Rat::from_int(1),
            l1: Rat::from_int(1),
            l2: Rat::from_int(1),
        }
    }
}

/// Trigonometric values of the rest configuration: every sine input denotes
/// zero (the cosines may be anything meaningful).
pub open spec fn rest_trig(tr: TrigView) -> bool {
    &&& trig_valid(tr)
    &&& rv_is_zero(tr.sin_theta1)
    &&& rv_is_zero(tr.sin_theta1_minus_2theta2)
    &&& rv_is_zero(tr.sin_delta)
}

/// A quotient by the shared denominator is a meaningful fraction, whichever
/// branch of the near-singular fallback is taken.
proof fn lemma_dp_accel_valid(num: RatView, den: RatView)
    requires
        rv_valid(num),
        rv_valid(den),
    ensures
        rv_valid(dp_accel(num, den)),
{
    if rv_lt(rv_abs(den), dp_tiny()) {
    } else {
        assert(den.n != 0);
        if den.n < 0 {
            lemma_pos_mul_pos(num.d, -den.n);
            assert(num.d * (-den.n) == -(num.d * den.n)) by (nonlinear_arith);
        } else {
            lemma_pos_mul_pos(num.d, den.n);
        }
    }
}

/// The numerators and denominators of both angular accelerations are
/// meaningful fractions for every well-formed instance, every trigonometric
/// bundle and both angular velocities.
proof fn lemma_dp_parts_valid(
    m1: RatView,
    m2: RatView,
    l1: RatView,
    l2: RatView,
    tr: TrigView,
    w1: RatView,
    w2: RatView,
)
    requires
        rv_valid(m1),
        rv_valid(m2),
        rv_valid(l1),
        rv_valid(l2),
        trig_valid(tr),
        rv_valid(w1),
        rv_valid(w2),
    ensures
        rv_valid(omega1_result(m1, m2, l1, l2, tr, w1, w2)),
        rv_valid(omega2_result(m1, m2, l1, l2, tr, w1, w2)),
        rv_valid(dp_denom(l1, m1, m2, tr)),
        rv_valid(dp_denom(l2, m1, m2, tr)),
{
    let t1f = rv_mul(rv_mul(rv_neg_one(), dp_g()), rv_add(rv_mul(rv_two(), m1), m2));
    let inner = rv_add(
        rv_mul(rv_mul(w2, w2), l2),
        rv_mul(rv_mul(rv_mul(w1, w1), l1), tr.cos_delta),
    );
    let t3f = rv_mul(rv_mul(rv_two(), m2), tr.sin_delta);
    lemma_ops_valid(rv_neg_one(), dp_g());
    lemma_ops_valid(rv_two(), m1);
    lemma_ops_valid(rv_mul(rv_two(), m1), m2);
    lemma_ops_valid(rv_mul(rv_neg_one(), dp_g()), rv_add(rv_mul(rv_two(), m1), m2));
    lemma_ops_valid(t1f, tr.sin_theta1);
    lemma_ops_valid(m2, dp_g());
    lemma_ops_valid(rv_mul(m2, dp_g()), tr.sin_theta1_minus_2theta2);
    lemma_ops_valid(w2, w2);
    lemma_ops_valid(rv_mul(w2, w2), l2);
    lemma_ops_valid(w1, w1);
    lemma_ops_valid(rv_mul(w1, w1), l1);
    lemma_ops_valid(rv_mul(rv_mul(w1, w1), l1), tr.cos_delta);
    lemma_ops_valid(rv_mul(rv_mul(w2, w2), l2), rv_mul(rv_mul(rv_mul(w1, w1), l1), tr.cos_delta));
    lemma_ops_valid(rv_two(), m2);
    lemma_ops_valid(rv_mul(rv_two(), m2), tr.sin_delta);
    lemma_ops_valid(t3f, inner);
    lemma_ops_valid(rv_mul(t1f, tr.sin_theta1), rv_mul(rv_mul(m2, dp_g()), tr.sin_theta1_minus_2theta2));
    lemma_ops_valid(
        rv_sub(rv_mul(t1f, tr.sin_theta1), rv_mul(rv_mul(m2, dp_g()), tr.sin_theta1_minus_2theta2)),
        rv_mul(t3f, inner),
    );
    let denf = rv_sub(rv_add(rv_mul(rv_two(), m1), m2), rv_mul(m2, tr.cos_two_delta));
    lemma_ops_valid(m2, tr.cos_two_delta);
    lemma_ops_valid(rv_add(rv_mul(rv_two(), m1), m2), rv_mul(m2, tr.cos_two_delta));
    lemma_ops_valid(l1, denf);
    lemma_ops_valid(l2, denf);
    let sm = rv_add(m1, m2);
    let u1 = rv_mul(rv_mul(rv_mul(w1, w1), l1), sm);
    let u2 = rv_mul(rv_mul(dp_g(), sm), tr.cos_theta1);
    let u3 = rv_mul(rv_mul(rv_mul(rv_mul(w2, w2), l2), m2), tr.cos_delta);
    let g2 = rv_mul(rv_two(), tr.sin_delta);
    let inner2 = rv_add(rv_add(u1, u2), u3);
    lemma_ops_valid(m1, m2);
    lemma_ops_valid(rv_mul(w1, w1), l1);
    lemma_ops_valid(rv_mul(rv_mul(w1, w1), l1), sm);
    lemma_ops_valid(dp_g(), sm);
    lemma_ops_valid(rv_mul(dp_g(), sm), tr.cos_theta1);
    lemma_ops_valid(rv_mul(rv_mul(w2, w2), l2), m2);
    lemma_ops_valid(rv_mul(rv_mul(rv_mul(w2, w2), l2), m2), tr.cos_delta);
    lemma_ops_valid(rv_two(), tr.sin_delta);
    lemma_ops_valid(u1, u2);
    lemma_ops_valid(rv_add(u1, u2), u3);
    lemma_ops_valid(g2, inner2);
}

/// The pendulum right-hand side always has the declared dimension: four
/// components, each a meaningful fraction, for every well-formed instance,
/// every trigonometric bundle and every four-component state.
pub proof fn lemma_dp_rhs_model_wf(dp: DoublePendulum, tr: TrigView, s: Seq<RatView>)
    requires
        dp.wf(),
        trig_valid(tr),
        rv_valid_seq(s),
        s.len() == 4,
    ensures
        dp_rhs_model(dp, tr, s).len() == 4,
        rv_valid_seq(dp_rhs_model(dp, tr, s)),
{
    assert(rv_valid(s[2]) && rv_valid(s[3]));
    lemma_dp_parts_valid(dp.m1@, dp.m2@, dp.l1@, dp.l2@, tr, s[2], s[3]);
    lemma_dp_accel_valid(
        omega1_result(dp.m1@, dp.m2@, dp.l1@, dp.l2@, tr, s[2], s[3]),
        dp_denom(dp.l1@, dp.m1@, dp.m2@, tr),
    );
    lemma_dp_accel_valid(
        omega2_result(dp.m1@, dp.m2@, dp.l1@, dp.l2@, tr, s[2], s[3]),
        dp_denom(dp.l2@, dp.m1@, dp.m2@, tr),
    );
    assert forall|i: int| 0 <= i < 4 implies rv_valid(#[trigger] dp_rhs_model(dp, tr, s)[i]) by {
    }
}

/// A quotient with a zero numerator denotes zero, whichever branch of the
/// near-singular fallback is taken.
proof fn lemma_dp_accel_zero(num: RatView, den: RatView)
    requires
        rv_valid(num),
        rv_valid(den),
        rv_is_zero(num),
    ensures
        rv_is_zero(dp_accel(num, den)),
        rv_valid(dp_accel(num, den)),
{
    if rv_lt(rv_abs(den), dp_tiny()) {
    } else {
        assert(den.n != 0);
        lemma_zero_factor(num.n, den.d);
        if den.n < 0 {
            lemma_pos_mul_pos(num.d, -den.n);
            assert(num.d * (-den.n) == -(num.d * den.n)) by (nonlinear_arith);
        } else {
            lemma_pos_mul_pos(num.d, den.n);
        }
    }
}

/// At the rest configuration (all sines zero, both angular velocities
/// zero) both angular accelerations denote exactly zero, whatever the
/// masses, the lengths and the cosines, and whether or not the
/// near-singular fallback fires.
pub proof fn lemma_dp_rest_accels(
    m1: RatView,
    m2: RatView,
    l1: RatView,
    l2: RatView,
    tr: TrigView,
    w1: RatView,
    w2: RatView,
)
    requires
        rv_valid(m1),
        rv_valid(m2),
        rv_valid(l1),
        rv_valid(l2),
        rest_trig(tr),
        rv_valid(w1),
        rv_valid(w2),
        rv_is_zero(w1),
        rv_is_zero(w2),
    ensures
        rv_is_zero(omega1_model(m1, m2, l1, l2, tr, w1, w2)),
        rv_valid(omega1_model(m1, m2, l1, l2, tr, w1, w2)),
        rv_is_zero(omega2_model(m1, m2, l1, l2, tr, w1, w2)),
        rv_valid(omega2_model(m1, m2, l1, l2, tr, w1, w2)),
{
    let t1f = rv_mul(rv_mul(rv_neg_one(), dp_g()), rv_add(rv_mul(rv_two(), m1), m2));
    let term1 = rv_mul(t1f, tr.sin_theta1);
    let term2 = rv_mul(rv_mul(m2, dp_g()), tr.sin_theta1_minus_2theta2);
    let inner = rv_add(
        rv_mul(rv_mul(w2, w2), l2),
        rv_mul(rv_mul(rv_mul(w1, w1), l1), tr.cos_delta),
    );
    let t3f = rv_mul(rv_mul(rv_two(), m2), tr.sin_delta);
    let term3 = rv_mul(t3f, inner);
    lemma_ops_valid(rv_neg_one(), dp_g());
    lemma_ops_valid(rv_two(), m1);
    lemma_ops_valid(rv_mul(rv_two(), m1), m2);
    lemma_ops_valid(rv_mul(rv_neg_one(), dp_g()), rv_add(rv_mul(rv_two(), m1), m2));
    lemma_ops_valid(t1f, tr.sin_theta1);
    lemma_ops_valid(m2, dp_g());
    lemma_ops_valid(rv_mul(m2, dp_g()), tr.sin_theta1_minus_2theta2);
    lemma_ops_valid(w2, w2);
    lemma_ops_valid(rv_mul(w2, w2), l2);
    lemma_ops_valid(w1, w1);
    lemma_ops_valid(rv_mul(w1, w1), l1);
    lemma_ops_valid(rv_mul(rv_mul(w1, w1), l1), tr.cos_delta);
    lemma_ops_valid(rv_mul(rv_mul(w2, w2), l2), rv_mul(rv_mul(rv_mul(w1, w1), l1), tr.cos_delta));
    lemma_ops_valid(rv_two(), m2);
    lemma_ops_valid(rv_mul(rv_two(), m2), tr.sin_delta);
    lemma_ops_valid(t3f, inner);
    lemma_zero_factor(tr.sin_theta1.n, t1f.n);
    lemma_zero_factor(tr.sin_theta1_minus_2theta2.n, rv_mul(m2, dp_g()).n);
    lemma_zero_factor(tr.sin_delta.n, rv_mul(rv_two(), m2).n);
    lemma_zero_factor(t3f.n, inner.n);
    let p = rv_sub(term1, term2);
    lemma_ops_valid(term1, term2);
    lemma_zero_factor(term1.n, term2.d);
    lemma_zero_factor(term2.n, term1.d);
    let result1 = rv_sub(p, term3);
    lemma_ops_valid(p, term3);
    lemma_zero_factor(p.n, term3.d);
    lemma_zero_factor(term3.n, p.d);
    assert(result1 == omega1_result(m1, m2, l1, l2, tr, w1, w2));
    assert(rv_is_zero(result1));
    let denf = rv_sub(rv_add(rv_mul(rv_two(), m1), m2), rv_mul(m2, tr.cos_two_delta));
    lemma_ops_valid(m2, tr.cos_two_delta);
    lemma_ops_valid(rv_add(rv_mul(rv_two(), m1), m2), rv_mul(m2, tr.cos_two_delta));
    lemma_ops_valid(l1, denf);
    lemma_ops_valid(l2, denf);
    lemma_dp_accel_zero(result1, dp_denom(l1, m1, m2, tr));
    let sm = rv_add(m1, m2);
    let u1 = rv_mul(rv_mul(rv_mul(w1, w1), l1), sm);
    let u2 = rv_mul(rv_mul(dp_g(), sm), tr.cos_theta1);
    let u3 = rv_mul(rv_mul(rv_mul(rv_mul(w2, w2), l2), m2), tr.cos_delta);
    let g2 = rv_mul(rv_two(), tr.sin_delta);
    let inner2 = rv_add(rv_add(u1, u2), u3);
    lemma_ops_valid(m1, m2);
    lemma_ops_valid(rv_mul(w1, w1), l1);
    lemma_ops_valid(rv_mul(rv_mul(w1, w1), l1), sm);
    lemma_ops_valid(dp_g(), sm);
    lemma_ops_valid(rv_mul(dp_g(), sm), tr.cos_theta1);
    lemma_ops_valid(rv_mul(rv_mul(w2, w2), l2), m2);
    lemma_ops_valid(rv_mul(rv_mul(rv_mul(w2, w2), l2), m2), tr.cos_delta);
    lemma_ops_valid(rv_two(), tr.sin_delta);
    lemma_ops_valid(u1, u2);
    lemma_ops_valid(rv_add(u1, u2), u3);
    lemma_ops_valid(g2, inner2);
    lemma_zero_factor(tr.sin_delta.n, rv_two().d);
    assert(rv_is_zero(g2));
    lemma_zero_factor(g2.n, inner2.n);
    assert(rv_is_zero(omega2_result(m1, m2, l1, l2, tr, w1, w2)));
    lemma_dp_accel_zero(omega2_result(m1, m2, l1, l2, tr, w1, w2), dp_denom(l2, m1, m2, tr));
}

/// At the rest state `[0, 0, 0, 0]`, with the rest trigonometric values,
/// the pendulum right-hand side is the zero vector: a true equilibrium.
pub proof fn lemma_dp_rhs_rest(dp: DoublePendulum, tr: TrigView, s: Seq<RatView>)
    requires
        dp.wf(),
        rest_trig(tr),
        rv_valid_seq(s),
        s.len() == 4,
        all_zero(s),
    ensures
        dp_rhs_model(dp, tr, s).len() == 4,
        rv_valid_seq(dp_rhs_model(dp, tr, s)),
        all_zero(dp_rhs_model(dp, tr, s)),
{
    assert(rv_valid(s[2]) && rv_valid(s[3]));
    assert(rv_is_zero(s[2]) && rv_is_zero(s[3]));
    lemma_dp_rest_accels(dp.m1@, dp.m2@, dp.l1@, dp.l2@, tr, s[2], s[3]);
    assert forall|i: int| 0 <= i < 4 implies rv_valid(#[trigger] dp_rhs_model(dp, tr, s)[i])
        && rv_is_zero(dp_rhs_model(dp, tr, s)[i]) by {
    }
}

/// The pendulum right-hand side as a single rule over time and state, for
/// a given assignment of trigonometric values to configurations.
pub open spec fn dp_rhs_fun(
    dp: DoublePendulum,
    trig_of: spec_fn(RatView, RatView) -> TrigView,
) -> spec_fn(RatView, Seq<RatView>) -> Seq<RatView> {
    |t: RatView, s: Seq<RatView>| dp_rhs_model(dp, trig_of(s[0], s[1]), s)
}

/// Whenever the trigonometric assignment is exact at the rest angles (all
/// sines of zero angles are zero), the pendulum preserves rest.
pub proof fn lemma_dp_preserves_rest(
    dp: DoublePendulum,
    trig_of: spec_fn(RatView, RatView) -> TrigView,
)
    requires
        dp.wf(),
        forall|a: RatView, b: RatView|
            (rv_valid(a) && rv_valid(b) && rv_is_zero(a) && rv_is_zero(b)) ==> rest_trig(
                #[trigger] trig_of(a, b),
            ),
    ensures
        preserves_rest(dp_rhs_fun(dp, trig_of), 4),
{
    assert forall|t: RatView, s: Seq<RatView>|
        (rv_valid(t) && rv_valid_seq(s) && s.len() == 4 && all_zero(s)) implies {
        &&& (#[trigger] dp_rhs_fun(dp, trig_of)(t, s)).len() == 4
        &&& rv_valid_seq(dp_rhs_fun(dp, trig_of)(t, s))
        &&& all_zero(dp_rhs_fun(dp, trig_of)(t, s))
    } by {
        assert(rv_valid(s[0]) && rv_valid(s[1]));
        assert(rv_is_zero(s[0]) && rv_is_zero(s[1]));
        lemma_dp_rhs_rest(dp, trig_of(s[0], s[1]), s);
    }
}

/// The double pendulum started at `[0, 0, 0, 0]` remains at rest after any
/// number of steps of either stepping algorithm: the rest state is a true
/// equilibrium, with zero derivative everywhere along the way.
pub proof fn lemma_dp_rest_steps(
    dp: DoublePendulum,
    trig_of: spec_fn(RatView, RatView) -> TrigView,
    ts: Seq<RatView>,
    dt: RatView,
    s: Seq<RatView>,
    k: nat,
)
    requires
        dp.wf(),
        forall|a: RatView, b: RatView|
            (rv_valid(a) && rv_valid(b) && rv_is_zero(a) && rv_is_zero(b)) ==> rest_trig(
                #[trigger] trig_of(a, b),
            ),
        forall|j: int| 0 <= j < ts.len() ==> rv_valid(#[trigger] ts[j]),
        k <= ts.len(),
        rv_valid(dt),
        rv_valid_seq(s),
        s.len() == 4,
        all_zero(s),
    ensures
        all_zero(euler_steps(dp_rhs_fun(dp, trig_of), ts, dt, s, k)),
        all_zero(rk4_steps(dp_rhs_fun(dp, trig_of), ts, dt, s, k)),
{
    lemma_dp_preserves_rest(dp, trig_of);
    crate::integrators::lemma_steps_rest(dp_rhs_fun(dp, trig_of), 4, ts, dt, s, k);
}

} // verus!
