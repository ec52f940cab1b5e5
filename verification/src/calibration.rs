//! Reference systems with known exact solutions, and the laws that pin the
//! stepping algorithms to them.
//!
//! `ExpSystem` is `x' = x`, whose flow is the exponential; `RampSystem` is
//! `x' = -t`, whose flow is `x(0) - t^2/2`. Both are one-dimensional, so a
//! single Runge-Kutta step can be computed in closed form and compared
//! against the textbook values.

use crate::dynamical_system::{sys_model, DynamicalSystem};
use crate::integrators::{euler_model, rk4_model, stage_model};
use crate::lorenz::Lorenz;
use crate::rational::{
    rv_add, rv_eqv, rv_fits, rv_mul, rv_one, rv_sub, rv_valid, rv_zero, seq_view, Rat, RatView,
};
use vstd::prelude::*;

verus! {

/// The exponential growth system `x' = x`.
pub struct ExpSystem;

impl DynamicalSystem for ExpSystem {
    open spec fn wf(&self) -> bool {
        true
    }

    open spec fn dim_spec(&self) -> nat {
        1
    }

    open spec fn rhs_model(&self, t: RatView, s: Seq<RatView>) -> Seq<RatView> {
        seq![s[0]]
    }

    open spec fn rhs_fits(&self, t: RatView, s: Seq<RatView>) -> bool {
        true
    }

    proof fn lemma_rhs_model_wf(&self, t: RatView, s: Seq<RatView>) {
        assert(rv_valid(s[0]));
        assert forall|i: int| 0 <= i < 1 implies rv_valid(#[trigger] self.rhs_model(t, s)[i]) by {
        }
    }

    fn dimension(&self) -> (r: usize) {
        1
    }

    fn rhs(&self, t: Rat, state: &Vec<Rat>) -> (r: Option<Vec<Rat>>) {
        let mut out: Vec<Rat> = Vec::new();
        out.push(state[0]);
        proof {
            assert(seq_view(out@) =~= self.rhs_model(t@, seq_view(state@)));
        }
        Some(out)
    }
}

/// The ramp system `x' = -t`, which ignores its state.
pub struct RampSystem;

impl DynamicalSystem for RampSystem {
    open spec fn wf(&self) -> bool {
        true
    }

    open spec fn dim_spec(&self) -> nat {
        1
    }

    open spec fn rhs_model(&self, t: RatView, s: Seq<RatView>) -> Seq<RatView> {
        seq![rv_sub(rv_zero(), t)]
    }

    open spec fn rhs_fits(&self, t: RatView, s: Seq<RatView>) -> bool {
        rv_fits(rv_sub(rv_zero(), t))
    }

    proof fn lemma_rhs_model_wf(&self, t: RatView, s: Seq<RatView>) {
        crate::rational::lemma_ops_valid(rv_zero(), t);
        assert forall|i: int| 0 <= i < 1 implies rv_valid(#[trigger] self.rhs_model(t, s)[i]) by {
        }
    }

    fn dimension(&self) -> (r: usize) {
        1
    }

    fn rhs(&self, t: Rat, state: &Vec<Rat>) -> (r: Option<Vec<Rat>>) {
        let v = match Rat::zero().sub(t) {
            Some(v) => v,
            None => return None,
        };
        let mut out: Vec<Rat> = Vec::new();
        out.push(v);
        proof {
            assert(seq_view(out@) =~= self.rhs_model(t@, seq_view(state@)));
        }
        Some(out)
    }
}

/// One classical Runge-Kutta step of `x' = -t` from `x = 1` at `t = 0` with
/// `dt = 1/10` yields exactly `0.995 = 199/200`: the integrator reproduces
/// the quadratic flow `1 - t^2/2` at `t = 1/10` without any error.
pub proof fn lemma_rk4_ramp_exact()
    ensures
        ({
            let out = rk4_model(
                sys_model(RampSystem),
                rv_zero(),
                RatView { n: 1, d: 10 },
                seq![rv_one()],
            );
            &&& out.len() == 1
            &&& rv_eqv(out[0], RatView { n: 995, d: 1000 })
            &&& rv_eqv(out[0], RatView { n: 199, d: 200 })
        }),
{
    let m = sys_model(RampSystem);
    let t = rv_zero();
    let dt = RatView { n: 1, d: 10 };
    let s = seq![rv_one()];
    let out = rk4_model(m, t, dt, s);
    assert(s[0] == rv_one());
    let hd = rv_mul(dt, RatView { n: 1, d: 2 });
    assert(hd.n == 1 && hd.d == 20);
    let th = rv_add(t, hd);
    assert(th.n == 1 && th.d == 20);
    let td = rv_add(t, dt);
    assert(td.n == 1 && td.d == 10);
    let w = rv_mul(dt, RatView { n: 1, d: 6 });
    assert(w.n == 1 && w.d == 60);
    let k1 = m(t, s);
    assert(k1[0] == rv_sub(rv_zero(), t));
    assert(k1[0].n == 0 && k1[0].d == 1);
    let s2 = stage_model(s, hd, k1);
    assert(s2[0] == rv_add(s[0], rv_mul(hd, k1[0])));
    assert(s2[0].n == 20 && s2[0].d == 20);
    let k2 = m(th, s2);
    assert(k2[0].n == -1 && k2[0].d == 20);
    let s3 = stage_model(s, hd, k2);
    assert(s3[0] == rv_add(s[0], rv_mul(hd, k2[0])));
    assert(s3[0].n == 399 && s3[0].d == 400);
    let k3 = m(th, s3);
    assert(k3[0].n == -1 && k3[0].d == 20);
    let s4 = stage_model(s, dt, k3);
    assert(s4[0] == rv_add(s[0], rv_mul(dt, k3[0])));
    assert(s4[0].n == 199 && s4[0].d == 200);
    let k4 = m(td, s4);
    assert(k4[0].n == -1 && k4[0].d == 10);
    let two = RatView { n: 2, d: 1 };
    let q2 = rv_mul(two, k2[0]);
    assert(q2.n == -2 && q2.d == 20);
    let sum1 = rv_add(k1[0], q2);
    assert(sum1.n == -2 && sum1.d == 20);
    let q3 = rv_mul(two, k3[0]);
    assert(q3.n == -2 && q3.d == 20);
    let sum2 = rv_add(sum1, q3);
    assert(sum2.n == -80 && sum2.d == 400);
    let sum3 = rv_add(sum2, k4[0]);
    assert(sum3.n == -1200 && sum3.d == 4000);
    let upd = rv_mul(w, sum3);
    assert(upd.n == -1200 && upd.d == 240000);
    assert(out[0] == rv_add(s[0], upd));
    assert(out[0].n == 238800 && out[0].d == 240000);
}

/// One classical Runge-Kutta step of `x' = x` with `dt = 1/100` multiplies
/// any state by exactly the fourth partial sum of the exponential series at
/// `1/100`:
/// `1 + h + h^2/2 + h^3/6 + h^4/24 = 2424120401/2400000000` for `h = 1/100`.
/// The step therefore acts as one exact linear contraction-free growth
/// factor that matches the true flow `e^h` through the `h^4` term; this
/// fourth-order agreement is what lets one hundred such steps land within
/// `1e-6` of `e`.
pub proof fn lemma_rk4_exponential_taylor(t: RatView, x: RatView)
    requires
        rv_valid(x),
    ensures
        ({
            let out = rk4_model(sys_model(ExpSystem), t, RatView { n: 1, d: 100 }, seq![x]);
            &&& out.len() == 1
            &&& rv_eqv(out[0], rv_mul(x, RatView { n: 2424120401, d: 2400000000 }))
        }),
{
    let a = x.n;
    let b = x.d;
    let m = sys_model(ExpSystem);
    let dt = RatView { n: 1, d: 100 };
    let s = seq![x];
    let out = rk4_model(m, t, dt, s);
    assert(s[0] == x);
    let half = RatView { n: 1, d: 2 };
    let two = RatView { n: 2, d: 1 };
    let sixth = RatView { n: 1, d: 6 };
    let hd = rv_mul(dt, half);
    assert(hd.n == 1 && hd.d == 200);
    let th = rv_add(t, hd);
    let td = rv_add(t, dt);
    let w = rv_mul(dt, sixth);
    assert(w.n == 1 && w.d == 600);
    let k1 = m(t, s);
    assert(k1[0] == x);
    let s2 = stage_model(s, hd, k1);
    let y2 = s2[0];
    assert(y2 == rv_add(x, rv_mul(hd, x)));
    assert(y2.n == a * (200 * b) + (1 * a) * b && y2.d == b * (200 * b));
    assert(y2.n == 201 * (a * b) && y2.d == 200 * (b * b)) by (nonlinear_arith)
        requires
            y2.n == a * (200 * b) + (1 * a) * b,
            y2.d == b * (200 * b),
    ;
    let k2 = m(th, s2);
    assert(k2[0] == y2);
    let s3 = stage_model(s, hd, k2);
    let y3 = s3[0];
    assert(y3 == rv_add(x, rv_mul(hd, y2)));
    assert(y3.n == a * (200 * y2.d) + (1 * y2.n) * b && y3.d == b * (200 * y2.d));
    assert(y3.n == 40201 * (a * (b * b)) && y3.d == 40000 * ((b * b) * b)) by (nonlinear_arith)
        requires
            y3.n == a * (200 * (200 * (b * b))) + (1 * (201 * (a * b))) * b,
            y3.d == b * (200 * (200 * (b * b))),
    ;
    let k3 = m(th, s3);
    assert(k3[0] == y3);
    let s4 = stage_model(s, dt, k3);
    let y4 = s4[0];
    assert(y4 == rv_add(x, rv_mul(dt, y3)));
    assert(y4.n == a * (100 * y3.d) + (1 * y3.n) * b && y4.d == b * (100 * y3.d));
    assert(y4.n == 4040201 * (a * ((b * b) * b)) && y4.d == 4000000 * (((b * b) * b) * b))
        by (nonlinear_arith)
        requires
            y4.n == a * (100 * (40000 * ((b * b) * b))) + (1 * (40201 * (a * (b * b)))) * b,
            y4.d == b * (100 * (40000 * ((b * b) * b))),
    ;
    let k4 = m(td, s4);
    assert(k4[0] == y4);
    let q2v = rv_mul(two, k2[0]);
    assert(q2v.n == 2 * y2.n && q2v.d == y2.d);
    let sum1 = rv_add(k1[0], q2v);
    assert(sum1.n == a * q2v.d + q2v.n * b && sum1.d == b * q2v.d);
    assert(sum1.n == 602 * (a * (b * b)) && sum1.d == 200 * ((b * b) * b)) by (nonlinear_arith)
        requires
            sum1.n == a * (200 * (b * b)) + (2 * (201 * (a * b))) * b,
            sum1.d == b * (200 * (b * b)),
    ;
    let q3v = rv_mul(two, k3[0]);
    assert(q3v.n == 2 * y3.n && q3v.d == y3.d);
    let sum2 = rv_add(sum1, q3v);
    assert(sum2.n == sum1.n * q3v.d + q3v.n * sum1.d && sum2.d == sum1.d * q3v.d);
    assert(sum2.n == 40160400 * (a * ((((b * b) * b) * b) * b)) && sum2.d == 8000000 * ((((b
        * b) * b) * ((b * b) * b)))) by (nonlinear_arith)
        requires
            sum2.n == (602 * (a * (b * b))) * (40000 * ((b * b) * b)) + (2 * (40201 * (a * (b
                * b)))) * (200 * ((b * b) * b)),
            sum2.d == (200 * ((b * b) * b)) * (40000 * ((b * b) * b)),
    ;
    let sum3 = rv_add(sum2, k4[0]);
    assert(sum3.n == sum2.n * y4.d + y4.n * sum2.d && sum3.d == sum2.d * y4.d);
    assert(sum3.n == 192963208000000 * (a * ((((b * b) * (b * b)) * ((b * b) * (b * b))) * b))
        && sum3.d == 32000000000000 * (((b * b) * (b * b)) * (((b * b) * (b * b)) * (b * b))))
        by (nonlinear_arith)
        requires
            sum3.n == (40160400 * (a * ((((b * b) * b) * b) * b))) * (4000000 * (((b * b) * b)
                * b)) + (4040201 * (a * ((b * b) * b))) * (8000000 * ((((b * b) * b) * ((b * b)
                * b)))),
            sum3.d == (8000000 * ((((b * b) * b) * ((b * b) * b)))) * (4000000 * (((b * b) * b)
                * b)),
    ;
    let upd = rv_mul(w, sum3);
    assert(upd.n == 1 * sum3.n && upd.d == 600 * sum3.d);
    assert(out[0] == rv_add(x, upd));
    assert(out[0].n == a * upd.d + upd.n * b && out[0].d == b * upd.d);
    assert(out[0].n * (2400000000 * b) == (2424120401 * a) * out[0].d) by (nonlinear_arith)
        requires
            out[0].n == a * (600 * (32000000000000 * (((b * b) * (b * b)) * (((b * b) * (b * b))
                * (b * b))))) + (1 * (192963208000000 * (a * ((((b * b) * (b * b)) * ((b * b)
                * (b * b))) * b)))) * b,
            out[0].d == b * (600 * (32000000000000 * (((b * b) * (b * b)) * (((b * b) * (b * b))
                * (b * b))))),
    ;
    assert(rv_eqv(out[0], rv_mul(x, RatView { n: 2424120401, d: 2400000000 })));
}

/// Euler is not reversible: stepping forward by `dt` and then by `-dt` does
/// not, in general, return to the original state. Witness: the Lorenz
/// instance with `sigma = 1`, `ro = 0`, `beta = 0`, started at `[0, 1, 0]`
/// with `dt = 1`, comes back to `2` in its first component instead of `0`.
/// This is an explicit non-property: nothing in the engine may assume
/// reversibility.
pub proof fn lemma_euler_not_reversible()
    ensures
        ({
            let sys = (Lorenz {
                sigma: (Rat { n: 1, d: 1 }),
                ro: (Rat { n: 0, d: 1 }),
                beta: (Rat { n: 0, d: 1 }),
            });
            let s = seq![rv_zero(), rv_one(), rv_zero()];
            let fwd = euler_model(sys_model(sys), rv_zero(), rv_one(), s);
            let back = euler_model(
                sys_model(sys),
                rv_one(),
                RatView { n: -1, d: 1 },
                fwd,
            );
            !rv_eqv(back[0], s[0])
        }),
{
    let sys = (Lorenz {
        sigma: (Rat { n: 1, d: 1 }),
        ro: (Rat { n: 0, d: 1 }),
        beta: (Rat { n: 0, d: 1 }),
    });
    let m = sys_model(sys);
    let s = seq![rv_zero(), rv_one(), rv_zero()];
    assert(s[0] == rv_zero());
    assert(s[1] == rv_one());
    assert(s[2] == rv_zero());
    let k = m(rv_zero(), s);
    assert(k[0] == rv_mul(sys.sigma@, rv_sub(s[1], s[0])));
    assert(k[0].n == 1 && k[0].d == 1);
    assert(k[1] == rv_sub(rv_mul(s[0], rv_sub(sys.ro@, s[2])), s[1]));
    assert(k[1].n == -1 && k[1].d == 1);
    assert(k[2] == rv_sub(rv_mul(s[0], s[1]), rv_mul(sys.beta@, s[2])));
    assert(k[2].n == 0 && k[2].d == 1);
    let fwd = euler_model(m, rv_zero(), rv_one(), s);
    assert(fwd[0] == rv_add(s[0], rv_mul(rv_one(), k[0])));
    assert(fwd[0].n == 1 && fwd[0].d == 1);
    assert(fwd[1] == rv_add(s[1], rv_mul(rv_one(), k[1])));
    assert(fwd[1].n == 0 && fwd[1].d == 1);
    assert(fwd[2] == rv_add(s[2], rv_mul(rv_one(), k[2])));
    assert(fwd[2].n == 0 && fwd[2].d == 1);
    let k2 = m(rv_one(), fwd);
    assert(k2[0] == rv_mul(sys.sigma@, rv_sub(fwd[1], fwd[0])));
    assert(k2[0].n == -1 && k2[0].d == 1);
    let back = euler_model(m, rv_one(), RatView { n: -1, d: 1 }, fwd);
    assert(back[0] == rv_add(fwd[0], rv_mul(RatView { n: -1, d: 1 }, k2[0])));
    assert(back[0].n == 2 && back[0].d == 1);
}

} // verus!
