//! The Lorenz attractor: a continuous three-state system with parameters
//! `sigma`, `ro` and `beta` and the textbook coupled quadratic right-hand
//! side. It has no singularities and is defined for all inputs.

use crate::dynamical_system::{DynamicalSystem, Noise};
use crate::rational::{
    lemma_add_monotone, lemma_lt_respects_eqv, lemma_ops_valid, rv_add, rv_eqv, rv_fits, rv_lt,
    rv_mul, rv_sub, rv_valid, rv_zero, seq_view, Rat, RatView,
};
use crate::rng::random_u32;
use vstd::prelude::*;

verus! {

pub struct Lorenz {
    pub sigma: Rat,
    pub ro: Rat,
    pub beta: Rat,
}

/// Denominator of a perturbation draw: one part in 2^32.
pub open spec fn draw_unit() -> int {
    0x1_0000_0000
}

impl Lorenz {
    /// The perturbation a single 32-bit draw `u` contributes: `noise * u / 2^32`.
    pub open spec fn perturbation(noise: RatView, u: int) -> RatView {
        rv_mul(noise, RatView { n: u, d: draw_unit() })
    }

    /// Build the noisy sibling from three explicit draws: each parameter is
    /// moved by `noise_level * u / 2^32` for its own draw `u`.
    pub fn with_noise_draws(&self, noise_level: Rat, u1: u32, u2: u32, u3: u32) -> (r: Option<
        Lorenz,
    >)
        requires
            self.wf(),
            noise_level.inv(),
        ensures
            r is Some <==> {
                &&& rv_fits(Lorenz::perturbation(noise_level@, u1 as int))
                &&& rv_fits(Lorenz::perturbation(noise_level@, u2 as int))
                &&& rv_fits(Lorenz::perturbation(noise_level@, u3 as int))
                &&& rv_fits(rv_add(self.sigma@, Lorenz::perturbation(noise_level@, u1 as int)))
                &&& rv_fits(rv_add(self.ro@, Lorenz::perturbation(noise_level@, u2 as int)))
                &&& rv_fits(rv_add(self.beta@, Lorenz::perturbation(noise_level@, u3 as int)))
            },
            r matches Some(v) ==> {
                &&& v.wf()
                &&& rv_eqv(v.sigma@, rv_add(self.sigma@, Lorenz::perturbation(noise_level@, u1 as int)))
                &&& rv_eqv(v.ro@, rv_add(self.ro@, Lorenz::perturbation(noise_level@, u2 as int)))
                &&& rv_eqv(v.beta@, rv_add(self.beta@, Lorenz::perturbation(noise_level@, u3 as int)))
            },
    {
        let f1 = Rat::new(u1 as i64, 0x1_0000_0000);
        let f2 = Rat::new(u2 as i64, 0x1_0000_0000);
        let f3 = Rat::new(u3 as i64, 0x1_0000_0000);
        let d1 = match noise_level.mul(f1) {
            Some(v) => v,
            None => return None,
        };
        let d2 = match noise_level.mul(f2) {
            Some(v) => v,
            None => return None,
        };
        let d3 = match noise_level.mul(f3) {
            Some(v) => v,
            None => return None,
        };
        let sigma = match self.sigma.add(d1) {
            Some(v) => v,
            None => return None,
        };
        let ro = match self.ro.add(d2) {
            Some(v) => v,
            None => return None,
        };
        let beta = match self.beta.add(d3) {
            Some(v) => v,
            None => return None,
        };
        Some(Lorenz { sigma, ro, beta })
    }
}

/// Both exact intermediates of one parameter's perturbation by the draw `u`
/// are representable.
pub open spec fn noisy_param_fits(orig: RatView, noise: RatView, u: int) -> bool {
    &&& rv_fits(Lorenz::perturbation(noise, u))
    &&& rv_fits(rv_add(orig, Lorenz::perturbation(noise, u)))
}

/// A perturbation built from a 32-bit draw lies in `[0, noise)` whenever the
/// noise level is positive.
pub proof fn lemma_perturbation_in_range(noise: RatView, u: int)
    by (nonlinear_arith)
    requires
        rv_valid(noise),
        rv_lt(rv_zero(), noise),
        0 <= u < 0x1_0000_0000,
    ensures
        !rv_lt(Lorenz::perturbation(noise, u), rv_zero()),
        rv_lt(Lorenz::perturbation(noise, u), noise),
{
}

impl DynamicalSystem for Lorenz {
    open spec fn wf(&self) -> bool {
        self.sigma.inv() && self.ro.inv() && self.beta.inv()
    }

    open spec fn dim_spec(&self) -> nat {
        3
    }

    open spec fn rhs_model(&self, t: RatView, s: Seq<RatView>) -> Seq<RatView> {
        seq![
            rv_mul(self.sigma@, rv_sub(s[1], s[0])),
            rv_sub(rv_mul(s[0], rv_sub(self.ro@, s[2])), s[1]),
            rv_sub(rv_mul(s[0], s[1]), rv_mul(self.beta@, s[2])),
        ]
    }

    open spec fn rhs_fits(&self, t: RatView, s: Seq<RatView>) -> bool {
        let a = rv_sub(s[1], s[0]);
        let b = rv_sub(self.ro@, s[2]);
        let c = rv_mul(s[0], b);
        let e = rv_mul(s[0], s[1]);
        let f = rv_mul(self.beta@, s[2]);
        &&& rv_fits(a)
        &&& rv_fits(rv_mul(self.sigma@, a))
        &&& rv_fits(b)
        &&& rv_fits(c)
        &&& rv_fits(rv_sub(c, s[1]))
        &&& rv_fits(e)
        &&& rv_fits(f)
        &&& rv_fits(rv_sub(e, f))
    }

    proof fn lemma_rhs_model_wf(&self, t: RatView, s: Seq<RatView>) {
        assert(rv_valid(s[0]));
        assert(rv_valid(s[1]));
        assert(rv_valid(s[2]));
        lemma_ops_valid(s[1], s[0]);
        lemma_ops_valid(self.sigma@, rv_sub(s[1], s[0]));
        lemma_ops_valid(self.ro@, s[2]);
        lemma_ops_valid(s[0], rv_sub(self.ro@, s[2]));
        lemma_ops_valid(rv_mul(s[0], rv_sub(self.ro@, s[2])), s[1]);
        lemma_ops_valid(s[0], s[1]);
        lemma_ops_valid(self.beta@, s[2]);
        lemma_ops_valid(rv_mul(s[0], s[1]), rv_mul(self.beta@, s[2]));
        assert forall|i: int| 0 <= i < 3 implies rv_valid(#[trigger] self.rhs_model(t, s)[i]) by {
        }
    }

    fn dimension(&self) -> (r: usize) {
        3
    }

    fn rhs(&self, t: Rat, state: &Vec<Rat>) -> (r: Option<Vec<Rat>>) {
        let s0 = state[0];
        let s1 = state[1];
        let s2 = state[2];
        let a = match s1.sub(s0) {
            Some(v) => v,
            None => return None,
        };
        let d0 = match self.sigma.mul(a) {
            Some(v) => v,
            None => return None,
        };
        let b = match self.ro.sub(s2) {
            Some(v) => v,
            None => return None,
        };
        let c = match s0.mul(b) {
            Some(v) => v,
            None => return None,
        };
        let d1 = match c.sub(s1) {
            Some(v) => v,
            None => return None,
        };
        let e = match s0.mul(s1) {
            Some(v) => v,
            None => return None,
        };
        let f = match self.beta.mul(s2) {
            Some(v) => v,
            None => return None,
        };
        let d2 = match e.sub(f) {
            Some(v) => v,
            None => return None,
        };
        let mut out: Vec<Rat> = Vec::new();
        out.push(d0);
        out.push(d1);
        out.push(d2);
        proof {
            assert(seq_view(out@) =~= self.rhs_model(t@, seq_view(state@)));
        }
        Some(out)
    }
}

impl Noise for Lorenz {
    open spec fn noise_wf(&self) -> bool {
        self.wf()
    }

    /// Whatever the three draws come back as, each parameter of a returned
    /// sibling is its old value perturbed by an amount in
    /// `[0, noise_level)`; and when every possible draw is representable
    /// for every parameter, a sibling is returned.
    fn new_noisy(&self, noise_level: Rat) -> (r: Option<Lorenz>)
        ensures
            rv_lt(rv_zero(), noise_level@) ==> (r matches Some(v) ==> {
                &&& !rv_lt(v.sigma@, self.sigma@)
                &&& rv_lt(v.sigma@, rv_add(self.sigma@, noise_level@))
                &&& !rv_lt(v.ro@, self.ro@)
                &&& rv_lt(v.ro@, rv_add(self.ro@, noise_level@))
                &&& !rv_lt(v.beta@, self.beta@)
                &&& rv_lt(v.beta@, rv_add(self.beta@, noise_level@))
            }),
            ({
                &&& forall|u: int|
                    0 <= u < 0x1_0000_0000 ==> #[trigger] noisy_param_fits(
                        self.sigma@,
                        noise_level@,
                        u,
                    )
                &&& forall|u: int|
                    0 <= u < 0x1_0000_0000 ==> #[trigger] noisy_param_fits(
                        self.ro@,
                        noise_level@,
                        u,
                    )
                &&& forall|u: int|
                    0 <= u < 0x1_0000_0000 ==> #[trigger] noisy_param_fits(
                        self.beta@,
                        noise_level@,
                        u,
                    )
            }) ==> r is Some,
    {
        let u1 = random_u32();
        let u2 = random_u32();
        let u3 = random_u32();
        let r = self.with_noise_draws(noise_level, u1, u2, u3);
        proof {
            if rv_lt(rv_zero(), noise_level@) {
                match r {
                    Some(ref v) => {
                        lemma_noisy_param_range(self.sigma@, noise_level@, u1 as int, v.sigma@);
                        lemma_noisy_param_range(self.ro@, noise_level@, u2 as int, v.ro@);
                        lemma_noisy_param_range(self.beta@, noise_level@, u3 as int, v.beta@);
                    },
                    None => {},
                }
            }
            if {
                &&& forall|u: int|
                    0 <= u < 0x1_0000_0000 ==> #[trigger] noisy_param_fits(
                        self.sigma@,
                        noise_level@,
                        u,
                    )
                &&& forall|u: int|
                    0 <= u < 0x1_0000_0000 ==> #[trigger] noisy_param_fits(
                        self.ro@,
                        noise_level@,
                        u,
                    )
                &&& forall|u: int|
                    0 <= u < 0x1_0000_0000 ==> #[trigger] noisy_param_fits(
                        self.beta@,
                        noise_level@,
                        u,
                    )
            } {
                assert(noisy_param_fits(self.sigma@, noise_level@, u1 as int));
                assert(noisy_param_fits(self.ro@, noise_level@, u2 as int));
                assert(noisy_param_fits(self.beta@, noise_level@, u3 as int));
            }
        }
        r
    }
}

/// One parameter's share of the range bound: with a positive noise level,
/// `old + noise * u / 2^32` lies in `[old, old + noise)` for every draw,
/// and so does any fraction that denotes the same rational.
proof fn lemma_noisy_param_range(orig: RatView, noise: RatView, u: int, w: RatView)
    requires
        rv_valid(orig),
        rv_valid(noise),
        rv_lt(rv_zero(), noise),
        0 <= u < 0x1_0000_0000,
        rv_valid(w),
        rv_eqv(w, rv_add(orig, Lorenz::perturbation(noise, u))),
    ensures
        !rv_lt(w, orig),
        rv_lt(w, rv_add(orig, noise)),
{
    let pert = Lorenz::perturbation(noise, u);
    lemma_ops_valid(noise, RatView { n: u, d: 0x1_0000_0000 });
    lemma_perturbation_in_range(noise, u);
    let sum = rv_add(orig, pert);
    lemma_ops_valid(orig, pert);
    lemma_ops_valid(orig, noise);
    lemma_add_monotone(orig, pert, noise);
    lemma_lt_respects_eqv(w, sum, orig);
    lemma_lt_respects_eqv(w, sum, rv_add(orig, noise));
}

impl Default for Lorenz {
    /// The conventional chaotic parameterization: sigma 10, ro 28, beta 8/3.
    fn default() -> (r: Lorenz)
        ensures
            r.wf(),
            r.sigma@ == (RatView { n: 10, d: 1 }),
            r.ro@ == (RatView { n: 28, d: 1 }),
            r.beta@ == (RatView { n: 8, d: 3 }),
    {
        Lorenz { sigma: Rat::from_int(10), ro: Rat::from_int(28), beta: Rat::new(8, 3) }
    }
}

} // verus!
