//! Largest-Lyapunov-exponent machinery.
//!
//! The exponent itself is a mean of natural logarithms, a transcendental
//! quantity; what this module computes and verifies exactly is everything up
//! to the logarithms.
//!
//! * The double-trajectory method advances a primary and a perturbed value
//!   together, and after each iteration renormalizes the perturbed value
//!   back to a separation of exactly `eps = 1e-8` while keeping its
//!   direction; each iteration whose separation is nonzero contributes the
//!   log-argument `delta / eps`. `lyapunov_trajectory_ratios` returns those
//!   exact ratios in order; the exponent is the mean of their logarithms.
//!   An iteration with separation exactly zero is skipped (no logarithm of
//!   zero exists and the trajectories are indistinguishable): it contributes
//!   no ratio and performs no renormalization.
//! * The derivative-accumulation method evaluates a system at a fixed state
//!   for each time index and accumulates `ln |result|`;
//!   `lyapunov_derivative_magnitudes` returns the exact magnitudes.

use crate::dynamical_system::DynamicalSystem;
use crate::rational::{
    inv_seq, rv_abs, rv_add, rv_eqv, rv_fits, rv_is_zero, rv_lt, rv_mul, rv_one, rv_sub,
    rv_valid, seq_view, Rat, RatView,
};
use vstd::prelude::*;

verus! {

/// A bare scalar map `f: real -> real`, the shape the double-trajectory
/// method analyzes.
pub trait ScalarMap: Sized {
    /// The parameters of the map are meaningful fractions.
    spec fn wf(&self) -> bool;

    /// The exact value the executable map produces.
    spec fn map_model(&self, x: RatView) -> RatView;

    /// Whether every exact intermediate of one executable application is
    /// representable at this input.
    spec fn map_fits(&self, x: RatView) -> bool;

    /// The map sends meaningful fractions to meaningful fractions.
    proof fn lemma_map_model_valid(&self, x: RatView)
        requires
            self.wf(),
            rv_valid(x),
        ensures
            rv_valid(self.map_model(x)),
    ;

    /// Apply the map exactly; `None` when an exact intermediate is not
    /// representable.
    fn apply(&self, x: Rat) -> (r: Option<Rat>)
        requires
            self.wf(),
            x.inv(),
        ensures
            r is Some <==> self.map_fits(x@),
            r matches Some(v) ==> v.inv() && v@ == self.map_model(x@),
    ;
}

/// The fixed perturbation `eps = 1e-8`.
pub open spec fn rv_eps() -> RatView {
    RatView { n: 1, d: 100000000 }
}

/// The reciprocal of `eps`, by which a separation is scaled to a ratio.
pub open spec fn rv_inv_eps() -> RatView {
    RatView { n: 100000000, d: 1 }
}

/// One iteration of the double-trajectory method on `(x, x_pert)`: advance
/// both through the map; if the separation is zero, skip; otherwise emit
/// the ratio `delta / eps` and renormalize the perturbed value to
/// `x +/- eps`, keeping the direction of the separation.
pub open spec fn lyap_advance<M: ScalarMap>(m: M, x: RatView, xp: RatView) -> (
    RatView,
    RatView,
    Option<RatView>,
) {
    let x1 = m.map_model(x);
    let xp1 = m.map_model(xp);
    let diff = rv_sub(xp1, x1);
    if rv_is_zero(diff) {
        (x1, xp1, None)
    } else {
        let ratio = rv_mul(rv_abs(diff), rv_inv_eps());
        let xp2 = if diff.n > 0 {
            rv_add(x1, rv_eps())
        } else {
            rv_sub(x1, rv_eps())
        };
        (x1, xp2, Some(ratio))
    }
}

/// Every exact intermediate of one iteration of the double-trajectory
/// method on `(x, x_pert)` is representable: the two map applications, the
/// separation, and -- when the separation is nonzero -- the ratio and the
/// renormalized perturbed value.
pub open spec fn lyap_step_fits<M: ScalarMap>(m: M, x: RatView, xp: RatView) -> bool {
    let x1 = m.map_model(x);
    let xp1 = m.map_model(xp);
    let diff = rv_sub(xp1, x1);
    &&& m.map_fits(x)
    &&& m.map_fits(xp)
    &&& rv_fits(diff)
    &&& (!rv_is_zero(diff) ==> {
        &&& rv_fits(rv_abs(diff))
        &&& rv_fits(rv_mul(rv_abs(diff), rv_inv_eps()))
        &&& (diff.n > 0 ==> rv_fits(rv_add(x1, rv_eps())))
        &&& (diff.n <= 0 ==> rv_fits(rv_sub(x1, rv_eps())))
    })
}

/// Every exact intermediate of the first `k` iterations is representable.
pub open spec fn lyap_steps_fit<M: ScalarMap>(m: M, x: RatView, xp: RatView, k: nat) -> bool
    decreases k,
{
    if k == 0 {
        true
    } else {
        let prev = lyap_iter(m, x, xp, (k - 1) as nat);
        lyap_steps_fit(m, x, xp, (k - 1) as nat) && lyap_step_fits(m, prev.0, prev.1)
    }
}

/// Representability of a run is inherited by every shorter run.
proof fn lemma_lyap_steps_fit_prefix<M: ScalarMap>(m: M, x: RatView, xp: RatView, j: nat, k: nat)
    requires
        j <= k,
        lyap_steps_fit(m, x, xp, k),
    ensures
        lyap_steps_fit(m, x, xp, j),
    decreases k,
{
    if j < k {
        lemma_lyap_steps_fit_prefix(m, x, xp, j, (k - 1) as nat);
    }
}

/// `k` iterations of the double-trajectory method, collecting the emitted
/// ratios in order.
pub open spec fn lyap_iter<M: ScalarMap>(m: M, x: RatView, xp: RatView, k: nat) -> (
    RatView,
    RatView,
    Seq<RatView>,
)
    decreases k,
{
    if k == 0 {
        (x, xp, Seq::<RatView>::empty())
    } else {
        let prev = lyap_iter(m, x, xp, (k - 1) as nat);
        let st = lyap_advance(m, prev.0, prev.1);
        let ratios = match st.2 {
            Some(r) => prev.2.push(r),
            None => prev.2,
        };
        (st.0, st.1, ratios)
    }
}

/// The exact log-arguments accumulated by the double-trajectory method
/// started at `x0` with perturbed start `x0 + eps`, over `n` iterations.
///
/// The exponent reported by the method is the mean of the natural
/// logarithms of these ratios, divided over all `n` iterations; the
/// logarithms are left to the caller. `None` when an exact intermediate is
/// not representable.
#[verifier::loop_isolation(false)]
pub fn lyapunov_trajectory_ratios<M: ScalarMap>(x0: Rat, n: u64, f: &M) -> (res: Option<Vec<Rat>>)
    requires
        f.wf(),
        x0.inv(),
    ensures
        res is Some <==> {
            &&& rv_fits(rv_add(x0@, rv_eps()))
            &&& lyap_steps_fit(*f, x0@, rv_add(x0@, rv_eps()), n as nat)
        },
        res matches Some(v) ==> {
            &&& inv_seq(v@)
            &&& seq_view(v@) == lyap_iter(*f, x0@, rv_add(x0@, rv_eps()), n as nat).2
        },
{
    let eps = Rat::new(1, 100000000);
    let inv_eps = Rat::from_int(100000000);
    let mut x = x0;
    let mut x_pert = match x0.add(eps) {
        Some(v) => v,
        None => return None,
    };
    let ghost xp0 = rv_add(x0@, rv_eps());
    let mut out: Vec<Rat> = Vec::new();
    let mut k: u64 = 0;
    while k < n
        invariant
            x.inv(),
            x_pert.inv(),
            k <= n,
            x@ == lyap_iter(*f, x0@, xp0, k as nat).0,
            x_pert@ == lyap_iter(*f, x0@, xp0, k as nat).1,
            inv_seq(out@),
            seq_view(out@) == lyap_iter(*f, x0@, xp0, k as nat).2,
            lyap_steps_fit(*f, x0@, xp0, k as nat),
        decreases n - k,
    {
        let x1 = match f.apply(x) {
            Some(v) => v,
            None => {
                proof {
                    lyap_none_witness(*f, x0@, xp0, k as nat, n as nat);
                }
                return None;
            },
        };
        let xp1 = match f.apply(x_pert) {
            Some(v) => v,
            None => {
                proof {
                    lyap_none_witness(*f, x0@, xp0, k as nat, n as nat);
                }
                return None;
            },
        };
        let diff = match xp1.sub(x1) {
            Some(v) => v,
            None => {
                proof {
                    lyap_none_witness(*f, x0@, xp0, k as nat, n as nat);
                }
                return None;
            },
        };
        if diff.is_zero() {
            proof {
                assert(lyap_step_fits(*f, x@, x_pert@));
            }
            x = x1;
            x_pert = xp1;
        } else {
            let delta = match diff.abs() {
                Some(v) => v,
                None => {
                    proof {
                        lyap_none_witness(*f, x0@, xp0, k as nat, n as nat);
                    }
                    return None;
                },
            };
            let ratio = match delta.mul(inv_eps) {
                Some(v) => v,
                None => {
                    proof {
                        lyap_none_witness(*f, x0@, xp0, k as nat, n as nat);
                    }
                    return None;
                },
            };
            let renorm = if diff.is_positive() {
                x1.add(eps)
            } else {
                x1.sub(eps)
            };
            let xp2 = match renorm {
                Some(v) => v,
                None => {
                    proof {
                        lyap_none_witness(*f, x0@, xp0, k as nat, n as nat);
                    }
                    return None;
                },
            };
            proof {
                assert(lyap_step_fits(*f, x@, x_pert@));
            }
            let ghost prevseq = out@;
            out.push(ratio);
            proof {
                assert(seq_view(out@) =~= seq_view(prevseq).push(ratio@));
            }
            x = x1;
            x_pert = xp2;
        }
        k = k + 1;
    }
    Some(out)
}

/// From a failing iteration, the whole requested run is not representable.
proof fn lyap_none_witness<M: ScalarMap>(m: M, x0: RatView, xp0: RatView, k: nat, n: nat)
    requires
        k < n,
        lyap_steps_fit(m, x0, xp0, k),
        !lyap_step_fits(m, lyap_iter(m, x0, xp0, k).0, lyap_iter(m, x0, xp0, k).1),
    ensures
        !lyap_steps_fit(m, x0, xp0, n),
{
    if lyap_steps_fit(m, x0, xp0, n) {
        lemma_lyap_steps_fit_prefix(m, x0, xp0, (k + 1) as nat, n);
        assert(false);
    }
}

/// Every exact intermediate of one derivative magnitude is representable:
/// the right-hand side at time index `i` and the absolute value of its
/// first component.
pub open spec fn deriv_mag_fits<S: DynamicalSystem>(sys: S, base: Seq<RatView>, i: int) -> bool {
    &&& sys.rhs_fits(RatView { n: i, d: 1 }, base)
    &&& rv_fits(rv_abs(sys.rhs_model(RatView { n: i, d: 1 }, base)[0]))
}

/// The exact magnitudes accumulated by the derivative-accumulation method:
/// for each time index `i` below `n`, the absolute value of the first
/// component of the system's right-hand side at the fixed state `base`.
///
/// The exponent reported by the method is the mean of the natural
/// logarithms of these magnitudes; the logarithms are left to the caller.
/// `None` when an exact intermediate is not representable.
#[verifier::loop_isolation(false)]
pub fn lyapunov_derivative_magnitudes<S: DynamicalSystem>(n: u64, sys: &S, base: &Vec<Rat>) -> (res:
    Option<Vec<Rat>>)
    requires
        sys.wf(),
        inv_seq(base@),
        base@.len() == sys.dim_spec(),
        sys.dim_spec() >= 1,
        n <= 0x7fff_ffff_ffff_ffff,
    ensures
        res is Some <==> (forall|i: int|
            0 <= i < n ==> #[trigger] deriv_mag_fits(*sys, seq_view(base@), i)),
        res matches Some(v) ==> {
            &&& inv_seq(v@)
            &&& seq_view(v@) == Seq::new(
                n as nat,
                |i: int| rv_abs(sys.rhs_model(RatView { n: i, d: 1 }, seq_view(base@))[0]),
            )
        },
{
    let mut out: Vec<Rat> = Vec::new();
    let mut i: u64 = 0;
    while i < n
        invariant
            i <= n,
            out@.len() == i,
            inv_seq(out@),
            forall|j: int|
                0 <= j < i ==> seq_view(out@)[j] == rv_abs(
                    sys.rhs_model(RatView { n: j, d: 1 }, seq_view(base@))[0],
                ),
            forall|j: int| 0 <= j < i ==> #[trigger] deriv_mag_fits(*sys, seq_view(base@), j),
        decreases n - i,
    {
        let ti = Rat::from_int(i as i64);
        let d = match sys.rhs(ti, base) {
            Some(v) => v,
            None => {
                proof {
                    assert(!deriv_mag_fits(*sys, seq_view(base@), i as int));
                }
                return None;
            },
        };
        proof {
            sys.lemma_rhs_model_wf(ti@, seq_view(base@));
        }
        let m = match d[0].abs() {
            Some(v) => v,
            None => {
                proof {
                    assert(!deriv_mag_fits(*sys, seq_view(base@), i as int));
                }
                return None;
            },
        };
        proof {
            assert(deriv_mag_fits(*sys, seq_view(base@), i as int));
        }
        let ghost prevseq = out@;
        out.push(m);
        proof {
            assert forall|j: int|
                0 <= j < i + 1 implies seq_view(out@)[j] == rv_abs(
                sys.rhs_model(RatView { n: j, d: 1 }, seq_view(base@))[0],
            ) by {
                if j < i {
                    assert(out@[j] == prevseq[j]);
                    assert(seq_view(prevseq)[j] == rv_abs(
                        sys.rhs_model(RatView { n: j, d: 1 }, seq_view(base@))[0],
                    ));
                } else {
                    assert(out@[j] == m);
                }
            }
        }
        i = i + 1;
    }
    proof {
        assert(seq_view(out@) =~= Seq::new(
            n as nat,
            |j: int| rv_abs(sys.rhs_model(RatView { n: j, d: 1 }, seq_view(base@))[0]),
        ));
    }
    Some(out)
}

/// The contracting map `x -> 0.5 * x`.
pub struct HalvingMap;

impl ScalarMap for HalvingMap {
    open spec fn wf(&self) -> bool {
        true
    }

    open spec fn map_model(&self, x: RatView) -> RatView {
        rv_mul(RatView { n: 1, d: 2 }, x)
    }

    open spec fn map_fits(&self, x: RatView) -> bool {
        rv_fits(rv_mul(RatView { n: 1, d: 2 }, x))
    }

    proof fn lemma_map_model_valid(&self, x: RatView) {
        crate::rational::lemma_ops_valid(RatView { n: 1, d: 2 }, x);
    }

    fn apply(&self, x: Rat) -> (r: Option<Rat>) {
        Rat::new(1, 2).mul(x)
    }
}

/// The quadratic map `x -> r * x * (1 - x)` as a bare scalar map.
pub struct QuadraticMap {
    pub r: Rat,
}

impl ScalarMap for QuadraticMap {
    open spec fn wf(&self) -> bool {
        self.r.inv()
    }

    open spec fn map_model(&self, x: RatView) -> RatView {
        crate::logistic_map::lmap_step(self.r@, x)
    }

    open spec fn map_fits(&self, x: RatView) -> bool {
        crate::logistic_map::lmap_step_fits(self.r@, x)
    }

    proof fn lemma_map_model_valid(&self, x: RatView) {
        crate::rational::lemma_ops_valid(self.r@, x);
        crate::rational::lemma_ops_valid(rv_one(), x);
        crate::rational::lemma_ops_valid(rv_mul(self.r@, x), rv_sub(rv_one(), x));
    }

    fn apply(&self, x: Rat) -> (r: Option<Rat>) {
        crate::logistic_map::apply_map(self.r, x)
    }
}

/// Applied to the contracting map `x -> 0.5 * x`, the double-trajectory
/// method accumulates one ratio per iteration (the separation never
/// vanishes), and every accumulated ratio denotes exactly one half -- in
/// particular every ratio is strictly below one. The reported exponent is
/// the mean of the natural logarithms of these ratios, so it is strictly
/// negative: the estimator classifies the halving map as stable.
pub proof fn lemma_halving_ratios(x0: RatView, k: nat)
    requires
        rv_valid(x0),
    ensures
        lyap_iter(HalvingMap, x0, rv_add(x0, rv_eps()), k).2.len() == k,
        forall|i: int|
            0 <= i < k ==> rv_eqv(
                #[trigger] lyap_iter(HalvingMap, x0, rv_add(x0, rv_eps()), k).2[i],
                RatView { n: 1, d: 2 },
            ),
        forall|i: int|
            0 <= i < k ==> rv_lt(
                #[trigger] lyap_iter(HalvingMap, x0, rv_add(x0, rv_eps()), k).2[i],
                rv_one(),
            ),
        rv_valid(lyap_iter(HalvingMap, x0, rv_add(x0, rv_eps()), k).0),
        lyap_iter(HalvingMap, x0, rv_add(x0, rv_eps()), k).1 == rv_add(
            lyap_iter(HalvingMap, x0, rv_add(x0, rv_eps()), k).0,
            rv_eps(),
        ),
    decreases k,
{
    if k > 0 {
        lemma_halving_ratios(x0, (k - 1) as nat);
        let prev = lyap_iter(HalvingMap, x0, rv_add(x0, rv_eps()), (k - 1) as nat);
        let x = prev.0;
        let xp = prev.1;
        let a = x.n;
        let b = x.d;
        assert(xp.n == a * 100000000 + b);
        assert(xp.d == b * 100000000);
        let half = RatView { n: 1, d: 2 };
        let x1 = rv_mul(half, x);
        let xp1 = rv_mul(half, xp);
        let diff = rv_sub(xp1, x1);
        assert(x1.n == a && x1.d == 2 * b);
        assert(xp1.n == a * 100000000 + b && xp1.d == 2 * (b * 100000000));
        assert((a * 100000000 + b) * (2 * b) - a * (2 * (b * 100000000)) == 2 * (b * b))
            by (nonlinear_arith);
        assert(diff.n == 2 * (b * b));
        assert(diff.d == (2 * (b * 100000000)) * (2 * b));
        assert(b * b >= 1) by (nonlinear_arith)
            requires
                b >= 1,
        ;
        assert(diff.n > 0);
        let ratio = rv_mul(rv_abs(diff), rv_inv_eps());
        assert(ratio.n == (2 * (b * b)) * 100000000);
        assert(ratio.d == (2 * (b * 100000000)) * (2 * b));
        assert(ratio.n * 2 == 1 * ratio.d) by (nonlinear_arith)
            requires
                ratio.n == (2 * (b * b)) * 100000000,
                ratio.d == (2 * (b * 100000000)) * (2 * b),
        ;
        assert(rv_eqv(ratio, RatView { n: 1, d: 2 }));
        assert(ratio.n * 1 < 1 * ratio.d) by (nonlinear_arith)
            requires
                ratio.n == (2 * (b * b)) * 100000000,
                ratio.d == (2 * (b * 100000000)) * (2 * b),
                b >= 1,
        ;
        assert(rv_lt(ratio, rv_one()));
        let cur = lyap_iter(HalvingMap, x0, rv_add(x0, rv_eps()), k);
        assert(cur.2 == prev.2.push(ratio));
        assert forall|i: int| 0 <= i < k implies rv_eqv(
            #[trigger] cur.2[i],
            RatView { n: 1, d: 2 },
        ) && rv_lt(cur.2[i], rv_one()) by {
            if i < k - 1 {
                assert(cur.2[i] == prev.2[i]);
            } else {
                assert(cur.2[i] == ratio);
            }
        }
    }
}

} // verus!
