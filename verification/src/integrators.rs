//! The integration engine: two stateless fixed-step advance algorithms,
//! explicit Euler and classical fourth-order Runge-Kutta, generic over any
//! `DynamicalSystem`.
//!
//! Both steppers check the state vector's length against the system's
//! declared dimension before touching anything, and mutate the state only by
//! committing a fully computed successor, so a failed step leaves the state
//! exactly as it was.

use crate::dynamical_system::{sys_model, DynamicalSystem};
use crate::rational::{
    all_zero, inv_seq, lemma_add_zero, lemma_mul_zero, lemma_ops_valid, lemma_zero_factor,
    rv_add, rv_eqv, rv_eqv_seq, rv_fits, rv_is_zero, rv_mul, rv_valid, rv_valid_seq, rv_zero,
    seq_view, Rat, RatView,
};
use crate::StepError;
use vstd::prelude::*;

verus! {

/// One axpy stage: component-wise `s[i] + h * k[i]`.
pub open spec fn stage_model(s: Seq<RatView>, h: RatView, k: Seq<RatView>) -> Seq<RatView> {
    Seq::new(s.len(), |i: int| rv_add(s[i], rv_mul(h, k[i])))
}

/// Both exact intermediates of one axpy component are representable.
pub open spec fn stage1_fits(s_i: RatView, h: RatView, k_i: RatView) -> bool {
    rv_fits(rv_mul(h, k_i)) && rv_fits(rv_add(s_i, rv_mul(h, k_i)))
}

/// Every exact intermediate of the whole axpy stage is representable.
pub open spec fn stage_fits(s: Seq<RatView>, h: RatView, k: Seq<RatView>) -> bool {
    forall|i: int| 0 <= i < s.len() ==> #[trigger] stage1_fits(s[i], h, k[i])
}

/// Every exact intermediate of one component of the Runge-Kutta combination
/// is representable.
pub open spec fn combine1_fits(
    s_i: RatView,
    w: RatView,
    k1_i: RatView,
    k2_i: RatView,
    k3_i: RatView,
    k4_i: RatView,
) -> bool {
    let two = RatView { n: 2, d: 1 };
    let q2 = rv_mul(two, k2_i);
    let sum1 = rv_add(k1_i, q2);
    let q3 = rv_mul(two, k3_i);
    let sum2 = rv_add(sum1, q3);
    let sum3 = rv_add(sum2, k4_i);
    let upd = rv_mul(w, sum3);
    &&& rv_fits(q2)
    &&& rv_fits(sum1)
    &&& rv_fits(q3)
    &&& rv_fits(sum2)
    &&& rv_fits(sum3)
    &&& rv_fits(upd)
    &&& rv_fits(rv_add(s_i, upd))
}

/// Every exact intermediate of the whole Runge-Kutta combination is
/// representable.
pub open spec fn combine_fits(
    s: Seq<RatView>,
    w: RatView,
    k1: Seq<RatView>,
    k2: Seq<RatView>,
    k3: Seq<RatView>,
    k4: Seq<RatView>,
) -> bool {
    forall|i: int| 0 <= i < s.len() ==> #[trigger] combine1_fits(s[i], w, k1[i], k2[i], k3[i], k4[i])
}

/// Every exact intermediate of a whole Euler step is representable: the
/// right-hand side itself and the update of each component.
pub open spec fn euler_fits<S: DynamicalSystem>(sys: S, t: RatView, dt: RatView, s: Seq<RatView>) -> bool {
    sys.rhs_fits(t, s) && stage_fits(s, dt, sys.rhs_model(t, s))
}

/// Every exact intermediate of a whole Runge-Kutta step is representable:
/// the four stage derivatives and stage states, the derived time scalars and
/// weights, and the combined update of each component.
pub open spec fn rk4_fits<S: DynamicalSystem>(sys: S, t: RatView, dt: RatView, s: Seq<RatView>) -> bool {
    let half = RatView { n: 1, d: 2 };
    let sixth = RatView { n: 1, d: 6 };
    let hd = rv_mul(dt, half);
    let th = rv_add(t, hd);
    let td = rv_add(t, dt);
    let w = rv_mul(dt, sixth);
    let k1 = sys.rhs_model(t, s);
    let s2 = stage_model(s, hd, k1);
    let k2 = sys.rhs_model(th, s2);
    let s3 = stage_model(s, hd, k2);
    let k3 = sys.rhs_model(th, s3);
    let s4 = stage_model(s, dt, k3);
    let k4 = sys.rhs_model(td, s4);
    &&& sys.rhs_fits(t, s)
    &&& rv_fits(hd)
    &&& rv_fits(th)
    &&& stage_fits(s, hd, k1)
    &&& sys.rhs_fits(th, s2)
    &&& stage_fits(s, hd, k2)
    &&& sys.rhs_fits(th, s3)
    &&& rv_fits(td)
    &&& stage_fits(s, dt, k3)
    &&& sys.rhs_fits(td, s4)
    &&& rv_fits(w)
    &&& combine_fits(s, w, k1, k2, k3, k4)
}

/// The exact Euler update: `s[i] + dt * rhs(t, s)[i]` in every component.
pub open spec fn euler_model(
    rhs: spec_fn(RatView, Seq<RatView>) -> Seq<RatView>,
    t: RatView,
    dt: RatView,
    s: Seq<RatView>,
) -> Seq<RatView> {
    stage_model(s, dt, rhs(t, s))
}

/// The exact classical Runge-Kutta update: four stage derivatives
/// `k1 = rhs(t, s)`, `k2 = rhs(t + dt/2, s + dt/2 k1)`,
/// `k3 = rhs(t + dt/2, s + dt/2 k2)`, `k4 = rhs(t + dt, s + dt k3)`,
/// combined as `s[i] + (dt/6) * (k1[i] + 2 k2[i] + 2 k3[i] + k4[i])`.
pub open spec fn rk4_model(
    rhs: spec_fn(RatView, Seq<RatView>) -> Seq<RatView>,
    t: RatView,
    dt: RatView,
    s: Seq<RatView>,
) -> Seq<RatView> {
    let half = RatView { n: 1, d: 2 };
    let two = RatView { n: 2, d: 1 };
    let sixth = RatView { n: 1, d: 6 };
    let hd = rv_mul(dt, half);
    let th = rv_add(t, hd);
    let td = rv_add(t, dt);
    let w = rv_mul(dt, sixth);
    let k1 = rhs(t, s);
    let k2 = rhs(th, stage_model(s, hd, k1));
    let k3 = rhs(th, stage_model(s, hd, k2));
    let k4 = rhs(td, stage_model(s, dt, k3));
    Seq::new(
        s.len(),
        |i: int|
            rv_add(
                s[i],
                rv_mul(
                    w,
                    rv_add(
                        rv_add(rv_add(k1[i], rv_mul(two, k2[i])), rv_mul(two, k3[i])),
                        k4[i],
                    ),
                ),
            ),
    )
}

/// Compute the stage vector `s + h * k` exactly; `None` when an exact
/// component is not representable.
#[verifier::loop_isolation(false)]
fn stage_vec(state: &Vec<Rat>, h: Rat, k: &Vec<Rat>) -> (r: Option<Vec<Rat>>)
    requires
        inv_seq(state@),
        h.inv(),
        inv_seq(k@),
        k@.len() == state@.len(),
    ensures
        r is Some <==> stage_fits(seq_view(state@), h@, seq_view(k@)),
        r matches Some(v) ==> {
            &&& inv_seq(v@)
            &&& v@.len() == state@.len()
            &&& seq_view(v@) == stage_model(seq_view(state@), h@, seq_view(k@))
        },
{
    let mut next: Vec<Rat> = Vec::new();
    let mut i: usize = 0;
    while i < state.len()
        invariant
            i <= state@.len(),
            next@.len() == i,
            inv_seq(next@),
            forall|j: int|
                0 <= j < i ==> seq_view(next@)[j] == stage_model(
                    seq_view(state@),
                    h@,
                    seq_view(k@),
                )[j],
            forall|j: int|
                0 <= j < i ==> #[trigger] stage1_fits(
                    seq_view(state@)[j],
                    h@,
                    seq_view(k@)[j],
                ),
        decreases state@.len() - i,
    {
        let p = match h.mul(k[i]) {
            Some(v) => v,
            None => {
                proof {
                    assert(!stage1_fits(seq_view(state@)[i as int], h@, seq_view(k@)[i as int]));
                }
                return None;
            },
        };
        let v = match state[i].add(p) {
            Some(v) => v,
            None => {
                proof {
                    assert(!stage1_fits(seq_view(state@)[i as int], h@, seq_view(k@)[i as int]));
                }
                return None;
            },
        };
        proof {
            assert(stage1_fits(seq_view(state@)[i as int], h@, seq_view(k@)[i as int]));
        }
        let ghost prev = next@;
        next.push(v);
        proof {
            assert forall|j: int|
                0 <= j < i + 1 implies seq_view(next@)[j] == stage_model(
                seq_view(state@),
                h@,
                seq_view(k@),
            )[j] by {
                if j < i {
                    assert(next@[j] == prev[j]);
                    assert(seq_view(prev)[j] == stage_model(seq_view(state@), h@, seq_view(k@))[j]);
                } else {
                    assert(next@[j] == v);
                }
            }
        }
        i = i + 1;
    }
    proof {
        assert(seq_view(next@) =~= stage_model(seq_view(state@), h@, seq_view(k@)));
    }
    Some(next)
}

/// Advance `state` in place by one explicit Euler step of size `dt`.
///
/// The step fails with `DimensionMismatch` exactly when the state's length
/// is not the system's dimension, and with `Unrepresentable` when an exact
/// intermediate does not fit; in either case the state is untouched.
pub fn euler_step<S: DynamicalSystem>(sys: &S, state: &mut Vec<Rat>, t: Rat, dt: Rat) -> (r:
    Result<(), StepError>)
    requires
        sys.wf(),
        t.inv(),
        dt.inv(),
        inv_seq(old(state)@),
    ensures
        (old(state)@.len() != sys.dim_spec()) <==> (r == Err::<(), StepError>(StepError::DimensionMismatch)),
        old(state)@.len() == sys.dim_spec() ==> (r is Ok <==> euler_fits(
            *sys,
            t@,
            dt@,
            seq_view(old(state)@),
        )),
        r is Ok ==> {
            &&& inv_seq(final(state)@)
            &&& seq_view(final(state)@) == euler_model(
                sys_model(*sys),
                t@,
                dt@,
                seq_view(old(state)@),
            )
        },
        !(r is Ok) ==> final(state)@ == old(state)@,
{
    if state.len() != sys.dimension() {
        return Err(StepError::DimensionMismatch);
    }
    let deriv = match sys.rhs(t, state) {
        Some(v) => v,
        None => return Err(StepError::Unrepresentable),
    };
    proof {
        sys.lemma_rhs_model_wf(t@, seq_view(state@));
    }
    match stage_vec(state, dt, &deriv) {
        Some(next) => {
            *state = next;
            Ok(())
        },
        None => Err(StepError::Unrepresentable),
    }
}

/// Advance `state` in place by one classical fourth-order Runge-Kutta step
/// of size `dt`.
///
/// The step fails with `DimensionMismatch` exactly when the state's length
/// is not the system's dimension, and with `Unrepresentable` when an exact
/// intermediate does not fit; in either case the state is untouched.
#[verifier::loop_isolation(false)]
pub fn rk4_step<S: DynamicalSystem>(sys: &S, state: &mut Vec<Rat>, t: Rat, dt: Rat) -> (r: Result<
    (),
    StepError,
>)
    requires
        sys.wf(),
        t.inv(),
        dt.inv(),
        inv_seq(old(state)@),
    ensures
        (old(state)@.len() != sys.dim_spec()) <==> (r == Err::<(), StepError>(StepError::DimensionMismatch)),
        old(state)@.len() == sys.dim_spec() ==> (r is Ok <==> rk4_fits(
            *sys,
            t@,
            dt@,
            seq_view(old(state)@),
        )),
        r is Ok ==> {
            &&& inv_seq(final(state)@)
            &&& seq_view(final(state)@) == rk4_model(
                sys_model(*sys),
                t@,
                dt@,
                seq_view(old(state)@),
            )
        },
        !(r is Ok) ==> final(state)@ == old(state)@,
{
    if state.len() != sys.dimension() {
        return Err(StepError::DimensionMismatch);
    }
    let ghost s0 = seq_view(state@);
    let k1 = match sys.rhs(t, state) {
        Some(v) => v,
        None => return Err(StepError::Unrepresentable),
    };
    proof {
        sys.lemma_rhs_model_wf(t@, s0);
    }
    let half = Rat::new(1, 2);
    let hd = match dt.mul(half) {
        Some(v) => v,
        None => return Err(StepError::Unrepresentable),
    };
    let th = match t.add(hd) {
        Some(v) => v,
        None => return Err(StepError::Unrepresentable),
    };
    let s2 = match stage_vec(state, hd, &k1) {
        Some(v) => v,
        None => return Err(StepError::Unrepresentable),
    };
    let k2 = match sys.rhs(th, &s2) {
        Some(v) => v,
        None => return Err(StepError::Unrepresentable),
    };
    proof {
        sys.lemma_rhs_model_wf(th@, seq_view(s2@));
    }
    let s3 = match stage_vec(state, hd, &k2) {
        Some(v) => v,
        None => return Err(StepError::Unrepresentable),
    };
    let k3 = match sys.rhs(th, &s3) {
        Some(v) => v,
        None => return Err(StepError::Unrepresentable),
    };
    proof {
        sys.lemma_rhs_model_wf(th@, seq_view(s3@));
    }
    let td = match t.add(dt) {
        Some(v) => v,
        None => return Err(StepError::Unrepresentable),
    };
    let s4 = match stage_vec(state, dt, &k3) {
        Some(v) => v,
        None => return Err(StepError::Unrepresentable),
    };
    let k4 = match sys.rhs(td, &s4) {
        Some(v) => v,
        None => return Err(StepError::Unrepresentable),
    };
    proof {
        sys.lemma_rhs_model_wf(td@, seq_view(s4@));
    }
    let sixth = Rat::new(1, 6);
    let w = match dt.mul(sixth) {
        Some(v) => v,
        None => return Err(StepError::Unrepresentable),
    };
    let two = Rat::from_int(2);
    let mut next: Vec<Rat> = Vec::new();
    let mut i: usize = 0;
    while i < state.len()
        invariant
            i <= state@.len(),
            next@.len() == i,
            inv_seq(next@),
            forall|j: int|
                0 <= j < i ==> seq_view(next@)[j] == rk4_model(sys_model(*sys), t@, dt@, s0)[j],
            forall|j: int|
                0 <= j < i ==> #[trigger] combine1_fits(
                    s0[j],
                    w@,
                    seq_view(k1@)[j],
                    seq_view(k2@)[j],
                    seq_view(k3@)[j],
                    seq_view(k4@)[j],
                ),
        decreases state@.len() - i,
    {
        let ghost ci = i as int;
        let a1 = match two.mul(k2[i]) {
            Some(v) => v,
            None => {
                proof {
                    assert(!combine1_fits(s0[ci], w@, seq_view(k1@)[ci], seq_view(k2@)[ci], seq_view(k3@)[ci], seq_view(k4@)[ci]));
                }
                return Err(StepError::Unrepresentable);
            },
        };
        let a2 = match k1[i].add(a1) {
            Some(v) => v,
            None => {
                proof {
                    assert(!combine1_fits(s0[ci], w@, seq_view(k1@)[ci], seq_view(k2@)[ci], seq_view(k3@)[ci], seq_view(k4@)[ci]));
                }
                return Err(StepError::Unrepresentable);
            },
        };
        let a3 = match two.mul(k3[i]) {
            Some(v) => v,
            None => {
                proof {
                    assert(!combine1_fits(s0[ci], w@, seq_view(k1@)[ci], seq_view(k2@)[ci], seq_view(k3@)[ci], seq_view(k4@)[ci]));
                }
                return Err(StepError::Unrepresentable);
            },
        };
        let a4 = match a2.add(a3) {
            Some(v) => v,
            None => {
                proof {
                    assert(!combine1_fits(s0[ci], w@, seq_view(k1@)[ci], seq_view(k2@)[ci], seq_view(k3@)[ci], seq_view(k4@)[ci]));
                }
                return Err(StepError::Unrepresentable);
            },
        };
        let a5 = match a4.add(k4[i]) {
            Some(v) => v,
            None => {
                proof {
                    assert(!combine1_fits(s0[ci], w@, seq_view(k1@)[ci], seq_view(k2@)[ci], seq_view(k3@)[ci], seq_view(k4@)[ci]));
                }
                return Err(StepError::Unrepresentable);
            },
        };
        let upd = match w.mul(a5) {
            Some(v) => v,
            None => {
                proof {
                    assert(!combine1_fits(s0[ci], w@, seq_view(k1@)[ci], seq_view(k2@)[ci], seq_view(k3@)[ci], seq_view(k4@)[ci]));
                }
                return Err(StepError::Unrepresentable);
            },
        };
        let v = match state[i].add(upd) {
            Some(v) => v,
            None => {
                proof {
                    assert(!combine1_fits(s0[ci], w@, seq_view(k1@)[ci], seq_view(k2@)[ci], seq_view(k3@)[ci], seq_view(k4@)[ci]));
                }
                return Err(StepError::Unrepresentable);
            },
        };
        proof {
            assert(combine1_fits(s0[ci], w@, seq_view(k1@)[ci], seq_view(k2@)[ci], seq_view(k3@)[ci], seq_view(k4@)[ci]));
        }
        let ghost prev = next@;
        next.push(v);
        proof {
            assert forall|j: int|
                0 <= j < i + 1 implies seq_view(next@)[j] == rk4_model(
                sys_model(*sys),
                t@,
                dt@,
                s0,
            )[j] by {
                if j < i {
                    assert(next@[j] == prev[j]);
                    assert(seq_view(prev)[j] == rk4_model(sys_model(*sys), t@, dt@, s0)[j]);
                } else {
                    assert(next@[j] == v);
                }
            }
        }
        i = i + 1;
    }
    proof {
        assert(seq_view(next@) =~= rk4_model(sys_model(*sys), t@, dt@, s0));
    }
    *state = next;
    Ok(())
}

/// With a step size that denotes zero, an Euler step is a no-op: every
/// component of the updated state denotes exactly what it denoted before.
pub proof fn lemma_euler_zero_dt(
    rhs: spec_fn(RatView, Seq<RatView>) -> Seq<RatView>,
    t: RatView,
    dt: RatView,
    s: Seq<RatView>,
)
    requires
        rv_valid(dt),
        rv_eqv(dt, rv_zero()),
        rv_valid_seq(s),
        rv_valid_seq(rhs(t, s)),
        rhs(t, s).len() == s.len(),
    ensures
        rv_eqv_seq(euler_model(rhs, t, dt, s), s),
{
    let k = rhs(t, s);
    assert forall|i: int| 0 <= i < s.len() implies rv_eqv(
        #[trigger] euler_model(rhs, t, dt, s)[i],
        s[i],
    ) by {
        lemma_ops_valid(dt, k[i]);
        lemma_mul_zero(k[i], dt);
        lemma_add_zero(s[i], rv_mul(dt, k[i]));
    }
}

/// A right-hand side under which the all-zero state is an equilibrium: at
/// any time, the rule maps a rest state of the right dimension to a rest
/// derivative.
pub open spec fn preserves_rest(
    rhs: spec_fn(RatView, Seq<RatView>) -> Seq<RatView>,
    dim: nat,
) -> bool {
    forall|t: RatView, s: Seq<RatView>|
        (rv_valid(t) && rv_valid_seq(s) && s.len() == dim && all_zero(s)) ==> {
            &&& (#[trigger] rhs(t, s)).len() == dim
            &&& rv_valid_seq(rhs(t, s))
            &&& all_zero(rhs(t, s))
        }
}

/// A stage built on a rest state from a rest derivative is again a rest
/// state.
pub proof fn lemma_stage_rest(s: Seq<RatView>, h: RatView, k: Seq<RatView>)
    requires
        rv_valid(h),
        rv_valid_seq(s),
        all_zero(s),
        rv_valid_seq(k),
        k.len() == s.len(),
        all_zero(k),
    ensures
        stage_model(s, h, k).len() == s.len(),
        rv_valid_seq(stage_model(s, h, k)),
        all_zero(stage_model(s, h, k)),
{
    assert forall|i: int| 0 <= i < s.len() implies rv_valid(#[trigger] stage_model(s, h, k)[i])
        && rv_is_zero(stage_model(s, h, k)[i]) by {
        lemma_ops_valid(h, k[i]);
        lemma_ops_valid(s[i], rv_mul(h, k[i]));
        lemma_zero_factor(k[i].n, h.n);
        lemma_zero_factor(s[i].n, rv_mul(h, k[i]).d);
        lemma_zero_factor(rv_mul(h, k[i]).n, s[i].d);
    }
}

/// An Euler step started at rest stays at rest: with a zero derivative
/// everywhere, the update adds exact zeros.
pub proof fn lemma_euler_rest(
    rhs: spec_fn(RatView, Seq<RatView>) -> Seq<RatView>,
    dim: nat,
    t: RatView,
    dt: RatView,
    s: Seq<RatView>,
)
    requires
        preserves_rest(rhs, dim),
        rv_valid(t),
        rv_valid(dt),
        rv_valid_seq(s),
        s.len() == dim,
        all_zero(s),
    ensures
        euler_model(rhs, t, dt, s).len() == dim,
        rv_valid_seq(euler_model(rhs, t, dt, s)),
        all_zero(euler_model(rhs, t, dt, s)),
{
    lemma_stage_rest(s, dt, rhs(t, s));
}

/// A classical Runge-Kutta step started at rest stays at rest: every stage
/// state is again at rest, every stage derivative is zero, and the combined
/// update adds an exact zero to every component.
pub proof fn lemma_rk4_rest(
    rhs: spec_fn(RatView, Seq<RatView>) -> Seq<RatView>,
    dim: nat,
    t: RatView,
    dt: RatView,
    s: Seq<RatView>,
)
    requires
        preserves_rest(rhs, dim),
        rv_valid(t),
        rv_valid(dt),
        rv_valid_seq(s),
        s.len() == dim,
        all_zero(s),
    ensures
        rk4_model(rhs, t, dt, s).len() == dim,
        rv_valid_seq(rk4_model(rhs, t, dt, s)),
        all_zero(rk4_model(rhs, t, dt, s)),
{
    let half = RatView { n: 1, d: 2 };
    let two = RatView { n: 2, d: 1 };
    let sixth = RatView { n: 1, d: 6 };
    let hd = rv_mul(dt, half);
    let th = rv_add(t, hd);
    let td = rv_add(t, dt);
    let w = rv_mul(dt, sixth);
    lemma_ops_valid(dt, half);
    lemma_ops_valid(t, hd);
    lemma_ops_valid(t, dt);
    lemma_ops_valid(dt, sixth);
    let k1 = rhs(t, s);
    let s2 = stage_model(s, hd, k1);
    lemma_stage_rest(s, hd, k1);
    let k2 = rhs(th, s2);
    let s3 = stage_model(s, hd, k2);
    lemma_stage_rest(s, hd, k2);
    let k3 = rhs(th, s3);
    let s4 = stage_model(s, dt, k3);
    lemma_stage_rest(s, dt, k3);
    let k4 = rhs(td, s4);
    assert forall|i: int| 0 <= i < s.len() implies rv_valid(#[trigger] rk4_model(rhs, t, dt, s)[i])
        && rv_is_zero(rk4_model(rhs, t, dt, s)[i]) by {
        let q2 = rv_mul(two, k2[i]);
        let q3 = rv_mul(two, k3[i]);
        let sum1 = rv_add(k1[i], q2);
        let sum2 = rv_add(sum1, q3);
        let sum3 = rv_add(sum2, k4[i]);
        lemma_ops_valid(two, k2[i]);
        lemma_ops_valid(two, k3[i]);
        lemma_ops_valid(k1[i], q2);
        lemma_ops_valid(sum1, q3);
        lemma_ops_valid(sum2, k4[i]);
        lemma_ops_valid(w, sum3);
        lemma_ops_valid(s[i], rv_mul(w, sum3));
        lemma_zero_factor(k1[i].n, q2.d);
        lemma_zero_factor(q2.n, k1[i].d);
        lemma_zero_factor(sum1.n, q3.d);
        lemma_zero_factor(q3.n, sum1.d);
        lemma_zero_factor(sum2.n, k4[i].d);
        lemma_zero_factor(k4[i].n, sum2.d);
        lemma_zero_factor(sum3.n, w.n);
        lemma_zero_factor(s[i].n, rv_mul(w, sum3).d);
        lemma_zero_factor(rv_mul(w, sum3).n, s[i].d);
    }
}

/// `k` Euler steps, taking the time scalar of step `j` from `ts[j]`.
pub open spec fn euler_steps(
    rhs: spec_fn(RatView, Seq<RatView>) -> Seq<RatView>,
    ts: Seq<RatView>,
    dt: RatView,
    s: Seq<RatView>,
    k: nat,
) -> Seq<RatView>
    decreases k,
{
    if k == 0 {
        s
    } else {
        euler_model(rhs, ts[k - 1], dt, euler_steps(rhs, ts, dt, s, (k - 1) as nat))
    }
}

/// `k` classical Runge-Kutta steps, taking the time scalar of step `j`
/// from `ts[j]`.
pub open spec fn rk4_steps(
    rhs: spec_fn(RatView, Seq<RatView>) -> Seq<RatView>,
    ts: Seq<RatView>,
    dt: RatView,
    s: Seq<RatView>,
    k: nat,
) -> Seq<RatView>
    decreases k,
{
    if k == 0 {
        s
    } else {
        rk4_model(rhs, ts[k - 1], dt, rk4_steps(rhs, ts, dt, s, (k - 1) as nat))
    }
}

/// A system at rest stays at rest under any number of steps of either
/// stepping algorithm, whatever the step size and the time scalars.
pub proof fn lemma_steps_rest(
    rhs: spec_fn(RatView, Seq<RatView>) -> Seq<RatView>,
    dim: nat,
    ts: Seq<RatView>,
    dt: RatView,
    s: Seq<RatView>,
    k: nat,
)
    requires
        preserves_rest(rhs, dim),
        forall|j: int| 0 <= j < ts.len() ==> rv_valid(#[trigger] ts[j]),
        k <= ts.len(),
        rv_valid(dt),
        rv_valid_seq(s),
        s.len() == dim,
        all_zero(s),
    ensures
        euler_steps(rhs, ts, dt, s, k).len() == dim,
        rv_valid_seq(euler_steps(rhs, ts, dt, s, k)),
        all_zero(euler_steps(rhs, ts, dt, s, k)),
        rk4_steps(rhs, ts, dt, s, k).len() == dim,
        rv_valid_seq(rk4_steps(rhs, ts, dt, s, k)),
        all_zero(rk4_steps(rhs, ts, dt, s, k)),
    decreases k,
{
    if k > 0 {
        lemma_steps_rest(rhs, dim, ts, dt, s, (k - 1) as nat);
        lemma_euler_rest(rhs, dim, ts[k - 1], dt, euler_steps(rhs, ts, dt, s, (k - 1) as nat));
        lemma_rk4_rest(rhs, dim, ts[k - 1], dt, rk4_steps(rhs, ts, dt, s, (k - 1) as nat));
    }
}

} // verus!
