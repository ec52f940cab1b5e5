//! The logistic map: a one-state discrete system `x -> r*x*(1-x)`.
//!
//! As a `DynamicalSystem` the map reads its input from the time argument
//! and ignores the state vector, so callers must be consistent about which
//! role `t` plays.

use crate::dynamical_system::DynamicalSystem;
use crate::rational::{
    inv_seq, lemma_ops_valid, rv_fits, rv_mul, rv_one, rv_sub, rv_valid, seq_view, Rat, RatView,
};
use vstd::prelude::*;

verus! {

pub struct LogisticMap {
    pub r: Rat,
}

/// One application of the quadratic map: `r * x * (1 - x)`, built exactly
/// as the executable code builds it.
pub open spec fn lmap_step(r: RatView, x: RatView) -> RatView {
    rv_mul(rv_mul(r, x), rv_sub(rv_one(), x))
}

/// `k`-fold application of the map to `x`.
pub open spec fn lmap_pow(r: RatView, x: RatView, k: nat) -> RatView
    decreases k,
{
    if k == 0 {
        x
    } else {
        lmap_step(r, lmap_pow(r, x, (k - 1) as nat))
    }
}

/// Every exact intermediate of one map application at `x` is representable.
pub open spec fn lmap_step_fits(r: RatView, x: RatView) -> bool {
    &&& rv_fits(rv_mul(r, x))
    &&& rv_fits(rv_sub(rv_one(), x))
    &&& rv_fits(lmap_step(r, x))
}

/// One executable application of the map; `None` exactly when an exact
/// intermediate does not fit.
pub(crate) fn apply_map(r: Rat, x: Rat) -> (res: Option<Rat>)
    requires
        r.inv(),
        x.inv(),
    ensures
        res is Some <==> lmap_step_fits(r@, x@),
        res matches Some(v) ==> v.inv() && v@ == lmap_step(r@, x@),
{
    let a = match r.mul(x) {
        Some(v) => v,
        None => return None,
    };
    let b = match Rat::one().sub(x) {
        Some(v) => v,
        None => return None,
    };
    a.mul(b)
}

/// Repeatedly applies the quadratic map, collecting the iterates
/// `f(x), f(f(x)), ...` in order.
///
/// Returns `None` exactly when some exact intermediate along the orbit is
/// not representable; the first `n` iterates are returned otherwise.
pub fn logistic_map(x: Rat, n: u64, r: Rat) -> (res: Option<Vec<Rat>>)
    requires
        x.inv(),
        r.inv(),
    ensures
        res is Some <==> (forall|k: nat| k < n ==> lmap_step_fits(r@, #[trigger] lmap_pow(r@, x@, k))),
        res matches Some(v) ==> {
            &&& inv_seq(v@)
            &&& seq_view(v@) == Seq::new(n as nat, |i: int| lmap_pow(r@, x@, (i + 1) as nat))
        },
{
    let mut nums: Vec<Rat> = Vec::new();
    let mut cur = x;
    let mut k: u64 = 0;
    while k < n
        invariant
            x.inv(),
            r.inv(),
            cur.inv(),
            k <= n,
            cur@ == lmap_pow(r@, x@, k as nat),
            nums@.len() == k,
            inv_seq(nums@),
            forall|i: int| 0 <= i < k ==> seq_view(nums@)[i] == lmap_pow(r@, x@, (i + 1) as nat),
            forall|j: nat| j < k ==> lmap_step_fits(r@, #[trigger] lmap_pow(r@, x@, j)),
        decreases n - k,
    {
        let next = match apply_map(r, cur) {
            Some(v) => v,
            None => {
                proof {
                    let ghost kw: nat = k as nat;
                    assert(kw < n);
                    assert(!lmap_step_fits(r@, lmap_pow(r@, x@, kw)));
                }
                return None;
            },
        };
        let ghost prev = nums@;
        nums.push(next);
        proof {
            assert forall|i: int| 0 <= i < k + 1 implies seq_view(nums@)[i] == lmap_pow(
                r@,
                x@,
                (i + 1) as nat,
            ) by {
                if i < k {
                    assert(nums@[i] == prev[i]);
                    assert(seq_view(prev)[i] == lmap_pow(r@, x@, (i + 1) as nat));
                } else {
                    assert(nums@[i] == next);
                }
            }
        }
        cur = next;
        k = k + 1;
    }
    proof {
        assert(seq_view(nums@) =~= Seq::new(n as nat, |i: int| lmap_pow(r@, x@, (i + 1) as nat)));
    }
    Some(nums)
}

impl DynamicalSystem for LogisticMap {
    open spec fn wf(&self) -> bool {
        self.r.inv()
    }

    open spec fn dim_spec(&self) -> nat {
        1
    }

    open spec fn rhs_model(&self, t: RatView, s: Seq<RatView>) -> Seq<RatView> {
        seq![lmap_step(self.r@, t)]
    }

    open spec fn rhs_fits(&self, t: RatView, s: Seq<RatView>) -> bool {
        lmap_step_fits(self.r@, t)
    }

    proof fn lemma_rhs_model_wf(&self, t: RatView, s: Seq<RatView>) {
        lemma_ops_valid(self.r@, t);
        lemma_ops_valid(rv_one(), t);
        lemma_ops_valid(rv_mul(self.r@, t), rv_sub(rv_one(), t));
        assert forall|i: int| 0 <= i < 1 implies rv_valid(#[trigger] self.rhs_model(t, s)[i]) by {
        }
    }

    fn dimension(&self) -> (r: usize) {
        1
    }

    fn rhs(&self, t: Rat, state: &Vec<Rat>) -> (r: Option<Vec<Rat>>) {
        let v = match apply_map(self.r, t) {
            Some(v) => v,
            None => return None,
        };
        let mut out: Vec<Rat> = Vec::new();
        out.push(v);
        proof {
            assert(seq_view(out@) =~= self.rhs_model(t@, seq_view(state@)));
        }
        Some(out)
    }
}

impl Default for LogisticMap {
    /// The default parameterization explored by the interactive surface.
    fn default() -> (r: LogisticMap)
        ensures
            r.wf(),
            r.r@ == (RatView { n: 3, d: 10 }),
    {
        LogisticMap { r: Rat::new(3, 10) }
    }
}

} // verus!
