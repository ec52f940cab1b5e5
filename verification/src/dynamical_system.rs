//! The capability contract every dynamical system offers: a fixed state
//! dimension and a right-hand-side rule mapping a time scalar and a state
//! vector to a derivative (continuous systems) or a next-state image
//! (discrete maps).

use crate::rational::{inv_seq, rv_valid, rv_valid_seq, seq_view, Rat, RatView};
use vstd::prelude::*;

verus! {

pub trait DynamicalSystem: Sized {
    /// The parameters of the system are meaningful fractions.
    spec fn wf(&self) -> bool;

    /// The fixed length every valid state vector for this system must have.
    spec fn dim_spec(&self) -> nat;

    /// The exact right-hand side: which fractions the executable rule
    /// produces from a time scalar and a state vector.
    spec fn rhs_model(&self, t: RatView, s: Seq<RatView>) -> Seq<RatView>;

    /// Whether every exact intermediate of the executable right-hand side
    /// is representable at these inputs.
    spec fn rhs_fits(&self, t: RatView, s: Seq<RatView>) -> bool;

    /// The right-hand side of a well-formed system returns one meaningful
    /// fraction per dimension.
    proof fn lemma_rhs_model_wf(&self, t: RatView, s: Seq<RatView>)
        requires
            self.wf(),
            rv_valid(t),
            rv_valid_seq(s),
            s.len() == self.dim_spec(),
        ensures
            self.rhs_model(t, s).len() == self.dim_spec(),
            rv_valid_seq(self.rhs_model(t, s)),
    ;

    fn dimension(&self) -> (r: usize)
        ensures
            r as nat == self.dim_spec(),
    ;

    /// Compute the right-hand side exactly; `None` when an exact intermediate
    /// value is not representable. Callers supply a state vector of the
    /// declared dimension; the stepping engine checks this before calling.
    fn rhs(&self, t: Rat, state: &Vec<Rat>) -> (r: Option<Vec<Rat>>)
        requires
            self.wf(),
            t.inv(),
            inv_seq(state@),
            state@.len() == self.dim_spec(),
        ensures
            r is Some <==> self.rhs_fits(t@, seq_view(state@)),
            r matches Some(v) ==> inv_seq(v@) && seq_view(v@) == self.rhs_model(
                t@,
                seq_view(state@),
            ),
    ;
}

/// A system whose real-valued parameters can be perturbed into a nearby
/// "noisy" sibling, for ensemble and sensitivity experiments.
pub trait Noise: Sized {
    /// The parameters of the instance are meaningful fractions.
    spec fn noise_wf(&self) -> bool;

    /// A new instance whose parameters are independently perturbed by an
    /// amount drawn uniformly from `[0, noise_level)`; `None` when a
    /// perturbed parameter is not representable. What exactly "perturbed"
    /// means is stated by each implementing system.
    fn new_noisy(&self, noise_level: Rat) -> (r: Option<Self>)
        requires
            self.noise_wf(),
            noise_level.inv(),
        ensures
            r matches Some(v) ==> v.noise_wf(),
    ;
}

/// The right-hand side of a system, as a single spec-level function.
pub open spec fn sys_model<S: DynamicalSystem>(sys: S) -> spec_fn(RatView, Seq<RatView>) -> Seq<
    RatView,
> {
    |t: RatView, s: Seq<RatView>| sys.rhs_model(t, s)
}

} // verus!
