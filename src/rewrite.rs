//! The argument-list rewriter: from a slot list to the closure's parameters and
//! the target call's arguments.
use vstd::prelude::*;
use crate::slot::{Slot, hole_count, hole_rank, filled, lemma_hole_count_step, lemma_hole_count_monotone, lemma_rank_in_range};

verus! {

/// One argument of the generated call.
#[derive(Clone, Copy, Debug, PartialEq, Eq)]
pub enum CallArg<E> {
    /// The closure parameter with this number.
    Param(usize),
    /// A fixed expression, lifted unchanged into the call.
    Fixed(E),
}

/// The closure that the rewriter produces: `[move] |p0, p1, ..| target(args..)`.
#[derive(Clone, Debug)]
pub struct ClosurePlan<E> {
    /// Whether the closure takes ownership of what it captures.
    pub owning: bool,
    /// The callable, passed through unchanged.
    pub target: E,
    /// The closure's parameters, one fresh number per placeholder, in order.
    pub params: Vec<usize>,
    /// The arguments of the call, one per slot.
    pub call_args: Vec<CallArg<E>>,
}

/// The parameters of the closure over `slots`: `0, 1, ..` up to the number of placeholders.
pub open spec fn planned_params<E>(slots: Seq<Slot<E>>) -> Seq<usize> {
    Seq::new(hole_count(slots), |k: int| k as usize)
}

/// The call arguments for `slots`: a placeholder reads the parameter numbered by
/// its rank among the placeholders, a fixed slot keeps its expression.
pub open spec fn planned_args<E>(slots: Seq<Slot<E>>) -> Seq<CallArg<E>> {
    Seq::new(
        slots.len(),
        |i: int|
            match slots[i] {
                Slot::Placeholder => CallArg::Param(hole_rank(slots, i) as usize),
                Slot::Fixed(e) => CallArg::Fixed(e),
            },
    )
}

/// The call's arguments once the closure parameters are bound to `xs`.
pub open spec fn substituted<T>(args: Seq<CallArg<T>>, xs: Seq<T>) -> Seq<T> {
    Seq::new(
        args.len(),
        |i: int|
            match args[i] {
                CallArg::Param(p) => xs[p as int],
                CallArg::Fixed(v) => v,
            },
    )
}

/// Every parameter that `args` reads is one of `n` parameters.
pub open spec fn params_below<E>(args: Seq<CallArg<E>>, n: nat) -> bool {
    forall|i: int| 0 <= i < args.len() ==> match #[trigger] args[i] {
        CallArg::Param(p) => p < n,
        CallArg::Fixed(_) => true,
    }
}

/// Rewrites the slot list in one left-to-right pass: each placeholder gets a
/// fresh parameter, used at its own position in the call; each fixed
/// expression goes to the call unchanged.
pub fn rewrite<E: Copy>(owning: bool, target: E, slots: &Vec<Slot<E>>) -> (r: ClosurePlan<E>)
    ensures
        r.owning == owning,
        r.target == target,
        r.params@ == planned_params(slots@),
        r.call_args@ == planned_args(slots@),
{
    let mut params: Vec<usize> = Vec::new();
    let mut call_args: Vec<CallArg<E>> = Vec::new();
    let mut i: usize = 0;
    while i < slots.len()
        invariant
            i <= slots.len(),
            params.len() == hole_rank(slots@, i as int),
            forall|k: int| 0 <= k < params.len() ==> params@[k] == k as usize,
            call_args.len() == i,
            forall|k: int| 0 <= k < i ==> call_args@[k] == #[trigger] planned_args(slots@)[k],
        decreases slots.len() - i,
    {
        proof {
            lemma_hole_count_step(slots@, i as int);
        }
        match slots[i] {
            Slot::Placeholder => {
                let fresh = params.len();
                params.push(fresh);
                call_args.push(CallArg::Param(fresh));
            },
            Slot::Fixed(e) => {
                call_args.push(CallArg::Fixed(e));
            },
        }
        i = i + 1;
    }
    assert(slots@.take(slots.len() as int) =~= slots@);
    assert(params@ =~= planned_params(slots@));
    assert(call_args@ =~= planned_args(slots@));
    ClosurePlan { owning, target, params, call_args }
}

/// Binds the closure parameters to `xs` in the call arguments `args`.
pub fn substitute<T: Copy>(args: &Vec<CallArg<T>>, xs: &Vec<T>) -> (r: Vec<T>)
    requires
        params_below(args@, xs.len() as nat),
    ensures
        r@ == substituted(args@, xs@),
{
    let mut r: Vec<T> = Vec::new();
    let mut i: usize = 0;
    while i < args.len()
        invariant
            i <= args.len(),
            params_below(args@, xs.len() as nat),
            r.len() == i,
            forall|k: int| 0 <= k < i ==> r@[k] == #[trigger] substituted(args@, xs@)[k],
        decreases args.len() - i,
    {
        match args[i] {
            CallArg::Param(p) => {
                r.push(xs[p]);
            },
            CallArg::Fixed(v) => {
                r.push(v);
            },
        }
        i = i + 1;
    }
    assert(r@ =~= substituted(args@, xs@));
    r
}

/// The rewritten call reads only parameters that the closure has, and binding
/// them to `xs` gives the same argument list as filling the slots with `xs`.
pub proof fn lemma_rewrite_agrees_with_fill<T>(slots: Seq<Slot<T>>, xs: Seq<T>)
    requires
        slots.len() <= usize::MAX,
        xs.len() == hole_count(slots),
    ensures
        params_below(planned_args(slots), hole_count(slots)),
        substituted(planned_args(slots), xs) == filled(slots, xs),
{
    assert forall|i: int| 0 <= i < slots.len() && slots[i] is Placeholder implies hole_rank(slots, i)
        < hole_count(slots) by {
        lemma_rank_in_range(slots, i);
    }
    let lhs = substituted(planned_args(slots), xs);
    let rhs = filled(slots, xs);
    assert forall|i: int| 0 <= i < slots.len() implies lhs[i] == rhs[i] by {
        if slots[i] is Placeholder {
            lemma_rank_in_range(slots, i);
            lemma_hole_count_monotone(slots, 0, i);
            assert(slots.take(0).len() == 0);
        }
    }
    assert(lhs =~= rhs);
}

} // verus!
