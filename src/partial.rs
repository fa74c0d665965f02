//! A partially applied callable: the target and its slots, called with the
//! placeholders' arguments.
use vstd::prelude::*;
use crate::slot::{Slot, hole_count, filled, placeholder_count};
use crate::apply::{fill_arguments, evaluate_arguments, evaluated};

verus! {

/// The target callable with some of its arguments fixed. The target takes its
/// whole argument list; calling a `Partial` supplies only the placeholders.
pub struct Partial<F, T> {
    pub target: F,
    pub slots: Vec<Slot<T>>,
}

impl<F, T: Copy> Partial<F, T> {
    /// Fixes the arguments of `target` as `slots` says.
    pub fn new(target: F, slots: Vec<Slot<T>>) -> (r: Self)
        ensures
            r.target == target,
            r.slots@ == slots@,
    {
        Partial { target, slots }
    }

    /// The number of arguments that a call supplies.
    pub fn arity(&self) -> (r: usize)
        ensures
            r == hole_count(self.slots@),
    {
        placeholder_count(&self.slots)
    }

    /// Calls the target once, with the fixed values at their positions and
    /// `args`, in order, at the placeholders'.
    pub fn call<R>(&self, args: Vec<T>) -> (r: R) where F: Fn(Vec<T>) -> R
        requires
            args.len() == hole_count(self.slots@),
            forall|v: Vec<T>| v@ == filled(self.slots@, args@) ==> self.target.requires((v,)),
        ensures
            exists|v: Vec<T>| v@ == filled(self.slots@, args@) && self.target.ensures((v,), r),
    {
        let full = fill_arguments(&self.slots, &args);
        (self.target)(full)
    }

    /// Calls the target once, where each fixed slot holds an expression that
    /// `eval` computes on this call: nothing evaluated on an earlier call is kept.
    pub fn call_evaluating<U: Copy, R, G: Fn(T) -> U>(&self, eval: &G, args: Vec<U>) -> (r: R) where
        F: Fn(Vec<U>) -> R,

        requires
            args.len() == hole_count(self.slots@),
            forall|i: int|
                0 <= i < self.slots.len() && (#[trigger] self.slots@[i]) is Fixed ==> eval.requires(
                    (self.slots@[i]->Fixed_0,),
                ),
            forall|v: Vec<U>| evaluated(self.slots@, *eval, args@, v@) ==> self.target.requires((v,)),
        ensures
            exists|v: Vec<U>| evaluated(self.slots@, *eval, args@, v@) && self.target.ensures((v,), r),
    {
        let full = evaluate_arguments(&self.slots, eval, &args);
        (self.target)(full)
    }

    /// Calls the target once, giving it whatever the `Partial` owns.
    pub fn call_once<R>(self, args: Vec<T>) -> (r: R) where F: FnOnce(Vec<T>) -> R
        requires
            args.len() == hole_count(self.slots@),
            forall|v: Vec<T>| v@ == filled(self.slots@, args@) ==> self.target.requires((v,)),
        ensures
            exists|v: Vec<T>| v@ == filled(self.slots@, args@) && self.target.ensures((v,), r),
    {
        let full = fill_arguments(&self.slots, &args);
        (self.target)(full)
    }
}

} // verus!
