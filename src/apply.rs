//! Building the target's argument list from the slots and the supplied arguments.
use vstd::prelude::*;
use crate::slot::{Slot, hole_count, hole_rank, filled, lemma_hole_count_step, lemma_rank_in_range};

verus! {

/// The target's argument list for one call: each fixed slot gives its value, and
/// the placeholders take `xs` in order.
pub fn fill_arguments<T: Copy>(slots: &Vec<Slot<T>>, xs: &Vec<T>) -> (r: Vec<T>)
    requires
        xs.len() == hole_count(slots@),
    ensures
        r@ == filled(slots@, xs@),
{
    let mut r: Vec<T> = Vec::new();
    let mut next: usize = 0;
    let mut i: usize = 0;
    while i < slots.len()
        invariant
            i <= slots.len(),
            xs.len() == hole_count(slots@),
            next == hole_rank(slots@, i as int),
            r.len() == i,
            forall|k: int| 0 <= k < i ==> r@[k] == #[trigger] filled(slots@, xs@)[k],
        decreases slots.len() - i,
    {
        proof {
            lemma_hole_count_step(slots@, i as int);
        }
        match slots[i] {
            Slot::Placeholder => {
                proof {
                    lemma_rank_in_range(slots@, i as int);
                }
                r.push(xs[next]);
                next = next + 1;
            },
            Slot::Fixed(v) => {
                r.push(v);
            },
        }
        i = i + 1;
    }
    assert(r@ =~= filled(slots@, xs@));
    r
}

/// The target's argument list for one call, where each fixed slot holds an
/// expression that `eval` computes afresh: placeholders take `xs` in order, and
/// every fixed slot is evaluated once, left to right, on this call.
pub fn evaluate_arguments<E: Copy, T: Copy, G: Fn(E) -> T>(
    slots: &Vec<Slot<E>>,
    eval: &G,
    xs: &Vec<T>,
) -> (r: Vec<T>)
    requires
        xs.len() == hole_count(slots@),
        forall|i: int|
            0 <= i < slots.len() && (#[trigger] slots@[i]) is Fixed ==> eval.requires(
                (slots@[i]->Fixed_0,),
            ),
    ensures
        evaluated(slots@, *eval, xs@, r@),
{
    let mut r: Vec<T> = Vec::new();
    let mut next: usize = 0;
    let mut i: usize = 0;
    while i < slots.len()
        invariant
            i <= slots.len(),
            xs.len() == hole_count(slots@),
            forall|k: int|
                0 <= k < slots.len() && (#[trigger] slots@[k]) is Fixed ==> eval.requires(
                    (slots@[k]->Fixed_0,),
                ),
            next == hole_rank(slots@, i as int),
            r.len() == i,
            forall|k: int|
                0 <= k < i ==> match #[trigger] slots@[k] {
                    Slot::Placeholder => r@[k] == xs@[hole_rank(slots@, k) as int],
                    Slot::Fixed(e) => eval.ensures((e,), r@[k]),
                },
        decreases slots.len() - i,
    {
        proof {
            lemma_hole_count_step(slots@, i as int);
        }
        match slots[i] {
            Slot::Placeholder => {
                proof {
                    lemma_rank_in_range(slots@, i as int);
                }
                r.push(xs[next]);
                next = next + 1;
            },
            Slot::Fixed(e) => {
                let v = eval(e);
                r.push(v);
            },
        }
        i = i + 1;
    }
    r
}

/// `v` is an argument list that one call can hand the target: placeholders take
/// `xs` in order, and each fixed slot holds a value that `eval` may return for
/// its expression.
pub open spec fn evaluated<E, T, G: Fn(E) -> T>(slots: Seq<Slot<E>>, eval: G, xs: Seq<T>, v: Seq<T>) -> bool {
    &&& v.len() == slots.len()
    &&& forall|i: int|
        0 <= i < slots.len() ==> match #[trigger] slots[i] {
            Slot::Placeholder => v[i] == xs[hole_rank(slots, i) as int],
            Slot::Fixed(e) => eval.ensures((e,), v[i]),
        }
}

} // verus!
