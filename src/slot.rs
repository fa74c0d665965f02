//! Argument slots and the argument list that a call of a partial application builds.
use vstd::prelude::*;

verus! {

/// One position of the target's argument list.
#[derive(Clone, Copy, Debug, PartialEq, Eq)]
pub enum Slot<E> {
    /// Forwarded, in order, from the arguments of the produced closure.
    Placeholder,
    /// Passed to the target at this position on every call.
    Fixed(E),
}

/// The number of placeholders in `s`.
pub open spec fn hole_count<E>(s: Seq<Slot<E>>) -> nat
    decreases s.len(),
{
    if s.len() == 0 {
        0
    } else {
        hole_count(s.drop_last()) + if s.last() is Placeholder { 1nat } else { 0nat }
    }
}

/// The number of placeholders before position `i`: the closure parameter that a
/// placeholder at `i` reads.
pub open spec fn hole_rank<E>(s: Seq<Slot<E>>, i: int) -> nat {
    hole_count(s.take(i))
}

/// The target's argument list when the closure over `slots` is called with `xs`.
pub open spec fn filled<T>(slots: Seq<Slot<T>>, xs: Seq<T>) -> Seq<T> {
    Seq::new(
        slots.len(),
        |i: int|
            match slots[i] {
                Slot::Placeholder => xs[hole_rank(slots, i) as int],
                Slot::Fixed(v) => v,
            },
    )
}

/// Counting the placeholders one position further.
pub proof fn lemma_hole_count_step<E>(s: Seq<Slot<E>>, i: int)
    requires
        0 <= i < s.len(),
    ensures
        hole_count(s.take(i + 1)) == hole_count(s.take(i)) + if s[i] is Placeholder { 1nat } else { 0nat },
{
    assert(s.take(i + 1).drop_last() =~= s.take(i));
}

/// No prefix holds more placeholders than a longer one.
pub proof fn lemma_hole_count_monotone<E>(s: Seq<Slot<E>>, i: int, j: int)
    requires
        0 <= i <= j <= s.len(),
    ensures
        hole_count(s.take(i)) <= hole_count(s.take(j)),
        hole_count(s.take(j)) <= hole_count(s.take(i)) + (j - i),
    decreases j - i,
{
    if i < j {
        lemma_hole_count_monotone(s, i, j - 1);
        lemma_hole_count_step(s, j - 1);
    }
}

/// A placeholder reads a closure parameter that exists.
pub proof fn lemma_rank_in_range<E>(s: Seq<Slot<E>>, i: int)
    requires
        0 <= i < s.len(),
        s[i] is Placeholder,
    ensures
        hole_rank(s, i) < hole_count(s),
{
    lemma_hole_count_step(s, i);
    lemma_hole_count_monotone(s, i + 1, s.len() as int);
    assert(s.take(s.len() as int) =~= s);
}

/// The number of placeholders, counted by a loop.
pub fn placeholder_count<E>(slots: &Vec<Slot<E>>) -> (r: usize)
    ensures
        r == hole_count(slots@),
{
    let mut n: usize = 0;
    let mut i: usize = 0;
    while i < slots.len()
        invariant
            i <= slots.len(),
            n == hole_count(slots@.take(i as int)),
            n <= i,
        decreases slots.len() - i,
    {
        proof {
            lemma_hole_count_step(slots@, i as int);
        }
        if slots[i].is_placeholder() {
            n = n + 1;
        }
        i = i + 1;
    }
    assert(slots@.take(slots.len() as int) =~= slots@);
    n
}

impl<E> Slot<E> {
    /// Whether this slot is forwarded from the closure's arguments.
    pub fn is_placeholder(&self) -> (r: bool)
        ensures
            r == self is Placeholder,
    {
        match self {
            Slot::Placeholder => true,
            Slot::Fixed(_) => false,
        }
    }
}

} // verus!
