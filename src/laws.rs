//! What holds of every partial application.
use vstd::prelude::*;
use crate::slot::{
    Slot,
    hole_count,
    hole_rank,
    filled,
    lemma_hole_count_step,
    lemma_hole_count_monotone,
};
use crate::grammar::{Token, Span, SyntaxError, is_separator, target_start, first_separator, slot_of, slots_from, parsed};

verus! {

/// Every closure parameter number below `hole_count(s)` is read by some placeholder.
proof fn lemma_rank_onto<E>(s: Seq<Slot<E>>, k: nat)
    requires
        k < hole_count(s),
    ensures
        exists|i: int| 0 <= i < s.len() && s[i] is Placeholder && #[trigger] hole_rank(s, i) == k,
    decreases s.len(),
{
    let p = s.drop_last();
    if k < hole_count(p) {
        lemma_rank_onto(p, k);
        let i = choose|i: int| 0 <= i < p.len() && p[i] is Placeholder && #[trigger] hole_rank(p, i) == k;
        assert(s.take(i) =~= p.take(i));
        assert(hole_rank(s, i) == k);
    } else {
        let i = s.len() - 1;
        assert(s.take(i) =~= p);
        assert(hole_rank(s, i) == k);
    }
}

/// The position of the placeholder that reads closure parameter `k`.
pub open spec fn hole_position<E>(s: Seq<Slot<E>>, k: int) -> int {
    choose|i: int| 0 <= i < s.len() && s[i] is Placeholder && #[trigger] hole_rank(s, i) == k
}

/// Order is kept: the placeholders read the closure's arguments left to right,
/// each exactly once, and every fixed slot passes its own value at its own
/// position.
pub proof fn lemma_order_preserved<T>(slots: Seq<Slot<T>>, xs: Seq<T>)
    requires
        xs.len() == hole_count(slots),
    ensures
        filled(slots, xs).len() == slots.len(),
        forall|i: int, j: int|
            0 <= i < j < slots.len() && slots[i] is Placeholder && slots[j] is Placeholder
                ==> hole_rank(slots, i) < hole_rank(slots, j),
        forall|k: int|
            0 <= k < xs.len() ==> {
                let i = #[trigger] hole_position(slots, k);
                &&& 0 <= i < slots.len()
                &&& slots[i] is Placeholder
                &&& hole_rank(slots, i) == k
                &&& filled(slots, xs)[i] == xs[k]
            },
        forall|i: int|
            0 <= i < slots.len() && (#[trigger] slots[i]) is Fixed ==> filled(slots, xs)[i]
                == slots[i]->Fixed_0,
{
    assert forall|i: int, j: int|
        0 <= i < j < slots.len() && slots[i] is Placeholder && slots[j]
            is Placeholder implies hole_rank(slots, i) < hole_rank(slots, j) by {
        lemma_hole_count_step(slots, i);
        lemma_hole_count_monotone(slots, i + 1, j);
    }
    assert forall|k: int| 0 <= k < xs.len() implies {
        let i = #[trigger] hole_position(slots, k);
        &&& 0 <= i < slots.len()
        &&& slots[i] is Placeholder
        &&& hole_rank(slots, i) == k
        &&& filled(slots, xs)[i] == xs[k]
    } by {
        lemma_rank_onto(slots, k as nat);
    }
}

/// A binary target with its first argument fixed at `a` and called with `b`,
/// and one with its second fixed at `b` and called with `a`, both receive `a, b`.
pub proof fn lemma_binary_order<T>(a: T, b: T)
    ensures
        filled(seq![Slot::Fixed(a), Slot::Placeholder], seq![b]) == seq![a, b],
        filled(seq![Slot::Placeholder, Slot::Fixed(b)], seq![a]) == seq![a, b],
{
    let s1 = seq![Slot::Fixed(a), Slot::Placeholder];
    let s2 = seq![Slot::Placeholder, Slot::Fixed(b)];
    assert(s1.take(1) =~= seq![Slot::Fixed(a)]);
    assert(s1.take(1).drop_last() =~= Seq::<Slot<T>>::empty());
    assert(hole_count(s1.take(1).drop_last()) == 0);
    assert(s2.take(0) =~= Seq::<Slot<T>>::empty());
    assert(hole_rank(s1, 1) == 0);
    assert(hole_rank(s2, 0) == 0);
    assert(filled(s1, seq![b]) =~= seq![a, b]);
    assert(filled(s2, seq![a]) =~= seq![a, b]);
}

/// With only placeholders the closure takes as many arguments as the target
/// and passes them on unchanged.
pub proof fn lemma_all_placeholders<T>(slots: Seq<Slot<T>>, xs: Seq<T>)
    requires
        forall|i: int| 0 <= i < slots.len() ==> (#[trigger] slots[i]) is Placeholder,
        xs.len() == slots.len(),
    ensures
        hole_count(slots) == slots.len(),
        filled(slots, xs) == xs,
{
    assert forall|i: int| 0 <= i <= slots.len() implies hole_count(#[trigger] slots.take(i)) == i by {
        lemma_prefix_all_holes(slots, i);
    }
    assert(slots.take(slots.len() as int) =~= slots);
    assert(filled(slots, xs) =~= xs);
}

proof fn lemma_prefix_all_holes<T>(slots: Seq<Slot<T>>, i: int)
    requires
        forall|k: int| 0 <= k < slots.len() ==> (#[trigger] slots[k]) is Placeholder,
        0 <= i <= slots.len(),
    ensures
        hole_count(slots.take(i)) == i,
    decreases i,
{
    if i == 0 {
        assert(slots.take(0).len() == 0);
    } else {
        lemma_prefix_all_holes(slots, i - 1);
        lemma_hole_count_step(slots, i - 1);
    }
}

/// With no placeholders the closure takes no arguments, and every call hands
/// the target the same list: the fixed values, in order.
pub proof fn lemma_no_placeholders<T>(slots: Seq<Slot<T>>)
    requires
        forall|i: int| 0 <= i < slots.len() ==> (#[trigger] slots[i]) is Fixed,
    ensures
        hole_count(slots) == 0,
        filled(slots, Seq::empty()) == Seq::new(slots.len(), |i: int| slots[i]->Fixed_0),
{
    assert forall|i: int| 0 <= i <= slots.len() implies hole_count(#[trigger] slots.take(i)) == 0 by {
        lemma_prefix_no_holes(slots, i);
    }
    assert(slots.take(slots.len() as int) =~= slots);
    assert(filled(slots, Seq::empty()) =~= Seq::new(slots.len(), |i: int| slots[i]->Fixed_0));
}

proof fn lemma_prefix_no_holes<T>(slots: Seq<Slot<T>>, i: int)
    requires
        forall|k: int| 0 <= k < slots.len() ==> (#[trigger] slots[k]) is Fixed,
        0 <= i <= slots.len(),
    ensures
        hole_count(slots.take(i)) == 0,
    decreases i,
{
    if i == 0 {
        assert(slots.take(0).len() == 0);
    } else {
        lemma_prefix_no_holes(slots, i - 1);
        lemma_hole_count_step(slots, i - 1);
    }
}

/// A trailing comma after the last slot changes nothing: an invocation that
/// parses and does not end in a separator parses to the same closure with one
/// comma more.
pub proof fn lemma_trailing_comma<A>(ts: Seq<Token<A>>)
    requires
        parsed(ts) is Ok,
        ts.len() > 0,
        !is_separator(ts.last()),
    ensures
        parsed(ts.push(Token::Comma)) == parsed(ts),
{
    let head = target_start(ts);
    let longer = ts.push(Token::Comma);
    assert(longer[0] == ts[0]);
    assert(target_start(longer) == head);
    lemma_first_separator_kept(ts, head);
    let sep = first_separator(ts, head);
    lemma_first_separator_found(ts, head);
    lemma_slots_kept(ts, sep + 1, sep + 1);
}

proof fn lemma_first_separator_found<A>(ts: Seq<Token<A>>, i: int)
    requires
        0 <= i <= ts.len(),
    ensures
        i <= first_separator(ts, i) <= ts.len(),
        first_separator(ts, i) < ts.len() ==> is_separator(ts[first_separator(ts, i)]),
    decreases ts.len() - i,
{
    if i < ts.len() && !is_separator(ts[i]) {
        lemma_first_separator_found(ts, i + 1);
    }
}

proof fn lemma_first_separator_kept<A>(ts: Seq<Token<A>>, i: int)
    requires
        0 <= i <= ts.len(),
        first_separator(ts, i) < ts.len(),
    ensures
        first_separator(ts.push(Token::Comma), i) == first_separator(ts, i),
    decreases ts.len() - i,
{
    let longer = ts.push(Token::Comma);
    if i < ts.len() {
        assert(longer[i] == ts[i]);
        if !is_separator(ts[i]) {
            lemma_first_separator_kept(ts, i + 1);
        }
    }
}

proof fn lemma_slots_kept<A>(ts: Seq<Token<A>>, start: int, i: int)
    requires
        0 <= start <= i <= ts.len(),
        start < ts.len(),
        !is_separator(ts.last()),
    ensures
        slots_from(ts.push(Token::Comma), start, i) == slots_from(ts, start, i),
    decreases ts.len() - i,
{
    let longer = ts.push(Token::Comma);
    if i < ts.len() {
        assert(longer[i] == ts[i]);
        if ts[i] is Comma {
            if i != start {
                assert(slot_of(longer, start, i) == slot_of(ts, start, i));
                lemma_slots_kept(ts, i + 1, i + 1);
            }
        } else if !(ts[i] is Semi || ts[i] is FatArrow) {
            lemma_slots_kept(ts, start, i + 1);
        }
    } else {
        assert(longer[i] is Comma);
        assert(slot_of(longer, start, i) == slot_of(ts, start, i));
        assert(slots_from(longer, i + 1, i + 1) == Ok::<Seq<Slot<Span>>, SyntaxError>(Seq::empty()));
        let one = seq![slot_of(ts, start, i)];
        assert(one + Seq::empty() =~= one);
    }
}

} // verus!
