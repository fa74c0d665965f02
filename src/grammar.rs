//! The invocation grammar, over token trees:
//! `move? TARGET (=> | , | ;) SLOT, SLOT, ..`, where a slot is `_` or an
//! expression, and one trailing comma is allowed.
use vstd::prelude::*;
use crate::slot::Slot;
use crate::rewrite::{ClosurePlan, rewrite, planned_params, planned_args};

verus! {

/// A token tree of an invocation. Delimited groups are single trees, so every
/// token of the list stands at the top level.
#[derive(Clone, Copy, Debug, PartialEq, Eq)]
pub enum Token<A> {
    /// The keyword `move`.
    Move,
    /// `=>`
    FatArrow,
    /// `,`
    Comma,
    /// `;`
    Semi,
    /// The placeholder `_`.
    Underscore,
    /// Any other token tree: an identifier, a literal, a punctuation mark, a group.
    Tree(A),
}

/// The tokens `start .. end` of an invocation.
#[derive(Clone, Copy, Debug, PartialEq, Eq)]
pub struct Span {
    pub start: usize,
    pub end: usize,
}

/// Why an invocation does not parse.
#[derive(Clone, Copy, Debug, PartialEq, Eq)]
pub enum SyntaxError {
    /// No `=>`, `,` or `;` follows the target.
    MissingSeparator,
    /// The separator comes before any token of the target.
    EmptyTarget,
    /// A comma at this position ends a slot that holds no token.
    EmptySlot(usize),
    /// A `=>` or `;` at this position stands among the slots.
    UnexpectedToken(usize),
}

/// A parsed invocation.
#[derive(Clone, Debug)]
pub struct Invocation {
    /// Whether it began with `move`.
    pub owning: bool,
    /// The tokens of the target callable.
    pub target: Span,
    /// The slots, in order; a fixed slot holds the span of its expression.
    pub slots: Vec<Slot<Span>>,
}

pub open spec fn is_separator<A>(t: Token<A>) -> bool {
    t is Comma || t is Semi || t is FatArrow
}

/// Where the target begins: after a leading `move`, if there is one.
pub open spec fn target_start<A>(ts: Seq<Token<A>>) -> int {
    if ts.len() > 0 && ts[0] is Move { 1 } else { 0 }
}

/// The first separator at or after `i`, or the end.
pub open spec fn first_separator<A>(ts: Seq<Token<A>>, i: int) -> int
    decreases ts.len() - i,
{
    if i >= ts.len() {
        ts.len() as int
    } else if is_separator(ts[i]) {
        i
    } else {
        first_separator(ts, i + 1)
    }
}

/// The slot made of the tokens `start .. end`: a lone `_` is a placeholder.
pub open spec fn slot_of<A>(ts: Seq<Token<A>>, start: int, end: int) -> Slot<Span> {
    if end == start + 1 && ts[start] is Underscore {
        Slot::Placeholder
    } else {
        Slot::Fixed(Span { start: start as usize, end: end as usize })
    }
}

/// `acc` followed by the slots of `r`, or the error of `r`.
pub open spec fn prepend(acc: Seq<Slot<Span>>, r: Result<Seq<Slot<Span>>, SyntaxError>) -> Result<
    Seq<Slot<Span>>,
    SyntaxError,
> {
    match r {
        Ok(s) => Ok(acc + s),
        Err(e) => Err(e),
    }
}

/// The slots of the tokens from `start` on, where the current slot began at
/// `start` and the tokens `start .. i` hold no separator.
pub open spec fn slots_from<A>(ts: Seq<Token<A>>, start: int, i: int) -> Result<
    Seq<Slot<Span>>,
    SyntaxError,
>
    decreases ts.len() - i,
{
    if i >= ts.len() {
        if start >= ts.len() {
            Ok(Seq::empty())
        } else {
            Ok(seq![slot_of(ts, start, ts.len() as int)])
        }
    } else if ts[i] is Semi || ts[i] is FatArrow {
        Err(SyntaxError::UnexpectedToken(i as usize))
    } else if ts[i] is Comma {
        if i == start {
            Err(SyntaxError::EmptySlot(i as usize))
        } else {
            prepend(seq![slot_of(ts, start, i)], slots_from(ts, i + 1, i + 1))
        }
    } else {
        slots_from(ts, start, i + 1)
    }
}

/// The meaning of an invocation: whether it owns its captures, the target's
/// span and the slots; or the first syntax error.
pub open spec fn parsed<A>(ts: Seq<Token<A>>) -> Result<(bool, Span, Seq<Slot<Span>>), SyntaxError> {
    let head = target_start(ts);
    let sep = first_separator(ts, head);
    if sep >= ts.len() {
        Err(SyntaxError::MissingSeparator)
    } else if sep == head {
        Err(SyntaxError::EmptyTarget)
    } else {
        match slots_from(ts, sep + 1, sep + 1) {
            Ok(slots) => Ok((head == 1, Span { start: head as usize, end: sep as usize }, slots)),
            Err(e) => Err(e),
        }
    }
}

/// Reads the slot list that begins at `from`.
fn parse_slots<A>(ts: &Vec<Token<A>>, from: usize) -> (r: Result<Vec<Slot<Span>>, SyntaxError>)
    requires
        from <= ts.len(),
    ensures
        match r {
            Ok(s) => slots_from(ts@, from as int, from as int) == Ok::<Seq<Slot<Span>>, SyntaxError>(s@),
            Err(e) => slots_from(ts@, from as int, from as int) == Err::<Seq<Slot<Span>>, SyntaxError>(e),
        },
{
    let mut acc: Vec<Slot<Span>> = Vec::new();
    let mut start: usize = from;
    let mut i: usize = from;
    while i < ts.len()
        invariant
            from <= start <= i <= ts.len(),
            slots_from(ts@, from as int, from as int) == prepend(acc@, slots_from(ts@, start as int, i as int)),
        decreases ts.len() - i,
    {
        match &ts[i] {
            Token::Semi | Token::FatArrow => {
                return Err(SyntaxError::UnexpectedToken(i));
            },
            Token::Comma => {
                if i == start {
                    return Err(SyntaxError::EmptySlot(i));
                }
                let slot = slot_at(ts, start, i);
                proof {
                    let rest = slots_from(ts@, i + 1, i + 1);
                    match rest {
                        Ok(s) => {
                            assert(acc@ + (seq![slot] + s) =~= acc@.push(slot) + s);
                        },
                        Err(_) => {},
                    }
                }
                acc.push(slot);
                start = i + 1;
            },
            _ => {},
        }
        i = i + 1;
    }
    if start < ts.len() {
        let slot = slot_at(ts, start, ts.len());
        acc.push(slot);
    } else {
        assert(acc@ + Seq::<Slot<Span>>::empty() =~= acc@);
    }
    Ok(acc)
}

/// The slot made of the tokens `start .. end`.
fn slot_at<A>(ts: &Vec<Token<A>>, start: usize, end: usize) -> (r: Slot<Span>)
    requires
        start < end <= ts.len(),
    ensures
        r == slot_of(ts@, start as int, end as int),
{
    if end == start + 1 {
        if let Token::Underscore = &ts[start] {
            return Slot::Placeholder;
        }
    }
    Slot::Fixed(Span { start, end })
}

/// Parses an invocation.
pub fn parse_invocation<A>(ts: &Vec<Token<A>>) -> (r: Result<Invocation, SyntaxError>)
    ensures
        match r {
            Ok(inv) => parsed(ts@) == Ok::<(bool, Span, Seq<Slot<Span>>), SyntaxError>(
                (inv.owning, inv.target, inv.slots@),
            ),
            Err(e) => parsed(ts@) == Err::<(bool, Span, Seq<Slot<Span>>), SyntaxError>(e),
        },
{
    let owning = ts.len() > 0 && matches!(ts[0], Token::Move);
    let head: usize = if owning { 1 } else { 0 };
    let mut sep: usize = head;
    while sep < ts.len() && !is_separator_token(&ts[sep])
        invariant
            head <= sep <= ts.len(),
            head == target_start(ts@),
            first_separator(ts@, head as int) == first_separator(ts@, sep as int),
        decreases ts.len() - sep,
    {
        sep = sep + 1;
    }
    if sep >= ts.len() {
        return Err(SyntaxError::MissingSeparator);
    }
    if sep == head {
        return Err(SyntaxError::EmptyTarget);
    }
    match parse_slots(ts, sep + 1) {
        Ok(slots) => Ok(Invocation { owning, target: Span { start: head, end: sep }, slots }),
        Err(e) => Err(e),
    }
}

fn is_separator_token<A>(t: &Token<A>) -> (r: bool)
    ensures
        r == is_separator(*t),
{
    match t {
        Token::Comma | Token::Semi | Token::FatArrow => true,
        _ => false,
    }
}

/// Whether the tokens form a well-formed invocation.
pub fn syntax_check<A>(ts: &Vec<Token<A>>) -> (r: bool)
    ensures
        r == parsed(ts@) is Ok,
{
    parse_invocation(ts).is_ok()
}

/// Parses an invocation and rewrites it into the closure it stands for.
pub fn expand<A>(ts: &Vec<Token<A>>) -> (r: Result<ClosurePlan<Span>, SyntaxError>)
    ensures
        r is Ok <==> parsed(ts@) is Ok,
        r is Err ==> r->Err_0 == parsed(ts@)->Err_0,
        r is Ok ==> ({
            let (owning, target, slots) = parsed(ts@)->Ok_0;
            let plan = r->Ok_0;
            &&& plan.owning == owning
            &&& plan.target == target
            &&& plan.params@ == planned_params(slots)
            &&& plan.call_args@ == planned_args(slots)
        }),
{
    match parse_invocation(ts) {
        Ok(inv) => Ok(rewrite(inv.owning, inv.target, &inv.slots)),
        Err(e) => Err(e),
    }
}

} // verus!
