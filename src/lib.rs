//! Partial application of a callable over a fixed list of argument slots.
//!
//! A slot is either a placeholder, forwarded from the produced closure, or a
//! fixed value, passed to the target at its own position on every call. The
//! invocation `move? target => slot, slot, ..` is parsed from token trees and
//! rewritten into a closure whose parameters are the placeholders, in order.

pub mod slot;
pub mod apply;
pub mod rewrite;
pub mod grammar;
pub mod partial;
pub mod laws;
