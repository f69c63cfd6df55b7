//! Arithmetic on 32-bit TCP sequence numbers.
//!
//! Sequence numbers live in a circular space modulo `2^32`, so they must
//! never be compared with the ordinary integer order. `precedes`-style
//! comparisons are made through [`wrapping_lt`], which looks at the
//! wrapped difference of the two numbers.

use vstd::prelude::*;

verus! {

/// One past the largest 32-bit value: the size of the sequence space.
pub const SEQ_SPACE: u64 = 0x1_0000_0000;

/// Half the sequence space; the wrapped difference of two numbers is
/// compared against this to decide circular precedence.
pub const SEQ_HALF: u32 = 0x8000_0000;

/// The wrapped difference `a - b` modulo `2^32`.
pub open spec fn seq_sub(a: u32, b: u32) -> u32 {
    if a >= b {
        (a - b) as u32
    } else {
        (a - b + SEQ_SPACE) as u32
    }
}

/// The wrapped sum `a + k` modulo `2^32`.
pub open spec fn seq_add(a: u32, k: u32) -> u32 {
    if a + k <= u32::MAX {
        (a + k) as u32
    } else {
        (a + k - SEQ_SPACE) as u32
    }
}

/// `a` strictly precedes `b` in the circular sequence space: the wrapped
/// difference `a - b` falls in the upper half of the space.
pub open spec fn seq_lt(a: u32, b: u32) -> bool {
    seq_sub(a, b) > SEQ_HALF
}

/// `x` lies strictly inside the circular open interval `(start, end)`.
pub open spec fn seq_between(start: u32, x: u32, end: u32) -> bool {
    seq_lt(start, x) && seq_lt(x, end)
}

/// Circular precedence test: true iff `lhs` is earlier than `rhs` in the
/// 32-bit sequence space.
pub fn wrapping_lt(lhs: u32, rhs: u32) -> (r: bool)
    ensures
        r == seq_lt(lhs, rhs),
{
    lhs.wrapping_sub(rhs) > SEQ_HALF
}

/// Open-interval membership test: true iff `x` is strictly between
/// `start` and `end` in the circular sequence space. Equality at either
/// boundary is never inside the interval.
pub fn is_boundary_valid(start: u32, x: u32, end: u32) -> (r: bool)
    ensures
        r == seq_between(start, x, end),
{
    wrapping_lt(start, x) && wrapping_lt(x, end)
}

/// The wrapped successor `a + k` modulo `2^32`, as executable code.
pub fn seq_add_exec(a: u32, k: u32) -> (r: u32)
    ensures
        r == seq_add(a, k),
{
    a.wrapping_add(k)
}

/// Circular precedence is irreflexive: no sequence number precedes itself.
pub proof fn lemma_precedes_irreflexive(a: u32)
    ensures
        !seq_lt(a, a),
{
}

/// Circular precedence is asymmetric wherever it is decisive: for two
/// distinct sequence numbers whose wrapped difference is not exactly half
/// the space, exactly one of them precedes the other. This holds across
/// the wrap boundary just as in the middle of the space.
pub proof fn lemma_precedes_asymmetric(a: u32, b: u32)
    requires
        a != b,
        seq_sub(a, b) != SEQ_HALF,
    ensures
        seq_lt(a, b) != seq_lt(b, a),
{
    assert(seq_sub(a, b) + seq_sub(b, a) == SEQ_SPACE);
}

} // verus!
