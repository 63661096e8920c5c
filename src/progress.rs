//! Why every run ends.
//!
//! Read the call stack bottom first, followed by the program counter. Each
//! continuing step either moves the address at the top level forward (an
//! add, or a call, whose pushed return address lies past the call), or
//! drops the top level (a return). Giving a dropped level the weight 0 and a
//! present address `a` the weight `65535 - a`, the seventeen weights decrease
//! lexicographically; read as digits in base 65536 they give a number that
//! decreases at every continuing step.
use vstd::prelude::*;
use crate::machine::{transition, Flow, CPU};
use crate::error::MachineError;
use crate::stack::STACK_CAPACITY;

verus! {

/// Base of the digits of `progress_upto`.
pub(crate) open spec fn digit_base() -> int {
    65536
}

/// The weight of nesting level `i` of `s`.
pub(crate) open spec fn level_rank(s: CPU, i: int) -> int {
    let d = s.stack@.len() as int;
    if i < d {
        65535 - s.stack@[i] as int
    } else if i == d {
        if s.position_in_memory <= 65535 {
            65535 - s.position_in_memory as int
        } else {
            0
        }
    } else {
        0
    }
}

/// Levels `0..=i` read as a number in base 65536, level 0 most significant.
pub(crate) open spec fn progress_upto(s: CPU, i: nat) -> int
    decreases i,
{
    if i == 0 {
        level_rank(s, 0)
    } else {
        progress_upto(s, (i - 1) as nat) * digit_base() + level_rank(s, i as int)
    }
}

/// The measure that each continuing step decreases.
pub(crate) open spec fn progress(s: CPU) -> int {
    progress_upto(s, STACK_CAPACITY as nat)
}

proof fn lemma_progress_nonneg(s: CPU, i: nat)
    ensures
        progress_upto(s, i) >= 0,
    decreases i,
{
    if i > 0 {
        lemma_progress_nonneg(s, (i - 1) as nat);
        let p = progress_upto(s, (i - 1) as nat);
        assert(p * digit_base() >= 0) by (nonlinear_arith)
            requires
                p >= 0,
        ;
    }
}

proof fn lemma_prefix_equal(pre: CPU, post: CPU, j: nat)
    requires
        forall|i: int| 0 <= i <= j ==> level_rank(post, i) == level_rank(pre, i),
    ensures
        progress_upto(post, j) == progress_upto(pre, j),
    decreases j,
{
    if j > 0 {
        lemma_prefix_equal(pre, post, (j - 1) as nat);
    }
}

proof fn lemma_first_drop_decreases(pre: CPU, post: CPU, k: nat, j: nat)
    requires
        k <= j,
        forall|i: int| 0 <= i < k ==> level_rank(post, i) == level_rank(pre, i),
        level_rank(post, k as int) < level_rank(pre, k as int),
    ensures
        progress_upto(post, j) < progress_upto(pre, j),
    decreases j,
{
    if j == k {
        if k > 0 {
            lemma_prefix_equal(pre, post, (k - 1) as nat);
        }
    } else {
        lemma_first_drop_decreases(pre, post, k, (j - 1) as nat);
        let a = progress_upto(post, (j - 1) as nat);
        let b = progress_upto(pre, (j - 1) as nat);
        let ra = level_rank(post, j as int);
        let rb = level_rank(pre, j as int);
        assert(0 <= ra < digit_base() && 0 <= rb);
        assert(a * digit_base() + ra < b * digit_base() + rb) by (nonlinear_arith)
            requires
                a < b,
                0 <= ra < digit_base(),
                0 <= rb,
        ;
    }
}

/// A continuing step from a state whose stack fits its capacity decreases
/// `progress` and keeps the stack within capacity.
pub(crate) proof fn lemma_step_progress(pre: CPU, post: CPU)
    requires
        pre.stack@.len() <= STACK_CAPACITY,
        transition(pre, post, Ok::<Flow, MachineError>(Flow::Continue)),
    ensures
        post.stack@.len() <= STACK_CAPACITY,
        0 <= progress(post) < progress(pre),
{
    lemma_progress_nonneg(post, STACK_CAPACITY as nat);
    lemma_first_drop_decreases(pre, post, pre.stack@.len(), STACK_CAPACITY as nat);
}

} // verus!
