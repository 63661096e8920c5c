//! Properties of the instruction set, stated over single cycles and runs.
use vstd::prelude::*;
use crate::decode::{class_of, d_of, decode_spec, lemma_fields_bounded, x_of, y_of, Instruction};
use crate::error::MachineError;
use crate::machine::{fetch_spec, is_run, only_pc_changed, transition, Flow, CPU};
use crate::stack::STACK_CAPACITY;

verus! {

/// `s` is about to execute the word `op`.
pub open spec fn fetches(s: CPU, op: u16) -> bool {
    fetch_spec(s.memory@, s.position_in_memory as int) == Some(op)
}

/// `s` is about to execute a call.
pub open spec fn fetches_call(s: CPU) -> bool {
    exists|op: u16| #[trigger] fetches(s, op) && decode_spec(op) is Call
}

/// `s` is about to execute a return.
pub open spec fn fetches_return(s: CPU) -> bool {
    exists|op: u16| #[trigger] fetches(s, op) && decode_spec(op) is Return
}

/// For every pair of operand values `a = Vx` and `b = Vy`, `ADD Vx, Vy`
/// leaves `(a + b) mod 256` in register `x` and the carry (1 exactly when
/// `a + b > 255`) in register 0xF. When `x` is 0xF itself, the carry
/// overwrites the sum, so the sum is claimed only for the other registers.
pub proof fn lemma_add_sum_and_carry(pre: CPU, post: CPU, r: Result<Flow, MachineError>, op: u16)
    requires
        fetches(pre, op),
        decode_spec(op) is AddXY,
        transition(pre, post, r),
    ensures
        ({
            let x = x_of(op) as int;
            let a = pre.registers@[x] as int;
            let b = pre.registers@[y_of(op) as int] as int;
            &&& r == Ok::<Flow, MachineError>(Flow::Continue)
            &&& x != 15 ==> post.registers@[x] == (a + b) % 256
            &&& post.registers@[15] == (if a + b > 255 {
                1u8
            } else {
                0u8
            })
        }),
{
    lemma_fields_bounded(op);
}

/// A call followed at its target by a return comes back to the instruction
/// after the call, with the stack and registers as they were before the call.
pub proof fn lemma_call_then_return(
    s0: CPU,
    s1: CPU,
    s2: CPU,
    r1: Result<Flow, MachineError>,
    r2: Result<Flow, MachineError>,
)
    requires
        s0.stack@.len() < STACK_CAPACITY,
        fetches_call(s0),
        transition(s0, s1, r1),
        fetches_return(s1),
        transition(s1, s2, r2),
    ensures
        r1 == Ok::<Flow, MachineError>(Flow::Continue),
        r2 == Ok::<Flow, MachineError>(Flow::Continue),
        s2.position_in_memory == s0.position_in_memory + 2,
        s2.stack@ == s0.stack@,
        s2.registers@ == s0.registers@,
        s2.memory@ == s0.memory@,
{
    let op0 = choose|op: u16| #[trigger] fetches(s0, op) && decode_spec(op) is Call;
    let op1 = choose|op: u16| #[trigger] fetches(s1, op) && decode_spec(op) is Return;
    assert(s2.stack@ =~= s0.stack@);
}

/// A call succeeds, one level deeper, while the stack has a free slot, and
/// fails with a stack overflow when all of its slots are in use.
pub proof fn lemma_call_depth(pre: CPU, post: CPU, r: Result<Flow, MachineError>)
    requires
        pre.stack@.len() <= STACK_CAPACITY,
        fetches_call(pre),
        transition(pre, post, r),
    ensures
        pre.stack@.len() < STACK_CAPACITY ==> r == Ok::<Flow, MachineError>(Flow::Continue)
            && post.stack@.len() == pre.stack@.len() + 1,
        pre.stack@.len() == STACK_CAPACITY ==> r == Err::<Flow, MachineError>(
            MachineError::StackOverflow,
        ),
{
    let op = choose|op: u16| #[trigger] fetches(pre, op) && decode_spec(op) is Call;
}

/// Starting from an empty stack, a chain of up to seventeen calls with no
/// return in between: the first sixteen succeed, each one level deeper, and
/// the seventeenth fails with a stack overflow.
pub proof fn lemma_nested_calls(trace: Seq<CPU>, outcomes: Seq<Result<Flow, MachineError>>)
    requires
        trace.len() == outcomes.len() + 1,
        outcomes.len() <= STACK_CAPACITY + 1,
        trace[0].stack@.len() == 0,
        forall|i: int|
            0 <= i < outcomes.len() ==> fetches_call(#[trigger] trace[i]) && transition(
                trace[i],
                trace[i + 1],
                outcomes[i],
            ),
    ensures
        forall|i: int|
            0 <= i < outcomes.len() && i < STACK_CAPACITY ==> #[trigger] outcomes[i] == Ok::<
                Flow,
                MachineError,
            >(Flow::Continue) && trace[i + 1].stack@.len() == i + 1,
        outcomes.len() == STACK_CAPACITY + 1 ==> outcomes[STACK_CAPACITY as int] == Err::<
            Flow,
            MachineError,
        >(MachineError::StackOverflow),
    decreases outcomes.len(),
{
    let n = outcomes.len() as int;
    if n > 0 {
        lemma_nested_calls(trace.drop_last(), outcomes.drop_last());
        assert(forall|i: int| 0 <= i < n - 1 ==> trace.drop_last()[i] == trace[i]);
        assert(forall|i: int| 0 <= i < n - 1 ==> outcomes.drop_last()[i] == outcomes[i]);
        let last = n - 1;
        assert(fetches_call(trace[last]) && transition(trace[last], trace[last + 1], outcomes[last]));
        if last > 0 {
            assert(outcomes.drop_last()[last - 1] == outcomes[last - 1]);
            assert(trace[last].stack@.len() == last);
        }
        lemma_call_depth(trace[last], trace[last + 1], outcomes[last]);
    }
}

/// A return with an empty call stack fails with a stack underflow.
pub proof fn lemma_return_on_empty_stack(pre: CPU, post: CPU, r: Result<Flow, MachineError>)
    requires
        pre.stack@.len() == 0,
        fetches_return(pre),
        transition(pre, post, r),
    ensures
        r == Err::<Flow, MachineError>(MachineError::StackUnderflow),
{
    let op = choose|op: u16| #[trigger] fetches(pre, op) && decode_spec(op) is Return;
}

/// The word 0x0000 is the halt instruction.
pub proof fn lemma_zero_is_halt()
    ensures
        decode_spec(0) == Instruction::Halt,
{
    assert(((0u16 & 0xF000) >> 12) == 0 && ((0u16 & 0x0F00) >> 8) == 0 && ((0u16 & 0x00F0) >> 4)
        == 0 && (0u16 & 0x000F) == 0) by (bit_vector);
}

/// Whatever memory holds, a run that fetches 0x0000 ends with that cycle:
/// it is the run's last, the outcome is `Ok`, and only the program counter
/// moved.
pub proof fn lemma_halt_ends_run(trace: Seq<CPU>, r: Result<(), MachineError>, i: int)
    requires
        is_run(trace, r),
        0 <= i < trace.len() - 1,
        fetches(trace[i], 0),
    ensures
        i == trace.len() - 2,
        r is Ok,
        only_pc_changed(trace[i], trace[i + 1], trace[i].position_in_memory + 2),
{
    lemma_zero_is_halt();
    if i < trace.len() - 2 {
        assert(transition(trace[i], trace[i + 1], Ok::<Flow, MachineError>(Flow::Continue)));
    } else if let Err(e) = r {
        assert(transition(trace[i], trace[i + 1], Err::<Flow, MachineError>(e)));
    }
}

/// A word whose nibbles match none of the four recognized patterns fails
/// with an unimplemented-opcode error that carries the word itself.
pub proof fn lemma_unrecognized_opcode(pre: CPU, post: CPU, r: Result<Flow, MachineError>, op: u16)
    requires
        fetches(pre, op),
        !(class_of(op) == 0 && x_of(op) == 0 && y_of(op) == 0 && d_of(op) == 0),
        !(class_of(op) == 0 && x_of(op) == 0 && y_of(op) == 0xE && d_of(op) == 0xE),
        class_of(op) != 2,
        !(class_of(op) == 8 && d_of(op) == 4),
        transition(pre, post, r),
    ensures
        r == Err::<Flow, MachineError>(MachineError::UnimplementedOpcode(op)),
        only_pc_changed(pre, post, pre.position_in_memory + 2),
{
}

} // verus!
