use vstd::prelude::*;

verus! {

/// The fatal conditions that abort a run of the machine.
#[derive(Debug, Clone, Copy, PartialEq, Eq, Structural)]
pub enum MachineError {
    /// The two bytes of the next instruction do not both lie in memory.
    OutOfBoundsFetch,
    /// A call was made while every slot of the call stack was in use.
    StackOverflow,
    /// A return was made with an empty call stack.
    StackUnderflow,
    /// The instruction word has no handler; it is carried verbatim.
    UnimplementedOpcode(u16),
}

} // verus!
