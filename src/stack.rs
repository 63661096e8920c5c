use vstd::prelude::*;
use crate::error::MachineError;

verus! {

/// Number of return addresses the call stack can hold.
pub const STACK_CAPACITY: usize = 16;

/// A bounded stack of 16-bit return addresses.
///
/// The slots at and above `pointer` are unused; only the first `pointer`
/// slots make up the stack's contents.
#[derive(Debug)]
pub struct CallStack {
    slots: [u16; 16],
    pointer: usize,
}

impl CallStack {
    #[verifier::type_invariant]
    spec fn inv(self) -> bool {
        self.pointer <= STACK_CAPACITY
    }

    /// The addresses on the stack, bottom first.
    pub closed spec fn view(&self) -> Seq<u16> {
        self.slots@.subrange(0, self.pointer as int)
    }

    /// An empty stack.
    pub fn new() -> (r: CallStack)
        ensures
            r@ == Seq::<u16>::empty(),
    {
        let r = CallStack { slots: [0u16; 16], pointer: 0 };
        assert(r@ =~= Seq::<u16>::empty());
        r
    }

    /// The number of addresses on the stack (the stack pointer).
    pub fn depth(&self) -> (r: usize)
        ensures
            r == self@.len(),
            r <= STACK_CAPACITY,
    {
        proof {
            use_type_invariant(self);
        }
        self.pointer
    }

    /// Pushes `addr`, or reports an overflow and leaves the stack as it was
    /// when all 16 slots are in use.
    pub fn push(&mut self, addr: u16) -> (r: Result<(), MachineError>)
        ensures
            old(self)@.len() < STACK_CAPACITY ==> r == Ok::<(), MachineError>(()) && final(self)@
                == old(self)@.push(addr),
            old(self)@.len() >= STACK_CAPACITY ==> r == Err::<(), MachineError>(
                MachineError::StackOverflow,
            ) && final(self)@ == old(self)@,
            final(self)@.len() <= STACK_CAPACITY,
    {
        proof {
            use_type_invariant(&*self);
        }
        if self.pointer >= STACK_CAPACITY {
            return Err(MachineError::StackOverflow);
        }
        self.slots[self.pointer] = addr;
        self.pointer = self.pointer + 1;
        assert(self@ =~= old(self)@.push(addr));
        Ok(())
    }

    /// Pops the top address, or reports an underflow and leaves the stack as
    /// it was when it is empty.
    pub fn pop(&mut self) -> (r: Result<u16, MachineError>)
        ensures
            old(self)@.len() > 0 ==> r == Ok::<u16, MachineError>(old(self)@.last()) && final(self)@
                == old(self)@.drop_last(),
            old(self)@.len() == 0 ==> r == Err::<u16, MachineError>(MachineError::StackUnderflow)
                && final(self)@ == old(self)@,
            final(self)@.len() <= STACK_CAPACITY,
    {
        proof {
            use_type_invariant(&*self);
        }
        if self.pointer == 0 {
            return Err(MachineError::StackUnderflow);
        }
        self.pointer = self.pointer - 1;
        let addr = self.slots[self.pointer];
        assert(self@ =~= old(self)@.drop_last());
        Ok(addr)
    }
}

} // verus!
