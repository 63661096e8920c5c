use vstd::prelude::*;
use crate::decode::{decode, decode_spec, Instruction};
use crate::error::MachineError;
use crate::stack::{CallStack, STACK_CAPACITY};
use crate::progress::{lemma_step_progress, progress};

verus! {

/// Number of addressable bytes of memory.
pub const MEMORY_SIZE: usize = 4096;

/// Index of the register that arithmetic uses as its carry flag.
pub const FLAG_REGISTER: usize = 15;

/// The state of the virtual CPU.
///
/// Registers and memory are plain storage: a loader may write a program
/// and initial register values before `run`, and an observer may read them
/// afterwards.
#[derive(Debug)]
pub struct CPU {
    /// The sixteen 8-bit general-purpose registers; 0xF doubles as the carry flag.
    pub registers: [u8; 16],
    /// The program counter: where the next instruction is fetched.
    pub position_in_memory: usize,
    /// The machine's memory, holding big-endian two-byte instructions.
    pub memory: [u8; 4096],
    /// The return addresses of the subroutine calls in progress.
    pub stack: CallStack,
}

/// What one executed instruction leaves the run to do.
#[derive(Debug, Clone, Copy, PartialEq, Eq, Structural)]
pub enum Flow {
    /// Fetch the next instruction.
    Continue,
    /// The halt instruction was executed: the run is over.
    Halt,
}

/// The instruction word at `p`: byte `p` is its high half, byte `p + 1` its
/// low half. `None` when `p + 1` is not an index of `mem`.
pub open spec fn fetch_spec(mem: Seq<u8>, p: int) -> Option<u16> {
    if 0 <= p && p + 1 < mem.len() {
        Some((mem[p] as int * 256 + mem[p + 1] as int) as u16)
    } else {
        None
    }
}

/// The register file after `ADD Vx, Vy`: register `x` takes the sum modulo
/// 256, then register 0xF takes 1 if the sum exceeded 255 and 0 otherwise.
pub open spec fn add_registers(regs: Seq<u8>, x: int, y: int) -> Seq<u8> {
    let sum = regs[x] as int + regs[y] as int;
    regs.update(x, (sum % 256) as u8).update(
        FLAG_REGISTER as int,
        if sum > 255 {
            1u8
        } else {
            0u8
        },
    )
}

/// `post` is `pre` with the program counter set to `pc` and nothing else changed.
pub open spec fn only_pc_changed(pre: CPU, post: CPU, pc: int) -> bool {
    &&& post.registers@ == pre.registers@
    &&& post.memory@ == pre.memory@
    &&& post.stack@ == pre.stack@
    &&& post.position_in_memory == pc
}

/// One fetch-decode-execute cycle takes `pre` to `post` with outcome `r`.
///
/// A failed fetch changes nothing. Otherwise the program counter moves past
/// the fetched word before the instruction runs, and a failing instruction
/// changes nothing more.
pub open spec fn transition(pre: CPU, post: CPU, r: Result<Flow, MachineError>) -> bool {
    match fetch_spec(pre.memory@, pre.position_in_memory as int) {
        None => r == Err::<Flow, MachineError>(MachineError::OutOfBoundsFetch) && only_pc_changed(
            pre,
            post,
            pre.position_in_memory as int,
        ),
        Some(op) => {
            let next = pre.position_in_memory + 2;
            match decode_spec(op) {
                Instruction::Halt => r == Ok::<Flow, MachineError>(Flow::Halt) && only_pc_changed(
                    pre,
                    post,
                    next,
                ),
                Instruction::Return => if pre.stack@.len() == 0 {
                    r == Err::<Flow, MachineError>(MachineError::StackUnderflow)
                        && only_pc_changed(pre, post, next)
                } else {
                    &&& r == Ok::<Flow, MachineError>(Flow::Continue)
                    &&& post.registers@ == pre.registers@
                    &&& post.memory@ == pre.memory@
                    &&& post.stack@ == pre.stack@.drop_last()
                    &&& post.position_in_memory == pre.stack@.last()
                },
                Instruction::Call(addr) => if pre.stack@.len() >= STACK_CAPACITY {
                    r == Err::<Flow, MachineError>(MachineError::StackOverflow)
                        && only_pc_changed(pre, post, next)
                } else {
                    &&& r == Ok::<Flow, MachineError>(Flow::Continue)
                    &&& post.registers@ == pre.registers@
                    &&& post.memory@ == pre.memory@
                    &&& post.stack@ == pre.stack@.push(next as u16)
                    &&& post.position_in_memory == addr
                },
                Instruction::AddXY(x, y) => {
                    &&& r == Ok::<Flow, MachineError>(Flow::Continue)
                    &&& post.registers@ == add_registers(pre.registers@, x as int, y as int)
                    &&& post.memory@ == pre.memory@
                    &&& post.stack@ == pre.stack@
                    &&& post.position_in_memory == next
                },
                Instruction::Unimplemented(w) => r == Err::<Flow, MachineError>(
                    MachineError::UnimplementedOpcode(w),
                ) && only_pc_changed(pre, post, next),
            }
        },
    }
}

/// `trace` is a run: every step but the last continues, and the last one
/// halts (outcome `Ok`) or fails with the outcome's error.
pub open spec fn is_run(trace: Seq<CPU>, r: Result<(), MachineError>) -> bool {
    let n = trace.len() as int;
    &&& n >= 2
    &&& forall|i: int|
        0 <= i < n - 2 ==> transition(
            #[trigger] trace[i],
            trace[i + 1],
            Ok::<Flow, MachineError>(Flow::Continue),
        )
    &&& match r {
        Ok(()) => transition(trace[n - 2], trace[n - 1], Ok::<Flow, MachineError>(Flow::Halt)),
        Err(e) => transition(trace[n - 2], trace[n - 1], Err::<Flow, MachineError>(e)),
    }
}

/// Running from `pre` ends in `post` with outcome `r`.
pub open spec fn runs_to(pre: CPU, post: CPU, r: Result<(), MachineError>) -> bool {
    exists|trace: Seq<CPU>|
        #![trigger is_run(trace, r)]
        trace[0] == pre && trace.last() == post && is_run(trace, r)
}

impl CPU {
    /// A machine with zeroed registers and memory, the program counter at 0
    /// and an empty call stack.
    pub fn init() -> (r: CPU)
        ensures
            forall|i: int| 0 <= i < 16 ==> r.registers@[i] == 0,
            forall|i: int| 0 <= i < MEMORY_SIZE ==> r.memory@[i] == 0,
            r.position_in_memory == 0,
            r.stack@ == Seq::<u16>::empty(),
    {
        CPU {
            registers: [0u8; 16],
            memory: [0u8; 4096],
            position_in_memory: 0,
            stack: CallStack::new(),
        }
    }

    /// Reads the big-endian instruction word at the program counter, without
    /// moving it.
    pub fn read_opecode(&self) -> (r: Result<u16, MachineError>)
        ensures
            r == match fetch_spec(self.memory@, self.position_in_memory as int) {
                Some(op) => Ok::<u16, MachineError>(op),
                None => Err::<u16, MachineError>(MachineError::OutOfBoundsFetch),
            },
    {
        let p = self.position_in_memory;
        if p >= MEMORY_SIZE - 1 {
            return Err(MachineError::OutOfBoundsFetch);
        }
        let byte1 = self.memory[p] as u16;
        let byte2 = self.memory[p + 1] as u16;
        let op = byte1 << 8 | byte2;
        assert(byte1 << 8 | byte2 == byte1 * 256 + byte2) by (bit_vector)
            requires
                byte1 < 256,
                byte2 < 256,
        ;
        Ok(op)
    }

    /// Pushes the program counter and jumps to `addr`; on a full stack
    /// reports an overflow and changes nothing.
    pub fn call(&mut self, addr: u16) -> (r: Result<(), MachineError>)
        ensures
            old(self).stack@.len() < STACK_CAPACITY ==> {
                &&& r == Ok::<(), MachineError>(())
                &&& final(self).stack@ == old(self).stack@.push(
                    old(self).position_in_memory as u16,
                )
                &&& final(self).position_in_memory == addr
            },
            old(self).stack@.len() >= STACK_CAPACITY ==> {
                &&& r == Err::<(), MachineError>(MachineError::StackOverflow)
                &&& final(self).stack@ == old(self).stack@
                &&& final(self).position_in_memory == old(self).position_in_memory
            },
            final(self).registers@ == old(self).registers@,
            final(self).memory@ == old(self).memory@,
    {
        let pc = self.position_in_memory as u16;
        match self.stack.push(pc) {
            Ok(()) => {
                self.position_in_memory = addr as usize;
                Ok(())
            },
            Err(e) => Err(e),
        }
    }

    /// Pops a return address into the program counter; on an empty stack
    /// reports an underflow and changes nothing.
    pub fn ret(&mut self) -> (r: Result<(), MachineError>)
        ensures
            old(self).stack@.len() > 0 ==> {
                &&& r == Ok::<(), MachineError>(())
                &&& final(self).stack@ == old(self).stack@.drop_last()
                &&& final(self).position_in_memory == old(self).stack@.last()
            },
            old(self).stack@.len() == 0 ==> {
                &&& r == Err::<(), MachineError>(MachineError::StackUnderflow)
                &&& final(self).stack@ == old(self).stack@
                &&& final(self).position_in_memory == old(self).position_in_memory
            },
            final(self).registers@ == old(self).registers@,
            final(self).memory@ == old(self).memory@,
    {
        match self.stack.pop() {
            Ok(addr) => {
                self.position_in_memory = addr as usize;
                Ok(())
            },
            Err(e) => Err(e),
        }
    }

    /// `ADD Vx, Vy`: register `x` takes `(Vx + Vy) mod 256` and register 0xF
    /// takes the carry of that addition.
    pub fn add_xy(&mut self, x: u8, y: u8)
        requires
            x < 16,
            y < 16,
        ensures
            final(self).registers@ == add_registers(old(self).registers@, x as int, y as int),
            final(self).memory@ == old(self).memory@,
            final(self).stack@ == old(self).stack@,
            final(self).position_in_memory == old(self).position_in_memory,
    {
        let arg1 = self.registers[x as usize];
        let arg2 = self.registers[y as usize];
        let overflow = arg1 as u16 + arg2 as u16 > 255;
        let val = arg1.wrapping_add(arg2);
        self.registers[x as usize] = val;
        if overflow {
            self.registers[FLAG_REGISTER] = 1;
        } else {
            self.registers[FLAG_REGISTER] = 0;
        }
        assert(self.registers@ =~= add_registers(old(self).registers@, x as int, y as int));
    }

    /// Runs one fetch-decode-execute cycle.
    pub fn step(&mut self) -> (r: Result<Flow, MachineError>)
        ensures
            transition(*old(self), *final(self), r),
    {
        let opecode = match self.read_opecode() {
            Ok(op) => op,
            Err(e) => return Err(e),
        };
        self.position_in_memory = self.position_in_memory + 2;
        match decode(opecode) {
            Instruction::Halt => Ok(Flow::Halt),
            Instruction::Return => match self.ret() {
                Ok(()) => Ok(Flow::Continue),
                Err(e) => Err(e),
            },
            Instruction::Call(addr) => match self.call(addr) {
                Ok(()) => Ok(Flow::Continue),
                Err(e) => Err(e),
            },
            Instruction::AddXY(x, y) => {
                self.add_xy(x, y);
                Ok(Flow::Continue)
            },
            Instruction::Unimplemented(op) => Err(MachineError::UnimplementedOpcode(op)),
        }
    }

    /// Executes cycles until a halt instruction (`Ok`) or a fatal error
    /// (`Err`), leaving the machine as the last cycle left it.
    pub fn run(&mut self) -> (r: Result<(), MachineError>)
        ensures
            runs_to(*old(self), *final(self), r),
    {
        let ghost start = *self;
        let ghost mut trace = seq![*self];
        // Brings the stack's capacity bound into the loop invariant.
        let _ = self.stack.depth();
        loop
            invariant
                trace.len() >= 1,
                trace[0] == start,
                start == *old(self),
                trace.last() == *self,
                self.stack@.len() <= STACK_CAPACITY,
                forall|i: int|
                    0 <= i < trace.len() - 1 ==> transition(
                        #[trigger] trace[i],
                        trace[i + 1],
                        Ok::<Flow, MachineError>(Flow::Continue),
                    ),
            decreases progress(*self),
        {
            let ghost pre = *self;
            let out = self.step();
            proof {
                trace = trace.push(*self);
            }
            match out {
                Ok(Flow::Continue) => {
                    proof {
                        lemma_step_progress(pre, *self);
                    }
                },
                Ok(Flow::Halt) => {
                    assert(is_run(trace, Ok(())));
                    return Ok(());
                },
                Err(e) => {
                    assert(is_run(trace, Err(e)));
                    return Err(e);
                },
            }
        }
    }
}

} // verus!
