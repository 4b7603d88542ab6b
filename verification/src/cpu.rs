//! The CPU-visible register state: sixteen 8-bit registers, the index
//! register, the program counter, the two timers, and the call stack.

use vstd::prelude::*;

use crate::fault::Chip8Error;

verus! {

/// Fixed maximum depth of the call stack.
pub const STACK_DEPTH: usize = 16;

/// The mutable register file. Register 0xF doubles as the carry, borrow and
/// collision flag.
pub struct Cpu {
    /// General-purpose registers V0 through VF.
    pub v: Vec<u8>,
    /// The 16-bit index register, kept below 4096.
    pub i: u16,
    /// The program counter, kept below 4096.
    pub pc: u16,
    /// The delay timer.
    pub dt: u8,
    /// The sound timer.
    pub st: u8,
    /// Return addresses of the subroutines entered, most recent last.
    pub stack: Vec<u16>,
}

impl Cpu {
    /// Sixteen registers; program counter, index register and every stacked
    /// return address stay inside the address space; the stack stays within
    /// its fixed depth.
    pub open spec fn wf(self) -> bool {
        &&& self.v@.len() == 16
        &&& self.pc < 4096
        &&& self.i < 4096
        &&& self.stack@.len() <= 16
        &&& forall|k: int| 0 <= k < self.stack@.len() ==> self.stack@[k] < 4096
    }

    /// A register file with every register and timer zero, an empty stack,
    /// and the program counter at `pc`.
    pub fn new(pc: u16) -> (r: Cpu)
        requires
            pc < 4096,
        ensures
            r.wf(),
            r.v@ == Seq::new(16, |k: int| 0u8),
            r.i == 0,
            r.pc == pc,
            r.dt == 0,
            r.st == 0,
            r.stack@ == Seq::<u16>::empty(),
    {
        let v: Vec<u8> = vec![0; 16];
        proof {
            assert(v@ =~= Seq::new(16, |k: int| 0u8));
        }
        Cpu { v, i: 0, pc, dt: 0, st: 0, stack: Vec::new() }
    }

    /// Pushes a return address, or reports `StackOverflow` when the stack is
    /// already at its fixed depth.
    pub fn push_return(&mut self, address: u16) -> (r: Result<(), Chip8Error>)
        requires
            old(self).wf(),
            address < 4096,
        ensures
            final(self).wf(),
            old(self).stack@.len() < 16 ==> r == Ok::<(), Chip8Error>(()) && final(self).stack@
                == old(self).stack@.push(address) && final(self).v == old(self).v && final(self).i
                == old(self).i && final(self).pc == old(self).pc && final(self).dt == old(self).dt
                && final(self).st == old(self).st,
            old(self).stack@.len() >= 16 ==> r == Err::<(), Chip8Error>(Chip8Error::StackOverflow)
                && *final(self) == *old(self),
    {
        if self.stack.len() < STACK_DEPTH {
            self.stack.push(address);
            Ok(())
        } else {
            Err(Chip8Error::StackOverflow)
        }
    }

    /// Pops the most recently pushed return address, or reports
    /// `StackUnderflow` when the stack is empty.
    pub fn pop_return(&mut self) -> (r: Result<u16, Chip8Error>)
        requires
            old(self).wf(),
        ensures
            final(self).wf(),
            old(self).stack@.len() > 0 ==> r == Ok::<u16, Chip8Error>(old(self).stack@.last())
                && final(self).stack@ == old(self).stack@.drop_last() && final(self).v == old(
                self,
            ).v && final(self).i == old(self).i && final(self).pc == old(self).pc && final(self).dt
                == old(self).dt && final(self).st == old(self).st,
            old(self).stack@.len() == 0 ==> r == Err::<u16, Chip8Error>(Chip8Error::StackUnderflow)
                && *final(self) == *old(self),
    {
        if self.stack.len() == 0 {
            Err(Chip8Error::StackUnderflow)
        } else {
            match self.stack.pop() {
                Some(address) => Ok(address),
                None => {
                    proof {
                        assert(false);
                    }
                    Err(Chip8Error::StackUnderflow)
                },
            }
        }
    }
}

/// An implementation of `Default` that starts the program counter at the
/// conventional load address 0x200.
impl Default for Cpu {
    fn default() -> (r: Cpu)
        ensures
            r.wf(),
            r.v@ == Seq::new(16, |k: int| 0u8),
            r.i == 0,
            r.pc == 0x200,
            r.dt == 0,
            r.st == 0,
            r.stack@ == Seq::<u16>::empty(),
    {
        Cpu::new(0x200)
    }
}

} // verus!
