use vstd::prelude::*;
use crate::constants::{PROGRAM_RAM_START, REGISTER_COUNT, STACK_SIZE};

verus! {

/// The register file: program counter, address register, call stack,
/// the sixteen general registers, and the two timers.
pub struct Registers {
    /// Program counter.
    pub pc: u16,
    /// Address register I.
    pub i: u16,
    /// Stack pointer: index of the most recently written stack slot.
    pub sp: usize,
    /// Call stack of return addresses.
    pub stack: [u16; STACK_SIZE],
    /// General registers V0 through VF; VF doubles as the flag register.
    pub v: [u8; REGISTER_COUNT],
    /// Delay timer, decremented at the frame rate while non-zero.
    pub dt: u8,
    /// Sound timer, decremented at the frame rate while non-zero;
    /// a non-zero value means the tone is on.
    pub st: u8,
}

impl Registers {
    /// The stack pointer always stays inside the stack.
    pub open spec fn wf(&self) -> bool {
        self.sp < STACK_SIZE
    }

    pub fn new() -> (r: Registers)
        ensures
            r.wf(),
            r.pc == PROGRAM_RAM_START,
            r.i == 0,
            r.sp == 0,
            forall|j: int| 0 <= j < STACK_SIZE ==> r.stack@[j] == 0,
            forall|j: int| 0 <= j < REGISTER_COUNT ==> r.v@[j] == 0,
            r.dt == 0,
            r.st == 0,
    {
        Registers {
            pc: 0x200,
            i: 0,
            sp: 0,
            stack: [0; STACK_SIZE],
            v: [0; REGISTER_COUNT],
            dt: 0,
            st: 0,
        }
    }
}

} // verus!
