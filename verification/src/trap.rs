//! The saved execution context of a process.

use vstd::prelude::*;

verus! {

/// Number of general registers.
pub const N_REGS: usize = 32;

/// Place of the stack pointer among the general registers.
pub const REG_SP: usize = 2;

/// The registers and the program counter of a process that is not running:
/// where it resumes.
#[derive(Copy, Clone, Debug)]
pub struct TrapFrame {
    pub regs: [u32; N_REGS],
    pub pc: u32,
}

impl TrapFrame {
    /// The registers of a context that starts at `pc` with its stack at `sp`:
    /// the stack pointer holds `sp`, every other register zero.
    pub open spec fn initial_regs(sp: u32) -> Seq<u32> {
        Seq::new(
            N_REGS as nat,
            |i: int|
                if i == REG_SP {
                    sp
                } else {
                    0u32
                },
        )
    }

    /// A context that starts at `pc` with its stack at `sp`.
    pub fn new(pc: u32, sp: u32) -> (tf: TrapFrame)
        ensures
            tf.pc == pc,
            tf.regs@ == Self::initial_regs(sp),
    {
        let mut regs: [u32; N_REGS] = [0u32;N_REGS];
        regs[REG_SP] = sp;
        assert(regs@ =~= Self::initial_regs(sp));
        TrapFrame { regs, pc }
    }
}

} // verus!
