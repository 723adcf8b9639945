//! The register file: general-purpose registers, index register, program
//! counter, stack pointer and the two saturating timers.

use vstd::prelude::*;

verus! {

/// Number of general-purpose registers.
pub const NUM_REGS: usize = 16;

/// Capacity of the call stack.
pub const STACK_SIZE: usize = 16;

/// Index of the register used for carry, borrow and collision flags.
pub const FLAG_REG: usize = 15;

/// Address at which execution of a loaded program begins.
pub const PROGRAM_START: usize = 0x200;

/// Saturating decrement applied to the delay and sound timers: a timer at
/// zero stays at zero.
pub open spec fn tick(t: u8) -> u8 {
    if t > 0 {
        (t - 1) as u8
    } else {
        0
    }
}

/// `n` saturating decrements applied in a row.
pub open spec fn tick_n(t: u8, n: nat) -> u8
    decreases n,
{
    if n == 0 {
        t
    } else {
        tick(tick_n(t, (n - 1) as nat))
    }
}

/// The timers never underflow: a timer at zero remains zero no matter how
/// many decrements are applied, and a decrement never increases a timer.
pub proof fn lemma_tick_saturates(t: u8, n: nat)
    ensures
        tick(t) <= t,
        t == 0 ==> tick_n(t, n) == 0,
    decreases n,
{
    if n > 0 {
        lemma_tick_saturates(t, (n - 1) as nat);
    }
}

/// The register file of the interpreter.
pub struct Cpu {
    /// The sixteen general-purpose 8-bit registers.
    pub v: Vec<u8>,
    /// The 16-bit index register.
    pub i: u16,
    /// The program counter.
    pub pc: usize,
    /// The stack pointer: the number of return addresses currently pushed.
    pub sp: usize,
    /// The delay timer.
    pub dt: u8,
    /// The sound timer.
    pub st: u8,
}

impl Cpu {
    /// Structural invariant: all sixteen registers exist and the stack
    /// pointer never exceeds the stack capacity.
    pub open spec fn wf(&self) -> bool {
        &&& self.v@.len() == NUM_REGS
        &&& self.sp <= STACK_SIZE
    }

    /// A fresh register file: every register zero, the program counter at
    /// the conventional program start, the stack empty, both timers zero.
    pub fn new() -> (cpu: Cpu)
        ensures
            cpu.wf(),
            forall|k: int| 0 <= k < NUM_REGS ==> cpu.v@[k] == 0u8,
            cpu.i == 0,
            cpu.pc == PROGRAM_START,
            cpu.sp == 0,
            cpu.dt == 0,
            cpu.st == 0,
    {
        let mut v: Vec<u8> = Vec::new();
        let mut k: usize = 0;
        while k < NUM_REGS
            invariant
                k <= NUM_REGS,
                v@.len() == k,
                forall|j: int| 0 <= j < k ==> v@[j] == 0u8,
            decreases NUM_REGS - k,
        {
            v.push(0);
            k += 1;
        }
        Cpu { v, i: 0, pc: PROGRAM_START, sp: 0, dt: 0, st: 0 }
    }

    /// Decrement the delay timer by one if it is nonzero; leave it at zero
    /// otherwise.  Nothing else changes.
    pub fn tick_delay(&mut self)
        ensures
            final(self).dt == tick(old(self).dt),
            final(self).st == old(self).st,
            final(self).v == old(self).v,
            final(self).i == old(self).i,
            final(self).pc == old(self).pc,
            final(self).sp == old(self).sp,
    {
        if self.dt > 0 {
            self.dt = self.dt - 1;
        }
    }

    /// Decrement the sound timer by one if it is nonzero; leave it at zero
    /// otherwise.  Nothing else changes.
    pub fn tick_sound(&mut self)
        ensures
            final(self).st == tick(old(self).st),
            final(self).dt == old(self).dt,
            final(self).v == old(self).v,
            final(self).i == old(self).i,
            final(self).pc == old(self).pc,
            final(self).sp == old(self).sp,
    {
        if self.st > 0 {
            self.st = self.st - 1;
        }
    }

    /// Read general-purpose register `x`.
    pub fn reg(&self, x: u8) -> (r: u8)
        requires
            self.wf(),
            x < NUM_REGS,
        ensures
            r == self.v@[x as int],
    {
        self.v[x as usize]
    }

    /// Write general-purpose register `x`.  Nothing else changes.
    pub fn set_reg(&mut self, x: u8, value: u8)
        requires
            old(self).wf(),
            x < NUM_REGS,
        ensures
            final(self).wf(),
            final(self).v@ == old(self).v@.update(x as int, value),
            final(self).i == old(self).i,
            final(self).pc == old(self).pc,
            final(self).sp == old(self).sp,
            final(self).dt == old(self).dt,
            final(self).st == old(self).st,
    {
        self.v.set(x as usize, value);
    }
}

} // verus!
