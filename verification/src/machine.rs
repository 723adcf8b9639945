//! The interpreter: machine state and the fetch-decode-execute engine.

use vstd::prelude::*;
use vstd::arithmetic::div_mod::lemma_mod_add_multiples_vanish;
use vstd::arithmetic::div_mod::lemma_mod_bound;
use vstd::arithmetic::div_mod::lemma_mod_sub_multiples_vanish;
use vstd::arithmetic::div_mod::lemma_small_mod;
use crate::cpu::Cpu;
use crate::cpu::FLAG_REG;
use crate::cpu::NUM_REGS;
use crate::cpu::STACK_SIZE;
use crate::decode::Instruction;
use crate::decode::decode;
use crate::decode::spec_decode;
use crate::framebuffer::Framebuffer;
use crate::framebuffer::SCREEN_HEIGHT;
use crate::framebuffer::SCREEN_PIXELS;
use crate::framebuffer::draw_collision;
use crate::framebuffer::draw_rel;
use crate::keypad::Keypad;
use crate::keypad::first_pressed;
use crate::keypad::lemma_first_pressed;
use crate::memory::FONT_BASE;
use crate::memory::GLYPH_HEIGHT;
use crate::memory::Memory;
use crate::memory::RAM_SIZE;
use crate::memory::word_at;

verus! {

/// The fatal conditions: each aborts the run, since control flow or an
/// internal invariant is corrupted, or the program image never fit.
#[derive(Clone, Copy, Debug, PartialEq, Eq, Structural)]
pub enum Chip8Error {
    /// The program image would run past the end of memory.
    LoadError,
    /// A call was made with all sixteen stack slots in use.
    StackOverflow,
    /// A return was executed with the call stack empty.
    StackUnderflow,
    /// A memory access outside the 4096 addressable bytes.
    AddressOutOfRange,
}

/// What one successful cycle did, for the external driver.
#[derive(Clone, Copy, Debug, PartialEq, Eq, Structural)]
pub enum StepEvent {
    /// An instruction was decoded and executed.
    Executed,
    /// The key-wait instruction found no key pressed: the program counter
    /// was left in place so the same instruction runs next cycle.
    AwaitingKey,
    /// An unrecognized bit pattern was skipped over.
    UnknownOpcode,
}

/// An integer reduced to 8 bits by wraparound.
pub open spec fn wrap8(n: int) -> u8 {
    ((n % 256) as u8)
}

/// Wraparound arithmetic in the 8-bit range spelled out: values already in
/// range stay put, values out of range move by exactly 256.
pub proof fn lemma_wrap8(n: int)
    requires
        -256 <= n < 512,
    ensures
        wrap8(n) as int == if 0 <= n < 256 {
            n
        } else if n < 0 {
            n + 256
        } else {
            n - 256
        },
{
    lemma_mod_bound(n, 256);
    if 0 <= n < 256 {
        lemma_small_mod(n as nat, 256);
    } else if n < 0 {
        lemma_mod_add_multiples_vanish(n, 256);
        lemma_small_mod((n + 256) as nat, 256);
    } else {
        lemma_mod_sub_multiples_vanish(n, 256);
        lemma_small_mod((n - 256) as nat, 256);
    }
}

/// The interpreter state: register file, memory, framebuffer and key table.
pub struct Chip8 {
    /// The register file.
    pub cpu: Cpu,
    /// Memory and call stack.
    pub memory: Memory,
    /// The pixel grid.
    pub framebuffer: Framebuffer,
    /// The key-state table.
    pub keypad: Keypad,
}

impl Chip8 {
    /// Structural invariant of the whole machine.
    pub open spec fn wf(&self) -> bool {
        &&& self.cpu.wf()
        &&& self.memory.wf()
        &&& self.framebuffer.wf()
        &&& self.keypad.wf()
    }

    /// A fresh machine: cleared memory, screen and keys, registers at their
    /// start values.  The glyph set and the program image are written
    /// separately before the first cycle.
    pub fn new() -> (m: Chip8)
        ensures
            m.wf(),
            m.cpu.pc == crate::cpu::PROGRAM_START,
            m.cpu.sp == 0,
            m.cpu.i == 0,
            m.cpu.dt == 0,
            m.cpu.st == 0,
            forall|k: int| 0 <= k < NUM_REGS ==> m.cpu.v@[k] == 0u8,
            forall|a: int| 0 <= a < RAM_SIZE ==> m.memory.ram@[a] == 0u8,
            forall|p: int|
                0 <= p < crate::framebuffer::SCREEN_PIXELS ==> !m.framebuffer.grid@[p],
            forall|j: int| 0 <= j < crate::keypad::NUM_KEYS ==> !m.keypad.keys@[j],
    {
        Chip8 {
            cpu: Cpu::new(),
            memory: Memory::new(),
            framebuffer: Framebuffer::new(),
            keypad: Keypad::new(),
        }
    }

    /// The 16-bit instruction word at the program counter, big-endian.
    pub fn fetch_opcode(&self) -> (op: u16)
        requires
            self.wf(),
            self.cpu.pc + 1 < RAM_SIZE,
        ensures
            op == word_at(self.memory.ram@, self.cpu.pc as int),
    {
        self.memory.read_word(self.cpu.pc)
    }

    /// Advance the program counter past the current two-byte instruction.
    pub fn next_instruction(&mut self)
        requires
            old(self).cpu.pc + 2 <= usize::MAX,
        ensures
            final(self).cpu.pc == old(self).cpu.pc + 2,
            final(self).cpu.v == old(self).cpu.v,
            final(self).cpu.i == old(self).cpu.i,
            final(self).cpu.sp == old(self).cpu.sp,
            final(self).cpu.dt == old(self).cpu.dt,
            final(self).cpu.st == old(self).cpu.st,
            final(self).memory == old(self).memory,
            final(self).framebuffer == old(self).framebuffer,
            final(self).keypad == old(self).keypad,
    {
        self.cpu.pc = self.cpu.pc + 2;
    }

    /// Advance the program counter by four (skipping one instruction) when
    /// `condition` holds, by two otherwise.
    pub fn skip_next_instruction_if(&mut self, condition: bool)
        requires
            old(self).cpu.pc + 4 <= usize::MAX,
        ensures
            final(self).cpu.pc == old(self).cpu.pc + (if condition {
                4int
            } else {
                2int
            }),
            final(self).cpu.v == old(self).cpu.v,
            final(self).cpu.i == old(self).cpu.i,
            final(self).cpu.sp == old(self).cpu.sp,
            final(self).cpu.dt == old(self).cpu.dt,
            final(self).cpu.st == old(self).cpu.st,
            final(self).memory == old(self).memory,
            final(self).framebuffer == old(self).framebuffer,
            final(self).keypad == old(self).keypad,
    {
        if condition {
            self.cpu.pc = self.cpu.pc + 4;
        } else {
            self.cpu.pc = self.cpu.pc + 2;
        }
    }

    /// Push a return address onto the call stack.
    pub fn stack_push(&mut self, addr: u16)
        requires
            old(self).wf(),
            old(self).cpu.sp < STACK_SIZE,
        ensures
            final(self).wf(),
            final(self).memory.stack@ == old(self).memory.stack@.update(
                old(self).cpu.sp as int,
                addr,
            ),
            final(self).cpu.sp == old(self).cpu.sp + 1,
            final(self).memory.ram == old(self).memory.ram,
            final(self).cpu.v == old(self).cpu.v,
            final(self).cpu.i == old(self).cpu.i,
            final(self).cpu.pc == old(self).cpu.pc,
            final(self).cpu.dt == old(self).cpu.dt,
            final(self).cpu.st == old(self).cpu.st,
            final(self).framebuffer == old(self).framebuffer,
            final(self).keypad == old(self).keypad,
    {
        self.memory.stack.set(self.cpu.sp, addr);
        self.cpu.sp = self.cpu.sp + 1;
    }

    /// Pop the most recently pushed return address off the call stack.
    pub fn stack_pop(&mut self) -> (addr: u16)
        requires
            old(self).wf(),
            old(self).cpu.sp > 0,
        ensures
            final(self).wf(),
            addr == old(self).memory.stack@[old(self).cpu.sp - 1],
            final(self).cpu.sp == old(self).cpu.sp - 1,
            final(self).memory == old(self).memory,
            final(self).cpu.v == old(self).cpu.v,
            final(self).cpu.i == old(self).cpu.i,
            final(self).cpu.pc == old(self).cpu.pc,
            final(self).cpu.dt == old(self).cpu.dt,
            final(self).cpu.st == old(self).cpu.st,
            final(self).framebuffer == old(self).framebuffer,
            final(self).keypad == old(self).keypad,
    {
        self.cpu.sp = self.cpu.sp - 1;
        self.memory.stack[self.cpu.sp]
    }

    /// Decode and execute one instruction word.  `rand` is the caller's
    /// source of entropy, consumed only by the randomize instruction.  The
    /// relation between the old and the new machine state is [`step_post`].
    pub fn execute_opcode(&mut self, opcode: u16, rand: u8) -> (r: Result<StepEvent, Chip8Error>)
        requires
            old(self).wf(),
            old(self).cpu.pc + 2 <= RAM_SIZE,
        ensures
            final(self).wf(),
            step_post(*old(self), *final(self), opcode, rand, r),
    {
        let instr = decode(opcode);
        match instr {
            Instruction::Cls => {
                self.framebuffer.clear();
                self.next_instruction();
                Ok(StepEvent::Executed)
            },
            Instruction::Ret => {
                if self.cpu.sp == 0 {
                    return Err(Chip8Error::StackUnderflow);
                }
                let addr = self.stack_pop();
                self.cpu.pc = addr as usize;
                Ok(StepEvent::Executed)
            },
            Instruction::Jump(nnn) => {
                self.cpu.pc = nnn as usize;
                Ok(StepEvent::Executed)
            },
            Instruction::Call(nnn) => {
                if self.cpu.sp == STACK_SIZE {
                    return Err(Chip8Error::StackOverflow);
                }
                let ret_addr = (self.cpu.pc + 2) as u16;
                self.stack_push(ret_addr);
                self.cpu.pc = nnn as usize;
                Ok(StepEvent::Executed)
            },
            Instruction::SkipEqImm(x, kk) => {
                let vx = self.cpu.reg(x);
                self.skip_next_instruction_if(vx == kk);
                Ok(StepEvent::Executed)
            },
            Instruction::SkipNeImm(x, kk) => {
                let vx = self.cpu.reg(x);
                self.skip_next_instruction_if(vx != kk);
                Ok(StepEvent::Executed)
            },
            Instruction::SkipEqReg(x, y) => {
                let vx = self.cpu.reg(x);
                let vy = self.cpu.reg(y);
                self.skip_next_instruction_if(vx == vy);
                Ok(StepEvent::Executed)
            },
            Instruction::LoadImm(x, kk) => {
                self.cpu.set_reg(x, kk);
                self.next_instruction();
                Ok(StepEvent::Executed)
            },
            Instruction::AddImm(x, kk) => {
                let vx = self.cpu.reg(x);
                let sum: u16 = vx as u16 + kk as u16;
                let res: u8 = (sum % 256) as u8;
                self.cpu.set_reg(x, res);
                self.next_instruction();
                Ok(StepEvent::Executed)
            },
            Instruction::Move(x, y) => {
                let vy = self.cpu.reg(y);
                self.cpu.set_reg(x, vy);
                self.next_instruction();
                Ok(StepEvent::Executed)
            },
            Instruction::Or(x, y) => {
                let vx = self.cpu.reg(x);
                let vy = self.cpu.reg(y);
                self.cpu.set_reg(x, vx | vy);
                self.next_instruction();
                Ok(StepEvent::Executed)
            },
            Instruction::And(x, y) => {
                let vx = self.cpu.reg(x);
                let vy = self.cpu.reg(y);
                self.cpu.set_reg(x, vx & vy);
                self.next_instruction();
                Ok(StepEvent::Executed)
            },
            Instruction::Xor(x, y) => {
                let vx = self.cpu.reg(x);
                let vy = self.cpu.reg(y);
                self.cpu.set_reg(x, vx ^ vy);
                self.next_instruction();
                Ok(StepEvent::Executed)
            },
            Instruction::Add(x, y) => {
                let vx = self.cpu.reg(x);
                let vy = self.cpu.reg(y);
                let sum: u16 = vx as u16 + vy as u16;
                let res: u8 = (sum % 256) as u8;
                let flag: u8 = if sum > 255 {
                    1
                } else {
                    0
                };
                self.cpu.set_reg(x, res);
                self.cpu.set_reg(15, flag);
                self.next_instruction();
                Ok(StepEvent::Executed)
            },
            Instruction::Sub(x, y) => {
                let vx = self.cpu.reg(x);
                let vy = self.cpu.reg(y);
                let res: u8 = if vx >= vy {
                    vx - vy
                } else {
                    ((vx as u16 + 256) - vy as u16) as u8
                };
                let flag: u8 = if vx >= vy {
                    1
                } else {
                    0
                };
                proof {
                    lemma_wrap8(vx - vy);
                }
                self.cpu.set_reg(x, res);
                self.cpu.set_reg(15, flag);
                self.next_instruction();
                Ok(StepEvent::Executed)
            },
            Instruction::ShiftRight(x) => {
                let vx = self.cpu.reg(x);
                let bit = vx % 2;
                self.cpu.set_reg(x, vx / 2);
                self.cpu.set_reg(15, bit);
                self.next_instruction();
                Ok(StepEvent::Executed)
            },
            Instruction::SubNeg(x, y) => {
                let vx = self.cpu.reg(x);
                let vy = self.cpu.reg(y);
                let res: u8 = if vy >= vx {
                    vy - vx
                } else {
                    ((vy as u16 + 256) - vx as u16) as u8
                };
                let flag: u8 = if vy >= vx {
                    1
                } else {
                    0
                };
                proof {
                    lemma_wrap8(vy - vx);
                }
                self.cpu.set_reg(x, res);
                self.cpu.set_reg(15, flag);
                self.next_instruction();
                Ok(StepEvent::Executed)
            },
            Instruction::ShiftLeft(x) => {
                let vx = self.cpu.reg(x);
                let doubled: u16 = vx as u16 * 2;
                let res: u8 = (doubled % 256) as u8;
                let bit = vx / 128;
                self.cpu.set_reg(x, res);
                self.cpu.set_reg(15, bit);
                self.next_instruction();
                Ok(StepEvent::Executed)
            },
            Instruction::SkipNeReg(x, y) => {
                let vx = self.cpu.reg(x);
                let vy = self.cpu.reg(y);
                self.skip_next_instruction_if(vx != vy);
                Ok(StepEvent::Executed)
            },
            Instruction::LoadIndex(nnn) => {
                self.cpu.i = nnn;
                self.next_instruction();
                Ok(StepEvent::Executed)
            },
            Instruction::JumpOffset(nnn) => {
                let v0 = self.cpu.reg(0);
                self.cpu.pc = nnn as usize + v0 as usize;
                Ok(StepEvent::Executed)
            },
            Instruction::Random(x, kk) => {
                self.cpu.set_reg(x, rand & kk);
                self.next_instruction();
                Ok(StepEvent::Executed)
            },
            Instruction::Draw(x, y, n) => {
                let i = self.cpu.i as usize;
                if i + n as usize > RAM_SIZE {
                    return Err(Chip8Error::AddressOutOfRange);
                }
                let mut sprite: Vec<u8> = Vec::new();
                let mut k: usize = 0;
                while k < n as usize
                    invariant
                        *self == *old(self),
                        self.wf(),
                        i == self.cpu.i as usize,
                        k <= n,
                        i + n <= RAM_SIZE,
                        sprite@.len() == k,
                        forall|j: int| 0 <= j < k ==> sprite@[j] == self.memory.ram@[i + j],
                    decreases n - k,
                {
                    let b = self.memory.read_byte(i + k);
                    sprite.push(b);
                    k += 1;
                }
                proof {
                    assert(sprite@ =~= old(self).memory.ram@.subrange(i as int, i + n as int));
                }
                let vx = self.cpu.reg(x);
                let vy = self.cpu.reg(y);
                let collision = self.framebuffer.draw_sprite(vx, vy, &sprite);
                self.cpu.set_reg(
                    15,
                    if collision {
                        1
                    } else {
                        0
                    },
                );
                self.next_instruction();
                Ok(StepEvent::Executed)
            },
            Instruction::SkipKeyPressed(x) => {
                let vx = self.cpu.reg(x);
                let key = vx & 0xF;
                proof {
                    lemma_low_nibble(vx);
                }
                let pressed = self.keypad.is_pressed(key);
                self.skip_next_instruction_if(pressed);
                Ok(StepEvent::Executed)
            },
            Instruction::SkipKeyNotPressed(x) => {
                let vx = self.cpu.reg(x);
                let key = vx & 0xF;
                proof {
                    lemma_low_nibble(vx);
                }
                let pressed = self.keypad.is_pressed(key);
                self.skip_next_instruction_if(!pressed);
                Ok(StepEvent::Executed)
            },
            Instruction::LoadDelay(x) => {
                let dt = self.cpu.dt;
                self.cpu.set_reg(x, dt);
                self.next_instruction();
                Ok(StepEvent::Executed)
            },
            Instruction::WaitKey(x) => {
                proof {
                    lemma_first_pressed(self.keypad.keys@, 0);
                }
                match self.keypad.any_pressed() {
                    Some(k) => {
                        self.cpu.set_reg(x, k);
                        self.next_instruction();
                        Ok(StepEvent::Executed)
                    },
                    None => Ok(StepEvent::AwaitingKey),
                }
            },
            Instruction::SetDelay(x) => {
                self.cpu.dt = self.cpu.v[x as usize];
                self.next_instruction();
                Ok(StepEvent::Executed)
            },
            Instruction::SetSound(x) => {
                self.cpu.st = self.cpu.v[x as usize];
                self.next_instruction();
                Ok(StepEvent::Executed)
            },
            Instruction::AddIndex(x) => {
                let vx = self.cpu.reg(x);
                let sum: u32 = self.cpu.i as u32 + vx as u32;
                self.cpu.i = (sum % 0x10000) as u16;
                self.next_instruction();
                Ok(StepEvent::Executed)
            },
            Instruction::LoadGlyph(x) => {
                let vx = self.cpu.reg(x);
                let digit = vx & 0xF;
                proof {
                    lemma_low_nibble(vx);
                }
                assert(digit < 16);
                let offset: u16 = (GLYPH_HEIGHT as u16) * (digit as u16);
                assert(offset <= 75);
                self.cpu.i = (FONT_BASE as u16) + offset;
                self.next_instruction();
                Ok(StepEvent::Executed)
            },
            Instruction::StoreBcd(x) => {
                let i = self.cpu.i as usize;
                if i + 2 >= RAM_SIZE {
                    return Err(Chip8Error::AddressOutOfRange);
                }
                let val = self.cpu.reg(x);
                self.memory.write_byte(i, val / 100);
                self.memory.write_byte(i + 1, (val / 10) % 10);
                self.memory.write_byte(i + 2, val % 10);
                self.next_instruction();
                Ok(StepEvent::Executed)
            },
            Instruction::StoreRegs(x) => {
                let i = self.cpu.i as usize;
                if i + x as usize >= RAM_SIZE {
                    return Err(Chip8Error::AddressOutOfRange);
                }
                let mut k: usize = 0;
                while k <= x as usize
                    invariant
                        self.wf(),
                        x < NUM_REGS,
                        k <= x + 1,
                        i == old(self).cpu.i as usize,
                        i + x < RAM_SIZE,
                        self.cpu == old(self).cpu,
                        self.framebuffer == old(self).framebuffer,
                        self.keypad == old(self).keypad,
                        self.memory.stack == old(self).memory.stack,
                        self.memory.ram@.len() == RAM_SIZE,
                        forall|j: int| 0 <= j < k ==> self.memory.ram@[i + j] == self.cpu.v@[j],
                        forall|a: int|
                            0 <= a < RAM_SIZE && !(i <= a < i + k) ==> self.memory.ram@[a]
                                == old(self).memory.ram@[a],
                    decreases x + 1 - k,
                {
                    let b = self.cpu.reg(k as u8);
                    self.memory.write_byte(i + k, b);
                    k += 1;
                }
                self.next_instruction();
                Ok(StepEvent::Executed)
            },
            Instruction::LoadRegs(x) => {
                let i = self.cpu.i as usize;
                if i + x as usize >= RAM_SIZE {
                    return Err(Chip8Error::AddressOutOfRange);
                }
                let mut k: usize = 0;
                while k <= x as usize
                    invariant
                        self.wf(),
                        x < NUM_REGS,
                        k <= x + 1,
                        i == old(self).cpu.i as usize,
                        i + x < RAM_SIZE,
                        self.memory == old(self).memory,
                        self.framebuffer == old(self).framebuffer,
                        self.keypad == old(self).keypad,
                        self.cpu.i == old(self).cpu.i,
                        self.cpu.pc == old(self).cpu.pc,
                        self.cpu.sp == old(self).cpu.sp,
                        self.cpu.dt == old(self).cpu.dt,
                        self.cpu.st == old(self).cpu.st,
                        self.cpu.v@.len() == NUM_REGS,
                        forall|j: int| 0 <= j < k ==> self.cpu.v@[j] == self.memory.ram@[i + j],
                        forall|j: int| k <= j < NUM_REGS ==> self.cpu.v@[j] == old(self).cpu.v@[j],
                    decreases x + 1 - k,
                {
                    let b = self.memory.read_byte(i + k);
                    self.cpu.set_reg(k as u8, b);
                    k += 1;
                }
                self.next_instruction();
                Ok(StepEvent::Executed)
            },
            Instruction::Invalid => {
                self.next_instruction();
                Ok(StepEvent::UnknownOpcode)
            },
        }
    }

    /// One full cycle: fetch the instruction word at the program counter,
    /// then decode and execute it.  Fails, changing nothing, when the
    /// program counter points past the end of memory.
    pub fn execute_cycle(&mut self, rand: u8) -> (r: Result<StepEvent, Chip8Error>)
        requires
            old(self).wf(),
        ensures
            final(self).wf(),
            old(self).cpu.pc + 2 <= RAM_SIZE ==> step_post(
                *old(self),
                *final(self),
                word_at(old(self).memory.ram@, old(self).cpu.pc as int),
                rand,
                r,
            ),
            old(self).cpu.pc + 2 > RAM_SIZE ==> r == Err::<StepEvent, Chip8Error>(
                Chip8Error::AddressOutOfRange,
            ) && *final(self) == *old(self),
    {
        if self.cpu.pc > RAM_SIZE - 2 {
            return Err(Chip8Error::AddressOutOfRange);
        }
        let opcode = self.fetch_opcode();
        self.execute_opcode(opcode, rand)
    }

    /// Decrement both timers once, saturating at zero: the 60 Hz step the
    /// external driver invokes independently of instruction execution.
    pub fn tick_timers(&mut self)
        ensures
            final(self).cpu.dt == crate::cpu::tick(old(self).cpu.dt),
            final(self).cpu.st == crate::cpu::tick(old(self).cpu.st),
            final(self).cpu.v == old(self).cpu.v,
            final(self).cpu.i == old(self).cpu.i,
            final(self).cpu.pc == old(self).cpu.pc,
            final(self).cpu.sp == old(self).cpu.sp,
            final(self).memory == old(self).memory,
            final(self).framebuffer == old(self).framebuffer,
            final(self).keypad == old(self).keypad,
    {
        self.cpu.tick_delay();
        self.cpu.tick_sound();
    }
}

/// The low four bits of a byte are below 16.
pub proof fn lemma_low_nibble(b: u8)
    ensures
        b & 0xF < 16,
{
    assert(b & 0xF < 16) by (bit_vector);
}

/// The register-pair add reports carry exactly: after it executes, the flag
/// register is 1 when the unsigned 8-bit sum overflows and 0 otherwise, and
/// the destination register holds the wrapped sum.
pub proof fn lemma_add_sets_carry_flag(
    pre: Chip8,
    post: Chip8,
    op: u16,
    rand: u8,
    x: u8,
    y: u8,
)
    requires
        spec_decode(op) == Instruction::Add(x, y),
        x < NUM_REGS,
        y < NUM_REGS,
        pre.cpu.v@.len() == NUM_REGS,
        step_post(pre, post, op, rand, Ok(StepEvent::Executed)),
    ensures
        post.cpu.v@[FLAG_REG as int] == 1u8 <==> pre.cpu.v@[x as int] + pre.cpu.v@[y as int]
            > 255,
        post.cpu.v@[FLAG_REG as int] == 1u8 || post.cpu.v@[FLAG_REG as int] == 0u8,
        x != FLAG_REG ==> post.cpu.v@[x as int] as int == (pre.cpu.v@[x as int] + pre.cpu.v@[y as int]) % 256,
{
}

/// The subtract reports no-borrow exactly: after it executes, the flag
/// register is 1 when the minuend is at least the subtrahend and 0
/// otherwise, and the destination register holds the wrapped difference.
pub proof fn lemma_sub_sets_borrow_flag(
    pre: Chip8,
    post: Chip8,
    op: u16,
    rand: u8,
    x: u8,
    y: u8,
)
    requires
        spec_decode(op) == Instruction::Sub(x, y),
        x < NUM_REGS,
        y < NUM_REGS,
        pre.cpu.v@.len() == NUM_REGS,
        step_post(pre, post, op, rand, Ok(StepEvent::Executed)),
    ensures
        post.cpu.v@[FLAG_REG as int] == 1u8 <==> pre.cpu.v@[x as int] >= pre.cpu.v@[y as int],
        post.cpu.v@[FLAG_REG as int] == 1u8 || post.cpu.v@[FLAG_REG as int] == 0u8,
        x != FLAG_REG ==> post.cpu.v@[x as int] as int == (pre.cpu.v@[x as int] - pre.cpu.v@[y as int]) % 256,
{
}

/// A call followed by a return brings the program counter to the address
/// immediately following the call instruction.
pub proof fn lemma_call_then_return(
    s0: Chip8,
    s1: Chip8,
    s2: Chip8,
    op_call: u16,
    op_ret: u16,
    rand1: u8,
    rand2: u8,
)
    requires
        s0.wf(),
        s0.cpu.sp < STACK_SIZE,
        s0.cpu.pc + 2 <= RAM_SIZE,
        spec_decode(op_call) matches Instruction::Call(_),
        spec_decode(op_ret) is Ret,
        step_post(s0, s1, op_call, rand1, Ok(StepEvent::Executed)),
        step_post(s1, s2, op_ret, rand2, Ok(StepEvent::Executed)),
    ensures
        s2.cpu.pc == s0.cpu.pc + 2,
{
    assert(s1.memory.stack@[s0.cpu.sp as int] == ((s0.cpu.pc + 2) as u16));
}

/// After the clear-screen instruction executes, every pixel query on the
/// framebuffer returns false, whatever coordinate is asked for.
pub proof fn lemma_clear_screen_blanks(
    pre: Chip8,
    post: Chip8,
    op: u16,
    rand: u8,
    x: int,
    y: int,
)
    requires
        spec_decode(op) is Cls,
        step_post(pre, post, op, rand, Ok(StepEvent::Executed)),
        0 <= x < crate::framebuffer::SCREEN_WIDTH,
        0 <= y < SCREEN_HEIGHT,
    ensures
        !post.framebuffer.pixel(x, y),
{
    crate::framebuffer::lemma_cleared_pixel(post.framebuffer, x, y);
}

/// While no key is pressed the key-wait instruction changes nothing at all,
/// so the program counter stays put however many cycles repeat it.  The
/// first cycle that finds a key pressed stores the lowest pressed index in
/// the operand register and advances the program counter by exactly two.
pub proof fn lemma_wait_key_blocks(
    pre: Chip8,
    post: Chip8,
    op: u16,
    rand: u8,
    r: Result<StepEvent, Chip8Error>,
    x: u8,
)
    requires
        spec_decode(op) == Instruction::WaitKey(x),
        step_post(pre, post, op, rand, r),
    ensures
        first_pressed(pre.keypad.keys@) is None ==> post == pre && r == Ok::<
            StepEvent,
            Chip8Error,
        >(StepEvent::AwaitingKey),
        first_pressed(pre.keypad.keys@) matches Some(k) ==> {
            &&& post.cpu.pc == pre.cpu.pc + 2
            &&& post.cpu.v@ == pre.cpu.v@.update(x as int, k)
            &&& r == Ok::<StepEvent, Chip8Error>(StepEvent::Executed)
        },
{
}

/// The memory bytes are unchanged.
pub open spec fn same_ram(pre: Chip8, post: Chip8) -> bool {
    post.memory.ram@ == pre.memory.ram@
}

/// The call stack contents and the stack pointer are unchanged.
pub open spec fn same_stack(pre: Chip8, post: Chip8) -> bool {
    post.memory.stack@ == pre.memory.stack@ && post.cpu.sp == pre.cpu.sp
}

/// The sixteen general-purpose registers are unchanged.
pub open spec fn same_regs(pre: Chip8, post: Chip8) -> bool {
    post.cpu.v@ == pre.cpu.v@
}

/// The index register is unchanged.
pub open spec fn same_index(pre: Chip8, post: Chip8) -> bool {
    post.cpu.i == pre.cpu.i
}

/// Both timers are unchanged.
pub open spec fn same_timers(pre: Chip8, post: Chip8) -> bool {
    post.cpu.dt == pre.cpu.dt && post.cpu.st == pre.cpu.st
}

/// The pixel grid is unchanged.
pub open spec fn same_screen(pre: Chip8, post: Chip8) -> bool {
    post.framebuffer.grid@ == pre.framebuffer.grid@
}

/// The key table is unchanged.
pub open spec fn same_keys(pre: Chip8, post: Chip8) -> bool {
    post.keypad.keys@ == pre.keypad.keys@
}

/// Everything but the registers and the program counter is unchanged: the
/// frame condition of most instructions.
pub open spec fn frame_regs_pc(pre: Chip8, post: Chip8) -> bool {
    &&& same_ram(pre, post)
    &&& same_stack(pre, post)
    &&& same_index(pre, post)
    &&& same_timers(pre, post)
    &&& same_screen(pre, post)
    &&& same_keys(pre, post)
}

/// Everything but the program counter is unchanged: the frame condition of
/// jumps and skips.
pub open spec fn frame_pc(pre: Chip8, post: Chip8) -> bool {
    frame_regs_pc(pre, post) && same_regs(pre, post)
}

/// The program counter advanced past the current instruction and past `skip`
/// further instructions.
pub open spec fn advanced(pre: Chip8, post: Chip8, skip: bool) -> bool {
    post.cpu.pc == pre.cpu.pc + (if skip {
        4int
    } else {
        2int
    })
}

/// What one execution of the instruction word `op` does, given the random
/// byte `rand` supplied for the randomize instruction: relates the machine
/// state before (`pre`, with the program counter still at the instruction)
/// and after (`post`), and the reported result `r`.  This is the contract of
/// the whole instruction set, one arm per instruction.
pub open spec fn step_post(
    pre: Chip8,
    post: Chip8,
    op: u16,
    rand: u8,
    r: Result<StepEvent, Chip8Error>,
) -> bool {
    let v = pre.cpu.v@;
    let executed = r == Ok::<StepEvent, Chip8Error>(StepEvent::Executed);
    match spec_decode(op) {
        Instruction::Cls => {
            &&& executed
            &&& same_ram(pre, post)
            &&& same_stack(pre, post)
            &&& same_regs(pre, post)
            &&& same_index(pre, post)
            &&& same_timers(pre, post)
            &&& same_keys(pre, post)
            &&& advanced(pre, post, false)
            &&& post.framebuffer.grid@.len() == SCREEN_PIXELS
            &&& forall|p: int| 0 <= p < SCREEN_PIXELS ==> !post.framebuffer.grid@[p]
        },
        Instruction::Ret => {
            if pre.cpu.sp == 0 {
                r == Err::<StepEvent, Chip8Error>(Chip8Error::StackUnderflow) && post == pre
            } else {
                &&& executed
                &&& same_ram(pre, post)
                &&& same_regs(pre, post)
                &&& same_index(pre, post)
                &&& same_timers(pre, post)
                &&& same_screen(pre, post)
                &&& same_keys(pre, post)
                &&& post.memory.stack@ == pre.memory.stack@
                &&& post.cpu.sp == pre.cpu.sp - 1
                &&& post.cpu.pc == pre.memory.stack@[pre.cpu.sp - 1] as usize
            }
        },
        Instruction::Jump(nnn) => {
            &&& executed
            &&& frame_pc(pre, post)
            &&& post.cpu.pc == nnn as usize
        },
        Instruction::Call(nnn) => {
            if pre.cpu.sp == STACK_SIZE {
                r == Err::<StepEvent, Chip8Error>(Chip8Error::StackOverflow) && post == pre
            } else {
                &&& executed
                &&& same_ram(pre, post)
                &&& same_regs(pre, post)
                &&& same_index(pre, post)
                &&& same_timers(pre, post)
                &&& same_screen(pre, post)
                &&& same_keys(pre, post)
                &&& post.memory.stack@ == pre.memory.stack@.update(
                    pre.cpu.sp as int,
                    ((pre.cpu.pc + 2) as u16),
                )
                &&& post.cpu.sp == pre.cpu.sp + 1
                &&& post.cpu.pc == nnn as usize
            }
        },
        Instruction::SkipEqImm(x, kk) => {
            &&& executed
            &&& frame_pc(pre, post)
            &&& advanced(pre, post, v[x as int] == kk)
        },
        Instruction::SkipNeImm(x, kk) => {
            &&& executed
            &&& frame_pc(pre, post)
            &&& advanced(pre, post, v[x as int] != kk)
        },
        Instruction::SkipEqReg(x, y) => {
            &&& executed
            &&& frame_pc(pre, post)
            &&& advanced(pre, post, v[x as int] == v[y as int])
        },
        Instruction::LoadImm(x, kk) => {
            &&& executed
            &&& frame_regs_pc(pre, post)
            &&& advanced(pre, post, false)
            &&& post.cpu.v@ == v.update(x as int, kk)
        },
        Instruction::AddImm(x, kk) => {
            &&& executed
            &&& frame_regs_pc(pre, post)
            &&& advanced(pre, post, false)
            &&& post.cpu.v@ == v.update(x as int, wrap8(v[x as int] + kk))
        },
        Instruction::Move(x, y) => {
            &&& executed
            &&& frame_regs_pc(pre, post)
            &&& advanced(pre, post, false)
            &&& post.cpu.v@ == v.update(x as int, v[y as int])
        },
        Instruction::Or(x, y) => {
            &&& executed
            &&& frame_regs_pc(pre, post)
            &&& advanced(pre, post, false)
            &&& post.cpu.v@ == v.update(x as int, v[x as int] | v[y as int])
        },
        Instruction::And(x, y) => {
            &&& executed
            &&& frame_regs_pc(pre, post)
            &&& advanced(pre, post, false)
            &&& post.cpu.v@ == v.update(x as int, v[x as int] & v[y as int])
        },
        Instruction::Xor(x, y) => {
            &&& executed
            &&& frame_regs_pc(pre, post)
            &&& advanced(pre, post, false)
            &&& post.cpu.v@ == v.update(x as int, v[x as int] ^ v[y as int])
        },
        Instruction::Add(x, y) => {
            &&& executed
            &&& frame_regs_pc(pre, post)
            &&& advanced(pre, post, false)
            &&& post.cpu.v@ == v.update(x as int, wrap8(v[x as int] + v[y as int])).update(
                FLAG_REG as int,
                if v[x as int] + v[y as int] > 255 {
                    1u8
                } else {
                    0u8
                },
            )
        },
        Instruction::Sub(x, y) => {
            &&& executed
            &&& frame_regs_pc(pre, post)
            &&& advanced(pre, post, false)
            &&& post.cpu.v@ == v.update(x as int, wrap8(v[x as int] - v[y as int])).update(
                FLAG_REG as int,
                if v[x as int] >= v[y as int] {
                    1u8
                } else {
                    0u8
                },
            )
        },
        Instruction::ShiftRight(x) => {
            &&& executed
            &&& frame_regs_pc(pre, post)
            &&& advanced(pre, post, false)
            &&& post.cpu.v@ == v.update(x as int, ((v[x as int] / 2) as u8)).update(
                FLAG_REG as int,
                ((v[x as int] % 2) as u8),
            )
        },
        Instruction::SubNeg(x, y) => {
            &&& executed
            &&& frame_regs_pc(pre, post)
            &&& advanced(pre, post, false)
            &&& post.cpu.v@ == v.update(x as int, wrap8(v[y as int] - v[x as int])).update(
                FLAG_REG as int,
                if v[y as int] >= v[x as int] {
                    1u8
                } else {
                    0u8
                },
            )
        },
        Instruction::ShiftLeft(x) => {
            &&& executed
            &&& frame_regs_pc(pre, post)
            &&& advanced(pre, post, false)
            &&& post.cpu.v@ == v.update(x as int, wrap8(2 * v[x as int])).update(
                FLAG_REG as int,
                ((v[x as int] / 128) as u8),
            )
        },
        Instruction::SkipNeReg(x, y) => {
            &&& executed
            &&& frame_pc(pre, post)
            &&& advanced(pre, post, v[x as int] != v[y as int])
        },
        Instruction::LoadIndex(nnn) => {
            &&& executed
            &&& same_ram(pre, post)
            &&& same_stack(pre, post)
            &&& same_regs(pre, post)
            &&& same_timers(pre, post)
            &&& same_screen(pre, post)
            &&& same_keys(pre, post)
            &&& post.cpu.i == nnn
            &&& advanced(pre, post, false)
        },
        Instruction::JumpOffset(nnn) => {
            &&& executed
            &&& frame_pc(pre, post)
            &&& post.cpu.pc as int == nnn + v[0]
        },
        Instruction::Random(x, kk) => {
            &&& executed
            &&& frame_regs_pc(pre, post)
            &&& advanced(pre, post, false)
            &&& post.cpu.v@ == v.update(x as int, rand & kk)
        },
        Instruction::Draw(x, y, n) => {
            if pre.cpu.i + n > RAM_SIZE {
                r == Err::<StepEvent, Chip8Error>(Chip8Error::AddressOutOfRange) && post == pre
            } else {
                let sprite = pre.memory.ram@.subrange(
                    pre.cpu.i as int,
                    pre.cpu.i + n,
                );
                let collided = draw_collision(
                    pre.framebuffer.grid@,
                    sprite,
                    v[x as int] as int,
                    v[y as int] as int,
                );
                &&& executed
                &&& same_ram(pre, post)
                &&& same_stack(pre, post)
                &&& same_index(pre, post)
                &&& same_timers(pre, post)
                &&& same_keys(pre, post)
                &&& advanced(pre, post, false)
                &&& draw_rel(
                    pre.framebuffer.grid@,
                    post.framebuffer.grid@,
                    sprite,
                    v[x as int] as int,
                    v[y as int] as int,
                )
                &&& post.cpu.v@ == v.update(
                    FLAG_REG as int,
                    if collided {
                        1u8
                    } else {
                        0u8
                    },
                )
            }
        },
        Instruction::SkipKeyPressed(x) => {
            &&& executed
            &&& frame_pc(pre, post)
            &&& advanced(pre, post, pre.keypad.keys@[(v[x as int] & 0xF) as int])
        },
        Instruction::SkipKeyNotPressed(x) => {
            &&& executed
            &&& frame_pc(pre, post)
            &&& advanced(pre, post, !pre.keypad.keys@[(v[x as int] & 0xF) as int])
        },
        Instruction::LoadDelay(x) => {
            &&& executed
            &&& frame_regs_pc(pre, post)
            &&& advanced(pre, post, false)
            &&& post.cpu.v@ == v.update(x as int, pre.cpu.dt)
        },
        Instruction::WaitKey(x) => {
            match first_pressed(pre.keypad.keys@) {
                Some(k) => {
                    &&& executed
                    &&& frame_regs_pc(pre, post)
                    &&& advanced(pre, post, false)
                    &&& post.cpu.v@ == v.update(x as int, k)
                },
                None => r == Ok::<StepEvent, Chip8Error>(StepEvent::AwaitingKey) && post == pre,
            }
        },
        Instruction::SetDelay(x) => {
            &&& executed
            &&& same_ram(pre, post)
            &&& same_stack(pre, post)
            &&& same_regs(pre, post)
            &&& same_index(pre, post)
            &&& same_screen(pre, post)
            &&& same_keys(pre, post)
            &&& post.cpu.dt == v[x as int]
            &&& post.cpu.st == pre.cpu.st
            &&& advanced(pre, post, false)
        },
        Instruction::SetSound(x) => {
            &&& executed
            &&& same_ram(pre, post)
            &&& same_stack(pre, post)
            &&& same_regs(pre, post)
            &&& same_index(pre, post)
            &&& same_screen(pre, post)
            &&& same_keys(pre, post)
            &&& post.cpu.st == v[x as int]
            &&& post.cpu.dt == pre.cpu.dt
            &&& advanced(pre, post, false)
        },
        Instruction::AddIndex(x) => {
            &&& executed
            &&& same_ram(pre, post)
            &&& same_stack(pre, post)
            &&& same_regs(pre, post)
            &&& same_timers(pre, post)
            &&& same_screen(pre, post)
            &&& same_keys(pre, post)
            &&& post.cpu.i as int == (pre.cpu.i + v[x as int]) % 0x10000
            &&& advanced(pre, post, false)
        },
        Instruction::LoadGlyph(x) => {
            &&& executed
            &&& same_ram(pre, post)
            &&& same_stack(pre, post)
            &&& same_regs(pre, post)
            &&& same_timers(pre, post)
            &&& same_screen(pre, post)
            &&& same_keys(pre, post)
            &&& post.cpu.i as int == FONT_BASE + GLYPH_HEIGHT * ((v[x as int] & 0xF) as int)
            &&& advanced(pre, post, false)
        },
        Instruction::StoreBcd(x) => {
            if pre.cpu.i + 2 >= RAM_SIZE {
                r == Err::<StepEvent, Chip8Error>(Chip8Error::AddressOutOfRange) && post == pre
            } else {
                let i = pre.cpu.i as int;
                let val = v[x as int];
                &&& executed
                &&& same_stack(pre, post)
                &&& same_regs(pre, post)
                &&& same_index(pre, post)
                &&& same_timers(pre, post)
                &&& same_screen(pre, post)
                &&& same_keys(pre, post)
                &&& advanced(pre, post, false)
                &&& post.memory.ram@ == pre.memory.ram@.update(i, ((val / 100) as u8)).update(
                    i + 1,
                    ((val / 10 % 10) as u8),
                ).update(i + 2, ((val % 10) as u8))
            }
        },
        Instruction::StoreRegs(x) => {
            if pre.cpu.i + x >= RAM_SIZE {
                r == Err::<StepEvent, Chip8Error>(Chip8Error::AddressOutOfRange) && post == pre
            } else {
                let i = pre.cpu.i as int;
                &&& executed
                &&& same_stack(pre, post)
                &&& same_regs(pre, post)
                &&& same_index(pre, post)
                &&& same_timers(pre, post)
                &&& same_screen(pre, post)
                &&& same_keys(pre, post)
                &&& advanced(pre, post, false)
                &&& post.memory.ram@.len() == RAM_SIZE
                &&& forall|k: int| 0 <= k <= x ==> post.memory.ram@[i + k] == v[k]
                &&& forall|a: int|
                    0 <= a < RAM_SIZE && !(i <= a <= i + x) ==> post.memory.ram@[a]
                        == pre.memory.ram@[a]
            }
        },
        Instruction::LoadRegs(x) => {
            if pre.cpu.i + x >= RAM_SIZE {
                r == Err::<StepEvent, Chip8Error>(Chip8Error::AddressOutOfRange) && post == pre
            } else {
                let i = pre.cpu.i as int;
                &&& executed
                &&& same_ram(pre, post)
                &&& same_stack(pre, post)
                &&& same_index(pre, post)
                &&& same_timers(pre, post)
                &&& same_screen(pre, post)
                &&& same_keys(pre, post)
                &&& advanced(pre, post, false)
                &&& post.cpu.v@.len() == NUM_REGS
                &&& forall|k: int| 0 <= k <= x ==> post.cpu.v@[k] == pre.memory.ram@[i + k]
                &&& forall|k: int| x < k < NUM_REGS ==> post.cpu.v@[k] == v[k]
            }
        },
        Instruction::Invalid => {
            &&& r == Ok::<StepEvent, Chip8Error>(StepEvent::UnknownOpcode)
            &&& frame_pc(pre, post)
            &&& advanced(pre, post, false)
        },
    }
}

} // verus!
