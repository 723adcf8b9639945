//! The flat 4096-byte memory, the built-in glyph set and the call stack.

use vstd::prelude::*;
use crate::cpu::STACK_SIZE;

verus! {

/// Number of addressable bytes.
pub const RAM_SIZE: usize = 4096;

/// Address at which the built-in glyph set resides.
pub const FONT_BASE: usize = 0x50;

/// Height in bytes of one built-in glyph.
pub const GLYPH_HEIGHT: usize = 5;

/// The sixteen built-in 5-byte glyphs for the hexadecimal digits, one row
/// per byte, most significant bit leftmost.
pub open spec fn font_set() -> Seq<u8> {
    seq![
        0xF0u8, 0x90, 0x90, 0x90, 0xF0, // 0
        0x20, 0x60, 0x20, 0x20, 0x70, // 1
        0xF0, 0x10, 0xF0, 0x80, 0xF0, // 2
        0xF0, 0x10, 0xF0, 0x10, 0xF0, // 3
        0x90, 0x90, 0xF0, 0x10, 0x10, // 4
        0xF0, 0x80, 0xF0, 0x10, 0xF0, // 5
        0xF0, 0x80, 0xF0, 0x90, 0xF0, // 6
        0xF0, 0x10, 0x20, 0x40, 0x40, // 7
        0xF0, 0x90, 0xF0, 0x90, 0xF0, // 8
        0xF0, 0x90, 0xF0, 0x10, 0xF0, // 9
        0xF0, 0x90, 0xF0, 0x90, 0x90, // A
        0xE0, 0x90, 0xE0, 0x90, 0xE0, // B
        0xF0, 0x80, 0x80, 0x80, 0xF0, // C
        0xE0, 0x90, 0x90, 0x90, 0xE0, // D
        0xF0, 0x80, 0xF0, 0x80, 0xF0, // E
        0xF0, 0x80, 0xF0, 0x80, 0x80, // F
    ]
}

/// The 16-bit big-endian word stored at `addr`: high byte first.
pub open spec fn word_at(ram: Seq<u8>, addr: int) -> u16 {
    (ram[addr] * 256 + ram[addr + 1]) as u16
}

/// Memory: the flat byte array and the fixed-capacity call stack.  How many
/// stack slots are in use is tracked by the stack pointer of the register
/// file.
pub struct Memory {
    /// The 4096 addressable bytes.
    pub ram: Vec<u8>,
    /// The sixteen call-stack slots.
    pub stack: Vec<u16>,
}

impl Memory {
    /// Structural invariant: the byte array and the stack have their fixed
    /// sizes.
    pub open spec fn wf(&self) -> bool {
        &&& self.ram@.len() == RAM_SIZE
        &&& self.stack@.len() == STACK_SIZE
    }

    /// Fresh memory: every byte and every stack slot zero.
    pub fn new() -> (m: Memory)
        ensures
            m.wf(),
            forall|a: int| 0 <= a < RAM_SIZE ==> m.ram@[a] == 0u8,
            forall|s: int| 0 <= s < STACK_SIZE ==> m.stack@[s] == 0u16,
    {
        let mut ram: Vec<u8> = Vec::new();
        let mut a: usize = 0;
        while a < RAM_SIZE
            invariant
                a <= RAM_SIZE,
                ram@.len() == a,
                forall|j: int| 0 <= j < a ==> ram@[j] == 0u8,
            decreases RAM_SIZE - a,
        {
            ram.push(0);
            a += 1;
        }
        let mut stack: Vec<u16> = Vec::new();
        let mut s: usize = 0;
        while s < STACK_SIZE
            invariant
                s <= STACK_SIZE,
                stack@.len() == s,
                forall|j: int| 0 <= j < s ==> stack@[j] == 0u16,
            decreases STACK_SIZE - s,
        {
            stack.push(0);
            s += 1;
        }
        Memory { ram, stack }
    }

    /// Read the byte at `addr`.
    pub fn read_byte(&self, addr: usize) -> (b: u8)
        requires
            self.wf(),
            addr < RAM_SIZE,
        ensures
            b == self.ram@[addr as int],
    {
        self.ram[addr]
    }

    /// Write `value` at `addr`.  No other byte changes.
    pub fn write_byte(&mut self, addr: usize, value: u8)
        requires
            old(self).wf(),
            addr < RAM_SIZE,
        ensures
            final(self).wf(),
            final(self).ram@ == old(self).ram@.update(addr as int, value),
            final(self).stack == old(self).stack,
    {
        self.ram.set(addr, value);
    }

    /// Read the big-endian 16-bit word at `addr`: the high byte at `addr`,
    /// the low byte at `addr + 1`.
    pub fn read_word(&self, addr: usize) -> (w: u16)
        requires
            self.wf(),
            addr + 1 < RAM_SIZE,
        ensures
            w == word_at(self.ram@, addr as int),
    {
        let hi = self.ram[addr];
        let lo = self.ram[addr + 1];
        (hi as u16) * 256 + (lo as u16)
    }

    /// Copy a program image verbatim into memory starting at the program
    /// start address.  Fails, changing nothing, exactly when the image would
    /// run past the end of memory.
    pub fn load_rom(&mut self, image: &Vec<u8>) -> (r: Result<(), crate::machine::Chip8Error>)
        requires
            old(self).wf(),
        ensures
            final(self).wf(),
            final(self).stack == old(self).stack,
            image@.len() <= RAM_SIZE - crate::cpu::PROGRAM_START ==> {
                &&& r == Ok::<(), crate::machine::Chip8Error>(())
                &&& final(self).ram@.len() == RAM_SIZE
                &&& forall|k: int|
                    0 <= k < image@.len() ==> final(self).ram@[crate::cpu::PROGRAM_START + k]
                        == image@[k]
                &&& forall|a: int|
                    0 <= a < RAM_SIZE && !(crate::cpu::PROGRAM_START <= a
                        < crate::cpu::PROGRAM_START + image@.len()) ==> final(self).ram@[a]
                        == old(self).ram@[a]
            },
            image@.len() > RAM_SIZE - crate::cpu::PROGRAM_START ==> {
                &&& r == Err::<(), crate::machine::Chip8Error>(
                    crate::machine::Chip8Error::LoadError,
                )
                &&& final(self).ram == old(self).ram
            },
    {
        if image.len() > RAM_SIZE - crate::cpu::PROGRAM_START {
            return Err(crate::machine::Chip8Error::LoadError);
        }
        let mut k: usize = 0;
        while k < image.len()
            invariant
                self.wf(),
                k <= image@.len(),
                image@.len() <= RAM_SIZE - crate::cpu::PROGRAM_START,
                self.stack == old(self).stack,
                forall|j: int|
                    0 <= j < k ==> self.ram@[crate::cpu::PROGRAM_START + j] == image@[j],
                forall|a: int|
                    0 <= a < RAM_SIZE && !(crate::cpu::PROGRAM_START <= a
                        < crate::cpu::PROGRAM_START + k) ==> self.ram@[a] == old(self).ram@[a],
            decreases image@.len() - k,
        {
            let b = image[k];
            self.ram.set(crate::cpu::PROGRAM_START + k, b);
            k += 1;
        }
        Ok(())
    }

    /// Write the built-in glyph set into the reserved low region.  No byte
    /// outside that region changes.
    pub fn load_fontset(&mut self)
        requires
            old(self).wf(),
        ensures
            final(self).wf(),
            final(self).stack == old(self).stack,
            forall|k: int|
                0 <= k < font_set().len() ==> final(self).ram@[FONT_BASE + k] == font_set()[k],
            forall|a: int|
                0 <= a < RAM_SIZE && !(FONT_BASE <= a < FONT_BASE + font_set().len())
                    ==> final(self).ram@[a] == old(self).ram@[a],
    {
        let data = font_data();
        let mut k: usize = 0;
        while k < data.len()
            invariant
                self.wf(),
                k <= font_set().len(),
                data@ == font_set(),
                self.stack == old(self).stack,
                forall|j: int| 0 <= j < k ==> self.ram@[FONT_BASE + j] == font_set()[j],
                forall|a: int|
                    0 <= a < RAM_SIZE && !(FONT_BASE <= a < FONT_BASE + k) ==> self.ram@[a]
                        == old(self).ram@[a],
            decreases font_set().len() - k,
        {
            let b = data[k];
            self.ram.set(FONT_BASE + k, b);
            k += 1;
        }
    }
}

/// The built-in glyph set as a byte vector, row by row.
pub fn font_data() -> (data: Vec<u8>)
    ensures
        data@ == font_set(),
{
    let data: Vec<u8> = vec![
        0xF0u8, 0x90, 0x90, 0x90, 0xF0, 0x20, 0x60, 0x20, 0x20, 0x70, 0xF0, 0x10, 0xF0, 0x80,
        0xF0, 0xF0, 0x10, 0xF0, 0x10, 0xF0, 0x90, 0x90, 0xF0, 0x10, 0x10, 0xF0, 0x80, 0xF0, 0x10,
        0xF0, 0xF0, 0x80, 0xF0, 0x90, 0xF0, 0xF0, 0x10, 0x20, 0x40, 0x40, 0xF0, 0x90, 0xF0, 0x90,
        0xF0, 0xF0, 0x90, 0xF0, 0x10, 0xF0, 0xF0, 0x90, 0xF0, 0x90, 0x90, 0xE0, 0x90, 0xE0, 0x90,
        0xE0, 0xF0, 0x80, 0x80, 0x80, 0xF0, 0xE0, 0x90, 0x90, 0x90, 0xE0, 0xF0, 0x80, 0xF0, 0x80,
        0xF0, 0xF0, 0x80, 0xF0, 0x80, 0x80,
    ];
    proof {
        assert(data@ =~= font_set());
    }
    data
}

} // verus!
