//! Decoding of 16-bit instruction words into the flat instruction set.

use vstd::prelude::*;

verus! {

/// The decoded instruction set.  Register operands are 4-bit indices,
/// `kk` literals are 8 bits, `nnn` addresses 12 bits.  Any bit pattern that
/// matches no defined instruction decodes to `Invalid`.
#[derive(Clone, Copy, Debug, PartialEq, Eq, Structural)]
pub enum Instruction {
    /// `00E0`: clear the screen.
    Cls,
    /// `00EE`: return from a subroutine.
    Ret,
    /// `1nnn`: jump to `nnn`.
    Jump(u16),
    /// `2nnn`: call the subroutine at `nnn`.
    Call(u16),
    /// `3xkk`: skip the next instruction if `v[x] == kk`.
    SkipEqImm(u8, u8),
    /// `4xkk`: skip the next instruction if `v[x] != kk`.
    SkipNeImm(u8, u8),
    /// `5xy0`: skip the next instruction if `v[x] == v[y]`.
    SkipEqReg(u8, u8),
    /// `6xkk`: load `kk` into `v[x]`.
    LoadImm(u8, u8),
    /// `7xkk`: add `kk` to `v[x]` with 8-bit wraparound, no flag.
    AddImm(u8, u8),
    /// `8xy0`: copy `v[y]` into `v[x]`.
    Move(u8, u8),
    /// `8xy1`: bitwise or of `v[y]` into `v[x]`.
    Or(u8, u8),
    /// `8xy2`: bitwise and of `v[y]` into `v[x]`.
    And(u8, u8),
    /// `8xy3`: bitwise xor of `v[y]` into `v[x]`.
    Xor(u8, u8),
    /// `8xy4`: add `v[y]` to `v[x]`; the flag register reports carry.
    Add(u8, u8),
    /// `8xy5`: subtract `v[y]` from `v[x]`; the flag register reports
    /// no-borrow.
    Sub(u8, u8),
    /// `8xy6`: shift `v[x]` right by one; the flag register takes the bit
    /// shifted out.
    ShiftRight(u8),
    /// `8xy7`: set `v[x]` to `v[y] - v[x]`; the flag register reports
    /// no-borrow.
    SubNeg(u8, u8),
    /// `8xyE`: shift `v[x]` left by one; the flag register takes the bit
    /// shifted out.
    ShiftLeft(u8),
    /// `9xy0`: skip the next instruction if `v[x] != v[y]`.
    SkipNeReg(u8, u8),
    /// `Annn`: load `nnn` into the index register.
    LoadIndex(u16),
    /// `Bnnn`: jump to `nnn + v[0]`.
    JumpOffset(u16),
    /// `Cxkk`: load a random byte masked with `kk` into `v[x]`.
    Random(u8, u8),
    /// `Dxyn`: draw the `n`-byte sprite at the index register's address at
    /// coordinates `(v[x], v[y])`; the flag register reports collision.
    Draw(u8, u8, u8),
    /// `Ex9E`: skip the next instruction if the key `v[x] & 0xF` is pressed.
    SkipKeyPressed(u8),
    /// `ExA1`: skip the next instruction if the key `v[x] & 0xF` is not
    /// pressed.
    SkipKeyNotPressed(u8),
    /// `Fx07`: load the delay timer into `v[x]`.
    LoadDelay(u8),
    /// `Fx0A`: block until a key is pressed, then store its index in `v[x]`.
    WaitKey(u8),
    /// `Fx15`: set the delay timer from `v[x]`.
    SetDelay(u8),
    /// `Fx18`: set the sound timer from `v[x]`.
    SetSound(u8),
    /// `Fx1E`: add `v[x]` to the index register, 16-bit wraparound.
    AddIndex(u8),
    /// `Fx29`: point the index register at the glyph for `v[x] & 0xF`.
    LoadGlyph(u8),
    /// `Fx33`: store the decimal digits of `v[x]` at the index register's
    /// address.
    StoreBcd(u8),
    /// `Fx55`: dump `v[0]` through `v[x]` to memory at the index register's
    /// address.
    StoreRegs(u8),
    /// `Fx65`: load `v[0]` through `v[x]` from memory at the index
    /// register's address.
    LoadRegs(u8),
    /// Any unrecognized bit pattern: reported and skipped.
    Invalid,
}

/// The leading 4-bit field of an instruction word.
pub open spec fn op_family(op: u16) -> u16 {
    (op >> 12) & 0xF
}

/// The first register operand: the second 4-bit field.
pub open spec fn op_x(op: u16) -> u8 {
    (((op >> 8) & 0xF) as u8)
}

/// The second register operand: the third 4-bit field.
pub open spec fn op_y(op: u16) -> u8 {
    (((op >> 4) & 0xF) as u8)
}

/// The trailing 4-bit literal.
pub open spec fn op_n(op: u16) -> u8 {
    ((op & 0xF) as u8)
}

/// The trailing 8-bit literal.
pub open spec fn op_kk(op: u16) -> u8 {
    ((op & 0xFF) as u8)
}

/// The trailing 12-bit literal address.
pub open spec fn op_nnn(op: u16) -> u16 {
    op & 0xFFF
}

/// Ranges of the decoded fields, as the bit masks force them.
pub proof fn lemma_field_bounds(op: u16)
    ensures
        op_family(op) < 16,
        op_x(op) < 16,
        op_y(op) < 16,
        op_n(op) < 16,
        op_nnn(op) < 0x1000,
{
    assert((op >> 12) & 0xF < 16 && (op >> 8) & 0xF < 16 && (op >> 4) & 0xF < 16 && op & 0xF < 16
        && op & 0xFFF < 0x1000) by (bit_vector);
}

/// What the instruction word `op` decodes to.  The leading field selects the
/// family; within the families `0`, `5`, `8`, `9`, `E` and `F` the remaining
/// fields disambiguate, and every leftover pattern is `Invalid`.
pub open spec fn spec_decode(op: u16) -> Instruction {
    let x = op_x(op);
    let y = op_y(op);
    let n = op_n(op);
    let kk = op_kk(op);
    let nnn = op_nnn(op);
    if op == 0x00E0 {
        Instruction::Cls
    } else if op == 0x00EE {
        Instruction::Ret
    } else if op_family(op) == 0x1 {
        Instruction::Jump(nnn)
    } else if op_family(op) == 0x2 {
        Instruction::Call(nnn)
    } else if op_family(op) == 0x3 {
        Instruction::SkipEqImm(x, kk)
    } else if op_family(op) == 0x4 {
        Instruction::SkipNeImm(x, kk)
    } else if op_family(op) == 0x5 && n == 0 {
        Instruction::SkipEqReg(x, y)
    } else if op_family(op) == 0x6 {
        Instruction::LoadImm(x, kk)
    } else if op_family(op) == 0x7 {
        Instruction::AddImm(x, kk)
    } else if op_family(op) == 0x8 && n == 0x0 {
        Instruction::Move(x, y)
    } else if op_family(op) == 0x8 && n == 0x1 {
        Instruction::Or(x, y)
    } else if op_family(op) == 0x8 && n == 0x2 {
        Instruction::And(x, y)
    } else if op_family(op) == 0x8 && n == 0x3 {
        Instruction::Xor(x, y)
    } else if op_family(op) == 0x8 && n == 0x4 {
        Instruction::Add(x, y)
    } else if op_family(op) == 0x8 && n == 0x5 {
        Instruction::Sub(x, y)
    } else if op_family(op) == 0x8 && n == 0x6 {
        Instruction::ShiftRight(x)
    } else if op_family(op) == 0x8 && n == 0x7 {
        Instruction::SubNeg(x, y)
    } else if op_family(op) == 0x8 && n == 0xE {
        Instruction::ShiftLeft(x)
    } else if op_family(op) == 0x9 && n == 0 {
        Instruction::SkipNeReg(x, y)
    } else if op_family(op) == 0xA {
        Instruction::LoadIndex(nnn)
    } else if op_family(op) == 0xB {
        Instruction::JumpOffset(nnn)
    } else if op_family(op) == 0xC {
        Instruction::Random(x, kk)
    } else if op_family(op) == 0xD {
        Instruction::Draw(x, y, n)
    } else if op_family(op) == 0xE && kk == 0x9E {
        Instruction::SkipKeyPressed(x)
    } else if op_family(op) == 0xE && kk == 0xA1 {
        Instruction::SkipKeyNotPressed(x)
    } else if op_family(op) == 0xF && kk == 0x07 {
        Instruction::LoadDelay(x)
    } else if op_family(op) == 0xF && kk == 0x0A {
        Instruction::WaitKey(x)
    } else if op_family(op) == 0xF && kk == 0x15 {
        Instruction::SetDelay(x)
    } else if op_family(op) == 0xF && kk == 0x18 {
        Instruction::SetSound(x)
    } else if op_family(op) == 0xF && kk == 0x1E {
        Instruction::AddIndex(x)
    } else if op_family(op) == 0xF && kk == 0x29 {
        Instruction::LoadGlyph(x)
    } else if op_family(op) == 0xF && kk == 0x33 {
        Instruction::StoreBcd(x)
    } else if op_family(op) == 0xF && kk == 0x55 {
        Instruction::StoreRegs(x)
    } else if op_family(op) == 0xF && kk == 0x65 {
        Instruction::LoadRegs(x)
    } else {
        Instruction::Invalid
    }
}

/// Every register operand of a decoded instruction is below 16 and every
/// address literal below 0x1000.
pub open spec fn instruction_fields_bounded(instr: Instruction) -> bool {
    match instr {
        Instruction::Jump(nnn) => nnn < 0x1000,
        Instruction::Call(nnn) => nnn < 0x1000,
        Instruction::SkipEqImm(x, _) => x < 16,
        Instruction::SkipNeImm(x, _) => x < 16,
        Instruction::SkipEqReg(x, y) => x < 16 && y < 16,
        Instruction::LoadImm(x, _) => x < 16,
        Instruction::AddImm(x, _) => x < 16,
        Instruction::Move(x, y) => x < 16 && y < 16,
        Instruction::Or(x, y) => x < 16 && y < 16,
        Instruction::And(x, y) => x < 16 && y < 16,
        Instruction::Xor(x, y) => x < 16 && y < 16,
        Instruction::Add(x, y) => x < 16 && y < 16,
        Instruction::Sub(x, y) => x < 16 && y < 16,
        Instruction::ShiftRight(x) => x < 16,
        Instruction::SubNeg(x, y) => x < 16 && y < 16,
        Instruction::ShiftLeft(x) => x < 16,
        Instruction::SkipNeReg(x, y) => x < 16 && y < 16,
        Instruction::LoadIndex(nnn) => nnn < 0x1000,
        Instruction::JumpOffset(nnn) => nnn < 0x1000,
        Instruction::Random(x, _) => x < 16,
        Instruction::Draw(x, y, n) => x < 16 && y < 16 && n < 16,
        Instruction::SkipKeyPressed(x) => x < 16,
        Instruction::SkipKeyNotPressed(x) => x < 16,
        Instruction::LoadDelay(x) => x < 16,
        Instruction::WaitKey(x) => x < 16,
        Instruction::SetDelay(x) => x < 16,
        Instruction::SetSound(x) => x < 16,
        Instruction::AddIndex(x) => x < 16,
        Instruction::LoadGlyph(x) => x < 16,
        Instruction::StoreBcd(x) => x < 16,
        Instruction::StoreRegs(x) => x < 16,
        Instruction::LoadRegs(x) => x < 16,
        _ => true,
    }
}

/// A decoded instruction's fields stay in the ranges the masks force.
pub proof fn lemma_decode_bounded(op: u16)
    ensures
        instruction_fields_bounded(spec_decode(op)),
{
    lemma_field_bounds(op);
}

/// Decode the instruction word `op`.
pub fn decode(op: u16) -> (instr: Instruction)
    ensures
        instr == spec_decode(op),
        instruction_fields_bounded(instr),
{
    proof {
        lemma_decode_bounded(op);
    }
    let family: u16 = (op >> 12) & 0xF;
    let x: u8 = ((op >> 8) & 0xF) as u8;
    let y: u8 = ((op >> 4) & 0xF) as u8;
    let n: u8 = (op & 0xF) as u8;
    let kk: u8 = (op & 0xFF) as u8;
    let nnn: u16 = op & 0xFFF;
    if op == 0x00E0 {
        Instruction::Cls
    } else if op == 0x00EE {
        Instruction::Ret
    } else if family == 0x1 {
        Instruction::Jump(nnn)
    } else if family == 0x2 {
        Instruction::Call(nnn)
    } else if family == 0x3 {
        Instruction::SkipEqImm(x, kk)
    } else if family == 0x4 {
        Instruction::SkipNeImm(x, kk)
    } else if family == 0x5 && n == 0 {
        Instruction::SkipEqReg(x, y)
    } else if family == 0x6 {
        Instruction::LoadImm(x, kk)
    } else if family == 0x7 {
        Instruction::AddImm(x, kk)
    } else if family == 0x8 && n == 0x0 {
        Instruction::Move(x, y)
    } else if family == 0x8 && n == 0x1 {
        Instruction::Or(x, y)
    } else if family == 0x8 && n == 0x2 {
        Instruction::And(x, y)
    } else if family == 0x8 && n == 0x3 {
        Instruction::Xor(x, y)
    } else if family == 0x8 && n == 0x4 {
        Instruction::Add(x, y)
    } else if family == 0x8 && n == 0x5 {
        Instruction::Sub(x, y)
    } else if family == 0x8 && n == 0x6 {
        Instruction::ShiftRight(x)
    } else if family == 0x8 && n == 0x7 {
        Instruction::SubNeg(x, y)
    } else if family == 0x8 && n == 0xE {
        Instruction::ShiftLeft(x)
    } else if family == 0x9 && n == 0 {
        Instruction::SkipNeReg(x, y)
    } else if family == 0xA {
        Instruction::LoadIndex(nnn)
    } else if family == 0xB {
        Instruction::JumpOffset(nnn)
    } else if family == 0xC {
        Instruction::Random(x, kk)
    } else if family == 0xD {
        Instruction::Draw(x, y, n)
    } else if family == 0xE && kk == 0x9E {
        Instruction::SkipKeyPressed(x)
    } else if family == 0xE && kk == 0xA1 {
        Instruction::SkipKeyNotPressed(x)
    } else if family == 0xF && kk == 0x07 {
        Instruction::LoadDelay(x)
    } else if family == 0xF && kk == 0x0A {
        Instruction::WaitKey(x)
    } else if family == 0xF && kk == 0x15 {
        Instruction::SetDelay(x)
    } else if family == 0xF && kk == 0x18 {
        Instruction::SetSound(x)
    } else if family == 0xF && kk == 0x1E {
        Instruction::AddIndex(x)
    } else if family == 0xF && kk == 0x29 {
        Instruction::LoadGlyph(x)
    } else if family == 0xF && kk == 0x33 {
        Instruction::StoreBcd(x)
    } else if family == 0xF && kk == 0x55 {
        Instruction::StoreRegs(x)
    } else if family == 0xF && kk == 0x65 {
        Instruction::LoadRegs(x)
    } else {
        Instruction::Invalid
    }
}

} // verus!
