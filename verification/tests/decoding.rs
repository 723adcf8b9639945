use chip8::decode::decode;
use chip8::decode::Instruction;

#[test]
fn decode_clear_and_return() {
    assert_eq!(decode(0x00E0), Instruction::Cls);
    assert_eq!(decode(0x00EE), Instruction::Ret);
}

#[test]
fn decode_jumps_and_calls() {
    assert_eq!(decode(0x1234), Instruction::Jump(0x234));
    assert_eq!(decode(0x2ABC), Instruction::Call(0xABC));
    assert_eq!(decode(0xB300), Instruction::JumpOffset(0x300));
}

#[test]
fn decode_skips() {
    assert_eq!(decode(0x3512), Instruction::SkipEqImm(5, 0x12));
    assert_eq!(decode(0x4512), Instruction::SkipNeImm(5, 0x12));
    assert_eq!(decode(0x5120), Instruction::SkipEqReg(1, 2));
    assert_eq!(decode(0x9120), Instruction::SkipNeReg(1, 2));
    assert_eq!(decode(0xE19E), Instruction::SkipKeyPressed(1));
    assert_eq!(decode(0xE1A1), Instruction::SkipKeyNotPressed(1));
}

#[test]
fn decode_loads() {
    assert_eq!(decode(0x6A42), Instruction::LoadImm(0xA, 0x42));
    assert_eq!(decode(0x7A42), Instruction::AddImm(0xA, 0x42));
    assert_eq!(decode(0xA678), Instruction::LoadIndex(0x678));
    assert_eq!(decode(0xC30F), Instruction::Random(3, 0x0F));
}

#[test]
fn decode_alu_family() {
    assert_eq!(decode(0x8120), Instruction::Move(1, 2));
    assert_eq!(decode(0x8121), Instruction::Or(1, 2));
    assert_eq!(decode(0x8122), Instruction::And(1, 2));
    assert_eq!(decode(0x8123), Instruction::Xor(1, 2));
    assert_eq!(decode(0x8124), Instruction::Add(1, 2));
    assert_eq!(decode(0x8125), Instruction::Sub(1, 2));
    assert_eq!(decode(0x8126), Instruction::ShiftRight(1));
    assert_eq!(decode(0x8127), Instruction::SubNeg(1, 2));
    assert_eq!(decode(0x812E), Instruction::ShiftLeft(1));
}

#[test]
fn decode_draw_and_misc() {
    assert_eq!(decode(0xD125), Instruction::Draw(1, 2, 5));
    assert_eq!(decode(0xF107), Instruction::LoadDelay(1));
    assert_eq!(decode(0xF10A), Instruction::WaitKey(1));
    assert_eq!(decode(0xF115), Instruction::SetDelay(1));
    assert_eq!(decode(0xF118), Instruction::SetSound(1));
    assert_eq!(decode(0xF11E), Instruction::AddIndex(1));
    assert_eq!(decode(0xF129), Instruction::LoadGlyph(1));
    assert_eq!(decode(0xF133), Instruction::StoreBcd(1));
    assert_eq!(decode(0xF155), Instruction::StoreRegs(1));
    assert_eq!(decode(0xF165), Instruction::LoadRegs(1));
}

#[test]
fn decode_invalid_patterns() {
    // A system-call pattern, unsupported sub-fields and unused slots all
    // decode to Invalid.
    assert_eq!(decode(0x0123), Instruction::Invalid);
    assert_eq!(decode(0x5121), Instruction::Invalid);
    assert_eq!(decode(0x9125), Instruction::Invalid);
    assert_eq!(decode(0x8128), Instruction::Invalid);
    assert_eq!(decode(0xE1FF), Instruction::Invalid);
    assert_eq!(decode(0xF1FF), Instruction::Invalid);
    assert_eq!(decode(0x00E1), Instruction::Invalid);
}
