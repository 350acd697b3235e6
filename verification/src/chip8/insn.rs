use vstd::prelude::*;

verus! {

/// A fetched word decoded into a closed tagged variant, one per opcode
/// family, so that dispatch is a single exhaustive match.
#[derive(Clone, Copy, Debug, PartialEq, Eq, Structural)]
pub enum Instr {
    /// 00E0: clear the screen.
    Cls,
    /// 00EE: return, popping the stack into the program counter.
    Ret,
    /// 1NNN: absolute jump.
    Jump { nnn: u16 },
    /// 2NNN: call, pushing the return address.
    Call { nnn: u16 },
    /// 3XKK: skip when register X equals the immediate.
    SkipEqImm { x: u8, kk: u8 },
    /// 4XKK: skip when register X differs from the immediate.
    SkipNeImm { x: u8, kk: u8 },
    /// 5XY0: skip when the registers are equal.
    SkipEqReg { x: u8, y: u8 },
    /// 6XKK: load the immediate.
    LoadImm { x: u8, kk: u8 },
    /// 7XKK: add the immediate, wrapping.
    AddImm { x: u8, kk: u8 },
    /// 8XY0: move register Y into X.
    Move { x: u8, y: u8 },
    /// 8XY1: bitwise or; clears VF.
    Or { x: u8, y: u8 },
    /// 8XY2: bitwise and; clears VF.
    And { x: u8, y: u8 },
    /// 8XY3: bitwise exclusive or; clears VF.
    Xor { x: u8, y: u8 },
    /// 8XY4: add with carry into VF.
    Add { x: u8, y: u8 },
    /// 8XY5: subtract with not-borrow into VF.
    Sub { x: u8, y: u8 },
    /// 8XY6: shift right; value and carry come from register Y.
    ShiftRight { x: u8, y: u8 },
    /// 8XY7: reverse subtract with not-borrow into VF.
    SubNeg { x: u8, y: u8 },
    /// 8XYE: shift left; value and carry come from register Y.
    ShiftLeft { x: u8, y: u8 },
    /// 9XY0: skip when the registers differ.
    SkipNeReg { x: u8, y: u8 },
    /// ANNN: load the index register.
    LoadIndex { nnn: u16 },
    /// BNNN: jump to NNN plus register zero.
    JumpV0 { nnn: u16 },
    /// CXKK: random byte masked by the immediate.
    Random { x: u8, kk: u8 },
    /// DXYN: sprite draw, gated by the vsync countdown.
    Draw { x: u8, y: u8, n: u8 },
    /// EX9E: skip when the key in register X is pressed.
    SkipKey { x: u8 },
    /// EXA1: skip when the key in register X is not pressed.
    SkipNoKey { x: u8 },
    /// FX07: read the delta timer.
    ReadDelta { x: u8 },
    /// FX0A: blocking key-wait.
    WaitKey { x: u8 },
    /// FX15: write the delta timer.
    SetDelta { x: u8 },
    /// FX18: write the sound timer.
    SetSound { x: u8 },
    /// FX1E: add register X to the index, wrapping.
    AddIndex { x: u8 },
    /// FX29: font glyph address, five bytes per glyph.
    FontIndex { x: u8 },
    /// FX33: write three decimal digits, most significant first.
    Bcd { x: u8 },
    /// FX55: store registers 0..=X through the index, incrementing it.
    StoreRegs { x: u8 },
    /// FX65: load registers 0..=X through the index, incrementing it.
    LoadRegs { x: u8 },
    /// Any other nibble pattern.
    Unknown,
}

/// Second nibble: the X register operand.
pub open spec fn op_x(w: u16) -> u8 {
    ((w >> 8u16) & 0xF) as u8
}

/// Third nibble: the Y register operand.
pub open spec fn op_y(w: u16) -> u8 {
    ((w >> 4u16) & 0xF) as u8
}

/// Fourth nibble: the short immediate.
pub open spec fn op_n(w: u16) -> u8 {
    (w & 0xF) as u8
}

/// Low byte: the immediate operand.
pub open spec fn op_kk(w: u16) -> u8 {
    (w & 0xFF) as u8
}

/// Low twelve bits: the address operand.
pub open spec fn op_nnn(w: u16) -> u16 {
    w & 0xFFF
}

/// Ranges of the operand fields.
pub proof fn lemma_op_bounds(w: u16)
    ensures
        op_x(w) < 16,
        op_y(w) < 16,
        op_n(w) < 16,
        op_nnn(w) < 0x1000,
{
    assert(((w >> 8u16) & 0xF) < 16 && ((w >> 4u16) & 0xF) < 16 && (w & 0xF) < 16 && (w & 0xFFF)
        < 0x1000) by (bit_vector);
}

/// The instruction a word denotes.
pub open spec fn decode_spec(w: u16) -> Instr {
    let t = w >> 12u16;
    let x = op_x(w);
    let y = op_y(w);
    let n = op_n(w);
    let kk = op_kk(w);
    let nnn = op_nnn(w);
    if w == 0x00E0 {
        Instr::Cls
    } else if w == 0x00EE {
        Instr::Ret
    } else if t == 0x1 {
        Instr::Jump { nnn }
    } else if t == 0x2 {
        Instr::Call { nnn }
    } else if t == 0x3 {
        Instr::SkipEqImm { x, kk }
    } else if t == 0x4 {
        Instr::SkipNeImm { x, kk }
    } else if t == 0x5 && n == 0x0 {
        Instr::SkipEqReg { x, y }
    } else if t == 0x6 {
        Instr::LoadImm { x, kk }
    } else if t == 0x7 {
        Instr::AddImm { x, kk }
    } else if t == 0x8 && n == 0x0 {
        Instr::Move { x, y }
    } else if t == 0x8 && n == 0x1 {
        Instr::Or { x, y }
    } else if t == 0x8 && n == 0x2 {
        Instr::And { x, y }
    } else if t == 0x8 && n == 0x3 {
        Instr::Xor { x, y }
    } else if t == 0x8 && n == 0x4 {
        Instr::Add { x, y }
    } else if t == 0x8 && n == 0x5 {
        Instr::Sub { x, y }
    } else if t == 0x8 && n == 0x6 {
        Instr::ShiftRight { x, y }
    } else if t == 0x8 && n == 0x7 {
        Instr::SubNeg { x, y }
    } else if t == 0x8 && n == 0xE {
        Instr::ShiftLeft { x, y }
    } else if t == 0x9 && n == 0x0 {
        Instr::SkipNeReg { x, y }
    } else if t == 0xA {
        Instr::LoadIndex { nnn }
    } else if t == 0xB {
        Instr::JumpV0 { nnn }
    } else if t == 0xC {
        Instr::Random { x, kk }
    } else if t == 0xD {
        Instr::Draw { x, y, n }
    } else if t == 0xE && kk == 0x9E {
        Instr::SkipKey { x }
    } else if t == 0xE && kk == 0xA1 {
        Instr::SkipNoKey { x }
    } else if t == 0xF && kk == 0x07 {
        Instr::ReadDelta { x }
    } else if t == 0xF && kk == 0x0A {
        Instr::WaitKey { x }
    } else if t == 0xF && kk == 0x15 {
        Instr::SetDelta { x }
    } else if t == 0xF && kk == 0x18 {
        Instr::SetSound { x }
    } else if t == 0xF && kk == 0x1E {
        Instr::AddIndex { x }
    } else if t == 0xF && kk == 0x29 {
        Instr::FontIndex { x }
    } else if t == 0xF && kk == 0x33 {
        Instr::Bcd { x }
    } else if t == 0xF && kk == 0x55 {
        Instr::StoreRegs { x }
    } else if t == 0xF && kk == 0x65 {
        Instr::LoadRegs { x }
    } else {
        Instr::Unknown
    }
}

/// Splits a word into nibbles and names the instruction it denotes.
pub fn decode(w: u16) -> (r: Instr)
    ensures
        r == decode_spec(w),
{
    let t = w >> 12u16;
    let x = ((w >> 8u16) & 0xF) as u8;
    let y = ((w >> 4u16) & 0xF) as u8;
    let n = (w & 0xF) as u8;
    let kk = (w & 0xFF) as u8;
    let nnn = w & 0xFFF;
    if w == 0x00E0 {
        Instr::Cls
    } else if w == 0x00EE {
        Instr::Ret
    } else if t == 0x1 {
        Instr::Jump { nnn }
    } else if t == 0x2 {
        Instr::Call { nnn }
    } else if t == 0x3 {
        Instr::SkipEqImm { x, kk }
    } else if t == 0x4 {
        Instr::SkipNeImm { x, kk }
    } else if t == 0x5 && n == 0x0 {
        Instr::SkipEqReg { x, y }
    } else if t == 0x6 {
        Instr::LoadImm { x, kk }
    } else if t == 0x7 {
        Instr::AddImm { x, kk }
    } else if t == 0x8 && n == 0x0 {
        Instr::Move { x, y }
    } else if t == 0x8 && n == 0x1 {
        Instr::Or { x, y }
    } else if t == 0x8 && n == 0x2 {
        Instr::And { x, y }
    } else if t == 0x8 && n == 0x3 {
        Instr::Xor { x, y }
    } else if t == 0x8 && n == 0x4 {
        Instr::Add { x, y }
    } else if t == 0x8 && n == 0x5 {
        Instr::Sub { x, y }
    } else if t == 0x8 && n == 0x6 {
        Instr::ShiftRight { x, y }
    } else if t == 0x8 && n == 0x7 {
        Instr::SubNeg { x, y }
    } else if t == 0x8 && n == 0xE {
        Instr::ShiftLeft { x, y }
    } else if t == 0x9 && n == 0x0 {
        Instr::SkipNeReg { x, y }
    } else if t == 0xA {
        Instr::LoadIndex { nnn }
    } else if t == 0xB {
        Instr::JumpV0 { nnn }
    } else if t == 0xC {
        Instr::Random { x, kk }
    } else if t == 0xD {
        Instr::Draw { x, y, n }
    } else if t == 0xE && kk == 0x9E {
        Instr::SkipKey { x }
    } else if t == 0xE && kk == 0xA1 {
        Instr::SkipNoKey { x }
    } else if t == 0xF && kk == 0x07 {
        Instr::ReadDelta { x }
    } else if t == 0xF && kk == 0x0A {
        Instr::WaitKey { x }
    } else if t == 0xF && kk == 0x15 {
        Instr::SetDelta { x }
    } else if t == 0xF && kk == 0x18 {
        Instr::SetSound { x }
    } else if t == 0xF && kk == 0x1E {
        Instr::AddIndex { x }
    } else if t == 0xF && kk == 0x29 {
        Instr::FontIndex { x }
    } else if t == 0xF && kk == 0x33 {
        Instr::Bcd { x }
    } else if t == 0xF && kk == 0x55 {
        Instr::StoreRegs { x }
    } else if t == 0xF && kk == 0x65 {
        Instr::LoadRegs { x }
    } else {
        Instr::Unknown
    }
}

} // verus!
