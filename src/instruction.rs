use vstd::prelude::*;

verus! {

/// One decoded CHIP-8 instruction word.
///
/// Register operands `x` and `y` are nibbles (0 to 15), addresses are 12-bit,
/// immediates are the low byte of the word and `n` is the low nibble.
#[derive(Clone, Copy, Debug, PartialEq, Eq, Structural)]
pub enum Instruction {
    /// 00E0: clear the display.
    ClearDisplay,
    /// 00EE: return from a subroutine.
    Return,
    /// 1nnn: jump to `addr`.
    Jump { addr: u16 },
    /// 2nnn: call the subroutine at `addr`.
    Call { addr: u16 },
    /// 3xkk: skip the next instruction if Vx == kk.
    SkipEqImm { x: u8, kk: u8 },
    /// 4xkk: skip the next instruction if Vx != kk.
    SkipNeImm { x: u8, kk: u8 },
    /// 5xy0: skip the next instruction if Vx == Vy.
    SkipEqReg { x: u8, y: u8 },
    /// 6xkk: Vx = kk.
    LoadImm { x: u8, kk: u8 },
    /// 7xkk: Vx = Vx + kk, wrapping, flag untouched.
    AddImm { x: u8, kk: u8 },
    /// 8xy0: Vx = Vy.
    Copy { x: u8, y: u8 },
    /// 8xy1: Vx = Vx | Vy.
    Or { x: u8, y: u8 },
    /// 8xy2: Vx = Vx & Vy.
    And { x: u8, y: u8 },
    /// 8xy3: Vx = Vx ^ Vy.
    Xor { x: u8, y: u8 },
    /// 8xy4: Vx = Vx + Vy, VF = carry.
    AddReg { x: u8, y: u8 },
    /// 8xy5: Vx = Vx - Vy, VF = no borrow.
    SubReg { x: u8, y: u8 },
    /// 8xy6: Vx = Vx >> 1, VF = bit shifted out.
    ShiftRight { x: u8 },
    /// 8xy7: Vx = Vy - Vx, VF = no borrow.
    SubRev { x: u8, y: u8 },
    /// 8xyE: Vx = Vx << 1, VF = bit shifted out.
    ShiftLeft { x: u8 },
    /// 9xy0: skip the next instruction if Vx != Vy.
    SkipNeReg { x: u8, y: u8 },
    /// Annn: I = addr.
    LoadIndex { addr: u16 },
    /// Bnnn: jump to V0 + addr.
    JumpOffset { addr: u16 },
    /// Cxkk: Vx = random byte & kk.
    Random { x: u8, kk: u8 },
    /// Dxyn: draw an n-row sprite from memory at I at (Vx, Vy).
    Draw { x: u8, y: u8, n: u8 },
    /// Ex9E: skip the next instruction if the key in Vx is pressed.
    SkipKey { x: u8 },
    /// ExA1: skip the next instruction if the key in Vx is not pressed.
    SkipNoKey { x: u8 },
    /// Fx07: Vx = delay timer.
    LoadDelay { x: u8 },
    /// Fx0A: wait for a key press and store its index in Vx. With no key
    /// pressed the program counter goes back to this instruction, which then
    /// runs again on the next cycle.
    WaitKey { x: u8 },
    /// Fx15: delay timer = Vx.
    SetDelay { x: u8 },
    /// Fx18: sound timer = Vx.
    SetSound { x: u8 },
    /// Fx1E: I = I + Vx, wrapping.
    AddIndex { x: u8 },
    /// Fx29: I = address of the font glyph for the low nibble of Vx.
    LoadGlyph { x: u8 },
    /// Fx33: store the decimal digits of Vx at I, I+1, I+2.
    StoreBcd { x: u8 },
    /// Fx55: store V0..=Vx in memory from I.
    StoreRegs { x: u8 },
    /// Fx65: load V0..=Vx from memory from I.
    LoadRegs { x: u8 },
    /// A word that names no instruction.
    Unknown { opcode: u16 },
}

/// What an instruction word means.
pub open spec fn decode_spec(op: u16) -> Instruction {
    let a = op / 4096;
    let x = ((op / 256) % 16) as u8;
    let y = ((op / 16) % 16) as u8;
    let n = (op % 16) as u8;
    let kk = (op % 256) as u8;
    let addr = (op % 4096) as u16;
    if op == 0x00E0 {
        Instruction::ClearDisplay
    } else if op == 0x00EE {
        Instruction::Return
    } else if a == 1 {
        Instruction::Jump { addr }
    } else if a == 2 {
        Instruction::Call { addr }
    } else if a == 3 {
        Instruction::SkipEqImm { x, kk }
    } else if a == 4 {
        Instruction::SkipNeImm { x, kk }
    } else if a == 5 && n == 0 {
        Instruction::SkipEqReg { x, y }
    } else if a == 6 {
        Instruction::LoadImm { x, kk }
    } else if a == 7 {
        Instruction::AddImm { x, kk }
    } else if a == 8 && n == 0 {
        Instruction::Copy { x, y }
    } else if a == 8 && n == 1 {
        Instruction::Or { x, y }
    } else if a == 8 && n == 2 {
        Instruction::And { x, y }
    } else if a == 8 && n == 3 {
        Instruction::Xor { x, y }
    } else if a == 8 && n == 4 {
        Instruction::AddReg { x, y }
    } else if a == 8 && n == 5 {
        Instruction::SubReg { x, y }
    } else if a == 8 && n == 6 {
        Instruction::ShiftRight { x }
    } else if a == 8 && n == 7 {
        Instruction::SubRev { x, y }
    } else if a == 8 && n == 0xE {
        Instruction::ShiftLeft { x }
    } else if a == 9 && n == 0 {
        Instruction::SkipNeReg { x, y }
    } else if a == 0xA {
        Instruction::LoadIndex { addr }
    } else if a == 0xB {
        Instruction::JumpOffset { addr }
    } else if a == 0xC {
        Instruction::Random { x, kk }
    } else if a == 0xD {
        Instruction::Draw { x, y, n }
    } else if a == 0xE && kk == 0x9E {
        Instruction::SkipKey { x }
    } else if a == 0xE && kk == 0xA1 {
        Instruction::SkipNoKey { x }
    } else if a == 0xF && kk == 0x07 {
        Instruction::LoadDelay { x }
    } else if a == 0xF && kk == 0x0A {
        Instruction::WaitKey { x }
    } else if a == 0xF && kk == 0x15 {
        Instruction::SetDelay { x }
    } else if a == 0xF && kk == 0x18 {
        Instruction::SetSound { x }
    } else if a == 0xF && kk == 0x1E {
        Instruction::AddIndex { x }
    } else if a == 0xF && kk == 0x29 {
        Instruction::LoadGlyph { x }
    } else if a == 0xF && kk == 0x33 {
        Instruction::StoreBcd { x }
    } else if a == 0xF && kk == 0x55 {
        Instruction::StoreRegs { x }
    } else if a == 0xF && kk == 0x65 {
        Instruction::LoadRegs { x }
    } else {
        Instruction::Unknown { opcode: op }
    }
}

impl Instruction {
    /// Register operands name one of the sixteen registers.
    pub open spec fn operands_in_range(self) -> bool {
        match self {
            Instruction::SkipEqImm { x, .. } | Instruction::SkipNeImm { x, .. }
            | Instruction::LoadImm { x, .. } | Instruction::AddImm { x, .. }
            | Instruction::Random { x, .. } | Instruction::ShiftRight { x }
            | Instruction::ShiftLeft { x } | Instruction::SkipKey { x }
            | Instruction::SkipNoKey { x } | Instruction::LoadDelay { x }
            | Instruction::WaitKey { x } | Instruction::SetDelay { x }
            | Instruction::SetSound { x } | Instruction::AddIndex { x }
            | Instruction::LoadGlyph { x } | Instruction::StoreBcd { x }
            | Instruction::StoreRegs { x } | Instruction::LoadRegs { x } => x < 16,
            Instruction::SkipEqReg { x, y } | Instruction::Copy { x, y }
            | Instruction::Or { x, y } | Instruction::And { x, y }
            | Instruction::Xor { x, y } | Instruction::AddReg { x, y }
            | Instruction::SubReg { x, y } | Instruction::SubRev { x, y }
            | Instruction::SkipNeReg { x, y } => x < 16 && y < 16,
            Instruction::Draw { x, y, n } => x < 16 && y < 16 && n < 16,
            _ => true,
        }
    }

    /// True when executing this instruction may write register `r`
    /// (the flag register VF counts where the instruction sets a flag).
    pub open spec fn may_write(self, r: int) -> bool {
        match self {
            Instruction::LoadImm { x, .. } | Instruction::AddImm { x, .. }
            | Instruction::Copy { x, .. } | Instruction::Or { x, .. }
            | Instruction::And { x, .. } | Instruction::Xor { x, .. }
            | Instruction::Random { x, .. } | Instruction::LoadDelay { x }
            | Instruction::WaitKey { x } => r == x,
            Instruction::AddReg { x, .. } | Instruction::SubReg { x, .. }
            | Instruction::ShiftRight { x } | Instruction::SubRev { x, .. }
            | Instruction::ShiftLeft { x } => r == x || r == 0xF,
            Instruction::Draw { .. } => r == 0xF,
            Instruction::LoadRegs { x } => 0 <= r <= x,
            _ => false,
        }
    }
}

/// Splits an instruction word into its fields and names the instruction.
pub fn decode(op: u16) -> (r: Instruction)
    ensures
        r == decode_spec(op),
        r.operands_in_range(),
{
    let a: u16 = op / 4096;
    let x: u8 = ((op / 256) % 16) as u8;
    let y: u8 = ((op / 16) % 16) as u8;
    let n: u8 = (op % 16) as u8;
    let kk: u8 = (op % 256) as u8;
    let addr: u16 = op % 4096;
    match (a, n) {
        (0x0, _) if op == 0x00E0 => Instruction::ClearDisplay,
        (0x0, _) if op == 0x00EE => Instruction::Return,
        (0x1, _) => Instruction::Jump { addr },
        (0x2, _) => Instruction::Call { addr },
        (0x3, _) => Instruction::SkipEqImm { x, kk },
        (0x4, _) => Instruction::SkipNeImm { x, kk },
        (0x5, 0x0) => Instruction::SkipEqReg { x, y },
        (0x6, _) => Instruction::LoadImm { x, kk },
        (0x7, _) => Instruction::AddImm { x, kk },
        (0x8, 0x0) => Instruction::Copy { x, y },
        (0x8, 0x1) => Instruction::Or { x, y },
        (0x8, 0x2) => Instruction::And { x, y },
        (0x8, 0x3) => Instruction::Xor { x, y },
        (0x8, 0x4) => Instruction::AddReg { x, y },
        (0x8, 0x5) => Instruction::SubReg { x, y },
        (0x8, 0x6) => Instruction::ShiftRight { x },
        (0x8, 0x7) => Instruction::SubRev { x, y },
        (0x8, 0xE) => Instruction::ShiftLeft { x },
        (0x9, 0x0) => Instruction::SkipNeReg { x, y },
        (0xA, _) => Instruction::LoadIndex { addr },
        (0xB, _) => Instruction::JumpOffset { addr },
        (0xC, _) => Instruction::Random { x, kk },
        (0xD, _) => Instruction::Draw { x, y, n },
        (0xE, _) if kk == 0x9E => Instruction::SkipKey { x },
        (0xE, _) if kk == 0xA1 => Instruction::SkipNoKey { x },
        (0xF, _) if kk == 0x07 => Instruction::LoadDelay { x },
        (0xF, _) if kk == 0x0A => Instruction::WaitKey { x },
        (0xF, _) if kk == 0x15 => Instruction::SetDelay { x },
        (0xF, _) if kk == 0x18 => Instruction::SetSound { x },
        (0xF, _) if kk == 0x1E => Instruction::AddIndex { x },
        (0xF, _) if kk == 0x29 => Instruction::LoadGlyph { x },
        (0xF, _) if kk == 0x33 => Instruction::StoreBcd { x },
        (0xF, _) if kk == 0x55 => Instruction::StoreRegs { x },
        (0xF, _) if kk == 0x65 => Instruction::LoadRegs { x },
        _ => Instruction::Unknown { opcode: op },
    }
}

} // verus!
