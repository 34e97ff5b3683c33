use vstd::prelude::*;

use crate::instruction::{decode_spec, Instruction};

verus! {

/// Width of the display in pixels.
pub const DISPLAY_WIDTH: usize = 64;

/// Height of the display in pixels.
pub const DISPLAY_HEIGHT: usize = 32;

/// Number of display cells, row by row.
pub const DISPLAY_SIZE: usize = 2048;

/// Bytes of addressable memory.
pub const MEMORY_SIZE: usize = 4096;

/// General registers V0 to VF.
pub const REGISTER_COUNT: usize = 16;

/// Slots of the call stack.
pub const STACK_SIZE: usize = 16;

/// Keys of the keypad.
pub const KEY_COUNT: usize = 16;

/// Where programs are loaded and execution starts.
pub const START_ADDRESS: u16 = 0x200;

/// Largest program that fits between the start address and the end of memory.
pub const MAX_ROM_SIZE: usize = 3584;

/// The flag register VF.
pub const FLAG: usize = 15;

/// Ways in which loading a program or executing an instruction can fail.
#[derive(Clone, Copy, Debug, PartialEq, Eq, Structural)]
pub enum Chip8Error {
    /// A call with all sixteen stack slots in use.
    StackOverflow,
    /// A return with an empty stack.
    StackUnderflow,
    /// A program longer than the memory above the start address.
    RomTooLarge,
}

/// The whole machine state, as a mathematical value.
pub ghost struct Machine {
    pub pc: u16,
    pub i: u16,
    pub sp: u8,
    pub v: Seq<u8>,
    pub memory: Seq<u8>,
    pub stack: Seq<u16>,
    pub display: Seq<bool>,
    pub delay_timer: u8,
    pub sound_timer: u8,
    pub keys: Seq<bool>,
}

/// The sixteen hexadecimal digit glyphs, five bytes each.
pub open spec fn font() -> Seq<u8> {
    seq![
        0xF0, 0x90, 0x90, 0x90, 0xF0, 0x20, 0x60, 0x20, 0x20, 0x70,
        0xF0, 0x10, 0xF0, 0x80, 0xF0, 0xF0, 0x10, 0xF0, 0x10, 0xF0,
        0x90, 0x90, 0xF0, 0x10, 0x10, 0xF0, 0x80, 0xF0, 0x10, 0xF0,
        0xF0, 0x80, 0xF0, 0x90, 0xF0, 0xF0, 0x10, 0x20, 0x40, 0x40,
        0xF0, 0x90, 0xF0, 0x90, 0xF0, 0xF0, 0x90, 0xF0, 0x10, 0xF0,
        0xF0, 0x90, 0xF0, 0x90, 0x90, 0xE0, 0x90, 0xE0, 0x90, 0xE0,
        0xF0, 0x80, 0x80, 0x80, 0xF0, 0xE0, 0x90, 0x90, 0x90, 0xE0,
        0xF0, 0x80, 0xF0, 0x80, 0xF0, 0xF0, 0x80, 0xF0, 0x80, 0x80,
    ]
}

/// The state of a freshly started machine.
pub open spec fn initial_machine() -> Machine {
    Machine {
        pc: START_ADDRESS,
        i: 0,
        sp: 0,
        v: Seq::new(16, |r: int| 0u8),
        memory: Seq::new(4096, |a: int| if a < 80 { font()[a] } else { 0u8 }),
        stack: Seq::new(16, |s: int| 0u16),
        display: Seq::new(2048, |c: int| false),
        delay_timer: 0,
        sound_timer: 0,
        keys: Seq::new(16, |k: int| false),
    }
}

/// A memory address reduced into the 4096-byte range.
pub open spec fn addr(a: int) -> int {
    a % 4096
}

/// A 16-bit register value after wrapping arithmetic.
pub open spec fn wrap16(a: int) -> u16 {
    (a % 65536) as u16
}

/// The instruction word at the program counter (big-endian).
pub open spec fn fetch(m: Machine) -> u16 {
    (m.memory[addr(m.pc as int)] as int * 256 + m.memory[addr(m.pc + 1)] as int) as u16
}

/// Whether the sprite of `n` rows read from `base`, drawn at (`vx`, `vy`) with
/// wraparound, has a set bit over display cell `cell`.
pub open spec fn covers(memory: Seq<u8>, base: u16, vx: u8, vy: u8, n: u8, cell: int) -> bool {
    let col = (cell % 64 - vx) % 64;
    let row = (cell / 64 - vy) % 32;
    col < 8 && row < n && memory[addr(base + row)] & (0x80u8 >> (col as u8)) != 0
}

/// Whether key `k` is on the keypad and pressed; a value above 15 names no
/// key and counts as not pressed.
pub open spec fn key_down(keys: Seq<bool>, k: u8) -> bool {
    k < 16 && keys[k as int]
}

/// `k` is the lowest-numbered pressed key.
pub open spec fn lowest_pressed(keys: Seq<bool>, k: int) -> bool {
    0 <= k < 16 && keys[k] && forall|j: int| 0 <= j < k ==> !keys[j]
}

impl Machine {
    /// Register `r` set to `val`.
    pub open spec fn set_reg(self, r: int, val: u8) -> Machine {
        Machine { v: self.v.update(r, val), ..self }
    }

    /// Register `r` set to `val`, then VF to the flag; when `r` is VF the
    /// flag is what remains.
    pub open spec fn set_reg_flag(self, r: int, val: u8, flag: bool) -> Machine {
        Machine { v: self.v.update(r, val).update(15, if flag { 1u8 } else { 0u8 }), ..self }
    }

    /// The next instruction skipped when `cond` holds.
    pub open spec fn skip_if(self, cond: bool) -> Machine {
        if cond {
            Machine { pc: wrap16(self.pc + 2), ..self }
        } else {
            self
        }
    }
}

/// What executing `ins` does to `m`, whose program counter has already been
/// advanced past the instruction; `rnd` is the random byte the instruction may use.
pub open spec fn execute_spec(m: Machine, ins: Instruction, rnd: u8) -> Result<Machine, Chip8Error> {
    match ins {
        Instruction::ClearDisplay => Ok(Machine { display: Seq::new(2048, |c: int| false), ..m }),
        Instruction::Return => if m.sp == 0 {
            Err(Chip8Error::StackUnderflow)
        } else {
            Ok(Machine { sp: (m.sp - 1) as u8, pc: m.stack[m.sp - 1], ..m })
        },
        Instruction::Jump { addr } => Ok(Machine { pc: addr, ..m }),
        Instruction::Call { addr } => if m.sp >= 16 {
            Err(Chip8Error::StackOverflow)
        } else {
            Ok(Machine { stack: m.stack.update(m.sp as int, m.pc), sp: (m.sp + 1) as u8, pc: addr, ..m })
        },
        Instruction::SkipEqImm { x, kk } => Ok(m.skip_if(m.v[x as int] == kk)),
        Instruction::SkipNeImm { x, kk } => Ok(m.skip_if(m.v[x as int] != kk)),
        Instruction::SkipEqReg { x, y } => Ok(m.skip_if(m.v[x as int] == m.v[y as int])),
        Instruction::LoadImm { x, kk } => Ok(m.set_reg(x as int, kk)),
        Instruction::AddImm { x, kk } => Ok(m.set_reg(x as int, ((m.v[x as int] + kk) % 256) as u8)),
        Instruction::Copy { x, y } => Ok(m.set_reg(x as int, m.v[y as int])),
        Instruction::Or { x, y } => Ok(m.set_reg(x as int, m.v[x as int] | m.v[y as int])),
        Instruction::And { x, y } => Ok(m.set_reg(x as int, m.v[x as int] & m.v[y as int])),
        Instruction::Xor { x, y } => Ok(m.set_reg(x as int, m.v[x as int] ^ m.v[y as int])),
        Instruction::AddReg { x, y } => {
            let sum = m.v[x as int] + m.v[y as int];
            Ok(m.set_reg_flag(x as int, (sum % 256) as u8, sum > 255))
        },
        Instruction::SubReg { x, y } => {
            let (a, b) = (m.v[x as int], m.v[y as int]);
            Ok(m.set_reg_flag(x as int, ((a - b) % 256) as u8, a > b))
        },
        Instruction::ShiftRight { x } => {
            let a = m.v[x as int];
            Ok(m.set_reg_flag(x as int, (a / 2) as u8, a % 2 == 1))
        },
        Instruction::SubRev { x, y } => {
            let (a, b) = (m.v[x as int], m.v[y as int]);
            Ok(m.set_reg_flag(x as int, ((b - a) % 256) as u8, b > a))
        },
        Instruction::ShiftLeft { x } => {
            let a = m.v[x as int];
            Ok(m.set_reg_flag(x as int, ((a * 2) % 256) as u8, a >= 128))
        },
        Instruction::SkipNeReg { x, y } => Ok(m.skip_if(m.v[x as int] != m.v[y as int])),
        Instruction::LoadIndex { addr } => Ok(Machine { i: addr, ..m }),
        Instruction::JumpOffset { addr } => Ok(Machine { pc: wrap16(m.v[0] + addr), ..m }),
        Instruction::Random { x, kk } => Ok(m.set_reg(x as int, rnd & kk)),
        Instruction::Draw { x, y, n } => {
            let (vx, vy) = (m.v[x as int], m.v[y as int]);
            let hit = exists|c: int|
                0 <= c < 2048 && #[trigger] covers(m.memory, m.i, vx, vy, n, c) && m.display[c];
            Ok(Machine {
                display: Seq::new(2048, |c: int| m.display[c] != covers(m.memory, m.i, vx, vy, n, c)),
                v: m.v.update(15, if hit { 1u8 } else { 0u8 }),
                ..m
            })
        },
        Instruction::SkipKey { x } => Ok(m.skip_if(key_down(m.keys, m.v[x as int]))),
        Instruction::SkipNoKey { x } => Ok(m.skip_if(!key_down(m.keys, m.v[x as int]))),
        Instruction::LoadDelay { x } => Ok(m.set_reg(x as int, m.delay_timer)),
        Instruction::WaitKey { x } => if exists|k: int| lowest_pressed(m.keys, k) {
            Ok(m.set_reg(x as int, (choose|k: int| lowest_pressed(m.keys, k)) as u8))
        } else {
            Ok(Machine { pc: wrap16(m.pc - 2 + 65536), ..m })
        },
        Instruction::SetDelay { x } => Ok(Machine { delay_timer: m.v[x as int], ..m }),
        Instruction::SetSound { x } => Ok(Machine { sound_timer: m.v[x as int], ..m }),
        Instruction::AddIndex { x } => Ok(Machine { i: wrap16(m.i + m.v[x as int]), ..m }),
        Instruction::LoadGlyph { x } => Ok(Machine { i: ((m.v[x as int] % 16) * 5) as u16, ..m }),
        Instruction::StoreBcd { x } => {
            let a = m.v[x as int];
            Ok(Machine {
                memory: m.memory
                    .update(addr(m.i as int), (a / 100) as u8)
                    .update(addr(m.i + 1), ((a % 100) / 10) as u8)
                    .update(addr(m.i + 2), (a % 10) as u8),
                ..m
            })
        },
        Instruction::StoreRegs { x } => Ok(Machine {
            memory: Seq::new(4096, |a: int|
                if addr(a - m.i) <= x { m.v[addr(a - m.i)] } else { m.memory[a] }),
            ..m
        }),
        Instruction::LoadRegs { x } => Ok(Machine {
            v: Seq::new(16, |r: int| if r <= x { m.memory[addr(m.i + r)] } else { m.v[r] }),
            ..m
        }),
        Instruction::Unknown { .. } => Ok(m),
    }
}

/// One fetch-decode-execute cycle from `m`: on failure the machine is unchanged.
pub open spec fn step_spec(m: Machine, rnd: u8) -> Result<Machine, Chip8Error> {
    execute_spec(Machine { pc: wrap16(m.pc + 2), ..m }, decode_spec(fetch(m)), rnd)
}

/// `after` and `r` are what one cycle from `before` with random byte `rnd` gives:
/// the new state and the decoded instruction, or the error and the old state.
pub open spec fn cycle_result(
    before: Machine,
    rnd: u8,
    after: Machine,
    r: Result<Instruction, Chip8Error>,
) -> bool {
    match step_spec(before, rnd) {
        Ok(m) => after == m && r == Ok::<Instruction, Chip8Error>(decode_spec(fetch(before))),
        Err(e) => after == before && r == Err::<Instruction, Chip8Error>(e),
    }
}

} // verus!
