use vstd::prelude::*;

use vstd::arithmetic::div_mod::{lemma_fundamental_div_mod, lemma_mod_multiples_vanish};

use crate::instruction::{decode, Instruction};
use crate::machine::{
    addr, covers, cycle_result, fetch, execute_spec, font, initial_machine, lowest_pressed,
    Chip8Error, Machine, DISPLAY_SIZE, DISPLAY_WIDTH, FLAG, KEY_COUNT, MAX_ROM_SIZE, MEMORY_SIZE, REGISTER_COUNT,
    STACK_SIZE, START_ADDRESS,
};

verus! {

/// Relies on rand::random: a byte drawn from the thread-local generator.
/// Nothing is known of its value.
pub assume_specification<T>[ rand::random::<T> ]() -> (r: T)
    where
        rand::distributions::Standard: rand::distributions::Distribution<T>,
;

/// A CHIP-8 interpreter: memory, registers, stack, timers, display and keypad.
pub struct Chip8 {
    pc: u16,
    i: u16,
    sp: u8,
    v: [u8; REGISTER_COUNT],
    memory: [u8; MEMORY_SIZE],
    stack: [u16; STACK_SIZE],
    display: [bool; DISPLAY_SIZE],
    delay_timer: u8,
    sound_timer: u8,
    keys: [bool; KEY_COUNT],
}

impl View for Chip8 {
    type V = Machine;

    closed spec fn view(&self) -> Machine {
        Machine {
            pc: self.pc,
            i: self.i,
            sp: self.sp,
            v: self.v@,
            memory: self.memory@,
            stack: self.stack@,
            display: self.display@,
            delay_timer: self.delay_timer,
            sound_timer: self.sound_timer,
            keys: self.keys@,
        }
    }
}

/// The font glyphs as an array.
fn font_glyphs() -> (r: [u8; 80])
    ensures
        r@ == font(),
{
    let r: [u8; 80] = [
        0xF0, 0x90, 0x90, 0x90, 0xF0, 0x20, 0x60, 0x20, 0x20, 0x70,
        0xF0, 0x10, 0xF0, 0x80, 0xF0, 0xF0, 0x10, 0xF0, 0x10, 0xF0,
        0x90, 0x90, 0xF0, 0x10, 0x10, 0xF0, 0x80, 0xF0, 0x10, 0xF0,
        0xF0, 0x80, 0xF0, 0x90, 0xF0, 0xF0, 0x10, 0x20, 0x40, 0x40,
        0xF0, 0x90, 0xF0, 0x90, 0xF0, 0xF0, 0x90, 0xF0, 0x10, 0xF0,
        0xF0, 0x90, 0xF0, 0x90, 0x90, 0xE0, 0x90, 0xE0, 0x90, 0xE0,
        0xF0, 0x80, 0x80, 0x80, 0xF0, 0xE0, 0x90, 0x90, 0x90, 0xE0,
        0xF0, 0x80, 0xF0, 0x80, 0xF0, 0xF0, 0x80, 0xF0, 0x80, 0x80,
    ];
    assert(r@ =~= font());
    r
}

impl Chip8 {
    #[verifier::type_invariant]
    spec fn inv(&self) -> bool {
        self.sp <= 16
    }

    /// A machine with the font in low memory, everything else zero and the
    /// program counter at the start address.
    pub fn new() -> (r: Chip8)
        ensures
            r@ == initial_machine(),
    {
        let glyphs = font_glyphs();
        let mut memory = [0u8; MEMORY_SIZE];
        let mut k: usize = 0;
        while k < 80
            invariant
                0 <= k <= 80,
                glyphs@ == font(),
                forall|a: int| 0 <= a < k ==> memory@[a] == font()[a],
                forall|a: int| k <= a < 4096 ==> memory@[a] == 0,
            decreases 80 - k,
        {
            memory[k] = glyphs[k];
            k += 1;
        }
        let r = Chip8 {
            pc: START_ADDRESS,
            i: 0,
            sp: 0,
            v: [0u8; REGISTER_COUNT],
            memory,
            stack: [0u16; STACK_SIZE],
            display: [false; DISPLAY_SIZE],
            delay_timer: 0,
            sound_timer: 0,
            keys: [false; KEY_COUNT],
        };
        assert(r@.v =~= initial_machine().v);
        assert(r@.memory =~= initial_machine().memory);
        assert(r@.stack =~= initial_machine().stack);
        assert(r@.display =~= initial_machine().display);
        assert(r@.keys =~= initial_machine().keys);
        r
    }

    /// Turns every display cell off.
    #[allow(non_snake_case)]
    pub fn ResetDisplay(&mut self)
        ensures
            final(self)@ == (Machine { display: Seq::new(2048, |c: int| false), ..old(self)@ }),
    {
        proof {
            use_type_invariant(&*self);
        }
        self.display = [false; DISPLAY_SIZE];
        assert(self@.display =~= Seq::new(2048, |c: int| false));
    }

    /// Records whether key `key` is pressed; keys outside 0 to 15 are ignored.
    #[allow(non_snake_case)]
    pub fn SetKey(&mut self, key: usize, state: bool)
        ensures
            final(self)@ == (if key < 16 {
                Machine { keys: old(self)@.keys.update(key as int, state), ..old(self)@ }
            } else {
                old(self)@
            }),
    {
        proof {
            use_type_invariant(&*self);
        }
        if key < KEY_COUNT {
            self.keys[key] = state;
        }
    }

    /// The instruction word at the program counter, high byte first; both
    /// addresses wrap at the end of memory.
    fn fetch_word(&self) -> (r: u16)
        ensures
            r == fetch(self@),
    {
        let hi = self.memory[(self.pc as usize) % MEMORY_SIZE] as u16;
        let lo = self.memory[(self.pc as usize + 1) % MEMORY_SIZE] as u16;
        hi * 256 + lo
    }

    /// One fetch-decode-execute cycle, with `rnd` as the random byte that a
    /// random-number instruction uses. Returns the instruction executed
    /// (`Instruction::Unknown` for a word that names none, which only advances
    /// the program counter), or the stack error, in which case the machine is
    /// left exactly as it was.
    pub fn step(&mut self, rnd: u8) -> (r: Result<Instruction, Chip8Error>)
        ensures
            cycle_result(old(self)@, rnd, final(self)@, r),
    {
        proof {
            use_type_invariant(&*self);
        }
        let op = self.fetch_word();
        let ins = decode(op);
        let pc = self.pc;
        self.pc = pc.wrapping_add(2);
        match self.execute(ins, rnd) {
            Ok(()) => Ok(ins),
            Err(e) => {
                self.pc = pc;
                Err(e)
            },
        }
    }

    /// One fetch-decode-execute cycle with a fresh random byte.
    pub fn cycle(&mut self) -> (r: Result<Instruction, Chip8Error>)
        ensures
            exists|rnd: u8| cycle_result(old(self)@, rnd, final(self)@, r),
    {
        let rnd: u8 = rand::random::<u8>();
        self.step(rnd)
    }

    /// Copies a program into memory from the start address. A program longer
    /// than the memory above the start address is refused and nothing changes.
    #[allow(non_snake_case)]
    pub fn LoadRom(&mut self, rom: &[u8]) -> (r: Result<(), Chip8Error>)
        ensures
            rom@.len() > MAX_ROM_SIZE ==> r == Err::<(), Chip8Error>(Chip8Error::RomTooLarge)
                && final(self)@ == old(self)@,
            rom@.len() <= MAX_ROM_SIZE ==> r == Ok::<(), Chip8Error>(()) && final(self)@ == (Machine {
                memory: Seq::new(
                    4096,
                    |a: int|
                        if 512 <= a < 512 + rom@.len() { rom@[a - 512] } else { old(self)@.memory[a] },
                ),
                ..old(self)@
            }),
    {
        proof {
            use_type_invariant(&*self);
        }
        if rom.len() > MAX_ROM_SIZE {
            return Err(Chip8Error::RomTooLarge);
        }
        let ghost before = self.memory@;
        let mut memory = self.memory;
        let mut k: usize = 0;
        while k < rom.len()
            invariant
                0 <= k <= rom@.len() <= MAX_ROM_SIZE,
                forall|a: int| 0 <= a < 4096 ==> memory@[a] == (
                    if 512 <= a < 512 + k { rom@[a - 512] } else { before[a] }),
            decreases rom@.len() - k,
        {
            memory[START_ADDRESS as usize + k] = rom[k];
            k += 1;
        }
        self.memory = memory;
        assert(self@.memory =~= Seq::new(
            4096,
            |a: int| if 512 <= a < 512 + rom@.len() { rom@[a - 512] } else { before[a] },
        ));
        Ok(())
    }

    /// One 60 Hz timer tick: each of the delay and sound timers that is not
    /// zero goes down by one. The driver calls this at the timer rate, apart
    /// from instruction cycles.
    pub fn tick_timers(&mut self)
        ensures
            final(self)@ == (Machine {
                delay_timer: if old(self)@.delay_timer > 0 { (old(self)@.delay_timer - 1) as u8 } else { 0 },
                sound_timer: if old(self)@.sound_timer > 0 { (old(self)@.sound_timer - 1) as u8 } else { 0 },
                ..old(self)@
            }),
    {
        proof {
            use_type_invariant(&*self);
        }
        if self.delay_timer > 0 {
            self.delay_timer = self.delay_timer - 1;
        }
        if self.sound_timer > 0 {
            self.sound_timer = self.sound_timer - 1;
        }
    }

    /// The program counter.
    pub fn pc(&self) -> (r: u16)
        ensures
            r == self@.pc,
    {
        self.pc
    }

    /// The index register I.
    pub fn index(&self) -> (r: u16)
        ensures
            r == self@.i,
    {
        self.i
    }

    /// The number of return addresses on the stack.
    pub fn stack_pointer(&self) -> (r: u8)
        ensures
            r == self@.sp,
            r <= 16,
    {
        proof {
            use_type_invariant(self);
        }
        self.sp
    }

    /// General register `r` (V0 to VF).
    pub fn register(&self, r: usize) -> (val: u8)
        requires
            r < 16,
        ensures
            val == self@.v[r as int],
    {
        self.v[r]
    }

    /// The byte at `a`, wrapped into memory.
    pub fn memory_byte(&self, a: u16) -> (r: u8)
        ensures
            r == self@.memory[addr(a as int)],
    {
        self.memory[(a as usize) % MEMORY_SIZE]
    }

    /// Whether the display cell at column `x`, row `y` is lit.
    pub fn pixel(&self, x: usize, y: usize) -> (r: bool)
        requires
            x < 64,
            y < 32,
        ensures
            r == self@.display[y * 64 + x],
    {
        self.display[y * DISPLAY_WIDTH + x]
    }

    /// Whether key `k` is pressed.
    pub fn key(&self, k: usize) -> (r: bool)
        requires
            k < 16,
        ensures
            r == self@.keys[k as int],
    {
        self.keys[k]
    }

    /// The delay timer.
    pub fn delay_timer(&self) -> (r: u8)
        ensures
            r == self@.delay_timer,
    {
        self.delay_timer
    }

    /// The sound timer; a tone should sound while it is not zero.
    pub fn sound_timer(&self) -> (r: u8)
        ensures
            r == self@.sound_timer,
    {
        self.sound_timer
    }

    /// Executes one decoded instruction; the program counter has already been
    /// advanced past it. On failure nothing changes.
    fn execute(&mut self, ins: Instruction, rnd: u8) -> (r: Result<(), Chip8Error>)
        requires
            ins.operands_in_range(),
        ensures
            match execute_spec(old(self)@, ins, rnd) {
                Ok(m) => r == Ok::<(), Chip8Error>(()) && final(self)@ == m,
                Err(e) => r == Err::<(), Chip8Error>(e) && final(self)@ == old(self)@,
            },
    {
        match ins {
            Instruction::ClearDisplay
            | Instruction::Return
            | Instruction::Jump { .. }
            | Instruction::Call { .. }
            | Instruction::SkipEqImm { .. }
            | Instruction::SkipNeImm { .. }
            | Instruction::SkipEqReg { .. }
            | Instruction::SkipNeReg { .. }
            | Instruction::JumpOffset { .. }
            | Instruction::SkipKey { .. }
            | Instruction::SkipNoKey { .. }
            | Instruction::WaitKey { .. } => self.execute_control(ins, rnd),
            Instruction::LoadImm { .. }
            | Instruction::AddImm { .. }
            | Instruction::Copy { .. }
            | Instruction::Or { .. }
            | Instruction::And { .. }
            | Instruction::Xor { .. }
            | Instruction::AddReg { .. }
            | Instruction::SubReg { .. }
            | Instruction::ShiftRight { .. }
            | Instruction::SubRev { .. }
            | Instruction::ShiftLeft { .. }
            | Instruction::Random { .. }
            | Instruction::LoadDelay { .. } => {
                self.execute_register(ins, rnd);
                Ok(())
            },
            Instruction::Unknown { .. } => Ok(()),
            _ => {
                self.execute_memory(ins);
                Ok(())
            },
        }
    }

    /// Jumps, calls, returns, skips and the key wait.
    #[verifier::rlimit(40)]
    fn execute_control(&mut self, ins: Instruction, rnd: u8) -> (r: Result<(), Chip8Error>)
        requires
            ins.operands_in_range(),
            match ins {
                Instruction::ClearDisplay
            | Instruction::Return
            | Instruction::Jump { .. }
            | Instruction::Call { .. }
            | Instruction::SkipEqImm { .. }
            | Instruction::SkipNeImm { .. }
            | Instruction::SkipEqReg { .. }
            | Instruction::SkipNeReg { .. }
            | Instruction::JumpOffset { .. }
            | Instruction::SkipKey { .. }
            | Instruction::SkipNoKey { .. }
            | Instruction::WaitKey { .. } => true,
                _ => false,
            },
        ensures
            match execute_spec(old(self)@, ins, rnd) {
                Ok(m) => r == Ok::<(), Chip8Error>(()) && final(self)@ == m,
                Err(e) => r == Err::<(), Chip8Error>(e) && final(self)@ == old(self)@,
            },
    {
        proof {
            use_type_invariant(&*self);
        }
        match ins {
            Instruction::ClearDisplay => {
                self.ResetDisplay();
            },
            Instruction::Return => {
                if self.sp == 0 {
                    return Err(Chip8Error::StackUnderflow);
                }
                self.sp = self.sp - 1;
                self.pc = self.stack[self.sp as usize];
            },
            Instruction::Jump { addr } => {
                self.pc = addr;
            },
            Instruction::Call { addr } => {
                if self.sp as usize >= STACK_SIZE {
                    return Err(Chip8Error::StackOverflow);
                }
                self.stack[self.sp as usize] = self.pc;
                self.sp = self.sp + 1;
                self.pc = addr;
            },
            Instruction::SkipEqImm { x, kk } => {
                if self.v[x as usize] == kk {
                    self.pc = self.pc.wrapping_add(2);
                }
            },
            Instruction::SkipNeImm { x, kk } => {
                if self.v[x as usize] != kk {
                    self.pc = self.pc.wrapping_add(2);
                }
            },
            Instruction::SkipEqReg { x, y } => {
                if self.v[x as usize] == self.v[y as usize] {
                    self.pc = self.pc.wrapping_add(2);
                }
            },
            Instruction::SkipNeReg { x, y } => {
                if self.v[x as usize] != self.v[y as usize] {
                    self.pc = self.pc.wrapping_add(2);
                }
            },
            Instruction::JumpOffset { addr } => {
                self.pc = (self.v[0] as u16).wrapping_add(addr);
            },
            Instruction::SkipKey { x } => {
                let k = self.v[x as usize];
                if (k as usize) < KEY_COUNT && self.keys[k as usize] {
                    self.pc = self.pc.wrapping_add(2);
                }
            },
            Instruction::SkipNoKey { x } => {
                let k = self.v[x as usize];
                if !((k as usize) < KEY_COUNT && self.keys[k as usize]) {
                    self.pc = self.pc.wrapping_add(2);
                }
            },
            Instruction::WaitKey { x } => {
                match first_pressed(&self.keys) {
                    Some(k) => {
                        self.v[x as usize] = k;
                    },
                    None => {
                        self.pc = self.pc.wrapping_sub(2);
                    },
                }
            },
            _ => {},
        }
        Ok(())
    }

    /// Register loads and arithmetic.
    #[verifier::rlimit(40)]
    fn execute_register(&mut self, ins: Instruction, rnd: u8)
        requires
            ins.operands_in_range(),
            match ins {
                Instruction::LoadImm { .. }
            | Instruction::AddImm { .. }
            | Instruction::Copy { .. }
            | Instruction::Or { .. }
            | Instruction::And { .. }
            | Instruction::Xor { .. }
            | Instruction::AddReg { .. }
            | Instruction::SubReg { .. }
            | Instruction::ShiftRight { .. }
            | Instruction::SubRev { .. }
            | Instruction::ShiftLeft { .. }
            | Instruction::Random { .. }
            | Instruction::LoadDelay { .. } => true,
                _ => false,
            },
        ensures
            execute_spec(old(self)@, ins, rnd) == Ok::<Machine, Chip8Error>(final(self)@),
    {
        proof {
            use_type_invariant(&*self);
        }
        match ins {
            Instruction::LoadImm { x, kk } => {
                self.v[x as usize] = kk;
            },
            Instruction::AddImm { x, kk } => {
                self.v[x as usize] = self.v[x as usize].wrapping_add(kk);
            },
            Instruction::Copy { x, y } => {
                self.v[x as usize] = self.v[y as usize];
            },
            Instruction::Or { x, y } => {
                self.v[x as usize] = self.v[x as usize] | self.v[y as usize];
            },
            Instruction::And { x, y } => {
                self.v[x as usize] = self.v[x as usize] & self.v[y as usize];
            },
            Instruction::Xor { x, y } => {
                self.v[x as usize] = self.v[x as usize] ^ self.v[y as usize];
            },
            Instruction::AddReg { x, y } => {
                let sum: u16 = self.v[x as usize] as u16 + self.v[y as usize] as u16;
                self.v[x as usize] = (sum % 256) as u8;
                self.v[FLAG] = if sum > 255 { 1 } else { 0 };
            },
            Instruction::SubReg { x, y } => {
                let (a, b) = (self.v[x as usize], self.v[y as usize]);
                self.v[x as usize] = a.wrapping_sub(b);
                self.v[FLAG] = if a > b { 1 } else { 0 };
            },
            Instruction::ShiftRight { x } => {
                let a = self.v[x as usize];
                self.v[x as usize] = a / 2;
                self.v[FLAG] = a % 2;
            },
            Instruction::SubRev { x, y } => {
                let (a, b) = (self.v[x as usize], self.v[y as usize]);
                self.v[x as usize] = b.wrapping_sub(a);
                self.v[FLAG] = if b > a { 1 } else { 0 };
            },
            Instruction::ShiftLeft { x } => {
                let a = self.v[x as usize];
                self.v[x as usize] = ((a as u16 * 2) % 256) as u8;
                self.v[FLAG] = if a >= 128 { 1 } else { 0 };
            },
            Instruction::Random { x, kk } => {
                self.v[x as usize] = rnd & kk;
            },
            Instruction::LoadDelay { x } => {
                self.v[x as usize] = self.delay_timer;
            },
            _ => {},
        }
    }

    /// The index register, timers, memory transfers and drawing.
    #[verifier::rlimit(40)]
    fn execute_memory(&mut self, ins: Instruction)
        requires
            ins.operands_in_range(),
            match ins {
                Instruction::LoadIndex { .. }
            | Instruction::Draw { .. }
            | Instruction::SetDelay { .. }
            | Instruction::SetSound { .. }
            | Instruction::AddIndex { .. }
            | Instruction::LoadGlyph { .. }
            | Instruction::StoreBcd { .. }
            | Instruction::StoreRegs { .. }
            | Instruction::LoadRegs { .. } => true,
                _ => false,
            },
        ensures
            execute_spec(old(self)@, ins, 0u8) == Ok::<Machine, Chip8Error>(final(self)@),
    {
        proof {
            use_type_invariant(&*self);
        }
        match ins {
            Instruction::LoadIndex { addr } => {
                self.i = addr;
            },
            Instruction::Draw { x, y, n } => {
                let ghost m0 = self@;
                let (vx, vy) = (self.v[x as usize], self.v[y as usize]);
                let mut display = self.display;
                let hit = draw_sprite(&mut display, &self.memory, self.i, vx, vy, n);
                self.display = display;
                self.v[FLAG] = if hit { 1 } else { 0 };
                assert(self@.display =~= Seq::new(
                    2048,
                    |c: int| m0.display[c] != covers(m0.memory, m0.i, vx, vy, n, c),
                ));
            },
            Instruction::SetDelay { x } => {
                self.delay_timer = self.v[x as usize];
            },
            Instruction::SetSound { x } => {
                self.sound_timer = self.v[x as usize];
            },
            Instruction::AddIndex { x } => {
                self.i = self.i.wrapping_add(self.v[x as usize] as u16);
            },
            Instruction::LoadGlyph { x } => {
                self.i = ((self.v[x as usize] % 16) as u16) * 5;
            },
            Instruction::StoreBcd { x } => {
                let a = self.v[x as usize];
                let base = self.i as usize;
                self.memory[base % MEMORY_SIZE] = a / 100;
                self.memory[(base + 1) % MEMORY_SIZE] = (a % 100) / 10;
                self.memory[(base + 2) % MEMORY_SIZE] = a % 10;
            },
            Instruction::StoreRegs { x } => {
                let ghost m0 = self@;
                let mut memory = self.memory;
                store_registers(&mut memory, &self.v, self.i, x);
                self.memory = memory;
                assert(self@.memory =~= Seq::new(
                    4096,
                    |a: int| if addr(a - m0.i) <= x { m0.v[addr(a - m0.i)] } else { m0.memory[a] },
                ));
            },
            Instruction::LoadRegs { x } => {
                let ghost m0 = self@;
                let mut v = self.v;
                load_registers(&mut v, &self.memory, self.i, x);
                self.v = v;
                assert(self@.v =~= Seq::new(
                    16,
                    |r: int| if r <= x { m0.memory[addr(m0.i + r)] } else { m0.v[r] },
                ));
            },
            _ => {},
        }
    }
}

/// Stepping back by `v` on a circle of `m` positions, computed without going negative.
proof fn lemma_wrap_offset(p: int, v: int, m: int)
    requires
        0 < m,
    ensures
        (p + m - v % m) % m == (p - v) % m,
{
    let q = v / m;
    lemma_fundamental_div_mod(v, m);
    lemma_mod_multiples_vanish(q + 1, p - v, m);
    assert(m * (q + 1) == m * q + m) by (nonlinear_arith);
}

/// Whether the sprite drawn at (`vx`, `vy`) has a set bit over display cell `cell`.
fn sprite_covers(memory: &[u8; MEMORY_SIZE], base: u16, vx: u8, vy: u8, n: u8, cell: usize) -> (r: bool)
    requires
        cell < DISPLAY_SIZE,
    ensures
        r == covers(memory@, base, vx, vy, n, cell as int),
{
    let px = cell % 64;
    let py = cell / 64;
    let col = (px + 64 - (vx as usize) % 64) % 64;
    let row = (py + 32 - (vy as usize) % 32) % 32;
    proof {
        lemma_wrap_offset(px as int, vx as int, 64);
        lemma_wrap_offset(py as int, vy as int, 32);
    }
    if col < 8 && row < n as usize {
        let b = memory[(base as usize + row) % MEMORY_SIZE];
        b & (0x80u8 >> (col as u8)) != 0
    } else {
        false
    }
}

/// XORs a sprite onto the display and reports whether a lit cell went dark.
fn draw_sprite(
    display: &mut [bool; DISPLAY_SIZE],
    memory: &[u8; MEMORY_SIZE],
    base: u16,
    vx: u8,
    vy: u8,
    n: u8,
) -> (hit: bool)
    ensures
        final(display)@ == Seq::new(
            2048,
            |c: int| old(display)@[c] != covers(memory@, base, vx, vy, n, c),
        ),
        hit == exists|c: int|
            0 <= c < 2048 && #[trigger] covers(memory@, base, vx, vy, n, c) && old(display)@[c],
{
    let ghost before = display@;
    let mut hit = false;
    let mut cell: usize = 0;
    while cell < DISPLAY_SIZE
        invariant
            0 <= cell <= DISPLAY_SIZE,
            forall|c: int| 0 <= c < cell ==> display@[c] == (before[c] != covers(memory@, base, vx, vy, n, c)),
            forall|c: int| cell <= c < 2048 ==> display@[c] == before[c],
            hit == exists|c: int|
                0 <= c < cell && #[trigger] covers(memory@, base, vx, vy, n, c) && before[c],
        decreases DISPLAY_SIZE - cell,
    {
        if sprite_covers(memory, base, vx, vy, n, cell) {
            if display[cell] {
                hit = true;
            }
            display[cell] = !display[cell];
        }
        cell += 1;
    }
    assert(display@ =~= Seq::new(2048, |c: int| before[c] != covers(memory@, base, vx, vy, n, c)));
    hit
}

/// Writes V0..=Vx to memory from `base`, wrapping at the end of memory.
fn store_registers(memory: &mut [u8; MEMORY_SIZE], v: &[u8; REGISTER_COUNT], base: u16, x: u8)
    requires
        x < 16,
    ensures
        final(memory)@ == Seq::new(
            4096,
            |a: int| if (a - base) % 4096 <= x { v@[(a - base) % 4096] } else { old(memory)@[a] },
        ),
{
    let ghost before = memory@;
    let mut k: usize = 0;
    while k <= x as usize
        invariant
            0 <= k <= x + 1,
            x < 16,
            forall|a: int| 0 <= a < 4096 ==> memory@[a] == (
                if (a - base) % 4096 < k { v@[(a - base) % 4096] } else { before[a] }),
        decreases x + 1 - k,
    {
        let target = (base as usize + k) % MEMORY_SIZE;
        assert((target - base) % 4096 == k);
        memory[target] = v[k];
        k += 1;
    }
    assert(memory@ =~= Seq::new(
        4096,
        |a: int| if (a - base) % 4096 <= x { v@[(a - base) % 4096] } else { before[a] },
    ));
}

/// Reads V0..=Vx from memory from `base`, wrapping at the end of memory.
fn load_registers(v: &mut [u8; REGISTER_COUNT], memory: &[u8; MEMORY_SIZE], base: u16, x: u8)
    requires
        x < 16,
    ensures
        final(v)@ == Seq::new(
            16,
            |r: int| if r <= x { memory@[(base + r) % 4096] } else { old(v)@[r] },
        ),
{
    let ghost before = v@;
    let mut k: usize = 0;
    while k <= x as usize
        invariant
            0 <= k <= x + 1,
            x < 16,
            forall|r: int| 0 <= r < 16 ==> v@[r] == (
                if r < k { memory@[(base + r) % 4096] } else { before[r] }),
        decreases x + 1 - k,
    {
        v[k] = memory[(base as usize + k) % MEMORY_SIZE];
        k += 1;
    }
    assert(v@ =~= Seq::new(16, |r: int| if r <= x { memory@[(base + r) % 4096] } else { before[r] }));
}

/// The lowest-numbered pressed key, if any.
fn first_pressed(keys: &[bool; KEY_COUNT]) -> (r: Option<u8>)
    ensures
        match r {
            Some(k) => lowest_pressed(keys@, k as int),
            None => forall|k: int| 0 <= k < 16 ==> !keys@[k],
        },
{
    let mut k: usize = 0;
    while k < KEY_COUNT
        invariant
            0 <= k <= 16,
            forall|j: int| 0 <= j < k ==> !keys@[j],
        decreases 16 - k,
    {
        if keys[k] {
            return Some(k as u8);
        }
        k += 1;
    }
    None
}

} // verus!
