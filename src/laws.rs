use vstd::prelude::*;

use vstd::arithmetic::div_mod::{
    lemma_fundamental_div_mod, lemma_fundamental_div_mod_converse, lemma_mod_multiples_vanish,
};

use crate::instruction::{decode_spec, Instruction};
use crate::machine::{
    addr, covers, execute_spec, fetch, lowest_pressed, step_spec, wrap16, Chip8Error,
    Machine,
};

verus! {

/// Drawing the same sprite twice in a row at the same place restores the
/// display, and the second draw reports a collision exactly when the sprite
/// covers some cell that was dark before the first draw. The coordinate
/// registers must not be the flag register, which the first draw overwrites.
pub proof fn lemma_draw_twice(m: Machine, x: u8, y: u8, n: u8, rnd: u8)
    requires
        m.v.len() == 16,
        m.display.len() == 2048,
        x < 15,
        y < 15,
        n < 16,
    ensures
        execute_spec(m, Instruction::Draw { x, y, n }, rnd) is Ok,
        execute_spec(execute_spec(m, Instruction::Draw { x, y, n }, rnd)->Ok_0, Instruction::Draw { x, y, n }, rnd) is Ok,
        ({
            let m2 = execute_spec(
                execute_spec(m, Instruction::Draw { x, y, n }, rnd)->Ok_0,
                Instruction::Draw { x, y, n },
                rnd,
            )->Ok_0;
            &&& m2.display == m.display
            &&& m2.v[15] == (if exists|c: int|
                0 <= c < 2048 && #[trigger] covers(m.memory, m.i, m.v[x as int], m.v[y as int], n, c)
                    && !m.display[c] { 1u8 } else { 0u8 })
        }),
{
    let ins = Instruction::Draw { x, y, n };
    let (vx, vy) = (m.v[x as int], m.v[y as int]);
    let m1 = execute_spec(m, ins, rnd)->Ok_0;
    let m2 = execute_spec(m1, ins, rnd)->Ok_0;
    assert(m1.v[x as int] == vx && m1.v[y as int] == vy);
    assert(m2.display =~= m.display);
    let hit2 = exists|c: int|
        0 <= c < 2048 && #[trigger] covers(m.memory, m.i, vx, vy, n, c) && m1.display[c];
    let dark = exists|c: int|
        0 <= c < 2048 && #[trigger] covers(m.memory, m.i, vx, vy, n, c) && !m.display[c];
    assert(hit2 == dark) by {
        if hit2 {
            let c = choose|c: int|
                0 <= c < 2048 && #[trigger] covers(m.memory, m.i, vx, vy, n, c) && m1.display[c];
            assert(!m.display[c]);
        }
        if dark {
            let c = choose|c: int|
                0 <= c < 2048 && #[trigger] covers(m.memory, m.i, vx, vy, n, c) && !m.display[c];
            assert(m1.display[c]);
        }
    }
}

/// A call followed by a return resumes at the word after the call, with the
/// stack pointer as it was. The call must find a free stack slot, and the word
/// at its target must be a return.
pub proof fn lemma_call_return(m: Machine, rnd1: u8, rnd2: u8)
    requires
        m.memory.len() == 4096,
        m.stack.len() == 16,
        m.sp < 16,
        fetch(m) / 4096 == 2,
        m.memory[(fetch(m) % 4096) as int] == 0x00,
        m.memory[(fetch(m) % 4096 + 1) as int % 4096] == 0xEE,
    ensures
        step_spec(m, rnd1) is Ok,
        step_spec(step_spec(m, rnd1)->Ok_0, rnd2) is Ok,
        (step_spec(step_spec(m, rnd1)->Ok_0, rnd2)->Ok_0).pc == wrap16(m.pc + 2),
        (step_spec(step_spec(m, rnd1)->Ok_0, rnd2)->Ok_0).sp == m.sp,
{
    let op = fetch(m);
    let target = (op % 4096) as u16;
    assert(decode_spec(op) == Instruction::Call { addr: target });
    let m0 = Machine { pc: wrap16(m.pc + 2), ..m };
    let m1 = Machine {
        stack: m0.stack.update(m0.sp as int, m0.pc),
        sp: (m0.sp + 1) as u8,
        pc: target,
        ..m0
    };
    assert(execute_spec(m0, Instruction::Call { addr: target }, rnd1) == Ok::<Machine, Chip8Error>(m1));
    assert(step_spec(m, rnd1) == Ok::<Machine, Chip8Error>(m1));
    assert(fetch(m1) == 0x00EE);
    assert(decode_spec(0x00EE) == Instruction::Return);
    let m1a = Machine { pc: wrap16(m1.pc + 2), ..m1 };
    assert(m1a.stack[m1a.sp - 1] == wrap16(m.pc + 2));
    assert(execute_spec(m1a, Instruction::Return, rnd2) == Ok::<Machine, Chip8Error>(
        Machine { sp: m.sp, pc: wrap16(m.pc + 2), ..m1a },
    ));
}

/// Waiting for a key: with no key pressed, a cycle on the waiting instruction
/// leaves the machine exactly as it was, so any number of further cycles stay
/// on it; with a key pressed, the lowest-numbered one is stored in the named
/// register and execution moves past the instruction.
pub proof fn lemma_wait_for_key(m: Machine, rnd: u8)
    requires
        m.memory.len() == 4096,
        m.v.len() == 16,
        m.keys.len() == 16,
        fetch(m) / 4096 == 0xF,
        fetch(m) % 256 == 0x0A,
    ensures
        step_spec(m, rnd) is Ok,
        (forall|k: int| 0 <= k < 16 ==> !m.keys[k]) ==> step_spec(m, rnd)->Ok_0 == m,
        forall|k: int| lowest_pressed(m.keys, k) ==> step_spec(m, rnd)->Ok_0 == (Machine {
            pc: wrap16(m.pc + 2),
            v: m.v.update(((fetch(m) / 256) % 16) as int, k as u8),
            ..m
        }),
{
    assert forall|k: int| lowest_pressed(m.keys, k) implies step_spec(m, rnd)->Ok_0 == (Machine {
        pc: wrap16(m.pc + 2),
        v: m.v.update(((fetch(m) / 256) % 16) as int, k as u8),
        ..m
    }) by {
        let c = choose|j: int| lowest_pressed(m.keys, j);
        assert(lowest_pressed(m.keys, c));
        if c < k {
            assert(!m.keys[c]);
        }
        if k < c {
            assert(!m.keys[k]);
        }
    }
}

/// Every instruction leaves each register that it does not write unchanged.
pub proof fn lemma_untouched_registers(m: Machine, rnd: u8, r: int)
    requires
        m.memory.len() == 4096,
        m.v.len() == 16,
        0 <= r < 16,
        !decode_spec(fetch(m)).may_write(r),
        step_spec(m, rnd) is Ok,
    ensures
        (step_spec(m, rnd)->Ok_0).v[r] == m.v[r],
{
}

/// Where a sprite lands: bit `col` (from the left) of sprite row `row` lies over
/// the cell in column (vx + col) mod 64 and row (vy + row) mod 32, and that
/// cell is covered exactly when the bit is set.
pub proof fn lemma_sprite_bit_lands(memory: Seq<u8>, base: u16, vx: u8, vy: u8, n: u8, row: int, col: int)
    requires
        n < 16,
        0 <= row < n,
        0 <= col < 8,
    ensures
        covers(memory, base, vx, vy, n, ((vy + row) % 32) * 64 + (vx + col) % 64)
            == (memory[addr(base + row)] & (0x80u8 >> (col as u8)) != 0),
{
    let px = (vx + col) % 64;
    let py = (vy + row) % 32;
    let cell = py * 64 + px;
    lemma_fundamental_div_mod_converse(cell, 64, py, px);
    lemma_fundamental_div_mod(vx + col, 64);
    lemma_mod_multiples_vanish(-((vx + col) / 64), col, 64);
    assert(px - vx == 64 * (-((vx + col) / 64)) + col);
    lemma_fundamental_div_mod(vy + row, 32);
    lemma_mod_multiples_vanish(-((vy + row) / 32), row, 32);
    assert(py - vy == 32 * (-((vy + row) / 32)) + row);
    assert(cell % 64 == px && cell / 64 == py);
    assert((px - vx) % 64 == col);
    assert((py - vy) % 32 == row);
}

/// Nothing else is covered: a covered cell is where some set bit of the
/// sprite lands, bit `col` of row `row` as computed from the cell.
pub proof fn lemma_covered_cell_has_bit(memory: Seq<u8>, base: u16, vx: u8, vy: u8, n: u8, cell: int)
    requires
        0 <= cell < 2048,
        covers(memory, base, vx, vy, n, cell),
    ensures
        ({
            let col = (cell % 64 - vx) % 64;
            let row = (cell / 64 - vy) % 32;
            &&& 0 <= row < n
            &&& 0 <= col < 8
            &&& cell == ((vy + row) % 32) * 64 + (vx + col) % 64
            &&& memory[addr(base + row)] & (0x80u8 >> (col as u8)) != 0
        }),
{
    let px = cell % 64;
    let py = cell / 64;
    let col = (px - vx) % 64;
    let row = (py - vy) % 32;
    lemma_fundamental_div_mod(cell, 64);
    lemma_fundamental_div_mod(px - vx, 64);
    lemma_fundamental_div_mod_converse(vx + col, 64, -((px - vx) / 64), px);
    lemma_fundamental_div_mod(py - vy, 32);
    lemma_fundamental_div_mod_converse(vy + row, 32, -((py - vy) / 32), py);
}

} // verus!
