use vstd::prelude::*;

use crate::error::Chip8Error;
use crate::font::font_byte;

verus! {

/// Bytes of addressable memory.
pub const MEMORY_SIZE: usize = 4096;

/// Address at which a program image is placed and execution starts.
pub const ENTRY: u16 = 0x200;

/// Framebuffer width in pixels.
pub const SCREEN_WIDTH: usize = 64;

/// Framebuffer height in pixels.
pub const SCREEN_HEIGHT: usize = 32;

/// Number of pixels in the framebuffer.
pub const SCREEN_SIZE: usize = 2048;

/// Capacity of the call stack.
pub const STACK_SIZE: u16 = 16;

/// The mathematical state of the machine: everything a step reads or writes.
pub struct Chip8View {
    pub memory: Seq<u8>,
    /// One byte per pixel, row-major, `1` when set and `0` when unset.
    pub vram: Seq<u8>,
    pub registers: Seq<u8>,
    pub stack: Seq<u16>,
    pub keypad: Seq<bool>,
    pub pc: u16,
    pub sp: u16,
    pub index: u16,
    pub delay_timer: u8,
    pub sound_timer: u8,
    pub draw_flag: bool,
    /// Set by the step in which the sound timer ran out (went from 1 to 0).
    pub tone: bool,
}

impl Chip8View {
    pub open spec fn wf(self) -> bool {
        &&& self.memory.len() == MEMORY_SIZE
        &&& self.vram.len() == SCREEN_SIZE
        &&& forall|p: int| 0 <= p < SCREEN_SIZE ==> #[trigger] self.vram[p] <= 1
        &&& self.registers.len() == 16
        &&& self.stack.len() == STACK_SIZE
        &&& forall|i: int| 0 <= i < STACK_SIZE ==> #[trigger] self.stack[i] < MEMORY_SIZE - 1
        &&& self.keypad.len() == 16
        &&& self.sp <= STACK_SIZE
    }
}

// ---------------------------------------------------------------------------
// Instruction word fields
// ---------------------------------------------------------------------------

/// The instruction family: the top four bits.
pub open spec fn family(op: u16) -> int {
    op as int / 4096
}

/// First register operand: bits 8 to 11.
pub open spec fn op_x(op: u16) -> int {
    (op as int / 256) % 16
}

/// Second register operand: bits 4 to 7.
pub open spec fn op_y(op: u16) -> int {
    (op as int / 16) % 16
}

/// The low nibble.
pub open spec fn op_n(op: u16) -> int {
    op as int % 16
}

/// The low byte.
pub open spec fn op_nn(op: u16) -> int {
    op as int % 256
}

/// The low twelve bits, an address.
pub open spec fn op_nnn(op: u16) -> int {
    op as int % 4096
}

/// The instruction word at `pc`: two bytes, big-endian.
pub open spec fn fetch(s: Chip8View) -> u16 {
    (s.memory[s.pc as int] as int * 256 + s.memory[s.pc as int + 1] as int) as u16
}

// ---------------------------------------------------------------------------
// Small state updates
// ---------------------------------------------------------------------------

pub open spec fn with_pc(s: Chip8View, pc: int) -> Chip8View {
    Chip8View { pc: pc as u16, ..s }
}

/// Moves on to the following instruction.
pub open spec fn next(s: Chip8View) -> Chip8View {
    with_pc(s, s.pc + 2)
}

/// Skips the following instruction when `c` holds.
pub open spec fn skip_if(s: Chip8View, c: bool) -> Chip8View {
    with_pc(s, s.pc + if c { 4int } else { 2int })
}

pub open spec fn set_reg(s: Chip8View, x: int, v: u8) -> Chip8View {
    Chip8View { registers: s.registers.update(x, v), ..s }
}

pub open spec fn set_index(s: Chip8View, i: int) -> Chip8View {
    Chip8View { index: i as u16, ..s }
}

pub open spec fn flag(b: bool) -> u8 {
    if b { 1 } else { 0 }
}

// ---------------------------------------------------------------------------
// Register arithmetic
// ---------------------------------------------------------------------------

/// The result of `8XYk` for `VX == a`, `VY == b`: the new value of `VX`, and
/// the value written to `VF` afterwards, if any.
pub open spec fn alu(k: int, a: u8, b: u8) -> Option<(u8, Option<u8>)> {
    if k == 0 {
        Some((b, None))
    } else if k == 1 {
        Some((a | b, None))
    } else if k == 2 {
        Some((a & b, None))
    } else if k == 3 {
        Some((a ^ b, None))
    } else if k == 4 {
        Some((((a + b) % 256) as u8, Some(flag(a + b > 255))))
    } else if k == 5 {
        Some((((a - b) % 256) as u8, Some(flag(a >= b))))
    } else if k == 6 {
        Some(((a / 2) as u8, Some((a % 2) as u8)))
    } else if k == 7 {
        Some((((b - a) % 256) as u8, Some(flag(b >= a))))
    } else if k == 14 {
        Some((((a * 2) % 256) as u8, Some((a / 128) as u8)))
    } else {
        None
    }
}

// ---------------------------------------------------------------------------
// Sprites
// ---------------------------------------------------------------------------

/// Whether bit `j` of a sprite row, counted from the most significant, is set.
pub open spec fn sprite_bit(row: u8, j: int) -> bool {
    (row >> ((7 - j) as u8)) & 1u8 == 1u8
}

/// The sprite row that lands on the framebuffer row of pixel `p`, for a
/// sprite placed at row `vy`; rows wrap modulo the screen height.
pub open spec fn sprite_row_at(vy: int, p: int) -> int {
    (p / 64 - vy) % 32
}

/// The sprite column that lands on the framebuffer column of pixel `p`, for a
/// sprite placed at column `vx`; columns wrap modulo the screen width.
pub open spec fn sprite_col_at(vx: int, p: int) -> int {
    (p % 64 - vx) % 64
}

/// Whether the `n`-row sprite read from `mem` at `index` and placed at
/// `(vx, vy)` has a set bit over pixel `p`.
pub open spec fn covers(mem: Seq<u8>, index: int, n: int, vx: int, vy: int, p: int) -> bool {
    let i = sprite_row_at(vy, p);
    let j = sprite_col_at(vx, p);
    i < n && j < 8 && sprite_bit(mem[index + i], j)
}

/// The framebuffer after the sprite is XORed onto it.
pub open spec fn draw_sprite(
    vram: Seq<u8>,
    mem: Seq<u8>,
    index: int,
    n: int,
    vx: int,
    vy: int,
) -> Seq<u8> {
    Seq::new(
        vram.len(),
        |p: int|
            if covers(mem, index, n, vx, vy, p) {
                (1 - vram[p]) as u8
            } else {
                vram[p]
            },
    )
}

/// Whether drawing the sprite turns some set pixel off.
pub open spec fn collides(
    vram: Seq<u8>,
    mem: Seq<u8>,
    index: int,
    n: int,
    vx: int,
    vy: int,
) -> bool {
    exists|p: int| 0 <= p < vram.len() && covers(mem, index, n, vx, vy, p) && vram[p] == 1
}

// ---------------------------------------------------------------------------
// Keys
// ---------------------------------------------------------------------------

/// The highest pressed key among the first `n`, or `-1` when none is pressed.
pub open spec fn last_pressed(keys: Seq<bool>, n: int) -> int
    decreases n,
{
    if n <= 0 {
        -1
    } else if keys[n - 1] {
        n - 1
    } else {
        last_pressed(keys, n - 1)
    }
}

// ---------------------------------------------------------------------------
// Memory transfers
// ---------------------------------------------------------------------------

/// Memory after `FX33`: the hundreds, tens and ones of `v` at `i`, `i+1`, `i+2`.
pub open spec fn store_bcd(mem: Seq<u8>, i: int, v: u8) -> Seq<u8> {
    mem.update(i, v / 100).update(i + 1, (v / 10) % 10).update(i + 2, v % 10)
}

/// Memory after `FX55`: registers `V0..=VX` copied to `i..=i+x`.
pub open spec fn store_regs(mem: Seq<u8>, regs: Seq<u8>, i: int, x: int) -> Seq<u8> {
    Seq::new(mem.len(), |a: int| if i <= a <= i + x { regs[a - i] } else { mem[a] })
}

/// Registers after `FX65`: `V0..=VX` read from `i..=i+x`.
pub open spec fn load_regs(regs: Seq<u8>, mem: Seq<u8>, i: int, x: int) -> Seq<u8> {
    Seq::new(regs.len(), |r: int| if r <= x { mem[i + r] } else { regs[r] })
}

// ---------------------------------------------------------------------------
// One instruction
// ---------------------------------------------------------------------------

/// The effect of instruction word `op` on `s`, before the timers tick.
/// `rnd` is the random word that `CXNN` consumes; its byte is `rnd mod 255`.
/// Where an instruction writes both a result register and the flag register
/// `VF`, the flag is written last. `EX9E` and `EXA1` fail with `OutOfBounds`
/// when `VX` names no key.
pub open spec fn execute(s: Chip8View, op: u16, rnd: u32) -> Result<Chip8View, Chip8Error> {
    let f = family(op);
    let x = op_x(op);
    let y = op_y(op);
    let n = op_n(op);
    let nn = op_nn(op);
    let nnn = op_nnn(op);
    let vx = s.registers[x];
    let vy = s.registers[y];
    if f == 0 {
        if op == 0x00E0 {
            Ok(next(Chip8View { vram: Seq::new(SCREEN_SIZE as nat, |p: int| 0u8), draw_flag: true, ..s }))
        } else if op == 0x00EE {
            if s.sp == 0 {
                Err(Chip8Error::StackUnderflow)
            } else {
                Ok(
                    Chip8View {
                        sp: (s.sp - 1) as u16,
                        pc: (s.stack[s.sp - 1] + 2) as u16,
                        ..s
                    },
                )
            }
        } else {
            Err(Chip8Error::UnknownInstruction(op))
        }
    } else if f == 1 {
        Ok(with_pc(s, nnn))
    } else if f == 2 {
        if s.sp >= STACK_SIZE {
            Err(Chip8Error::StackOverflow)
        } else {
            Ok(
                Chip8View {
                    stack: s.stack.update(s.sp as int, s.pc),
                    sp: (s.sp + 1) as u16,
                    pc: nnn as u16,
                    ..s
                },
            )
        }
    } else if f == 3 {
        Ok(skip_if(s, vx == nn))
    } else if f == 4 {
        Ok(skip_if(s, vx != nn))
    } else if f == 5 || f == 9 {
        if n != 0 {
            Err(Chip8Error::UnknownInstruction(op))
        } else {
            Ok(skip_if(s, (vx == vy) == (f == 5)))
        }
    } else if f == 6 {
        Ok(next(set_reg(s, x, nn as u8)))
    } else if f == 7 {
        Ok(next(set_reg(s, x, ((vx + nn) % 256) as u8)))
    } else if f == 8 {
        match alu(n, vx, vy) {
            Some((v, Some(fl))) => Ok(next(set_reg(set_reg(s, x, v), 15, fl))),
            Some((v, None)) => Ok(next(set_reg(s, x, v))),
            None => Err(Chip8Error::UnknownInstruction(op)),
        }
    } else if f == 10 {
        Ok(next(set_index(s, nnn)))
    } else if f == 11 {
        Ok(with_pc(s, nnn + s.registers[0]))
    } else if f == 12 {
        Ok(next(set_reg(s, x, ((rnd % 255) as u8) & (nn as u8))))
    } else if f == 13 {
        if s.index + n > MEMORY_SIZE {
            Err(Chip8Error::OutOfBounds)
        } else {
            let hit = collides(s.vram, s.memory, s.index as int, n, vx as int, vy as int);
            Ok(
                next(
                    Chip8View {
                        vram: draw_sprite(s.vram, s.memory, s.index as int, n, vx as int, vy as int),
                        registers: s.registers.update(15, flag(hit)),
                        draw_flag: true,
                        ..s
                    },
                ),
            )
        }
    } else if f == 14 {
        if nn != 0x9E && nn != 0xA1 {
            Err(Chip8Error::UnknownInstruction(op))
        } else if vx >= 16 {
            Err(Chip8Error::OutOfBounds)
        } else {
            Ok(skip_if(s, s.keypad[vx as int] == (nn == 0x9E)))
        }
    } else {
        execute_misc(s, op)
    }
}

/// The `FXNN` family. `FX0A` leaves the state as it is while no key is
/// pressed, and otherwise stores the highest pressed key. `FX55` and `FX65`
/// move `V0..=VX` and leave the index register one past the block moved.
pub open spec fn execute_misc(s: Chip8View, op: u16) -> Result<Chip8View, Chip8Error> {
    let x = op_x(op);
    let nn = op_nn(op);
    let vx = s.registers[x];
    if nn == 0x07 {
        Ok(next(set_reg(s, x, s.delay_timer)))
    } else if nn == 0x0A {
        let k = last_pressed(s.keypad, 16);
        if k < 0 {
            Ok(s)
        } else {
            Ok(next(set_reg(s, x, k as u8)))
        }
    } else if nn == 0x15 {
        Ok(next(Chip8View { delay_timer: vx, ..s }))
    } else if nn == 0x18 {
        Ok(next(Chip8View { sound_timer: vx, ..s }))
    } else if nn == 0x1E {
        let sum = s.index + vx;
        Ok(next(set_reg(set_index(s, sum % 65536), 15, flag(sum > 0xFFF))))
    } else if nn == 0x29 {
        Ok(next(set_index(s, vx * 5)))
    } else if nn == 0x33 {
        if s.index + 2 >= MEMORY_SIZE {
            Err(Chip8Error::OutOfBounds)
        } else {
            Ok(next(Chip8View { memory: store_bcd(s.memory, s.index as int, vx), ..s }))
        }
    } else if nn == 0x55 {
        if s.index + x >= MEMORY_SIZE {
            Err(Chip8Error::OutOfBounds)
        } else {
            Ok(
                next(
                    set_index(
                        Chip8View {
                            memory: store_regs(s.memory, s.registers, s.index as int, x),
                            ..s
                        },
                        s.index + x + 1,
                    ),
                ),
            )
        }
    } else if nn == 0x65 {
        if s.index + x >= MEMORY_SIZE {
            Err(Chip8Error::OutOfBounds)
        } else {
            Ok(
                next(
                    set_index(
                        Chip8View {
                            registers: load_regs(s.registers, s.memory, s.index as int, x),
                            ..s
                        },
                        s.index + x + 1,
                    ),
                ),
            )
        }
    } else {
        Err(Chip8Error::UnknownInstruction(op))
    }
}

// ---------------------------------------------------------------------------
// One step
// ---------------------------------------------------------------------------

/// The timers count down by one each, never below zero.
pub open spec fn tick(s: Chip8View) -> Chip8View {
    Chip8View {
        delay_timer: if s.delay_timer > 0 { (s.delay_timer - 1) as u8 } else { 0 },
        sound_timer: if s.sound_timer > 0 { (s.sound_timer - 1) as u8 } else { 0 },
        tone: s.sound_timer == 1,
        ..s
    }
}

/// One fetch, execute and tick. On an error the state is left as it was.
pub open spec fn step_spec(s: Chip8View, rnd: u32) -> Result<Chip8View, Chip8Error> {
    if s.pc + 1 >= MEMORY_SIZE {
        Err(Chip8Error::OutOfBounds)
    } else {
        match execute(s, fetch(s), rnd) {
            Ok(t) => Ok(tick(t)),
            Err(e) => Err(e),
        }
    }
}

/// The framebuffer offset read for pixel `(x, y)`: each coordinate is clamped
/// to the last column or row.
pub open spec fn clamped_offset(x: int, y: int) -> int {
    (if y < 32 { y } else { 31 }) * 64 + (if x < 64 { x } else { 63 })
}

/// Whether pixel `(x, y)` is set, with out-of-range coordinates clamped.
pub open spec fn pixel_set(s: Chip8View, x: int, y: int) -> bool {
    s.vram[clamped_offset(x, y)] == 1
}

/// Memory after a program image is copied in at the entry address.
pub open spec fn loaded(mem: Seq<u8>, rom: Seq<u8>) -> Seq<u8> {
    Seq::new(
        mem.len(),
        |a: int| if ENTRY <= a < ENTRY + rom.len() { rom[a - ENTRY] } else { mem[a] },
    )
}

/// Memory with the font table written at address zero.
pub open spec fn with_font(mem: Seq<u8>) -> Seq<u8> {
    Seq::new(mem.len(), |a: int| if a < 80 { font_byte(a) } else { mem[a] })
}

} // verus!

verus! {

/// The state of a freshly built machine: everything zero, nothing pressed.
pub open spec fn blank() -> Chip8View {
    Chip8View {
        memory: Seq::new(MEMORY_SIZE as nat, |a: int| 0u8),
        vram: Seq::new(SCREEN_SIZE as nat, |p: int| 0u8),
        registers: Seq::new(16, |r: int| 0u8),
        stack: Seq::new(STACK_SIZE as nat, |i: int| 0u16),
        keypad: Seq::new(16, |k: int| false),
        pc: 0,
        sp: 0,
        index: 0,
        delay_timer: 0,
        sound_timer: 0,
        draw_flag: false,
        tone: false,
    }
}

/// The state after initialisation: execution at the entry address, the font
/// table in low memory, a blank framebuffer waiting to be presented.
pub open spec fn initialized(s: Chip8View) -> Chip8View {
    Chip8View {
        pc: ENTRY,
        memory: with_font(s.memory),
        vram: Seq::new(SCREEN_SIZE as nat, |p: int| 0u8),
        draw_flag: true,
        tone: false,
        ..s
    }
}

} // verus!

verus! {

/// Whether `after` and the returned `r` are what `res` prescribes for
/// `before`: on success the new state; on an error that error, with the
/// state left as it was.
pub open spec fn applied(
    before: Chip8View,
    res: Result<Chip8View, Chip8Error>,
    after: Chip8View,
    r: Result<(), Chip8Error>,
) -> bool {
    match res {
        Ok(t) => r is Ok && after == t,
        Err(e) => r == Err::<(), Chip8Error>(e) && after == before,
    }
}

} // verus!
