use vstd::prelude::*;

use rand::rngs::ThreadRng;

use crate::error::Chip8Error;
use crate::font::{font_table, fontset};
use crate::random::{next_word, thread_rng};
use crate::draw::draw;
use crate::state::{
    applied, blank, execute, execute_misc, fetch, initialized, last_pressed, load_regs, loaded, next,
    pixel_set, step_spec, store_bcd, store_regs, tick, with_font, Chip8View, ENTRY, MEMORY_SIZE,
    SCREEN_HEIGHT, SCREEN_SIZE, SCREEN_WIDTH, STACK_SIZE,
};

verus! {

/// The virtual machine: memory, registers, stack, timers, framebuffer and
/// key matrix, advanced one instruction per `step`.
pub struct Chip8 {
    memory: Vec<u8>,
    vram: Vec<u8>,
    registers: Vec<u8>,
    stack: Vec<u16>,
    keypad: Vec<bool>,
    pc: u16,
    sp: u16,
    index_reg: u16,
    delay_timer: u8,
    sound_timer: u8,
    draw_flag: bool,
    tone: bool,
    randomizer: ThreadRng,
}

impl View for Chip8 {
    type V = Chip8View;

    closed spec fn view(&self) -> Chip8View {
        Chip8View {
            memory: self.memory@,
            vram: self.vram@,
            registers: self.registers@,
            stack: self.stack@,
            keypad: self.keypad@,
            pc: self.pc,
            sp: self.sp,
            index: self.index_reg,
            delay_timer: self.delay_timer,
            sound_timer: self.sound_timer,
            draw_flag: self.draw_flag,
            tone: self.tone,
        }
    }
}

impl Chip8 {
    /// A machine with every byte, register and timer at zero.
    pub fn new() -> (r: Chip8)
        ensures
            r@ == blank(),
            r@.wf(),
    {
        let r = Chip8 {
            memory: vec![0u8; MEMORY_SIZE],
            vram: vec![0u8; SCREEN_SIZE],
            registers: vec![0u8; 16],
            stack: vec![0u16; 16],
            keypad: vec![false; 16],
            pc: 0,
            sp: 0,
            index_reg: 0,
            delay_timer: 0,
            sound_timer: 0,
            draw_flag: false,
            tone: false,
            randomizer: thread_rng(),
        };
        assert(r@.memory =~= blank().memory);
        assert(r@.vram =~= blank().vram);
        assert(r@.registers =~= blank().registers);
        assert(r@.stack =~= blank().stack);
        assert(r@.keypad =~= blank().keypad);
        r
    }

    /// Sets the program counter to the entry address, writes the font table to
    /// address zero, clears the framebuffer and marks it for presenting.
    pub fn init(&mut self)
        requires
            old(self)@.wf(),
        ensures
            final(self)@ == initialized(old(self)@),
            final(self)@.wf(),
    {
        self.pc = ENTRY;
        write_font(&mut self.memory);
        fill_zero(&mut self.vram);
        self.draw_flag = true;
        self.tone = false;
    }

    /// Copies a program image into memory at the entry address. Fails with
    /// `OutOfBounds`, changing nothing, when the image does not fit.
    pub fn load_rom(&mut self, rom: &[u8]) -> (r: Result<(), Chip8Error>)
        requires
            old(self)@.wf(),
        ensures
            final(self)@.wf(),
            ENTRY + rom@.len() > MEMORY_SIZE ==> r == Err::<(), Chip8Error>(
                Chip8Error::OutOfBounds,
            ) && final(self)@ == old(self)@,
            ENTRY + rom@.len() <= MEMORY_SIZE ==> r is Ok && final(self)@ == (Chip8View {
                memory: loaded(old(self)@.memory, rom@),
                ..old(self)@
            }),
    {
        if rom.len() > MEMORY_SIZE - ENTRY as usize {
            return Err(Chip8Error::OutOfBounds);
        }
        copy_at(&mut self.memory, ENTRY as usize, rom);
        Ok(())
    }

    /// Runs one instruction cycle: fetch the word at the program counter,
    /// execute it, then count both timers down. `CXNN` takes its random byte
    /// from the machine's generator. On an error nothing changes.
    pub fn step(&mut self) -> (r: Result<(), Chip8Error>)
        requires
            old(self)@.wf(),
        ensures
            final(self)@.wf(),
            exists|rnd: u32| applied(old(self)@, step_spec(old(self)@, rnd), final(self)@, r),
    {
        let mut rnd: u32 = 0;
        if self.pc < MEMORY_SIZE as u16 - 1 && self.memory[self.pc as usize] / 16 == 0xC {
            rnd = next_word(&mut self.randomizer);
        }
        self.step_with_random(rnd)
    }

    /// One instruction cycle in which `CXNN` reads `rnd` as its random word.
    pub fn step_with_random(&mut self, rnd: u32) -> (r: Result<(), Chip8Error>)
        requires
            old(self)@.wf(),
        ensures
            final(self)@.wf(),
            applied(old(self)@, step_spec(old(self)@, rnd), final(self)@, r),
    {
        if self.pc >= MEMORY_SIZE as u16 - 1 {
            return Err(Chip8Error::OutOfBounds);
        }
        let hi = self.memory[self.pc as usize];
        let lo = self.memory[self.pc as usize + 1];
        let op: u16 = hi as u16 * 256 + lo as u16;
        assert(op == fetch(self@));
        match self.execute(op, rnd) {
            Ok(()) => {
                self.tick();
                Ok(())
            },
            Err(e) => Err(e),
        }
    }

    /// Moves past the instruction at the program counter without executing
    /// it, for a caller that chooses to continue after an unknown
    /// instruction. Fails with `OutOfBounds`, changing nothing, when the
    /// program counter is already past the last instruction word.
    pub fn skip_instruction(&mut self) -> (r: Result<(), Chip8Error>)
        requires
            old(self)@.wf(),
        ensures
            final(self)@.wf(),
            old(self)@.pc + 1 < MEMORY_SIZE ==> r is Ok && final(self)@ == next(old(self)@),
            old(self)@.pc + 1 >= MEMORY_SIZE ==> r == Err::<(), Chip8Error>(
                Chip8Error::OutOfBounds,
            ) && final(self)@ == old(self)@,
    {
        if self.pc >= MEMORY_SIZE as u16 - 1 {
            return Err(Chip8Error::OutOfBounds);
        }
        self.pc = self.pc + 2;
        Ok(())
    }

    /// Counts both timers down, and records whether the sound timer ran out.
    fn tick(&mut self)
        requires
            old(self)@.wf(),
        ensures
            final(self)@ == tick(old(self)@),
    {
        self.tone = self.sound_timer == 1;
        if self.delay_timer > 0 {
            self.delay_timer = self.delay_timer - 1;
        }
        if self.sound_timer > 0 {
            self.sound_timer = self.sound_timer - 1;
        }
    }

    fn execute(&mut self, op: u16, rnd: u32) -> (r: Result<(), Chip8Error>)
        requires
            old(self)@.wf(),
            old(self)@.pc + 1 < MEMORY_SIZE,
        ensures
            final(self)@.wf(),
            applied(old(self)@, execute(old(self)@, op, rnd), final(self)@, r),
    {
        let f: u16 = op / 4096;
        if f == 0 {
            self.exec_system(op, rnd)
        } else if f == 1 || f == 2 || f == 11 {
            self.exec_flow(op, rnd)
        } else if f == 3 || f == 4 || f == 5 || f == 9 || f == 14 {
            self.exec_skip(op, rnd)
        } else if f == 6 || f == 7 || f == 10 || f == 12 {
            self.exec_load(op, rnd)
        } else if f == 8 {
            self.exec_alu(op, rnd)
        } else if f == 13 {
            self.exec_draw(op, rnd)
        } else {
            self.exec_misc(op, rnd)
        }
    }

    /// `00E0` and `00EE`.
    fn exec_system(&mut self, op: u16, rnd: u32) -> (r: Result<(), Chip8Error>)
        requires
            old(self)@.wf(),
            old(self)@.pc + 1 < MEMORY_SIZE,
            op / 4096 == 0,
        ensures
            final(self)@.wf(),
            applied(old(self)@, execute(old(self)@, op, rnd), final(self)@, r),
    {
        if op == 0x00E0 {
            fill_zero(&mut self.vram);
            self.draw_flag = true;
            self.pc = self.pc + 2;
            Ok(())
        } else if op == 0x00EE {
            if self.sp == 0 {
                return Err(Chip8Error::StackUnderflow);
            }
            self.sp = self.sp - 1;
            self.pc = self.stack[self.sp as usize] + 2;
            Ok(())
        } else {
            Err(Chip8Error::UnknownInstruction(op))
        }
    }

    /// `1NNN`, `2NNN` and `BNNN`.
    fn exec_flow(&mut self, op: u16, rnd: u32) -> (r: Result<(), Chip8Error>)
        requires
            old(self)@.wf(),
            old(self)@.pc + 1 < MEMORY_SIZE,
            op / 4096 == 1 || op / 4096 == 2 || op / 4096 == 11,
        ensures
            final(self)@.wf(),
            applied(old(self)@, execute(old(self)@, op, rnd), final(self)@, r),
    {
        let f: u16 = op / 4096;
        let nnn: u16 = op % 4096;
        if f == 1 {
            self.pc = nnn;
        } else if f == 2 {
            if self.sp >= STACK_SIZE {
                return Err(Chip8Error::StackOverflow);
            }
            self.stack.set(self.sp as usize, self.pc);
            self.sp = self.sp + 1;
            self.pc = nnn;
        } else {
            self.pc = nnn + self.registers[0] as u16;
        }
        Ok(())
    }

    /// `3XNN`, `4XNN`, `5XY0`, `9XY0`, `EX9E` and `EXA1`.
    fn exec_skip(&mut self, op: u16, rnd: u32) -> (r: Result<(), Chip8Error>)
        requires
            old(self)@.wf(),
            old(self)@.pc + 1 < MEMORY_SIZE,
            op / 4096 == 3 || op / 4096 == 4 || op / 4096 == 5 || op / 4096 == 9 || op / 4096
                == 14,
        ensures
            final(self)@.wf(),
            applied(old(self)@, execute(old(self)@, op, rnd), final(self)@, r),
    {
        let f: u16 = op / 4096;
        let x: usize = ((op / 256) % 16) as usize;
        let y: usize = ((op / 16) % 16) as usize;
        let n: u16 = op % 16;
        let nn: u16 = op % 256;
        let vx = self.registers[x];
        let vy = self.registers[y];
        let c: bool;
        if f == 3 {
            c = vx as u16 == nn;
        } else if f == 4 {
            c = vx as u16 != nn;
        } else if f == 5 || f == 9 {
            if n != 0 {
                return Err(Chip8Error::UnknownInstruction(op));
            }
            c = (vx == vy) == (f == 5);
        } else {
            if nn != 0x9E && nn != 0xA1 {
                return Err(Chip8Error::UnknownInstruction(op));
            }
            if vx >= 16 {
                return Err(Chip8Error::OutOfBounds);
            }
            c = self.keypad[vx as usize] == (nn == 0x9E);
        }
        if c {
            self.pc = self.pc + 4;
        } else {
            self.pc = self.pc + 2;
        }
        Ok(())
    }

    /// `6XNN`, `7XNN`, `ANNN` and `CXNN`.
    fn exec_load(&mut self, op: u16, rnd: u32) -> (r: Result<(), Chip8Error>)
        requires
            old(self)@.wf(),
            old(self)@.pc + 1 < MEMORY_SIZE,
            op / 4096 == 6 || op / 4096 == 7 || op / 4096 == 10 || op / 4096 == 12,
        ensures
            final(self)@.wf(),
            applied(old(self)@, execute(old(self)@, op, rnd), final(self)@, r),
    {
        let f: u16 = op / 4096;
        let x: usize = ((op / 256) % 16) as usize;
        let nn: u8 = (op % 256) as u8;
        if f == 6 {
            self.registers.set(x, nn);
        } else if f == 7 {
            let v: u8 = ((self.registers[x] as u16 + nn as u16) % 256) as u8;
            self.registers.set(x, v);
        } else if f == 10 {
            self.index_reg = op % 4096;
        } else {
            self.registers.set(x, ((rnd % 255) as u8) & nn);
        }
        self.pc = self.pc + 2;
        Ok(())
    }

    /// `8XYk`: register-register arithmetic. `VX` is written first, then `VF`.
    fn exec_alu(&mut self, op: u16, rnd: u32) -> (r: Result<(), Chip8Error>)
        requires
            old(self)@.wf(),
            old(self)@.pc + 1 < MEMORY_SIZE,
            op / 4096 == 8,
        ensures
            final(self)@.wf(),
            applied(old(self)@, execute(old(self)@, op, rnd), final(self)@, r),
    {
        let x: usize = ((op / 256) % 16) as usize;
        let y: usize = ((op / 16) % 16) as usize;
        let k: u16 = op % 16;
        let a = self.registers[x];
        let b = self.registers[y];
        let v: u8;
        let fl: Option<u8>;
        if k == 0 {
            v = b;
            fl = None;
        } else if k == 1 {
            v = a | b;
            fl = None;
        } else if k == 2 {
            v = a & b;
            fl = None;
        } else if k == 3 {
            v = a ^ b;
            fl = None;
        } else if k == 4 {
            let sum: u16 = a as u16 + b as u16;
            v = (sum % 256) as u8;
            fl = Some(if sum > 255 { 1u8 } else { 0u8 });
        } else if k == 5 {
            v = if a >= b { a - b } else { (a as u16 + 256 - b as u16) as u8 };
            fl = Some(if a >= b { 1u8 } else { 0u8 });
        } else if k == 6 {
            v = a / 2;
            fl = Some(a % 2);
        } else if k == 7 {
            v = if b >= a { b - a } else { (b as u16 + 256 - a as u16) as u8 };
            fl = Some(if b >= a { 1u8 } else { 0u8 });
        } else if k == 14 {
            v = ((a as u16 * 2) % 256) as u8;
            fl = Some(a / 128);
        } else {
            return Err(Chip8Error::UnknownInstruction(op));
        }
        self.registers.set(x, v);
        match fl {
            Some(f) => self.registers.set(15, f),
            None => {},
        }
        self.pc = self.pc + 2;
        Ok(())
    }

    /// `DXYN`: draws a sprite and sets `VF` to the collision flag.
    fn exec_draw(&mut self, op: u16, rnd: u32) -> (r: Result<(), Chip8Error>)
        requires
            old(self)@.wf(),
            old(self)@.pc + 1 < MEMORY_SIZE,
            op / 4096 == 13,
        ensures
            final(self)@.wf(),
            applied(old(self)@, execute(old(self)@, op, rnd), final(self)@, r),
    {
        let x: usize = ((op / 256) % 16) as usize;
        let y: usize = ((op / 16) % 16) as usize;
        let n: usize = (op % 16) as usize;
        if self.index_reg as usize + n > MEMORY_SIZE {
            return Err(Chip8Error::OutOfBounds);
        }
        let vx = self.registers[x] as usize;
        let vy = self.registers[y] as usize;
        let hit = draw(&mut self.vram, &self.memory, self.index_reg as usize, n, vx, vy);
        self.registers.set(15, if hit { 1u8 } else { 0u8 });
        self.draw_flag = true;
        self.pc = self.pc + 2;
        Ok(())
    }

    /// `FXNN`: timers, keys, the index register and memory transfers.
    fn exec_misc(&mut self, op: u16, rnd: u32) -> (r: Result<(), Chip8Error>)
        requires
            old(self)@.wf(),
            old(self)@.pc + 1 < MEMORY_SIZE,
            op / 4096 == 15,
        ensures
            final(self)@.wf(),
            applied(old(self)@, execute(old(self)@, op, rnd), final(self)@, r),
    {
        assert(execute(self@, op, rnd) == execute_misc(self@, op));
        let x: usize = ((op / 256) % 16) as usize;
        let nn: u16 = op % 256;
        let vx = self.registers[x];
        if nn == 0x07 {
            self.registers.set(x, self.delay_timer);
        } else if nn == 0x0A {
            let key = pressed_key(&self.keypad);
            if key >= 16 {
                return Ok(());
            }
            self.registers.set(x, key as u8);
        } else if nn == 0x15 {
            self.delay_timer = vx;
        } else if nn == 0x18 {
            self.sound_timer = vx;
        } else if nn == 0x1E {
            let sum: u32 = self.index_reg as u32 + vx as u32;
            self.index_reg = (sum % 65536) as u16;
            self.registers.set(15, if sum > 0xFFF { 1u8 } else { 0u8 });
        } else if nn == 0x29 {
            self.index_reg = vx as u16 * 5;
        } else if nn == 0x33 {
            let i = self.index_reg as usize;
            if i + 2 >= MEMORY_SIZE {
                return Err(Chip8Error::OutOfBounds);
            }
            self.memory.set(i, vx / 100);
            self.memory.set(i + 1, (vx / 10) % 10);
            self.memory.set(i + 2, vx % 10);
            assert(self.memory@ =~= store_bcd(old(self)@.memory, i as int, vx));
        } else if nn == 0x55 || nn == 0x65 {
            let i = self.index_reg as usize;
            if i + x >= MEMORY_SIZE {
                return Err(Chip8Error::OutOfBounds);
            }
            if nn == 0x55 {
                store_registers(&mut self.memory, &self.registers, i, x);
            } else {
                load_registers(&mut self.registers, &self.memory, i, x);
            }
            self.index_reg = (i + x + 1) as u16;
        } else {
            return Err(Chip8Error::UnknownInstruction(op));
        }
        self.pc = self.pc + 2;
        Ok(())
    }

    /// Whether the framebuffer changed since the flag was last reset.
    pub fn is_draw_flag(&self) -> (r: bool)
        ensures
            r == self@.draw_flag,
    {
        self.draw_flag
    }

    /// Acknowledges that the framebuffer was presented.
    pub fn reset_draw_flag(&mut self)
        requires
            old(self)@.wf(),
        ensures
            final(self)@ == (Chip8View { draw_flag: false, ..old(self)@ }),
            final(self)@.wf(),
    {
        self.draw_flag = false;
    }

    /// Whether the last step ran the sound timer out: the caller plays a tone.
    pub fn is_tone(&self) -> (r: bool)
        ensures
            r == self@.tone,
    {
        self.tone
    }

    /// Replaces the pressed state of all sixteen keys.
    pub fn update_keys(&mut self, keys: [bool; 16])
        requires
            old(self)@.wf(),
        ensures
            final(self)@ == (Chip8View { keypad: keys@, ..old(self)@ }),
            final(self)@.wf(),
    {
        let mut pressed: Vec<bool> = Vec::new();
        let mut k: usize = 0;
        while k < 16
            invariant
                0 <= k <= 16,
                keys@.len() == 16,
                pressed@ == keys@.subrange(0, k as int),
            decreases 16 - k,
        {
            pressed.push(keys[k]);
            k = k + 1;
        }
        assert(pressed@ =~= keys@);
        self.keypad = pressed;
    }

    /// Whether pixel `(x, y)` is set. A coordinate past the edge reads the
    /// last column or row.
    pub fn get_vram(&self, x: usize, y: usize) -> (r: bool)
        requires
            self@.wf(),
        ensures
            r == pixel_set(self@, x as int, y as int),
    {
        let cx: usize = if x < SCREEN_WIDTH { x } else { SCREEN_WIDTH - 1 };
        let cy: usize = if y < SCREEN_HEIGHT { y } else { SCREEN_HEIGHT - 1 };
        self.vram[cy * SCREEN_WIDTH + cx] == 1
    }

    /// The program counter.
    pub fn pc(&self) -> (r: u16)
        ensures
            r == self@.pc,
    {
        self.pc
    }

    /// The index register.
    pub fn index(&self) -> (r: u16)
        ensures
            r == self@.index,
    {
        self.index_reg
    }

    /// The number of return addresses on the stack.
    pub fn stack_depth(&self) -> (r: u16)
        ensures
            r == self@.sp,
    {
        self.sp
    }

    /// The delay timer.
    pub fn delay_timer(&self) -> (r: u8)
        ensures
            r == self@.delay_timer,
    {
        self.delay_timer
    }

    /// The sound timer.
    pub fn sound_timer(&self) -> (r: u8)
        ensures
            r == self@.sound_timer,
    {
        self.sound_timer
    }

    /// Register `V[x]`.
    pub fn register(&self, x: usize) -> (r: u8)
        requires
            self@.wf(),
            x < 16,
        ensures
            r == self@.registers[x as int],
    {
        self.registers[x]
    }

    /// The byte at address `a`.
    pub fn memory_at(&self, a: usize) -> (r: u8)
        requires
            self@.wf(),
            a < MEMORY_SIZE,
        ensures
            r == self@.memory[a as int],
    {
        self.memory[a]
    }
}

/// Writes the font table at address zero.
fn write_font(mem: &mut Vec<u8>)
    requires
        old(mem)@.len() == MEMORY_SIZE,
    ensures
        final(mem)@ == with_font(old(mem)@),
{
    let font = fontset();
    let mut a: usize = 0;
    while a < 80
        invariant
            0 <= a <= 80,
            font@ == font_table(),
            mem@.len() == MEMORY_SIZE,
            forall|b: int|
                0 <= b < MEMORY_SIZE ==> #[trigger] mem@[b] == if b < a {
                    font@[b]
                } else {
                    old(mem)@[b]
                },
        decreases 80 - a,
    {
        mem.set(a, font[a]);
        a = a + 1;
    }
    assert(mem@ =~= with_font(old(mem)@));
}

/// Sets every byte to zero.
fn fill_zero(v: &mut Vec<u8>)
    ensures
        final(v)@ == Seq::new(old(v)@.len(), |q: int| 0u8),
{
    let mut p: usize = 0;
    while p < v.len()
        invariant
            0 <= p <= v@.len(),
            v@.len() == old(v)@.len(),
            forall|q: int| 0 <= q < p ==> #[trigger] v@[q] == 0,
        decreases v@.len() - p,
    {
        v.set(p, 0);
        p = p + 1;
    }
    assert(v@ =~= Seq::new(old(v)@.len(), |q: int| 0u8));
}

/// Copies `rom` into `mem` starting at `base`.
fn copy_at(mem: &mut Vec<u8>, base: usize, rom: &[u8])
    requires
        old(mem)@.len() == MEMORY_SIZE,
        base + rom@.len() <= MEMORY_SIZE,
    ensures
        final(mem)@ == Seq::new(
            old(mem)@.len(),
            |a: int| if base <= a < base + rom@.len() { rom@[a - base] } else { old(mem)@[a] },
        ),
{
    let mut i: usize = 0;
    while i < rom.len()
        invariant
            0 <= i <= rom@.len(),
            base + rom@.len() <= MEMORY_SIZE,
            mem@.len() == MEMORY_SIZE,
            forall|a: int|
                0 <= a < mem@.len() ==> #[trigger] mem@[a] == if base <= a < base + i {
                    rom@[a - base]
                } else {
                    old(mem)@[a]
                },
        decreases rom@.len() - i,
    {
        mem.set(base + i, rom[i]);
        i = i + 1;
    }
    assert(mem@ =~= Seq::new(
        old(mem)@.len(),
        |a: int| if base <= a < base + rom@.len() { rom@[a - base] } else { old(mem)@[a] },
    ));
}

/// The highest pressed key, or 16 when none is pressed.
fn pressed_key(keys: &Vec<bool>) -> (k: usize)
    requires
        keys@.len() == 16,
    ensures
        last_pressed(keys@, 16) < 16,
        k == if last_pressed(keys@, 16) < 0 { 16 } else { last_pressed(keys@, 16) },
{
    let mut k: usize = 16;
    let mut i: usize = 0;
    while i < 16
        invariant
            0 <= i <= 16,
            keys@.len() == 16,
            last_pressed(keys@, i as int) < i,
            k == if last_pressed(keys@, i as int) < 0 { 16 } else { last_pressed(keys@, i as int) },
        decreases 16 - i,
    {
        if keys[i] {
            k = i;
        }
        i = i + 1;
    }
    k
}

/// Copies registers `0..=x` to `mem[i..=i + x]`.
fn store_registers(mem: &mut Vec<u8>, regs: &Vec<u8>, i: usize, x: usize)
    requires
        old(mem)@.len() == MEMORY_SIZE,
        regs@.len() == 16,
        x < 16,
        i + x < MEMORY_SIZE,
    ensures
        final(mem)@ == store_regs(old(mem)@, regs@, i as int, x as int),
{
    let mut r: usize = 0;
    while r <= x
        invariant
            0 <= r <= x + 1,
            x < 16,
            i + x < MEMORY_SIZE,
            regs@.len() == 16,
            mem@.len() == MEMORY_SIZE,
            forall|a: int|
                0 <= a < MEMORY_SIZE ==> #[trigger] mem@[a] == if i <= a < i + r {
                    regs@[a - i]
                } else {
                    old(mem)@[a]
                },
        decreases x + 1 - r,
    {
        mem.set(i + r, regs[r]);
        r = r + 1;
    }
    assert(mem@ =~= store_regs(old(mem)@, regs@, i as int, x as int));
}

/// Reads registers `0..=x` from `mem[i..=i + x]`.
fn load_registers(regs: &mut Vec<u8>, mem: &Vec<u8>, i: usize, x: usize)
    requires
        old(regs)@.len() == 16,
        mem@.len() == MEMORY_SIZE,
        x < 16,
        i + x < MEMORY_SIZE,
    ensures
        final(regs)@ == load_regs(old(regs)@, mem@, i as int, x as int),
{
    let mut r: usize = 0;
    while r <= x
        invariant
            0 <= r <= x + 1,
            x < 16,
            i + x < MEMORY_SIZE,
            mem@.len() == MEMORY_SIZE,
            regs@.len() == 16,
            forall|q: int|
                0 <= q < 16 ==> #[trigger] regs@[q] == if q < r {
                    mem@[i + q]
                } else {
                    old(regs)@[q]
                },
        decreases x + 1 - r,
    {
        regs.set(r, mem[i + r]);
        r = r + 1;
    }
    assert(regs@ =~= load_regs(old(regs)@, mem@, i as int, x as int));
}

} // verus!
