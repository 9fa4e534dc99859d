use vstd::prelude::*;

use crate::state::{
    collides, covers, draw_sprite, family, fetch, flag, op_n, op_nn, op_x, op_y, pixel_set,
    clamped_offset, step_spec, Chip8View, MEMORY_SIZE, SCREEN_SIZE, STACK_SIZE,
};

verus! {

/// `8XY4` leaves `(a + b) mod 256` in `VX` and sets `VF` to 1 exactly when
/// `a + b > 255`; `8XY5` leaves `(a - b) mod 256` in `VX` and sets `VF` to 1
/// exactly when `a >= b`, that is when no borrow occurs. Here `a` and `b` are
/// any values of `VX` and `VY`, and `VX` is not `VF` itself.
pub proof fn lemma_add_sub_flags(s: Chip8View, rnd: u32)
    requires
        s.wf(),
        s.pc + 1 < MEMORY_SIZE,
        family(fetch(s)) == 8,
        op_n(fetch(s)) == 4 || op_n(fetch(s)) == 5,
        op_x(fetch(s)) != 15,
    ensures
        step_spec(s, rnd) is Ok,
        ({
            let op = fetch(s);
            let a = s.registers[op_x(op)];
            let b = s.registers[op_y(op)];
            let t = step_spec(s, rnd)->Ok_0;
            &&& op_n(op) == 4 ==> t.registers[op_x(op)] == (a + b) % 256 && t.registers[15]
                == flag(a + b > 255)
            &&& op_n(op) == 5 ==> t.registers[op_x(op)] == (a - b) % 256 && t.registers[15]
                == flag(a >= b)
        }),
{
}

/// A call `2NNN` at address `P` pushes `P` and deepens the stack by one; a
/// later return `00EE`, reached with the stack at that depth and the pushed
/// address still in place, resumes at `P + 2` with the stack back at its
/// depth before the call.
pub proof fn lemma_call_return(s: Chip8View, u: Chip8View, rnd1: u32, rnd2: u32)
    requires
        s.wf(),
        s.pc + 1 < MEMORY_SIZE,
        family(fetch(s)) == 2,
        s.sp < STACK_SIZE,
        u.wf(),
        u.pc + 1 < MEMORY_SIZE,
        fetch(u) == 0x00EE,
        u.sp == s.sp + 1,
        u.stack[s.sp as int] == s.pc,
    ensures
        step_spec(s, rnd1) is Ok,
        step_spec(s, rnd1)->Ok_0.sp == s.sp + 1,
        step_spec(s, rnd1)->Ok_0.stack[s.sp as int] == s.pc,
        step_spec(u, rnd2) is Ok,
        step_spec(u, rnd2)->Ok_0.pc == s.pc + 2,
        step_spec(u, rnd2)->Ok_0.sp == s.sp,
{
}

/// A step whose instruction is neither a call nor a return leaves the stack
/// and its pointer as they were.
pub proof fn lemma_stack_kept(s: Chip8View, rnd: u32)
    requires
        s.wf(),
        family(fetch(s)) != 2,
        fetch(s) != 0x00EE,
    ensures
        step_spec(s, rnd) is Ok ==> step_spec(s, rnd)->Ok_0.stack == s.stack
            && step_spec(s, rnd)->Ok_0.sp == s.sp,
{
}

/// After `00E0` every pixel reads as unset and the framebuffer is marked for
/// presenting.
pub proof fn lemma_clear_screen(s: Chip8View, rnd: u32)
    requires
        s.wf(),
        s.pc + 1 < MEMORY_SIZE,
        fetch(s) == 0x00E0,
    ensures
        step_spec(s, rnd) is Ok,
        step_spec(s, rnd)->Ok_0.draw_flag,
        forall|x: int, y: int|
            0 <= x && 0 <= y ==> !#[trigger] pixel_set(step_spec(s, rnd)->Ok_0, x, y),
{
    let t = step_spec(s, rnd)->Ok_0;
    assert forall|x: int, y: int| 0 <= x && 0 <= y implies !#[trigger] pixel_set(t, x, y) by {
        let o = clamped_offset(x, y);
        assert(0 <= o < SCREEN_SIZE) by (nonlinear_arith)
            requires
                o == (if y < 32 { y } else { 31 }) * 64 + (if x < 64 { x } else { 63 }),
                0 <= x,
                0 <= y,
        ;
    }
}

/// Drawing a sprite twice at the same place restores the framebuffer, and the
/// second drawing collides exactly when the sprite covers a pixel that the
/// first drawing turned on.
pub proof fn lemma_draw_twice(
    vram: Seq<u8>,
    mem: Seq<u8>,
    index: int,
    n: int,
    vx: int,
    vy: int,
)
    requires
        vram.len() == SCREEN_SIZE,
        forall|p: int| 0 <= p < SCREEN_SIZE ==> #[trigger] vram[p] <= 1,
    ensures
        draw_sprite(draw_sprite(vram, mem, index, n, vx, vy), mem, index, n, vx, vy) == vram,
        collides(draw_sprite(vram, mem, index, n, vx, vy), mem, index, n, vx, vy) <==> exists|
            p: int,
        |
            0 <= p < SCREEN_SIZE && #[trigger] covers(mem, index, n, vx, vy, p) && vram[p] == 0,
{
    let once = draw_sprite(vram, mem, index, n, vx, vy);
    assert(draw_sprite(once, mem, index, n, vx, vy) =~= vram);
    if collides(once, mem, index, n, vx, vy) {
        let p = choose|p: int|
            0 <= p < once.len() && covers(mem, index, n, vx, vy, p) && once[p] == 1;
        assert(vram[p] == 0);
    }
    if exists|p: int|
        0 <= p < SCREEN_SIZE && #[trigger] covers(mem, index, n, vx, vy, p) && vram[p] == 0 {
        let p = choose|p: int|
            0 <= p < SCREEN_SIZE && #[trigger] covers(mem, index, n, vx, vy, p) && vram[p] == 0;
        assert(once[p] == 1);
    }
}

/// Two consecutive `DXYN` steps with the same operands, `VX` and `VY` not
/// being `VF`, leave the framebuffer as it was before the first; the second
/// sets `VF` to 1 exactly when the sprite covers a pixel that was unset
/// before the first.
pub proof fn lemma_step_draw_twice(s: Chip8View, rnd1: u32, rnd2: u32)
    requires
        s.wf(),
        s.pc + 3 < MEMORY_SIZE,
        family(fetch(s)) == 13,
        op_x(fetch(s)) != 15,
        op_y(fetch(s)) != 15,
        s.memory[s.pc + 2] == s.memory[s.pc as int],
        s.memory[s.pc + 3] == s.memory[s.pc + 1],
        s.index + op_n(fetch(s)) <= MEMORY_SIZE,
    ensures
        step_spec(s, rnd1) is Ok,
        step_spec(step_spec(s, rnd1)->Ok_0, rnd2) is Ok,
        step_spec(step_spec(s, rnd1)->Ok_0, rnd2)->Ok_0.vram == s.vram,
        ({
            let op = fetch(s);
            let u = step_spec(step_spec(s, rnd1)->Ok_0, rnd2)->Ok_0;
            u.registers[15] == flag(
                exists|p: int|
                    0 <= p < SCREEN_SIZE && #[trigger] covers(
                        s.memory,
                        s.index as int,
                        op_n(op),
                        s.registers[op_x(op)] as int,
                        s.registers[op_y(op)] as int,
                        p,
                    ) && s.vram[p] == 0,
            )
        }),
{
    let op = fetch(s);
    let t = step_spec(s, rnd1)->Ok_0;
    assert(fetch(t) == op);
    lemma_draw_twice(
        s.vram,
        s.memory,
        s.index as int,
        op_n(op),
        s.registers[op_x(op)] as int,
        s.registers[op_y(op)] as int,
    );
}

/// Every completed step whose instruction does not set the delay timer
/// counts it down by one while it is positive and leaves it at zero once it
/// is zero: it never wraps below zero.
pub proof fn lemma_delay_counts_down(s: Chip8View, rnd: u32)
    requires
        s.wf(),
        !(family(fetch(s)) == 15 && op_nn(fetch(s)) == 0x15),
        step_spec(s, rnd) is Ok,
    ensures
        step_spec(s, rnd)->Ok_0.delay_timer == if s.delay_timer > 0 {
            s.delay_timer - 1
        } else {
            0
        },
{
}

} // verus!
