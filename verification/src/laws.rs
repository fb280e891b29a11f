//! Laws of the instruction set: properties that relate several steps of the
//! machine, or hold of an instruction for every pair of operands, proved
//! once and for all against the step semantics of [`crate::model`].

use vstd::prelude::*;

use crate::model::{
    Machine, machine_wf, op_x, op_y, op_n, op_kk, op_nnn, wrap8, exec_op_spec, blank_fb,
    draw_toggles, draw_fb, draw_collision, MEMORY_SIZE, STACK_DEPTH, SCREEN_SIZE, NUM_REGISTERS,
};

verus! {

/// Law: the flagged add (family 8, sub-opcode 4) stores (a + b) mod 256 in
/// Vx and sets VF to 1 exactly when a + b exceeds 255, where a and b are
/// the prior values of Vx and Vy. Stated for x other than 15: with x = 15
/// the result write lands on the flag register and wins.
pub proof fn lemma_add_sets_carry(m: Machine, op: u16, rnd: u8)
    requires
        machine_wf(m),
        op >> 12 == 8,
        op & 0x000F == 4,
        op_x(op) != 15,
    ensures
        ({
            let x = op_x(op) as int;
            let y = op_y(op) as int;
            let a = m.regs[x];
            let b = m.regs[y];
            let out = exec_op_spec(m, op, rnd);
            &&& out is Ok
            &&& out->Ok_0.regs[x] == wrap8(a + b)
            &&& (a + b <= 255 ==> out->Ok_0.regs[x] == a + b)
            &&& (out->Ok_0.regs[15] == 1 <==> a + b > 255)
            &&& (a + b <= 255 ==> out->Ok_0.regs[15] == 0)
        }),
{
    assert((op >> 8) & 0x0F < 16 && (op >> 4) & 0x0F < 16) by (bit_vector);
    let a = m.regs[op_x(op) as int];
    let b = m.regs[op_y(op) as int];
    if a + b <= 255 {
        vstd::arithmetic::div_mod::lemma_small_mod((a + b) as nat, 256);
    }
}

/// Law: the flagged subtract (family 8, sub-opcode 5) stores (a - b) mod
/// 256 in Vx and clears VF to 0 exactly when the subtraction borrows, that
/// is when a < b; VF = 1 means no borrow. Stated for x other than 15.
pub proof fn lemma_sub_sets_borrow(m: Machine, op: u16, rnd: u8)
    requires
        machine_wf(m),
        op >> 12 == 8,
        op & 0x000F == 5,
        op_x(op) != 15,
    ensures
        ({
            let x = op_x(op) as int;
            let y = op_y(op) as int;
            let a = m.regs[x];
            let b = m.regs[y];
            let out = exec_op_spec(m, op, rnd);
            &&& out is Ok
            &&& out->Ok_0.regs[x] == wrap8(a - b)
            &&& (a >= b ==> out->Ok_0.regs[x] == a - b)
            &&& (out->Ok_0.regs[15] == 0 <==> a < b)
            &&& (a < b ==> out->Ok_0.regs[x] == a - b + 256)
        }),
{
    assert((op >> 8) & 0x0F < 16 && (op >> 4) & 0x0F < 16) by (bit_vector);
    let a = m.regs[op_x(op) as int];
    let b = m.regs[op_y(op) as int];
    if a >= b {
        vstd::arithmetic::div_mod::lemma_small_mod((a - b) as nat, 256);
    } else {
        vstd::arithmetic::div_mod::lemma_mod_multiples_vanish(1, a - b, 256);
        vstd::arithmetic::div_mod::lemma_small_mod((a - b + 256) as nat, 256);
    }
}

/// Law: the clear-screen instruction leaves every framebuffer pixel zero
/// and raises the redraw flag.
pub proof fn lemma_clear_screen(m: Machine, rnd: u8)
    requires
        machine_wf(m),
    ensures
        ({
            let out = exec_op_spec(m, 0x00E0, rnd);
            &&& out is Ok
            &&& out->Ok_0.fb == blank_fb()
            &&& forall|j: int| 0 <= j < SCREEN_SIZE ==> out->Ok_0.fb[j] == 0
            &&& out->Ok_0.redraw == true
        }),
{
    assert(0x00E0u16 >> 12 == 0) by (bit_vector);
}

/// Law: a register block store (Fx55) followed by a block load (Fx65) with
/// the same I and the same x restores every register exactly.
pub proof fn lemma_store_load_round_trip(m: Machine, x: u16, rnd: u8)
    requires
        machine_wf(m),
        x < NUM_REGISTERS,
        m.i + x + 1 <= MEMORY_SIZE,
    ensures
        ({
            let store = (0xF055u16 | x << 8);
            let load = (0xF065u16 | x << 8);
            let out1 = exec_op_spec(m, store, rnd);
            let out2 = exec_op_spec(out1->Ok_0, load, rnd);
            &&& out1 is Ok
            &&& out1->Ok_0.i == m.i
            &&& out2 is Ok
            &&& out2->Ok_0.regs == m.regs
        }),
{
    let store = (0xF055u16 | x << 8);
    let load = (0xF065u16 | x << 8);
    assert((0xF055u16 | x << 8) >> 12 == 0xF && ((0xF055u16 | x << 8) & 0x00FF) as u8 == 0x55 && ((
    0xF055u16 | x << 8) >> 8) & 0x0F == x && (0xF065u16 | x << 8) >> 12 == 0xF && ((0xF065u16 | x
        << 8) & 0x00FF) as u8 == 0x65 && ((0xF065u16 | x << 8) >> 8) & 0x0F == x)
        by (bit_vector)
        requires
            x < 16,
    ;
    let m1 = exec_op_spec(m, store, rnd)->Ok_0;
    let m2 = exec_op_spec(m1, load, rnd)->Ok_0;
    assert(m2.regs =~= m.regs);
}

/// Law: drawing the same sprite at the same coordinates twice restores the
/// framebuffer exactly (the draw XORs, and XOR is self-inverse). The first
/// draw collides exactly where some toggled pixel was set; the second
/// exactly where some toggled pixel was clear, so on a clear screen only
/// the second draw of a nonempty sprite reports a collision. Stated for x
/// and y other than 15, which the first draw's flag write would disturb.
pub proof fn lemma_draw_twice_restores(m: Machine, op: u16, rnd: u8)
    requires
        machine_wf(m),
        op >> 12 == 0xD,
        op_x(op) != 15,
        op_y(op) != 15,
        op_n(op) > 0 ==> m.i + op_n(op) <= MEMORY_SIZE,
    ensures
        ({
            let vx = m.regs[op_x(op) as int];
            let vy = m.regs[op_y(op) as int];
            let n = op_n(op);
            let out1 = exec_op_spec(m, op, rnd);
            let out2 = exec_op_spec(out1->Ok_0, op, rnd);
            &&& out1 is Ok
            &&& out2 is Ok
            &&& out2->Ok_0.fb == m.fb
            &&& (out1->Ok_0.regs[15] == 1 <==> exists|idx: int|
                0 <= idx < SCREEN_SIZE && #[trigger] draw_toggles(m.mem, m.i, vx, vy, n, idx)
                    && m.fb[idx] == 1)
            &&& (out2->Ok_0.regs[15] == 1 <==> exists|idx: int|
                0 <= idx < SCREEN_SIZE && #[trigger] draw_toggles(m.mem, m.i, vx, vy, n, idx)
                    && m.fb[idx] == 0)
        }),
{
    assert((op >> 8) & 0x0F < 16 && (op >> 4) & 0x0F < 16 && op & 0x000F < 16) by (bit_vector);
    let x = op_x(op) as int;
    let y = op_y(op) as int;
    let vx = m.regs[x];
    let vy = m.regs[y];
    let n = op_n(op);
    let m1 = exec_op_spec(m, op, rnd)->Ok_0;
    assert(m1.regs[x] == vx && m1.regs[y] == vy && m1.mem == m.mem && m1.i == m.i);
    let m2 = exec_op_spec(m1, op, rnd)->Ok_0;
    let fb1 = draw_fb(m.fb, m.mem, m.i, vx, vy, n);
    let fb2 = draw_fb(fb1, m.mem, m.i, vx, vy, n);
    assert forall|idx: int| 0 <= idx < SCREEN_SIZE implies fb2[idx] == m.fb[idx] by {
        assert(m.fb[idx] == 0 || m.fb[idx] == 1);
        if draw_toggles(m.mem, m.i, vx, vy, n, idx) {
            assert(fb1[idx] == 1 - m.fb[idx]);
            assert(fb2[idx] == 1 - fb1[idx]);
        }
    }
    assert(fb2 =~= m.fb);
    // The second draw's collision witnesses translate through the first
    // draw: a toggled pixel is set afterwards exactly when it was clear
    // before.
    if draw_collision(fb1, m.mem, m.i, vx, vy, n) {
        let w = choose|idx: int|
            0 <= idx < SCREEN_SIZE && #[trigger] draw_toggles(m.mem, m.i, vx, vy, n, idx)
                && fb1[idx] == 1;
        assert(fb1[w] == 1 - m.fb[w]);
        assert(draw_toggles(m.mem, m.i, vx, vy, n, w) && m.fb[w] == 0);
    }
    if exists|idx: int|
        0 <= idx < SCREEN_SIZE && #[trigger] draw_toggles(m.mem, m.i, vx, vy, n, idx) && m.fb[idx]
            == 0 {
        let w = choose|idx: int|
            0 <= idx < SCREEN_SIZE && #[trigger] draw_toggles(m.mem, m.i, vx, vy, n, idx)
                && m.fb[idx] == 0;
        assert(m.fb[w] == 0 || m.fb[w] == 1);
        assert(fb1[w] == 1);
        assert(draw_collision(fb1, m.mem, m.i, vx, vy, n));
    }
}

/// Law: a subroutine call followed by a return resumes right after the
/// call: 2nnn pushes the address of the call itself and jumps, and 00EE
/// pops it and steps two bytes past it, leaving the stack as it was.
pub proof fn lemma_call_return(m: Machine, op: u16, rnd: u8)
    requires
        machine_wf(m),
        op >> 12 == 2,
        m.stack.len() < STACK_DEPTH,
        m.pc + 2 <= u16::MAX,
    ensures
        ({
            let out1 = exec_op_spec(m, op, rnd);
            let out2 = exec_op_spec(out1->Ok_0, 0x00EE, rnd);
            &&& out1 is Ok
            &&& out1->Ok_0.pc == op_nnn(op)
            &&& out2 is Ok
            &&& out2->Ok_0.pc == m.pc + 2
            &&& out2->Ok_0.stack == m.stack
        }),
{
    assert(0x00EEu16 >> 12 == 0) by (bit_vector);
    let m1 = exec_op_spec(m, op, rnd)->Ok_0;
    assert(m1.stack.last() == m.pc);
    assert(m1.stack.drop_last() =~= m.stack);
}

/// Law: the random-mask instruction (family C) stores the random byte AND
/// the immediate; with an immediate of zero, Vx becomes zero whatever the
/// random source produced.
pub proof fn lemma_random_masking(m: Machine, op: u16, rnd: u8)
    requires
        machine_wf(m),
        op >> 12 == 0xC,
    ensures
        ({
            let x = op_x(op) as int;
            let out = exec_op_spec(m, op, rnd);
            &&& out is Ok
            &&& out->Ok_0.regs[x] == rnd & op_kk(op)
            &&& (op_kk(op) == 0 ==> out->Ok_0.regs[x] == 0)
        }),
{
    assert((op >> 8) & 0x0F < 16) by (bit_vector);
    if op_kk(op) == 0 {
        assert(rnd & 0 == 0) by (bit_vector);
    }
}

} // verus!

