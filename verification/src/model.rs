//! Mathematical model of the CHIP-8 machine.
//!
//! [`Machine`] is a ghost snapshot of the whole interpreter state, and
//! [`step_spec`] gives the exact meaning of one fetch-decode-execute step as
//! a function from a machine (plus one random byte) to either the next
//! machine or a fault.

use vstd::prelude::*;

verus! {

/// Number of addressable bytes of machine memory.
pub const MEMORY_SIZE: usize = 4096;

/// Fixed address at which program images are loaded and execution begins.
pub const PROGRAM_START: u16 = 0x200;

/// Number of general-purpose registers.
pub const NUM_REGISTERS: usize = 16;

/// Maximum number of return addresses the call stack can hold.
pub const STACK_DEPTH: usize = 16;

/// Framebuffer width in pixels.
pub const SCREEN_WIDTH: usize = 64;

/// Framebuffer height in pixels.
pub const SCREEN_HEIGHT: usize = 32;

/// Number of pixels in the framebuffer.
pub const SCREEN_SIZE: usize = 2048;

/// Number of keys on the hexadecimal keypad.
pub const NUM_KEYS: usize = 16;

/// Number of bytes in the built-in font table (16 digit sprites of 5 bytes).
pub const FONT_BYTES: usize = 80;

/// Largest program image that fits between the load origin and the end of
/// memory.
pub const MAX_PROGRAM_BYTES: usize = 3584;

/// A condition that stops a step (or a load) before it mutates any state.
///
/// Execution never silently continues past one of these: the offending call
/// reports the fault and leaves the machine exactly as it was.
#[derive(Clone, Copy, Debug, PartialEq, Eq, Structural)]
pub enum Fault {
    /// The fetched bit pattern matches no instruction of the set.
    UnknownOpcode,
    /// A call was executed while the stack already held its full depth of
    /// return addresses.
    StackOverflow,
    /// A return was executed with no return address on the stack.
    StackUnderflow,
    /// An instruction fetch or an I-relative access reached past the end of
    /// memory.
    MemoryOutOfBounds,
    /// A key-state test named a key index outside the 16-key pad.
    KeyOutOfRange,
    /// A program image too large for the memory after the load origin.
    ProgramTooLarge,
}

/// Ghost snapshot of the complete interpreter state.
#[verifier::ext_equal]
pub ghost struct Machine {
    /// The 4096 bytes of memory.
    pub mem: Seq<u8>,
    /// The 16 general-purpose registers V0..VF.
    pub regs: Seq<u8>,
    /// The 16-bit address register I.
    pub i: u16,
    /// The program counter.
    pub pc: u16,
    /// The delay timer, counting down to zero.
    pub delay: u8,
    /// The sound timer, counting down to zero.
    pub sound: u8,
    /// The active return addresses, oldest first.
    pub stack: Seq<u16>,
    /// The 64x32 framebuffer, one byte per pixel, each 0 or 1.
    pub fb: Seq<u8>,
    /// The key latch: whether each of the 16 keys is pressed.
    pub keys: Seq<bool>,
    /// Whether the framebuffer changed since the host last consumed a frame.
    pub redraw: bool,
}

/// Well-formedness of a machine snapshot: fixed sizes, pixels restricted to
/// 0 and 1, and every stacked return address small enough that returning to
/// it (two bytes further on) stays a valid fetch address.
pub open spec fn machine_wf(m: Machine) -> bool {
    &&& m.mem.len() == MEMORY_SIZE
    &&& m.regs.len() == NUM_REGISTERS
    &&& m.stack.len() <= STACK_DEPTH
    &&& (forall|j: int| 0 <= j < m.stack.len() ==> m.stack[j] < MEMORY_SIZE - 1)
    &&& m.fb.len() == SCREEN_SIZE
    &&& (forall|j: int| 0 <= j < m.fb.len() ==> m.fb[j] == 0 || m.fb[j] == 1)
    &&& m.keys.len() == NUM_KEYS
}

/// The built-in font table: 16 sprites of 5 bytes, one per hexadecimal
/// digit, with the fixed bit patterns that guest programs rely on.
pub open spec fn font_seq() -> Seq<u8> {
    seq![
        0xF0u8, 0x90, 0x90, 0x90, 0xF0, // 0
        0x20, 0x60, 0x20, 0x20, 0x70, // 1
        0xF0, 0x10, 0xF0, 0x80, 0xF0, // 2
        0xF0, 0x10, 0xF0, 0x10, 0xF0, // 3
        0x90, 0x90, 0xF0, 0x10, 0x10, // 4
        0xF0, 0x80, 0xF0, 0x10, 0xF0, // 5
        0xF0, 0x80, 0xF0, 0x90, 0xF0, // 6
        0xF0, 0x10, 0x20, 0x40, 0x40, // 7
        0xF0, 0x90, 0xF0, 0x90, 0xF0, // 8
        0xF0, 0x90, 0xF0, 0x10, 0xF0, // 9
        0xF0, 0x90, 0xF0, 0x90, 0x90, // A
        0xE0, 0x90, 0xE0, 0x90, 0xE0, // B
        0xF0, 0x80, 0x80, 0x80, 0xF0, // C
        0xE0, 0x90, 0x90, 0x90, 0xE0, // D
        0xF0, 0x80, 0xF0, 0x80, 0xF0, // E
        0xF0, 0x80, 0xF0, 0x80, 0x80, // F
    ]
}

/// Memory as it stands right after power-on and a program load: the font
/// table at the bottom, the program image at the load origin, zero bytes
/// everywhere else.
pub open spec fn loaded_memory(program: Seq<u8>) -> Seq<u8> {
    Seq::new(
        MEMORY_SIZE as nat,
        |j: int|
            if j < FONT_BYTES {
                font_seq()[j]
            } else if PROGRAM_START <= j < PROGRAM_START + program.len() {
                program[j - PROGRAM_START]
            } else {
                0u8
            },
    )
}

/// The power-on state: font-seeded memory, zeroed registers and timers,
/// empty stack, blank screen, no key pressed, program counter at the load
/// origin.
pub open spec fn initial_machine() -> Machine {
    Machine {
        mem: loaded_memory(Seq::empty()),
        regs: Seq::new(NUM_REGISTERS as nat, |j: int| 0u8),
        i: 0,
        pc: PROGRAM_START,
        delay: 0,
        sound: 0,
        stack: Seq::empty(),
        fb: Seq::new(SCREEN_SIZE as nat, |j: int| 0u8),
        keys: Seq::new(NUM_KEYS as nat, |j: int| false),
        redraw: false,
    }
}

/// The power-on state with a program image in place.
pub open spec fn loaded_machine(program: Seq<u8>) -> Machine {
    Machine { mem: loaded_memory(program), ..initial_machine() }
}

/// The 12-bit address field of an instruction word (its low three nibbles).
pub open spec fn op_nnn(op: u16) -> u16 {
    op & 0x0FFF
}

/// The first register index field of an instruction word (bits 8..12).
pub open spec fn op_x(op: u16) -> u16 {
    (op >> 8) & 0x0F
}

/// The second register index field of an instruction word (bits 4..8).
pub open spec fn op_y(op: u16) -> u16 {
    (op >> 4) & 0x0F
}

/// The low nibble of an instruction word: sprite height or sub-opcode.
pub open spec fn op_n(op: u16) -> u16 {
    op & 0x000F
}

/// The 8-bit immediate field of an instruction word (its low byte).
pub open spec fn op_kk(op: u16) -> u8 {
    (op & 0x00FF) as u8
}

/// An 8-bit value reduced modulo 256 after unbounded arithmetic.
pub open spec fn wrap8(v: int) -> u8 {
    (v % 256) as u8
}

/// A 16-bit value reduced modulo 65536 after unbounded arithmetic.
pub open spec fn wrap16(v: int) -> u16 {
    (v % 0x10000) as u16
}

/// The program counter after an ordinary instruction: two bytes on.
pub open spec fn pc_next(pc: u16) -> u16 {
    (pc + 2) as u16
}

/// The program counter after a skip instruction: four bytes on when the
/// condition holds, two otherwise.
pub open spec fn pc_skip(pc: u16, cond: bool) -> u16 {
    if cond {
        (pc + 4) as u16
    } else {
        (pc + 2) as u16
    }
}

/// Whether a sprite byte has its bit for the given column set; column 0 is
/// the most significant bit.
pub open spec fn sprite_bit(byte: u8, col: int) -> bool {
    byte & (0x80u8 >> col) != 0
}

/// The sprite row that covers a framebuffer index when drawing at (vx, vy):
/// the vertical distance, wrapped around the 32-row screen, from vy to the
/// pixel's row.
pub open spec fn toggle_row(vy: u8, idx: int) -> int {
    (idx / 64 - vy) % 32
}

/// The sprite column that covers a framebuffer index when drawing at
/// (vx, vy): the horizontal distance, wrapped around the 64-column screen,
/// from vx to the pixel's column.
pub open spec fn toggle_col(vx: u8, idx: int) -> int {
    (idx % 64 - vx) % 64
}

/// Whether drawing an n-row sprite from memory address i at (vx, vy)
/// toggles the pixel at the given framebuffer index. Each pixel is covered
/// by at most one sprite bit, since a sprite spans fewer rows and columns
/// than the screen wraps.
pub open spec fn draw_toggles(mem: Seq<u8>, i: u16, vx: u8, vy: u8, n: u16, idx: int) -> bool {
    let row = toggle_row(vy, idx);
    let col = toggle_col(vx, idx);
    &&& row < n
    &&& col < 8
    &&& sprite_bit(mem[i + row], col)
}

/// The framebuffer after a sprite draw: every covered pixel with a set
/// sprite bit is toggled (the XOR of the draw), all others keep their value.
pub open spec fn draw_fb(fb: Seq<u8>, mem: Seq<u8>, i: u16, vx: u8, vy: u8, n: u16) -> Seq<u8> {
    Seq::new(
        SCREEN_SIZE as nat,
        |idx: int|
            if draw_toggles(mem, i, vx, vy, n, idx) {
                (1 - fb[idx]) as u8
            } else {
                fb[idx]
            },
    )
}

/// Whether a sprite draw turns some previously set pixel off: the collision
/// condition that the draw reports in register VF.
pub open spec fn draw_collision(fb: Seq<u8>, mem: Seq<u8>, i: u16, vx: u8, vy: u8, n: u16) -> bool {
    exists|idx: int|
        0 <= idx < SCREEN_SIZE && #[trigger] draw_toggles(mem, i, vx, vy, n, idx) && fb[idx] == 1
}

/// Memory after a register block store: registers V0..Vx placed at
/// addresses start..start+x, the rest untouched.
pub open spec fn stored_block_memory(mem: Seq<u8>, start: int, regs: Seq<u8>, x: int) -> Seq<u8> {
    Seq::new(
        mem.len(),
        |j: int|
            if start <= j <= start + x {
                regs[j - start]
            } else {
                mem[j]
            },
    )
}

/// Registers after a block load: V0..Vx read from addresses
/// start..start+x, the higher registers untouched.
pub open spec fn loaded_block_registers(regs: Seq<u8>, mem: Seq<u8>, start: int, x: int) -> Seq<u8> {
    Seq::new(
        regs.len(),
        |j: int|
            if j <= x {
                mem[start + j]
            } else {
                regs[j]
            },
    )
}

/// The index of the lowest-numbered pressed key at or above position j, or
/// 16 when no key from j upward is pressed.
pub open spec fn first_pressed_from(keys: Seq<bool>, j: int) -> int
    decreases 16 - j,
{
    if j < 0 || j >= 16 {
        16
    } else if keys[j] {
        j
    } else {
        first_pressed_from(keys, j + 1)
    }
}

/// A blank framebuffer.
pub open spec fn blank_fb() -> Seq<u8> {
    Seq::new(SCREEN_SIZE as nat, |j: int| 0u8)
}

/// The meaning of the system instructions (top nibble 0): clear screen and
/// return; every other pattern, including the historical machine-code call,
/// is a decode fault.
pub open spec fn spec_sys(m: Machine, op: u16) -> Result<Machine, Fault> {
    if op == 0x00E0 {
        Ok(Machine { fb: blank_fb(), redraw: true, pc: pc_next(m.pc), ..m })
    } else if op == 0x00EE {
        if m.stack.len() == 0 {
            Err(Fault::StackUnderflow)
        } else {
            Ok(
                Machine {
                    pc: (m.stack.last() + 2) as u16,
                    stack: m.stack.drop_last(),
                    ..m
                },
            )
        }
    } else {
        Err(Fault::UnknownOpcode)
    }
}

/// The meaning of the register-to-register instructions (top nibble 8):
/// moves, bitwise operations, flagged add and subtract, and shifts. The
/// flag write to VF precedes the result write, so with x = 15 the result
/// wins.
pub open spec fn spec_alu(m: Machine, op: u16) -> Result<Machine, Fault> {
    let x = op_x(op) as int;
    let y = op_y(op) as int;
    let a = m.regs[x];
    let b = m.regs[y];
    let pc2 = pc_next(m.pc);
    match op_n(op) {
        0x0 => Ok(Machine { regs: m.regs.update(x, b), pc: pc2, ..m }),
        0x1 => Ok(Machine { regs: m.regs.update(x, a | b), pc: pc2, ..m }),
        0x2 => Ok(Machine { regs: m.regs.update(x, a & b), pc: pc2, ..m }),
        0x3 => Ok(Machine { regs: m.regs.update(x, a ^ b), pc: pc2, ..m }),
        0x4 => {
            let carry: u8 = if a + b > 255 {
                1
            } else {
                0
            };
            Ok(Machine { regs: m.regs.update(15, carry).update(x, wrap8(a + b)), pc: pc2, ..m })
        },
        0x5 => {
            let no_borrow: u8 = if a >= b {
                1
            } else {
                0
            };
            Ok(
                Machine {
                    regs: m.regs.update(15, no_borrow).update(x, wrap8(a - b)),
                    pc: pc2,
                    ..m
                },
            )
        },
        0x6 => Ok(
            Machine {
                regs: m.regs.update(15, (a % 2) as u8).update(x, (a / 2) as u8),
                pc: pc2,
                ..m
            },
        ),
        0x7 => {
            let no_borrow: u8 = if b >= a {
                1
            } else {
                0
            };
            Ok(
                Machine {
                    regs: m.regs.update(15, no_borrow).update(x, wrap8(b - a)),
                    pc: pc2,
                    ..m
                },
            )
        },
        0xE => Ok(
            Machine {
                regs: m.regs.update(15, (a / 128) as u8).update(x, wrap8(2 * a)),
                pc: pc2,
                ..m
            },
        ),
        _ => Err(Fault::UnknownOpcode),
    }
}

/// The meaning of the sprite draw (top nibble D): XOR the n-row sprite at
/// memory address I onto the screen at (Vx, Vy) with wrap-around, report
/// collision in VF, and mark the redraw flag. Reading past the end of
/// memory is a bounds fault, detected before any mutation.
pub open spec fn spec_draw(m: Machine, op: u16) -> Result<Machine, Fault> {
    let x = op_x(op) as int;
    let y = op_y(op) as int;
    let vx = m.regs[x];
    let vy = m.regs[y];
    let n = op_n(op);
    if n > 0 && m.i + n > MEMORY_SIZE {
        Err(Fault::MemoryOutOfBounds)
    } else {
        let vf: u8 = if draw_collision(m.fb, m.mem, m.i, vx, vy, n) {
            1
        } else {
            0
        };
        Ok(
            Machine {
                fb: draw_fb(m.fb, m.mem, m.i, vx, vy, n),
                regs: m.regs.update(15, vf),
                redraw: true,
                pc: pc_next(m.pc),
                ..m
            },
        )
    }
}

/// The meaning of the key-state skips (top nibble E): skip on pressed
/// (low byte 9E) or on released (low byte A1). A register value outside the
/// 16-key pad is a bounds fault on the key latch.
pub open spec fn spec_key(m: Machine, op: u16) -> Result<Machine, Fault> {
    let x = op_x(op) as int;
    let vx = m.regs[x];
    if op_kk(op) == 0x9E {
        if vx >= NUM_KEYS {
            Err(Fault::KeyOutOfRange)
        } else {
            Ok(Machine { pc: pc_skip(m.pc, m.keys[vx as int]), ..m })
        }
    } else if op_kk(op) == 0xA1 {
        if vx >= NUM_KEYS {
            Err(Fault::KeyOutOfRange)
        } else {
            Ok(Machine { pc: pc_skip(m.pc, !m.keys[vx as int]), ..m })
        }
    } else {
        Err(Fault::UnknownOpcode)
    }
}

/// The meaning of the miscellaneous instructions (top nibble F): timer
/// reads and writes, the key wait, address arithmetic, the font lookup, the
/// decimal conversion, and the register block transfers.
pub open spec fn spec_misc(m: Machine, op: u16) -> Result<Machine, Fault> {
    let x = op_x(op) as int;
    let vx = m.regs[x];
    let pc2 = pc_next(m.pc);
    match op_kk(op) {
        0x07 => Ok(Machine { regs: m.regs.update(x, m.delay), pc: pc2, ..m }),
        0x0A => {
            let k = first_pressed_from(m.keys, 0);
            if k == 16 {
                // No key pressed: the machine stands still and the step is
                // retried by the host until one is.
                Ok(m)
            } else {
                Ok(Machine { regs: m.regs.update(x, k as u8), pc: pc2, ..m })
            }
        },
        0x15 => Ok(Machine { delay: vx, pc: pc2, ..m }),
        0x18 => Ok(Machine { sound: vx, pc: pc2, ..m }),
        0x1E => Ok(Machine { i: wrap16(m.i + vx), pc: pc2, ..m }),
        0x29 => Ok(Machine { i: (vx * 5) as u16, pc: pc2, ..m }),
        0x33 => {
            if m.i + 3 > MEMORY_SIZE {
                Err(Fault::MemoryOutOfBounds)
            } else {
                let digits = m.mem.update(m.i as int, (vx / 100) as u8).update(
                    m.i + 1,
                    ((vx / 10) % 10) as u8,
                ).update(m.i + 2, (vx % 10) as u8);
                Ok(Machine { mem: digits, pc: pc2, ..m })
            }
        },
        0x55 => {
            if m.i + op_x(op) + 1 > MEMORY_SIZE {
                Err(Fault::MemoryOutOfBounds)
            } else {
                Ok(
                    Machine {
                        mem: stored_block_memory(m.mem, m.i as int, m.regs, op_x(op) as int),
                        pc: pc2,
                        ..m
                    },
                )
            }
        },
        0x65 => {
            if m.i + op_x(op) + 1 > MEMORY_SIZE {
                Err(Fault::MemoryOutOfBounds)
            } else {
                Ok(
                    Machine {
                        regs: loaded_block_registers(m.regs, m.mem, m.i as int, op_x(op) as int),
                        pc: pc2,
                        ..m
                    },
                )
            }
        },
        _ => Err(Fault::UnknownOpcode),
    }
}

/// The meaning of one decoded instruction word: the next machine, or the
/// fault that stops the step before it mutates anything. The random byte is
/// consulted only by the random-mask instruction (top nibble C).
pub open spec fn exec_op_spec(m: Machine, op: u16, rnd: u8) -> Result<Machine, Fault> {
    let fam = op >> 12;
    let x = op_x(op) as int;
    let y = op_y(op) as int;
    let kk = op_kk(op);
    if fam == 0x0 {
        spec_sys(m, op)
    } else if fam == 0x1 {
        Ok(Machine { pc: op_nnn(op), ..m })
    } else if fam == 0x2 {
        if m.stack.len() >= STACK_DEPTH {
            Err(Fault::StackOverflow)
        } else {
            Ok(Machine { stack: m.stack.push(m.pc), pc: op_nnn(op), ..m })
        }
    } else if fam == 0x3 {
        Ok(Machine { pc: pc_skip(m.pc, m.regs[x] == kk), ..m })
    } else if fam == 0x4 {
        Ok(Machine { pc: pc_skip(m.pc, m.regs[x] != kk), ..m })
    } else if fam == 0x5 {
        if op_n(op) == 0 {
            Ok(Machine { pc: pc_skip(m.pc, m.regs[x] == m.regs[y]), ..m })
        } else {
            Err(Fault::UnknownOpcode)
        }
    } else if fam == 0x6 {
        Ok(Machine { regs: m.regs.update(x, kk), pc: pc_next(m.pc), ..m })
    } else if fam == 0x7 {
        Ok(Machine { regs: m.regs.update(x, wrap8(m.regs[x] + kk)), pc: pc_next(m.pc), ..m })
    } else if fam == 0x8 {
        spec_alu(m, op)
    } else if fam == 0x9 {
        if op_n(op) == 0 {
            Ok(Machine { pc: pc_skip(m.pc, m.regs[x] != m.regs[y]), ..m })
        } else {
            Err(Fault::UnknownOpcode)
        }
    } else if fam == 0xA {
        Ok(Machine { i: op_nnn(op), pc: pc_next(m.pc), ..m })
    } else if fam == 0xB {
        Ok(Machine { pc: (m.regs[0] + op_nnn(op)) as u16, ..m })
    } else if fam == 0xC {
        Ok(Machine { regs: m.regs.update(x, rnd & kk), pc: pc_next(m.pc), ..m })
    } else if fam == 0xD {
        spec_draw(m, op)
    } else if fam == 0xE {
        spec_key(m, op)
    } else {
        spec_misc(m, op)
    }
}

/// The big-endian instruction word fetched at the program counter.
pub open spec fn fetched_op(m: Machine) -> u16 {
    (m.mem[m.pc as int] as u16) << 8 | m.mem[m.pc + 1] as u16
}

/// The meaning of one whole fetch-decode-execute step: fetching past the
/// end of memory is a bounds fault; otherwise the fetched word is executed.
pub open spec fn step_spec(m: Machine, rnd: u8) -> Result<Machine, Fault> {
    if m.pc + 1 >= MEMORY_SIZE {
        Err(Fault::MemoryOutOfBounds)
    } else {
        exec_op_spec(m, fetched_op(m), rnd)
    }
}

/// Whether a pixel is toggled by the part of a sprite draw handled so far:
/// the sprite rows before row r in full, plus the first c columns of row r.
pub open spec fn draw_toggles_upto(
    mem: Seq<u8>,
    i: u16,
    vx: u8,
    vy: u8,
    r: int,
    c: int,
    idx: int,
) -> bool {
    let row = toggle_row(vy, idx);
    let col = toggle_col(vx, idx);
    &&& (row < r || (row == r && col < c))
    &&& col < 8
    &&& sprite_bit(mem[i + row], col)
}

/// The framebuffer after the part of a sprite draw handled so far.
pub open spec fn draw_fb_upto(
    fb: Seq<u8>,
    mem: Seq<u8>,
    i: u16,
    vx: u8,
    vy: u8,
    r: int,
    c: int,
) -> Seq<u8> {
    Seq::new(
        SCREEN_SIZE as nat,
        |idx: int|
            if draw_toggles_upto(mem, i, vx, vy, r, c, idx) {
                (1 - fb[idx]) as u8
            } else {
                fb[idx]
            },
    )
}

/// Whether the part of a sprite draw handled so far has turned a previously
/// set pixel off.
pub open spec fn draw_coll_upto(
    fb: Seq<u8>,
    mem: Seq<u8>,
    i: u16,
    vx: u8,
    vy: u8,
    r: int,
    c: int,
) -> bool {
    exists|idx: int|
        0 <= idx < SCREEN_SIZE && #[trigger] draw_toggles_upto(mem, i, vx, vy, r, c, idx)
            && fb[idx] == 1
}

/// Wrapping a coordinate around the screen and measuring the wrapped
/// distance back from the base recovers the offset.
pub proof fn lemma_mod_shift_inverse(base: u8, off: int, m: int)
    requires
        0 < m,
        0 <= off < m,
    ensures
        ((base + off) % m - base) % m == off,
{
    let t = base as int + off;
    vstd::arithmetic::div_mod::lemma_fundamental_div_mod(t, m);
    let q = t / m;
    assert(t % m - base == off - m * q);
    assert((off - m * q) % m == off % m) by {
        vstd::arithmetic::div_mod::lemma_mod_multiples_vanish(-q, off, m);
        assert(m * (-q) == -(m * q)) by (nonlinear_arith);
    }
    vstd::arithmetic::div_mod::lemma_small_mod(off as nat, m as nat);
}

/// A screen coordinate is recovered from its wrapped distance to the base:
/// adding that distance back to the base and wrapping yields the coordinate.
pub proof fn lemma_mod_shift_forward(base: u8, p: int, m: int)
    requires
        0 < m,
        0 <= p < m,
    ensures
        (base + (p - base) % m) % m == p,
{
    let d = (p - base as int) % m;
    vstd::arithmetic::div_mod::lemma_fundamental_div_mod(p - base, m);
    let q = (p - base as int) / m;
    assert(base + d == p - m * q);
    assert((p - m * q) % m == p % m) by {
        vstd::arithmetic::div_mod::lemma_mod_multiples_vanish(-q, p, m);
        assert(m * (-q) == -(m * q)) by (nonlinear_arith);
    }
    vstd::arithmetic::div_mod::lemma_small_mod(p as nat, m as nat);
}

/// One column step of a sprite draw: the pixel written by sprite row r,
/// column c is the unique framebuffer index covered by that row and column,
/// and handling one more column extends the partial draw by exactly that
/// pixel (toggled when its sprite bit is set).
pub proof fn lemma_draw_step(fb: Seq<u8>, mem: Seq<u8>, i: u16, vx: u8, vy: u8, r: int, c: int)
    requires
        0 <= r < 32,
        0 <= c < 8,
        fb.len() == SCREEN_SIZE,
    ensures
        ({
            let idx0 = ((vy + r) % 32) * 64 + ((vx + c) % 64);
            &&& 0 <= idx0 < SCREEN_SIZE
            &&& toggle_row(vy, idx0) == r
            &&& toggle_col(vx, idx0) == c
            &&& !draw_toggles_upto(mem, i, vx, vy, r, c, idx0)
            &&& draw_fb_upto(fb, mem, i, vx, vy, r, c)[idx0] == fb[idx0]
            &&& draw_toggles_upto(mem, i, vx, vy, r, c + 1, idx0) == sprite_bit(mem[i + r], c)
            &&& (forall|idx: int|
                0 <= idx < SCREEN_SIZE && idx != idx0 ==> (draw_toggles_upto(
                    mem,
                    i,
                    vx,
                    vy,
                    r,
                    c + 1,
                    idx,
                ) <==> draw_toggles_upto(mem, i, vx, vy, r, c, idx)))
            &&& draw_fb_upto(fb, mem, i, vx, vy, r, c + 1) == (if sprite_bit(mem[i + r], c) {
                draw_fb_upto(fb, mem, i, vx, vy, r, c).update(idx0, (1 - fb[idx0]) as u8)
            } else {
                draw_fb_upto(fb, mem, i, vx, vy, r, c)
            })
            &&& draw_coll_upto(fb, mem, i, vx, vy, r, c + 1) == (draw_coll_upto(
                fb,
                mem,
                i,
                vx,
                vy,
                r,
                c,
            ) || (sprite_bit(mem[i + r], c) && fb[idx0] == 1))
        }),
{
    let pyo = (vy + r) % 32;
    let pxo = (vx + c) % 64;
    let idx0 = pyo * 64 + pxo;
    vstd::arithmetic::div_mod::lemma_mod_bound(vy + r, 32);
    vstd::arithmetic::div_mod::lemma_mod_bound(vx + c, 64);
    vstd::arithmetic::div_mod::lemma_fundamental_div_mod_converse(idx0, 64, pyo, pxo);
    lemma_mod_shift_inverse(vy, r, 32);
    lemma_mod_shift_inverse(vx, c, 64);
    assert(toggle_row(vy, idx0) == r);
    assert(toggle_col(vx, idx0) == c);
    assert forall|idx: int|
        0 <= idx < SCREEN_SIZE && idx != idx0 implies !(toggle_row(vy, idx) == r && toggle_col(
        vx,
        idx,
    ) == c) by {
        if toggle_row(vy, idx) == r && toggle_col(vx, idx) == c {
            let py = idx / 64;
            let px = idx % 64;
            vstd::arithmetic::div_mod::lemma_fundamental_div_mod(idx, 64);
            vstd::arithmetic::div_mod::lemma_mod_bound(idx, 64);
            lemma_mod_shift_forward(vy, py, 32);
            lemma_mod_shift_forward(vx, px, 64);
            assert(py == pyo && px == pxo);
            assert(idx == idx0);
        }
    }
    assert(draw_fb_upto(fb, mem, i, vx, vy, r, c)[idx0] == fb[idx0]);
    if sprite_bit(mem[i + r], c) {
        assert(draw_fb_upto(fb, mem, i, vx, vy, r, c + 1) =~= draw_fb_upto(
            fb,
            mem,
            i,
            vx,
            vy,
            r,
            c,
        ).update(idx0, (1 - fb[idx0]) as u8));
    } else {
        assert(draw_fb_upto(fb, mem, i, vx, vy, r, c + 1) =~= draw_fb_upto(
            fb,
            mem,
            i,
            vx,
            vy,
            r,
            c,
        ));
    }
    // Collision: each side of the equivalence supplies its witness.
    if draw_coll_upto(fb, mem, i, vx, vy, r, c + 1) {
        let w = choose|idx: int|
            0 <= idx < SCREEN_SIZE && #[trigger] draw_toggles_upto(mem, i, vx, vy, r, c + 1, idx)
                && fb[idx] == 1;
        if w != idx0 {
            assert(draw_toggles_upto(mem, i, vx, vy, r, c, w));
        }
    }
    if draw_coll_upto(fb, mem, i, vx, vy, r, c) {
        let w = choose|idx: int|
            0 <= idx < SCREEN_SIZE && #[trigger] draw_toggles_upto(mem, i, vx, vy, r, c, idx)
                && fb[idx] == 1;
        assert(draw_toggles_upto(mem, i, vx, vy, r, c + 1, w));
    }
    if sprite_bit(mem[i + r], c) && fb[idx0] == 1 {
        assert(draw_toggles_upto(mem, i, vx, vy, r, c + 1, idx0));
    }
}

/// Having handled all eight columns of sprite row r is the same as standing
/// at the start of row r + 1.
pub proof fn lemma_draw_row_advance(fb: Seq<u8>, mem: Seq<u8>, i: u16, vx: u8, vy: u8, r: int)
    ensures
        draw_fb_upto(fb, mem, i, vx, vy, r, 8) == draw_fb_upto(fb, mem, i, vx, vy, r + 1, 0),
        draw_coll_upto(fb, mem, i, vx, vy, r, 8) == draw_coll_upto(fb, mem, i, vx, vy, r + 1, 0),
{
    assert forall|idx: int| 0 <= idx < SCREEN_SIZE implies (draw_toggles_upto(
        mem,
        i,
        vx,
        vy,
        r,
        8,
        idx,
    ) <==> draw_toggles_upto(mem, i, vx, vy, r + 1, 0, idx)) by {}
    assert(draw_fb_upto(fb, mem, i, vx, vy, r, 8) =~= draw_fb_upto(fb, mem, i, vx, vy, r + 1, 0));
    if draw_coll_upto(fb, mem, i, vx, vy, r, 8) {
        let w = choose|idx: int|
            0 <= idx < SCREEN_SIZE && #[trigger] draw_toggles_upto(mem, i, vx, vy, r, 8, idx)
                && fb[idx] == 1;
        assert(draw_toggles_upto(mem, i, vx, vy, r + 1, 0, w));
    }
    if draw_coll_upto(fb, mem, i, vx, vy, r + 1, 0) {
        let w = choose|idx: int|
            0 <= idx < SCREEN_SIZE && #[trigger] draw_toggles_upto(mem, i, vx, vy, r + 1, 0, idx)
                && fb[idx] == 1;
        assert(draw_toggles_upto(mem, i, vx, vy, r, 8, w));
    }
}

/// A finished partial draw (all n rows, no extra columns) is the whole
/// draw: same framebuffer and same collision verdict.
pub proof fn lemma_draw_complete(fb: Seq<u8>, mem: Seq<u8>, i: u16, vx: u8, vy: u8, n: u16)
    ensures
        draw_fb_upto(fb, mem, i, vx, vy, n as int, 0) == draw_fb(fb, mem, i, vx, vy, n),
        draw_coll_upto(fb, mem, i, vx, vy, n as int, 0) == draw_collision(fb, mem, i, vx, vy, n),
{
    assert forall|idx: int| 0 <= idx < SCREEN_SIZE implies (draw_toggles_upto(
        mem,
        i,
        vx,
        vy,
        n as int,
        0,
        idx,
    ) <==> draw_toggles(mem, i, vx, vy, n, idx)) by {}
    assert(draw_fb_upto(fb, mem, i, vx, vy, n as int, 0) =~= draw_fb(fb, mem, i, vx, vy, n));
    if draw_coll_upto(fb, mem, i, vx, vy, n as int, 0) {
        let w = choose|idx: int|
            0 <= idx < SCREEN_SIZE && #[trigger] draw_toggles_upto(mem, i, vx, vy, n as int, 0, idx)
                && fb[idx] == 1;
        assert(draw_toggles(mem, i, vx, vy, n, w));
    }
    if draw_collision(fb, mem, i, vx, vy, n) {
        let w = choose|idx: int|
            0 <= idx < SCREEN_SIZE && #[trigger] draw_toggles(mem, i, vx, vy, n, idx) && fb[idx]
                == 1;
        assert(draw_toggles_upto(mem, i, vx, vy, n as int, 0, w));
    }
}

/// An untouched partial draw (no rows, no columns) leaves the framebuffer
/// as it is and has seen no collision.
pub proof fn lemma_draw_start(fb: Seq<u8>, mem: Seq<u8>, i: u16, vx: u8, vy: u8)
    requires
        fb.len() == SCREEN_SIZE,
    ensures
        draw_fb_upto(fb, mem, i, vx, vy, 0, 0) == fb,
        !draw_coll_upto(fb, mem, i, vx, vy, 0, 0),
{
    assert(draw_fb_upto(fb, mem, i, vx, vy, 0, 0) =~= fb);
}

/// Scanning the key latch from the front: a prefix of unpressed keys does
/// not change where the first pressed key is found.
pub proof fn lemma_first_pressed_prefix(keys: Seq<bool>, j: int)
    requires
        keys.len() == NUM_KEYS,
        0 <= j <= NUM_KEYS,
        forall|t: int| 0 <= t < j ==> !keys[t],
    ensures
        first_pressed_from(keys, 0) == first_pressed_from(keys, j),
    decreases j,
{
    if j > 0 {
        lemma_first_pressed_prefix(keys, j - 1);
    }
}

/// How one executable step relates to its specification: on success the new
/// machine is exactly the specified one; on a fault the reported fault is
/// exactly the specified one and the machine is untouched.
pub open spec fn step_outcome(
    pre: Machine,
    post: Machine,
    r: Result<(), Fault>,
    out: Result<Machine, Fault>,
) -> bool {
    match out {
        Ok(next) => r is Ok && post == next,
        Err(f) => r is Err && r->Err_0 == f && post == pre,
    }
}

} // verus!
