//! The executable CHIP-8 interpreter.
//!
//! [`Chip8Emulator`] owns the whole machine state; its view is the ghost
//! [`Machine`](crate::model::Machine) and every mutating method is proved
//! against the step semantics of [`crate::model`].

use vstd::prelude::*;
use vstd::pervasive::VecAdditionalExecFns;

use crate::model::{
    Fault, Machine, machine_wf, font_seq, loaded_memory, initial_machine, loaded_machine, wrap16,
    MEMORY_SIZE, PROGRAM_START, NUM_REGISTERS, STACK_DEPTH, SCREEN_SIZE, NUM_KEYS, FONT_BYTES,
    MAX_PROGRAM_BYTES, op_x, op_n, pc_next, blank_fb,
    sprite_bit, draw_fb, draw_fb_upto, draw_coll_upto, stored_block_memory,
    loaded_block_registers, first_pressed_from, spec_sys, spec_alu, spec_draw, spec_key, spec_misc,
    exec_op_spec, fetched_op, step_spec, step_outcome, lemma_draw_start, lemma_draw_step,
    lemma_draw_row_advance, lemma_draw_complete, lemma_first_pressed_prefix,
};

verus! {

/// The interpreter: a CHIP-8 machine driven one step at a time by a host
/// that feeds key state, consumes the framebuffer, and advances the timers
/// at its own cadence.
pub struct Chip8Emulator {
    mem: Vec<u8>,
    regs: Vec<u8>,
    i: u16,
    pc: u16,
    delay: u8,
    sound: u8,
    stack: Vec<u16>,
    fb: Vec<u8>,
    keys: Vec<bool>,
    redraw: bool,
}

impl View for Chip8Emulator {
    type V = Machine;

    closed spec fn view(&self) -> Machine {
        Machine {
            mem: self.mem@,
            regs: self.regs@,
            i: self.i,
            pc: self.pc,
            delay: self.delay,
            sound: self.sound,
            stack: self.stack@,
            fb: self.fb@,
            keys: self.keys@,
            redraw: self.redraw,
        }
    }
}

/// A vector of `len` copies of `value`.
fn filled_bytes(len: usize, value: u8) -> (v: Vec<u8>)
    ensures
        v@ == Seq::new(len as nat, |j: int| value),
{
    let mut v: Vec<u8> = Vec::new();
    let mut j: usize = 0;
    while j < len
        invariant
            j <= len,
            v@ =~= Seq::new(j as nat, |t: int| value),
        decreases len - j,
    {
        v.push(value);
        j = j + 1;
    }
    proof {
        assert(v@ =~= Seq::new(len as nat, |t: int| value));
    }
    v
}

/// The built-in font table as a vector, in sprite order for digits 0..F.
fn font_table() -> (v: Vec<u8>)
    ensures
        v@ == font_seq(),
{
    let v: Vec<u8> = vec![
        0xF0, 0x90, 0x90, 0x90, 0xF0, // 0
        0x20, 0x60, 0x20, 0x20, 0x70, // 1
        0xF0, 0x10, 0xF0, 0x80, 0xF0, // 2
        0xF0, 0x10, 0xF0, 0x10, 0xF0, // 3
        0x90, 0x90, 0xF0, 0x10, 0x10, // 4
        0xF0, 0x80, 0xF0, 0x10, 0xF0, // 5
        0xF0, 0x80, 0xF0, 0x90, 0xF0, // 6
        0xF0, 0x10, 0x20, 0x40, 0x40, // 7
        0xF0, 0x90, 0xF0, 0x90, 0xF0, // 8
        0xF0, 0x90, 0xF0, 0x10, 0xF0, // 9
        0xF0, 0x90, 0xF0, 0x90, 0x90, // A
        0xE0, 0x90, 0xE0, 0x90, 0xE0, // B
        0xF0, 0x80, 0x80, 0x80, 0xF0, // C
        0xE0, 0x90, 0x90, 0x90, 0xE0, // D
        0xF0, 0x80, 0xF0, 0x80, 0xF0, // E
        0xF0, 0x80, 0xF0, 0x80, 0x80, // F
    ];
    proof {
        assert(v@ =~= font_seq());
    }
    v
}

impl Chip8Emulator {
    /// Whether the machine state is well formed; established by the
    /// constructor and preserved by every method.
    pub open spec fn wf(&self) -> bool {
        machine_wf(self@)
    }

    /// A machine in its power-on state: font table seeded at the bottom of
    /// memory, everything else zeroed, program counter at the load origin.
    pub fn new() -> (r: Self)
        ensures
            r.wf(),
            r@ == initial_machine(),
    {
        let mut mem = filled_bytes(MEMORY_SIZE, 0);
        let font = font_table();
        let mut j: usize = 0;
        while j < FONT_BYTES
            invariant
                j <= FONT_BYTES,
                mem@.len() == MEMORY_SIZE,
                font@ == font_seq(),
                forall|t: int| 0 <= t < j ==> mem@[t] == font_seq()[t],
                forall|t: int| j <= t < MEMORY_SIZE ==> mem@[t] == 0u8,
            decreases FONT_BYTES - j,
        {
            mem.set(j, font[j]);
            j = j + 1;
        }
        let r = Chip8Emulator {
            mem,
            regs: filled_bytes(NUM_REGISTERS, 0),
            i: 0,
            pc: PROGRAM_START,
            delay: 0,
            sound: 0,
            stack: Vec::new(),
            fb: filled_bytes(SCREEN_SIZE, 0),
            keys: {
                let mut keys: Vec<bool> = Vec::new();
                let mut k: usize = 0;
                while k < NUM_KEYS
                    invariant
                        k <= NUM_KEYS,
                        keys@ =~= Seq::new(k as nat, |t: int| false),
                    decreases NUM_KEYS - k,
                {
                    keys.push(false);
                    k = k + 1;
                }
                keys
            },
            redraw: false,
        };
        proof {
            assert(r@.mem =~= loaded_memory(Seq::empty()));
            assert(r@.keys =~= Seq::new(NUM_KEYS as nat, |t: int| false));
            assert(r@ =~= initial_machine());
        }
        r
    }

    /// Load a program: reset the whole machine to its power-on state with
    /// the font table in place, then copy the program image to the load
    /// origin. An image too large for memory is rejected before anything is
    /// touched.
    pub fn init(&mut self, buffer: Vec<u8>) -> (r: Result<(), Fault>)
        ensures
            buffer@.len() <= MAX_PROGRAM_BYTES ==> r is Ok && final(self)@ == loaded_machine(
                buffer@,
            ) && final(self).wf(),
            buffer@.len() > MAX_PROGRAM_BYTES ==> r == Err::<(), Fault>(Fault::ProgramTooLarge)
                && final(self)@ == old(self)@,
    {
        if buffer.len() > MAX_PROGRAM_BYTES {
            return Err(Fault::ProgramTooLarge);
        }
        let mut fresh = Chip8Emulator::new();
        let mut j: usize = 0;
        while j < buffer.len()
            invariant
                j <= buffer@.len(),
                buffer@.len() <= MAX_PROGRAM_BYTES,
                fresh@.mem.len() == MEMORY_SIZE,
                forall|t: int|
                    0 <= t < MEMORY_SIZE && !(PROGRAM_START <= t < PROGRAM_START + j)
                        ==> fresh@.mem[t] == loaded_memory(Seq::empty())[t],
                forall|t: int|
                    PROGRAM_START <= t < PROGRAM_START + j ==> fresh@.mem[t] == buffer@[t
                        - PROGRAM_START],
                fresh@.regs == initial_machine().regs,
                fresh@.i == 0u16,
                fresh@.pc == PROGRAM_START,
                fresh@.delay == 0u8,
                fresh@.sound == 0u8,
                fresh@.stack == initial_machine().stack,
                fresh@.fb == initial_machine().fb,
                fresh@.keys == initial_machine().keys,
                fresh@.redraw == false,
            decreases buffer@.len() - j,
        {
            fresh.mem.set(PROGRAM_START as usize + j, buffer[j]);
            j = j + 1;
        }
        proof {
            assert forall|t: int| 0 <= t < MEMORY_SIZE implies fresh@.mem[t] == loaded_memory(
                buffer@,
            )[t] by {
                if !(PROGRAM_START <= t < PROGRAM_START + buffer@.len()) {
                    assert(fresh@.mem[t] == loaded_memory(Seq::empty())[t]);
                }
            }
            assert(fresh@.mem =~= loaded_memory(buffer@));
            assert(fresh@ =~= loaded_machine(buffer@));
        }
        *self = fresh;
        Ok(())
    }

    /// Record a key press or release in the input latch. The engine only
    /// reads the latch; only the host writes it, through this setter.
    pub fn set_key(&mut self, index: usize, pressed: bool)
        requires
            old(self).wf(),
            index < NUM_KEYS,
        ensures
            final(self).wf(),
            final(self)@ == (Machine {
                keys: old(self)@.keys.update(index as int, pressed),
                ..old(self)@
            }),
    {
        self.keys.set(index, pressed);
    }

    /// Decrement each timer by one where it is nonzero; a timer at zero
    /// stays at zero. Called by the host at its own cadence (conventionally
    /// 60 Hz), independent of the instruction rate.
    pub fn advance_timers(&mut self)
        ensures
            final(self)@ == (Machine {
                delay: if old(self)@.delay > 0 { (old(self)@.delay - 1) as u8 } else { 0u8 },
                sound: if old(self)@.sound > 0 { (old(self)@.sound - 1) as u8 } else { 0u8 },
                ..old(self)@
            }),
            old(self).wf() ==> final(self).wf(),
    {
        if self.delay > 0 {
            self.delay = self.delay - 1;
        }
        if self.sound > 0 {
            self.sound = self.sound - 1;
        }
    }

    /// Step the program counter over one instruction, wrapping at the
    /// 16-bit boundary. A host that models the key wait as a suspension can
    /// use this to resume past the waiting instruction.
    pub fn resume_cycle(&mut self)
        ensures
            final(self)@ == (Machine { pc: wrap16(old(self)@.pc + 2), ..old(self)@ }),
            old(self).wf() ==> final(self).wf(),
    {
        self.pc = (((self.pc as u32) + 2) % 0x10000) as u16;
    }

    /// A copy of the framebuffer: 64x32 pixels in row-major order, one byte
    /// per pixel, each 0 or 1.
    pub fn get_color_array(&self) -> (r: Vec<u8>)
        ensures
            r@ == self@.fb,
    {
        let r = self.fb.clone();
        proof {
            assert forall|t: int| 0 <= t < self.fb@.len() implies r@[t] == self.fb@[t] by {
                assert(vstd::pervasive::cloned(self.fb@[t], r@[t]));
            }
            assert(r@ =~= self@.fb);
        }
        r
    }

    /// Report whether the framebuffer changed since the last consumption,
    /// and clear the flag, so that the report is true exactly once per
    /// change.
    pub fn consume_redraw_flag(&mut self) -> (r: bool)
        ensures
            r == old(self)@.redraw,
            final(self)@ == (Machine { redraw: false, ..old(self)@ }),
            old(self).wf() ==> final(self).wf(),
    {
        let r = self.redraw;
        self.redraw = false;
        r
    }

    /// The value of general-purpose register Vx.
    pub fn register(&self, index: usize) -> (r: u8)
        requires
            self.wf(),
            index < NUM_REGISTERS,
        ensures
            r == self@.regs[index as int],
    {
        self.regs[index]
    }

    /// The current program counter.
    pub fn program_counter(&self) -> (r: u16)
        ensures
            r == self@.pc,
    {
        self.pc
    }

    /// The current value of the address register I.
    pub fn index_register(&self) -> (r: u16)
        ensures
            r == self@.i,
    {
        self.i
    }

    /// The current delay timer value.
    pub fn delay_timer(&self) -> (r: u8)
        ensures
            r == self@.delay,
    {
        self.delay
    }

    /// The current sound timer value.
    pub fn sound_timer(&self) -> (r: u8)
        ensures
            r == self@.sound,
    {
        self.sound
    }

    /// The byte of machine memory at the given address.
    pub fn memory_at(&self, addr: usize) -> (r: u8)
        requires
            self.wf(),
            addr < MEMORY_SIZE,
        ensures
            r == self@.mem[addr as int],
    {
        self.mem[addr]
    }

    /// The system instructions: clear screen and return from subroutine.
    fn op_sys(&mut self, op: u16) -> (r: Result<(), Fault>)
        requires
            old(self).wf(),
            old(self)@.pc < MEMORY_SIZE - 1,
        ensures
            final(self).wf(),
            step_outcome(old(self)@, final(self)@, r, spec_sys(old(self)@, op)),
    {
        if op == 0x00E0 {
            self.fb = filled_bytes(SCREEN_SIZE, 0);
            self.redraw = true;
            self.pc = self.pc + 2;
            proof {
                assert(self@.fb =~= blank_fb());
                assert(self@ =~= Machine {
                    fb: blank_fb(),
                    redraw: true,
                    pc: pc_next(old(self)@.pc),
                    ..old(self)@
                });
            }
            Ok(())
        } else if op == 0x00EE {
            if self.stack.len() == 0 {
                return Err(Fault::StackUnderflow);
            }
            let addr = self.stack.pop().unwrap();
            self.pc = addr + 2;
            proof {
                assert(self@ =~= Machine {
                    pc: (old(self)@.stack.last() + 2) as u16,
                    stack: old(self)@.stack.drop_last(),
                    ..old(self)@
                });
            }
            Ok(())
        } else {
            Err(Fault::UnknownOpcode)
        }
    }

    /// The register-to-register instructions: moves, bitwise operations,
    /// flagged add and subtract, and shifts.
    fn op_alu(&mut self, op: u16) -> (r: Result<(), Fault>)
        requires
            old(self).wf(),
            old(self)@.pc < MEMORY_SIZE - 1,
        ensures
            final(self).wf(),
            step_outcome(old(self)@, final(self)@, r, spec_alu(old(self)@, op)),
    {
        proof {
            assert((op >> 8) & 0x0F < 16 && (op >> 4) & 0x0F < 16) by (bit_vector);
        }
        let x = ((op >> 8) & 0x0F) as usize;
        let y = ((op >> 4) & 0x0F) as usize;
        let a = self.regs[x];
        let b = self.regs[y];
        match op & 0x000F {
            0x0 => {
                self.regs.set(x, b);
            },
            0x1 => {
                self.regs.set(x, a | b);
            },
            0x2 => {
                self.regs.set(x, a & b);
            },
            0x3 => {
                self.regs.set(x, a ^ b);
            },
            0x4 => {
                let sum = a as u16 + b as u16;
                let carry: u8 = if sum > 255 {
                    1
                } else {
                    0
                };
                self.regs.set(15, carry);
                self.regs.set(x, (sum % 256) as u8);
            },
            0x5 => {
                let no_borrow: u8 = if a >= b {
                    1
                } else {
                    0
                };
                let diff = (a as u16 + 256 - b as u16) % 256;
                self.regs.set(15, no_borrow);
                self.regs.set(x, diff as u8);
                proof {
                    vstd::arithmetic::div_mod::lemma_mod_multiples_vanish(1, a - b, 256);
                }
            },
            0x6 => {
                self.regs.set(15, a % 2);
                self.regs.set(x, a / 2);
            },
            0x7 => {
                let no_borrow: u8 = if b >= a {
                    1
                } else {
                    0
                };
                let diff = (b as u16 + 256 - a as u16) % 256;
                self.regs.set(15, no_borrow);
                self.regs.set(x, diff as u8);
                proof {
                    vstd::arithmetic::div_mod::lemma_mod_multiples_vanish(1, b - a, 256);
                }
            },
            0xE => {
                self.regs.set(15, a / 128);
                self.regs.set(x, ((a as u16 * 2) % 256) as u8);
            },
            _ => {
                return Err(Fault::UnknownOpcode);
            },
        }
        self.pc = self.pc + 2;
        Ok(())
    }

    /// The sprite draw: XOR an n-row sprite from memory address I onto the
    /// screen at (Vx, Vy), wrapping at the screen edges, and report in VF
    /// whether any set pixel was turned off.
    fn op_draw(&mut self, op: u16) -> (r: Result<(), Fault>)
        requires
            old(self).wf(),
            old(self)@.pc < MEMORY_SIZE - 1,
        ensures
            final(self).wf(),
            step_outcome(old(self)@, final(self)@, r, spec_draw(old(self)@, op)),
    {
        proof {
            assert((op >> 8) & 0x0F < 16 && (op >> 4) & 0x0F < 16 && op & 0x000F < 16)
                by (bit_vector);
        }
        let x = ((op >> 8) & 0x0F) as usize;
        let y = ((op >> 4) & 0x0F) as usize;
        let n = op & 0x000F;
        let vx = self.regs[x];
        let vy = self.regs[y];
        if n > 0 && self.i as usize + n as usize > MEMORY_SIZE {
            return Err(Fault::MemoryOutOfBounds);
        }
        let ghost m0 = self@;
        let mut collision = false;
        let mut row: u16 = 0;
        proof {
            lemma_draw_start(m0.fb, m0.mem, m0.i, vx, vy);
        }
        while row < n
            invariant
                row <= n,
                n == op_n(op),
                n < 16,
                n > 0 ==> m0.i + n <= MEMORY_SIZE,
                vx == m0.regs[x as int],
                vy == m0.regs[y as int],
                x < NUM_REGISTERS,
                self.mem@ == m0.mem,
                self.regs@ == m0.regs,
                self.i == m0.i,
                self.pc == m0.pc,
                self.delay == m0.delay,
                self.sound == m0.sound,
                self.stack@ == m0.stack,
                self.keys@ == m0.keys,
                self.redraw == m0.redraw,
                machine_wf(m0),
                self.fb@ == draw_fb_upto(m0.fb, m0.mem, m0.i, vx, vy, row as int, 0),
                collision == draw_coll_upto(m0.fb, m0.mem, m0.i, vx, vy, row as int, 0),
            decreases n - row,
        {
            let byte = self.mem[self.i as usize + row as usize];
            let mut col: u16 = 0;
            while col < 8
                invariant
                    col <= 8,
                    row < n,
                    n == op_n(op),
                    n < 16,
                    m0.i + n <= MEMORY_SIZE,
                    vx == m0.regs[x as int],
                    vy == m0.regs[y as int],
                    x < NUM_REGISTERS,
                    self.mem@ == m0.mem,
                    self.regs@ == m0.regs,
                    self.i == m0.i,
                    self.pc == m0.pc,
                    self.delay == m0.delay,
                    self.sound == m0.sound,
                    self.stack@ == m0.stack,
                    self.keys@ == m0.keys,
                    self.redraw == m0.redraw,
                    machine_wf(m0),
                    byte == m0.mem[m0.i + row],
                    self.fb@ == draw_fb_upto(m0.fb, m0.mem, m0.i, vx, vy, row as int, col as int),
                    collision == draw_coll_upto(
                        m0.fb,
                        m0.mem,
                        m0.i,
                        vx,
                        vy,
                        row as int,
                        col as int,
                    ),
                decreases 8 - col,
            {
                proof {
                    lemma_draw_step(m0.fb, m0.mem, m0.i, vx, vy, row as int, col as int);
                }
                if byte & (0x80u8 >> col) != 0 {
                    proof {
                        assert(sprite_bit(m0.mem[m0.i + row], col as int));
                    }
                    let px = (vx as u16 + col) % 64;
                    let py = (vy as u16 + row) % 32;
                    let idx = (py * 64 + px) as usize;
                    proof {
                        assert(idx as int == ((vy + row as int) % 32) * 64 + ((vx + col as int)
                            % 64));
                        assert(self.fb@[idx as int] == m0.fb[idx as int]);
                    }
                    if self.fb[idx] == 1 {
                        collision = true;
                    }
                    let p = self.fb[idx];
                    self.fb.set(idx, 1 - p);
                } else {
                    proof {
                        assert(!sprite_bit(m0.mem[m0.i + row], col as int));
                    }
                }
                col = col + 1;
            }
            proof {
                lemma_draw_row_advance(m0.fb, m0.mem, m0.i, vx, vy, row as int);
            }
            row = row + 1;
        }
        proof {
            lemma_draw_complete(m0.fb, m0.mem, m0.i, vx, vy, n);
        }
        let vf: u8 = if collision {
            1
        } else {
            0
        };
        self.regs.set(15, vf);
        self.redraw = true;
        self.pc = self.pc + 2;
        proof {
            assert(self@ =~= Machine {
                fb: draw_fb(m0.fb, m0.mem, m0.i, vx, vy, n),
                regs: m0.regs.update(15, vf),
                redraw: true,
                pc: pc_next(m0.pc),
                ..m0
            });
            assert forall|j: int| 0 <= j < self@.fb.len() implies self@.fb[j] == 0 || self@.fb[j]
                == 1 by {}
        }
        Ok(())
    }

    /// The key-state skips: skip the next instruction when the key named by
    /// Vx is pressed (low byte 9E) or released (low byte A1).
    fn op_key(&mut self, op: u16) -> (r: Result<(), Fault>)
        requires
            old(self).wf(),
            old(self)@.pc < MEMORY_SIZE - 1,
        ensures
            final(self).wf(),
            step_outcome(old(self)@, final(self)@, r, spec_key(old(self)@, op)),
    {
        proof {
            assert((op >> 8) & 0x0F < 16) by (bit_vector);
        }
        let x = ((op >> 8) & 0x0F) as usize;
        let kk = #[verifier::truncate] ((op & 0x00FF) as u8);
        let vx = self.regs[x];
        if kk == 0x9E {
            if vx as usize >= NUM_KEYS {
                return Err(Fault::KeyOutOfRange);
            }
            let cond = self.keys[vx as usize];
            self.pc = if cond {
                self.pc + 4
            } else {
                self.pc + 2
            };
            Ok(())
        } else if kk == 0xA1 {
            if vx as usize >= NUM_KEYS {
                return Err(Fault::KeyOutOfRange);
            }
            let cond = !self.keys[vx as usize];
            self.pc = if cond {
                self.pc + 4
            } else {
                self.pc + 2
            };
            Ok(())
        } else {
            Err(Fault::UnknownOpcode)
        }
    }

    /// The miscellaneous instructions: timer transfers, the key wait, the
    /// address arithmetic, the font lookup, the decimal conversion, and the
    /// register block transfers.
    fn op_misc(&mut self, op: u16) -> (r: Result<(), Fault>)
        requires
            old(self).wf(),
            old(self)@.pc < MEMORY_SIZE - 1,
        ensures
            final(self).wf(),
            step_outcome(old(self)@, final(self)@, r, spec_misc(old(self)@, op)),
    {
        proof {
            assert((op >> 8) & 0x0F < 16) by (bit_vector);
        }
        let x = ((op >> 8) & 0x0F) as usize;
        let vx = self.regs[x];
        match #[verifier::truncate] ((op & 0x00FF) as u8) {
            0x07 => {
                let d = self.delay;
                self.regs.set(x, d);
                self.pc = self.pc + 2;
                Ok(())
            },
            0x0A => {
                let mut found: usize = NUM_KEYS;
                let mut k: usize = 0;
                while k < NUM_KEYS
                    invariant
                        k <= NUM_KEYS,
                        self.keys@.len() == NUM_KEYS,
                        found == NUM_KEYS || (found < k && self.keys@[found as int]
                            && forall|t: int| 0 <= t < found ==> !self.keys@[t]),
                        found == NUM_KEYS ==> forall|t: int| 0 <= t < k ==> !self.keys@[t],
                    decreases NUM_KEYS - k,
                {
                    if found == NUM_KEYS && self.keys[k] {
                        found = k;
                    }
                    k = k + 1;
                }
                proof {
                    if found == NUM_KEYS {
                        lemma_first_pressed_prefix(self.keys@, NUM_KEYS as int);
                        assert(first_pressed_from(self.keys@, 0) == 16);
                    } else {
                        lemma_first_pressed_prefix(self.keys@, found as int);
                        assert(first_pressed_from(self.keys@, 0) == found);
                    }
                }
                if found < NUM_KEYS {
                    self.regs.set(x, found as u8);
                    self.pc = self.pc + 2;
                }
                Ok(())
            },
            0x15 => {
                self.delay = vx;
                self.pc = self.pc + 2;
                Ok(())
            },
            0x18 => {
                self.sound = vx;
                self.pc = self.pc + 2;
                Ok(())
            },
            0x1E => {
                self.i = ((self.i as u32 + vx as u32) % 0x10000) as u16;
                self.pc = self.pc + 2;
                Ok(())
            },
            0x29 => {
                self.i = vx as u16 * 5;
                self.pc = self.pc + 2;
                Ok(())
            },
            0x33 => {
                if self.i as usize + 3 > MEMORY_SIZE {
                    return Err(Fault::MemoryOutOfBounds);
                }
                let i0 = self.i as usize;
                self.mem.set(i0, vx / 100);
                self.mem.set(i0 + 1, (vx / 10) % 10);
                self.mem.set(i0 + 2, vx % 10);
                self.pc = self.pc + 2;
                Ok(())
            },
            0x55 => {
                if self.i as usize + x + 1 > MEMORY_SIZE {
                    return Err(Fault::MemoryOutOfBounds);
                }
                let i0 = self.i as usize;
                let mut idx: usize = 0;
                while idx <= x
                    invariant
                        idx <= x + 1,
                        x < NUM_REGISTERS,
                        i0 == old(self)@.i,
                        i0 + x + 1 <= MEMORY_SIZE,
                        self.mem@.len() == MEMORY_SIZE,
                        self.regs@ == old(self)@.regs,
                        self.i == old(self)@.i,
                        self.pc == old(self)@.pc,
                        self.delay == old(self)@.delay,
                        self.sound == old(self)@.sound,
                        self.stack@ == old(self)@.stack,
                        self.fb@ == old(self)@.fb,
                        self.keys@ == old(self)@.keys,
                        self.redraw == old(self)@.redraw,
                        old(self).wf(),
                        forall|t: int|
                            i0 <= t < i0 + idx ==> self.mem@[t] == old(self)@.regs[t - i0],
                        forall|t: int|
                            0 <= t < MEMORY_SIZE && !(i0 <= t < i0 + idx) ==> self.mem@[t] == old(
                                self,
                            )@.mem[t],
                    decreases x + 1 - idx,
                {
                    let v = self.regs[idx];
                    self.mem.set(i0 + idx, v);
                    idx = idx + 1;
                }
                proof {
                    assert(self.mem@ =~= stored_block_memory(
                        old(self)@.mem,
                        old(self)@.i as int,
                        old(self)@.regs,
                        op_x(op) as int,
                    ));
                }
                self.pc = self.pc + 2;
                Ok(())
            },
            0x65 => {
                if self.i as usize + x + 1 > MEMORY_SIZE {
                    return Err(Fault::MemoryOutOfBounds);
                }
                let i0 = self.i as usize;
                let mut idx: usize = 0;
                while idx <= x
                    invariant
                        idx <= x + 1,
                        x < NUM_REGISTERS,
                        i0 == old(self)@.i,
                        i0 + x + 1 <= MEMORY_SIZE,
                        self.regs@.len() == NUM_REGISTERS,
                        self.mem@ == old(self)@.mem,
                        self.i == old(self)@.i,
                        self.pc == old(self)@.pc,
                        self.delay == old(self)@.delay,
                        self.sound == old(self)@.sound,
                        self.stack@ == old(self)@.stack,
                        self.fb@ == old(self)@.fb,
                        self.keys@ == old(self)@.keys,
                        self.redraw == old(self)@.redraw,
                        old(self).wf(),
                        forall|t: int| 0 <= t < idx ==> self.regs@[t] == old(self)@.mem[i0 + t],
                        forall|t: int|
                            idx <= t < NUM_REGISTERS ==> self.regs@[t] == old(self)@.regs[t],
                    decreases x + 1 - idx,
                {
                    let v = self.mem[i0 + idx];
                    self.regs.set(idx, v);
                    idx = idx + 1;
                }
                proof {
                    assert(self.regs@ =~= loaded_block_registers(
                        old(self)@.regs,
                        old(self)@.mem,
                        old(self)@.i as int,
                        op_x(op) as int,
                    ));
                }
                self.pc = self.pc + 2;
                Ok(())
            },
            _ => Err(Fault::UnknownOpcode),
        }
    }

    /// Execute one already-fetched instruction word.
    fn execute_op(&mut self, op: u16, rnd: u8) -> (r: Result<(), Fault>)
        requires
            old(self).wf(),
            old(self)@.pc < MEMORY_SIZE - 1,
        ensures
            final(self).wf(),
            step_outcome(old(self)@, final(self)@, r, exec_op_spec(old(self)@, op, rnd)),
    {
        proof {
            assert((op >> 8) & 0x0F < 16 && (op >> 4) & 0x0F < 16 && op >> 12 <= 15 && op
                & 0x0FFF <= 0x0FFF && op & 0x00FF <= 0xFF) by (bit_vector);
        }
        let x = ((op >> 8) & 0x0F) as usize;
        let y = ((op >> 4) & 0x0F) as usize;
        let nnn = op & 0x0FFF;
        let kk = #[verifier::truncate] ((op & 0x00FF) as u8);
        match op >> 12 {
            0x0 => self.op_sys(op),
            0x1 => {
                self.pc = nnn;
                Ok(())
            },
            0x2 => {
                if self.stack.len() >= STACK_DEPTH {
                    Err(Fault::StackOverflow)
                } else {
                    let pc = self.pc;
                    self.stack.push(pc);
                    self.pc = nnn;
                    Ok(())
                }
            },
            0x3 => {
                let cond = self.regs[x] == kk;
                self.pc = if cond {
                    self.pc + 4
                } else {
                    self.pc + 2
                };
                Ok(())
            },
            0x4 => {
                let cond = self.regs[x] != kk;
                self.pc = if cond {
                    self.pc + 4
                } else {
                    self.pc + 2
                };
                Ok(())
            },
            0x5 => {
                if op & 0x000F != 0 {
                    return Err(Fault::UnknownOpcode);
                }
                let cond = self.regs[x] == self.regs[y];
                self.pc = if cond {
                    self.pc + 4
                } else {
                    self.pc + 2
                };
                Ok(())
            },
            0x6 => {
                self.regs.set(x, kk);
                self.pc = self.pc + 2;
                Ok(())
            },
            0x7 => {
                let sum = (self.regs[x] as u16 + kk as u16) % 256;
                self.regs.set(x, sum as u8);
                self.pc = self.pc + 2;
                Ok(())
            },
            0x8 => self.op_alu(op),
            0x9 => {
                if op & 0x000F != 0 {
                    return Err(Fault::UnknownOpcode);
                }
                let cond = self.regs[x] != self.regs[y];
                self.pc = if cond {
                    self.pc + 4
                } else {
                    self.pc + 2
                };
                Ok(())
            },
            0xA => {
                self.i = nnn;
                self.pc = self.pc + 2;
                Ok(())
            },
            0xB => {
                self.pc = self.regs[0] as u16 + nnn;
                Ok(())
            },
            0xC => {
                self.regs.set(x, rnd & kk);
                self.pc = self.pc + 2;
                Ok(())
            },
            0xD => self.op_draw(op),
            0xE => self.op_key(op),
            _ => self.op_misc(op),
        }
    }

    /// One fetch-decode-execute step whose random byte is supplied by the
    /// caller: the fully deterministic form of the cycle. On success the
    /// machine becomes exactly the state that the step semantics give; on a
    /// fault the machine is untouched and the fault says what stopped the
    /// step.
    pub fn emulate_cycle_with_random(&mut self, rnd: u8) -> (r: Result<(), Fault>)
        requires
            old(self).wf(),
        ensures
            final(self).wf(),
            step_outcome(old(self)@, final(self)@, r, step_spec(old(self)@, rnd)),
    {
        if self.pc as usize + 1 >= MEMORY_SIZE {
            return Err(Fault::MemoryOutOfBounds);
        }
        let hi = self.mem[self.pc as usize];
        let lo = self.mem[self.pc as usize + 1];
        let op: u16 = (hi as u16) << 8 | (lo as u16);
        proof {
            assert(op == fetched_op(old(self)@));
        }
        self.execute_op(op, rnd)
    }
}

/// Relies on rand::random with the Standard distribution: an independent,
/// uniformly distributed sample (for u8, one uniform random byte). Nothing
/// usable can be promised about the value itself, so this promises nothing.
pub assume_specification<T>[ rand::random::<T> ]() -> (r: T)
    where
        rand::distributions::Standard: rand::distributions::Distribution<T>,
;

impl Chip8Emulator {
    /// One fetch-decode-execute step drawing its random byte from the
    /// process-wide random source. The machine moves exactly as the step
    /// semantics say for some byte; everything that holds for every byte --
    /// which is everything outside the random-mask instruction -- is thus
    /// pinned down.
    pub fn emulate_cycle(&mut self) -> (r: Result<(), Fault>)
        requires
            old(self).wf(),
        ensures
            final(self).wf(),
            exists|rnd: u8|
                step_outcome(old(self)@, final(self)@, r, #[trigger] step_spec(old(self)@, rnd)),
    {
        let rnd: u8 = rand::random::<u8>();
        let r = self.emulate_cycle_with_random(rnd);
        proof {
            assert(step_outcome(old(self)@, self@, r, step_spec(old(self)@, rnd)));
        }
        r
    }
}

} // verus!
