//! The machine state and the instruction executor: memory, registers, call
//! stack, timers and display, with one verified state transition per
//! fetched instruction.

use crate::decode::{decode, op_cat, op_n, op_nn, op_nnn, op_x, op_y};
use crate::display::{draw_post, sprite_collides, Display};
use crate::font::{FONT, FONT_LEN, FONT_START};
use vstd::prelude::*;

verus! {

/// Memory size in bytes: addresses run 0 to 4095.
pub const MEMORY_SIZE: usize = 4096;

/// Address at which a program image is loaded.
pub const PROGRAM_START: usize = 0x200;

/// Largest loadable program image: the memory left above PROGRAM_START.
pub const MAX_PROGRAM_SIZE: usize = 3584;

/// Fetch-decode-execute cycles run per rendered frame.
pub const INSTRUCTIONS_PER_FRAME: usize = 12;

/// The unrecoverable conditions: a malformed or unsupported program.
/// Each aborts execution immediately; there is no recovery path.
#[derive(Clone, Copy, Debug, PartialEq, Eq, Structural)]
pub enum Fatal {
    /// Return with an empty call stack.
    StackUnderflow,
    /// An unrecognized sub-opcode in the key or timer categories.
    UnknownOpcode,
    /// A computed address outside the valid memory range, a fetch from an
    /// out-of-range program counter, or a key index beyond the 16-key pad.
    OutOfBounds,
}

impl Fatal {
    /// A diagnostic phrase naming the condition.
    pub fn describe(&self) -> &'static str {
        match self {
            Fatal::StackUnderflow => "return with an empty call stack",
            Fatal::UnknownOpcode => "unrecognized instruction",
            Fatal::OutOfBounds => "address outside the valid range",
        }
    }
}

/// A snapshot of the 16-key virtual keypad: which logical keys 0x0-0xF are
/// currently held.  The machine holds no persistent key state of its own;
/// the window collaborator fills one of these each cycle.
pub struct Keypad {
    pub held: Vec<bool>,
}

impl Keypad {
    /// One flag per logical key.
    pub open spec fn wf(self) -> bool {
        self.held@.len() == 16
    }

    /// A keypad with no key held.
    pub fn new() -> (kp: Keypad)
        ensures
            kp.wf(),
            forall|k: int| 0 <= k < 16 ==> !kp.held@[k],
    {
        let mut held: Vec<bool> = Vec::new();
        let mut k: usize = 0;
        while k < 16
            invariant
                k <= 16,
                held@.len() == k,
                forall|t: int| 0 <= t < k ==> !held@[t],
            decreases 16 - k,
        {
            held.push(false);
            k += 1;
        }
        Keypad { held }
    }

    /// Records whether logical key `k` is currently held.
    pub fn set_key(&mut self, k: u8, down: bool)
        requires
            old(self).wf(),
            k < 16,
        ensures
            final(self).wf(),
            final(self).held@ == old(self).held@.update(k as int, down),
    {
        self.held[k as usize] = down;
    }
}

/// The complete machine state, owned by the frame driver and mutated only
/// by the instruction executor.
pub struct Machine {
    pub memory: Vec<u8>,
    pub registers: Vec<u8>,
    pub pc: u16,
    pub index: u16,
    pub stack: Vec<u16>,
    pub delay_timer: u8,
    pub sound_timer: u8,
    pub display: Display,
}

/// The memory is unchanged between two states.
pub open spec fn same_mem(pre: Machine, post: Machine) -> bool {
    post.memory@ == pre.memory@
}

/// The general registers are unchanged between two states.
pub open spec fn same_regs(pre: Machine, post: Machine) -> bool {
    post.registers@ == pre.registers@
}

/// The index register is unchanged between two states.
pub open spec fn same_index(pre: Machine, post: Machine) -> bool {
    post.index == pre.index
}

/// The call stack is unchanged between two states.
pub open spec fn same_stack(pre: Machine, post: Machine) -> bool {
    post.stack@ == pre.stack@
}

/// Both timers are unchanged between two states.
pub open spec fn same_timers(pre: Machine, post: Machine) -> bool {
    post.delay_timer == pre.delay_timer && post.sound_timer == pre.sound_timer
}

/// The display buffer is unchanged between two states.
pub open spec fn same_display(pre: Machine, post: Machine) -> bool {
    post.display.pixels@ == pre.display.pixels@
}

/// Everything except the registers and the program counter is unchanged.
pub open spec fn statics_same(pre: Machine, post: Machine) -> bool {
    same_mem(pre, post) && same_index(pre, post) && same_stack(pre, post) && same_timers(pre, post)
        && same_display(pre, post)
}

/// Only the program counter moved, to `pcv`.
pub open spec fn only_pc(pre: Machine, post: Machine, pcv: int) -> bool {
    statics_same(pre, post) && same_regs(pre, post) && post.pc == pcv
}

/// Only the registers and the program counter moved, the registers to
/// `regs` and the program counter to `pcv`.
pub open spec fn regs_and_pc(pre: Machine, post: Machine, regs: Seq<u8>, pcv: int) -> bool {
    statics_same(pre, post) && post.registers@ == regs && post.pc == pcv
}

/// The instruction word fetched at the current program counter: the byte
/// at PC is the high byte, the byte at PC + 1 the low byte.
pub open spec fn fetched(pre: Machine) -> u16 {
    (pre.memory@[pre.pc as int] * 256 + pre.memory@[pre.pc as int + 1]) as u16
}

impl Machine {
    /// Structural invariant: fixed memory and register file sizes, and a
    /// well-formed display.
    pub open spec fn wf(self) -> bool {
        self.memory@.len() == 4096 && self.registers@.len() == 16 && self.display.wf()
    }

    /// The machine at startup: memory zero-filled then font-seeded,
    /// registers and timers zero, stack empty, program counter at the
    /// program start, display all-OFF.
    pub fn new() -> (m: Machine)
        ensures
            m.wf(),
            forall|a: int|
                0 <= a < 4096 ==> m.memory@[a] == (if FONT_START <= a < FONT_START + FONT_LEN {
                    FONT@[a - FONT_START]
                } else {
                    0u8
                }),
            forall|t: int| 0 <= t < 16 ==> m.registers@[t] == 0u8,
            m.pc == PROGRAM_START,
            m.index == 0,
            m.stack@.len() == 0,
            m.delay_timer == 0,
            m.sound_timer == 0,
            forall|k: int| 0 <= k < 2048 ==> !m.display.pixels@[k],
    {
        let mut memory: Vec<u8> = Vec::new();
        let mut a: usize = 0;
        while a < 4096
            invariant
                a <= 4096,
                memory@.len() == a,
                forall|t: int| 0 <= t < a ==> memory@[t] == 0u8,
            decreases 4096 - a,
        {
            memory.push(0);
            a += 1;
        }
        let mut t: usize = 0;
        while t < 80
            invariant
                t <= 80,
                memory@.len() == 4096,
                forall|q: int|
                    0 <= q < 4096 ==> memory@[q] == (if FONT_START <= q < FONT_START + t {
                        FONT@[q - FONT_START]
                    } else {
                        0u8
                    }),
            decreases 80 - t,
        {
            memory[FONT_START + t] = FONT[t];
            t += 1;
        }
        let mut registers: Vec<u8> = Vec::new();
        let mut r: usize = 0;
        while r < 16
            invariant
                r <= 16,
                registers@.len() == r,
                forall|q: int| 0 <= q < r ==> registers@[q] == 0u8,
            decreases 16 - r,
        {
            registers.push(0);
            r += 1;
        }
        Machine {
            memory,
            registers,
            pc: 0x200,
            index: 0,
            stack: Vec::new(),
            delay_timer: 0,
            sound_timer: 0,
            display: Display::new(),
        }
    }

    /// Copies a program image into memory starting at PROGRAM_START.  The
    /// image must fit below the end of memory.
    pub fn load_program(&mut self, program: &Vec<u8>)
        requires
            old(self).wf(),
            program@.len() <= MAX_PROGRAM_SIZE,
        ensures
            final(self).wf(),
            forall|a: int|
                0 <= a < 4096 ==> final(self).memory@[a] == (if PROGRAM_START <= a < PROGRAM_START
                    + program@.len() {
                    program@[a - PROGRAM_START]
                } else {
                    old(self).memory@[a]
                }),
            same_regs(*old(self), *final(self)),
            same_index(*old(self), *final(self)),
            same_stack(*old(self), *final(self)),
            same_timers(*old(self), *final(self)),
            same_display(*old(self), *final(self)),
            final(self).pc == old(self).pc,
    {
        let mut t: usize = 0;
        while t < program.len()
            invariant
                t <= program@.len(),
                program@.len() <= 3584,
                self.memory@.len() == 4096,
                self.registers@ == old(self).registers@,
                self.registers@.len() == 16,
                self.display.pixels@ == old(self).display.pixels@,
                self.display.wf(),
                self.index == old(self).index,
                self.stack@ == old(self).stack@,
                self.delay_timer == old(self).delay_timer,
                self.sound_timer == old(self).sound_timer,
                self.pc == old(self).pc,
                forall|a: int|
                    0 <= a < 4096 ==> self.memory@[a] == (if PROGRAM_START <= a < PROGRAM_START
                        + t {
                        program@[a - PROGRAM_START]
                    } else {
                        old(self).memory@[a]
                    }),
            decreases program@.len() - t,
        {
            self.memory[PROGRAM_START + t] = program[t];
            t += 1;
        }
    }

    /// Decrements each timer by one if it is nonzero; a timer already at
    /// zero stays at zero.  Runs once per rendered frame.
    pub fn tick_timers(&mut self)
        ensures
            final(self).delay_timer == (if old(self).delay_timer > 0 {
                old(self).delay_timer - 1
            } else {
                0
            }),
            final(self).sound_timer == (if old(self).sound_timer > 0 {
                old(self).sound_timer - 1
            } else {
                0
            }),
            same_mem(*old(self), *final(self)),
            same_regs(*old(self), *final(self)),
            same_index(*old(self), *final(self)),
            same_stack(*old(self), *final(self)),
            same_display(*old(self), *final(self)),
            final(self).pc == old(self).pc,
    {
        if self.delay_timer > 0 {
            self.delay_timer = self.delay_timer - 1;
        }
        if self.sound_timer > 0 {
            self.sound_timer = self.sound_timer - 1;
        }
    }
}

/// The transition an instruction word `w` causes, relating the machine
/// state `pre` at fetch time (program counter still at the instruction) to
/// the state `post` after execution.  `rand` is the value the random
/// source produced for this cycle (used only by the random-byte
/// instruction), `keys` the keypad snapshot (used only by the key
/// instructions), and `r` says whether execution hit a fatal condition.
/// Mirrors the opcode table: dispatch on the category nibble, with
/// sub-dispatch on `nnn`, `n` or `nn` where a category packs several
/// opcodes.
pub open spec fn exec_rel(
    pre: Machine,
    post: Machine,
    w: u16,
    rand: u16,
    keys: Seq<bool>,
    r: Result<(), Fatal>,
) -> bool {
    let c = op_cat(w) as int;
    let x = op_x(w) as int;
    let y = op_y(w) as int;
    let n = op_n(w) as int;
    let nn = op_nn(w);
    let nnn = op_nnn(w);
    let vxb = pre.registers@[x];
    let vyb = pre.registers@[y];
    let vx = vxb as int;
    let vy = vyb as int;
    let pc2 = pre.pc as int + 2;
    let ii = pre.index as int;
    if c == 0 {
        if nnn == 0x0E0 {
            // 00E0: clear the display
            r is Ok && same_mem(pre, post) && same_regs(pre, post) && same_index(pre, post)
                && same_stack(pre, post) && same_timers(pre, post) && post.pc == pc2
                && post.display.pixels@.len() == 2048 && (forall|k: int|
                0 <= k < 2048 ==> !post.display.pixels@[k])
        } else if nnn == 0x0EE {
            // 00EE: return from subroutine; fatal if the stack is empty
            if pre.stack@.len() == 0 {
                r == Result::<(), Fatal>::Err(Fatal::StackUnderflow) && only_pc(pre, post, pc2)
            } else {
                r is Ok && same_mem(pre, post) && same_regs(pre, post) && same_index(pre, post)
                    && same_timers(pre, post) && same_display(pre, post) && post.stack@
                    == pre.stack@.drop_last() && post.pc == pre.stack@.last()
            }
        } else {
            // other 0NNN: silently ignored
            r is Ok && only_pc(pre, post, pc2)
        }
    } else if c == 1 {
        // 1NNN: jump
        r is Ok && only_pc(pre, post, nnn as int)
    } else if c == 2 {
        // 2NNN: call subroutine
        r is Ok && same_mem(pre, post) && same_regs(pre, post) && same_index(pre, post)
            && same_timers(pre, post) && same_display(pre, post) && post.stack@
            == pre.stack@.push(pc2 as u16) && post.pc == nnn
    } else if c == 3 {
        // 3XNN: skip if VX == NN
        r is Ok && only_pc(pre, post, pc2 + (if vx == nn { 2int } else { 0int }))
    } else if c == 4 {
        // 4XNN: skip if VX != NN
        r is Ok && only_pc(pre, post, pc2 + (if vx != nn { 2int } else { 0int }))
    } else if c == 5 {
        // 5XY0: skip if VX == VY
        r is Ok && only_pc(pre, post, pc2 + (if vx == vy { 2int } else { 0int }))
    } else if c == 6 {
        // 6XNN: VX := NN
        r is Ok && regs_and_pc(pre, post, pre.registers@.update(x, nn as u8), pc2)
    } else if c == 7 {
        // 7XNN: VX := VX + NN, wrapping, no flag effect
        r is Ok && regs_and_pc(pre, post, pre.registers@.update(x, ((vx + nn) % 256) as u8), pc2)
    } else if c == 8 {
        // 8XYN: register-register ALU operations
        if n == 0 {
            r is Ok && regs_and_pc(pre, post, pre.registers@.update(x, vyb), pc2)
        } else if n == 1 {
            r is Ok && regs_and_pc(pre, post, pre.registers@.update(x, vxb | vyb), pc2)
        } else if n == 2 {
            r is Ok && regs_and_pc(pre, post, pre.registers@.update(x, vxb & vyb), pc2)
        } else if n == 3 {
            r is Ok && regs_and_pc(pre, post, pre.registers@.update(x, vxb ^ vyb), pc2)
        } else if n == 4 {
            // add with carry: VF = 1 iff the true sum is at least 256
            r is Ok && regs_and_pc(
                pre,
                post,
                pre.registers@.update(15, if vx + vy >= 256 { 1u8 } else { 0u8 }).update(
                    x,
                    ((vx + vy) % 256) as u8,
                ),
                pc2,
            )
        } else if n == 5 {
            // subtract with borrow: VF = 1 iff no borrow (VX >= VY)
            r is Ok && regs_and_pc(
                pre,
                post,
                pre.registers@.update(15, if vx >= vy { 1u8 } else { 0u8 }).update(
                    x,
                    ((vx - vy) % 256) as u8,
                ),
                pc2,
            )
        } else if n == 6 {
            // shift right: VF := old VX bit 0
            r is Ok && regs_and_pc(
                pre,
                post,
                pre.registers@.update(15, vxb & 1).update(x, (vx / 2) as u8),
                pc2,
            )
        } else if n == 7 {
            // reverse subtract, into VY: VF = 1 iff no borrow (VY >= VX)
            r is Ok && regs_and_pc(
                pre,
                post,
                pre.registers@.update(15, if vy >= vx { 1u8 } else { 0u8 }).update(
                    y,
                    ((vy - vx) % 256) as u8,
                ),
                pc2,
            )
        } else if n == 0xE {
            // shift left: VF := old VX bit 7
            r is Ok && regs_and_pc(
                pre,
                post,
                pre.registers@.update(15, (vxb >> 7) & 1).update(x, ((vx * 2) % 256) as u8),
                pc2,
            )
        } else {
            // other 8XYN: silently ignored
            r is Ok && only_pc(pre, post, pc2)
        }
    } else if c == 9 {
        // 9XY0: skip if VX != VY
        r is Ok && only_pc(pre, post, pc2 + (if vx != vy { 2int } else { 0int }))
    } else if c == 0xA {
        // ANNN: I := NNN
        r is Ok && same_mem(pre, post) && same_regs(pre, post) && same_stack(pre, post)
            && same_timers(pre, post) && same_display(pre, post) && post.index == nnn && post.pc
            == pc2
    } else if c == 0xB {
        // BNNN: jump to NNN + V0
        r is Ok && only_pc(pre, post, nnn as int + pre.registers@[0])
    } else if c == 0xC {
        // CXNN: VX := random byte AND NN
        r is Ok && regs_and_pc(pre, post, pre.registers@.update(x, (rand & nn) as u8), pc2)
    } else if c == 0xD {
        // DXYN: draw an N-row sprite read from memory at I
        if n > 0 && ii + n > 4096 {
            r == Result::<(), Fatal>::Err(Fatal::OutOfBounds) && only_pc(pre, post, pc2)
        } else {
            let sx = vx % 64;
            let sy = vy % 32;
            let s = if n == 0 {
                Seq::<u8>::empty()
            } else {
                pre.memory@.subrange(ii, ii + n)
            };
            r is Ok && same_mem(pre, post) && same_index(pre, post) && same_stack(pre, post)
                && same_timers(pre, post) && post.pc == pc2 && draw_post(
                pre.display.pixels@,
                post.display.pixels@,
                sx,
                sy,
                s,
            ) && post.registers@ == pre.registers@.update(
                15,
                if sprite_collides(pre.display.pixels@, sx, sy, s) {
                    1u8
                } else {
                    0u8
                },
            )
        }
    } else if c == 0xE {
        // EX9E / EXA1: skip on key state; fatal on other sub-opcodes or a
        // key index beyond the pad
        if nn == 0x9E {
            if vx >= 16 {
                r == Result::<(), Fatal>::Err(Fatal::OutOfBounds) && only_pc(pre, post, pc2)
            } else {
                r is Ok && only_pc(pre, post, pc2 + (if keys[vx] { 2int } else { 0int }))
            }
        } else if nn == 0xA1 {
            if vx >= 16 {
                r == Result::<(), Fatal>::Err(Fatal::OutOfBounds) && only_pc(pre, post, pc2)
            } else {
                r is Ok && only_pc(pre, post, pc2 + (if !keys[vx] { 2int } else { 0int }))
            }
        } else {
            r == Result::<(), Fatal>::Err(Fatal::UnknownOpcode) && only_pc(pre, post, pc2)
        }
    } else if c == 0xF {
        if nn == 0x07 {
            // FX07: VX := delay timer
            r is Ok && regs_and_pc(pre, post, pre.registers@.update(x, pre.delay_timer), pc2)
        } else if nn == 0x15 {
            // FX15: delay timer := VX
            r is Ok && same_mem(pre, post) && same_regs(pre, post) && same_index(pre, post)
                && same_stack(pre, post) && same_display(pre, post) && post.delay_timer == vxb
                && post.sound_timer == pre.sound_timer && post.pc == pc2
        } else if nn == 0x18 {
            // FX18: sound timer := VX
            r is Ok && same_mem(pre, post) && same_regs(pre, post) && same_index(pre, post)
                && same_stack(pre, post) && same_display(pre, post) && post.sound_timer == vxb
                && post.delay_timer == pre.delay_timer && post.pc == pc2
        } else if nn == 0x1E {
            // FX1E: I := I + VX (wrapping at the 16-bit range); VF := 1 if
            // the new I leaves the 12-bit address range, else untouched
            let ni = (ii + vx) % 65536;
            r is Ok && same_mem(pre, post) && same_stack(pre, post) && same_timers(pre, post)
                && same_display(pre, post) && post.index == ni && post.pc == pc2 && (if ni >= 0x1000 {
                post.registers@ == pre.registers@.update(15, 1u8)
            } else {
                same_regs(pre, post)
            })
        } else if nn == 0x0A {
            // FX0A: wait for a key by re-executing this instruction until
            // one is held; then store the lowest-indexed held key
            if forall|k: int| 0 <= k < 16 ==> !keys[k] {
                r is Ok && only_pc(pre, post, pre.pc as int)
            } else {
                r is Ok && statics_same(pre, post) && post.pc == pc2 && (exists|v: u8|
                    v < 16 && keys[v as int] && (forall|k: int| 0 <= k < v ==> !keys[k])
                        && post.registers@ == pre.registers@.update(x, v))
            }
        } else if nn == 0x29 {
            // FX29: I := font base + VX * 5
            r is Ok && same_mem(pre, post) && same_regs(pre, post) && same_stack(pre, post)
                && same_timers(pre, post) && same_display(pre, post) && post.index == vx * 5 + 0x50
                && post.pc == pc2
        } else if nn == 0x33 {
            // FX33: the three decimal digits of VX at I, I+1, I+2
            if ii + 2 > 4095 {
                r == Result::<(), Fatal>::Err(Fatal::OutOfBounds) && only_pc(pre, post, pc2)
            } else {
                r is Ok && same_regs(pre, post) && same_index(pre, post) && same_stack(pre, post)
                    && same_timers(pre, post) && same_display(pre, post) && post.pc == pc2
                    && post.memory@ == pre.memory@.update(ii, (vx / 100) as u8).update(
                    ii + 1,
                    ((vx / 10) % 10) as u8,
                ).update(ii + 2, (vx % 10) as u8)
            }
        } else if nn == 0x55 {
            // FX55: store min(VX+1, 16) registers to memory at I
            let cnt = if vx + 1 < 16 { vx + 1 } else { 16int };
            if ii + cnt > 4096 {
                r == Result::<(), Fatal>::Err(Fatal::OutOfBounds) && only_pc(pre, post, pc2)
            } else {
                r is Ok && same_regs(pre, post) && same_index(pre, post) && same_stack(pre, post)
                    && same_timers(pre, post) && same_display(pre, post) && post.pc == pc2
                    && post.memory@.len() == 4096 && (forall|a: int|
                    0 <= a < 4096 ==> post.memory@[a] == (if ii <= a < ii + cnt {
                        pre.registers@[a - ii]
                    } else {
                        pre.memory@[a]
                    }))
            }
        } else if nn == 0x65 {
            // FX65: load min(VX+1, 16) registers from memory at I
            let cnt = if vx + 1 < 16 { vx + 1 } else { 16int };
            if ii + cnt > 4096 {
                r == Result::<(), Fatal>::Err(Fatal::OutOfBounds) && only_pc(pre, post, pc2)
            } else {
                r is Ok && same_mem(pre, post) && same_index(pre, post) && same_stack(pre, post)
                    && same_timers(pre, post) && same_display(pre, post) && post.pc == pc2
                    && post.registers@.len() == 16 && (forall|t: int|
                    0 <= t < 16 ==> post.registers@[t] == (if t < cnt {
                        pre.memory@[ii + t]
                    } else {
                        pre.registers@[t]
                    }))
            }
        } else {
            r == Result::<(), Fatal>::Err(Fatal::UnknownOpcode) && only_pc(pre, post, pc2)
        }
    } else {
        // op_cat never exceeds 15; kept for totality
        r == Result::<(), Fatal>::Err(Fatal::UnknownOpcode) && only_pc(pre, post, pc2)
    }
}

impl Machine {
    /// Runs one fetch-decode-execute cycle with an explicit random value,
    /// applying exactly one state transition as `cycle_rel` describes.
    /// The program counter is advanced past the two-byte instruction
    /// before dispatch, so jumps, calls and skips assign absolute targets.
    #[verifier::rlimit(60)]
    pub fn step_with(&mut self, keys: &Keypad, rand: u16) -> (r: Result<(), Fatal>)
        requires
            old(self).wf(),
            keys.wf(),
        ensures
            final(self).wf(),
            cycle_rel(*old(self), *final(self), rand, keys.held@, r),
    {
        if self.pc > 4094 {
            return Err(Fatal::OutOfBounds);
        }
        let pcu = self.pc as usize;
        let hi = self.memory[pcu];
        let lo = self.memory[pcu + 1];
        let w = ((hi as u16) << 8) | (lo as u16);
        proof {
            assert(((hi as u16) << 8) | (lo as u16) == (hi as u16) * 256 + (lo as u16))
                by (bit_vector);
        }
        self.pc = self.pc + 2;
        let ins = decode(w);
        let xi = ins.x as usize;
        let yi = ins.y as usize;
        match ins.category {
            0 => {
                if ins.nnn == 0x0E0 {
                    self.display.clear();
                } else if ins.nnn == 0x0EE {
                    if self.stack.len() == 0 {
                        return Err(Fatal::StackUnderflow);
                    }
                    let ret = self.stack.pop().unwrap();
                    self.pc = ret;
                }
                return Ok(());
            },
            1 => {
                self.pc = ins.nnn;
                return Ok(());
            },
            2 => {
                self.stack.push(self.pc);
                self.pc = ins.nnn;
                return Ok(());
            },
            3 => {
                if self.registers[xi] == ins.nn as u8 {
                    self.pc = self.pc + 2;
                }
                return Ok(());
            },
            4 => {
                if self.registers[xi] != ins.nn as u8 {
                    self.pc = self.pc + 2;
                }
                return Ok(());
            },
            5 => {
                if self.registers[xi] == self.registers[yi] {
                    self.pc = self.pc + 2;
                }
                return Ok(());
            },
            6 => {
                self.registers[xi] = ins.nn as u8;
                return Ok(());
            },
            7 => {
                let v = (self.registers[xi] as u16 + ins.nn) % 256;
                self.registers[xi] = v as u8;
                return Ok(());
            },
            8 => {
                let vx = self.registers[xi];
                let vy = self.registers[yi];
                match ins.n {
                    0 => {
                        self.registers[xi] = vy;
                    },
                    1 => {
                        self.registers[xi] = vx | vy;
                    },
                    2 => {
                        self.registers[xi] = vx & vy;
                    },
                    3 => {
                        self.registers[xi] = vx ^ vy;
                    },
                    4 => {
                        let sum = vx as u16 + vy as u16;
                        self.registers[15] = if sum >= 256 {
                            1
                        } else {
                            0
                        };
                        self.registers[xi] = (sum % 256) as u8;
                    },
                    5 => {
                        self.registers[15] = if vx >= vy {
                            1
                        } else {
                            0
                        };
                        let diff = (vx as u16 + 256 - vy as u16) % 256;
                        proof {
                            vstd::arithmetic::div_mod::lemma_mod_add_multiples_vanish(
                                vx as int - vy as int,
                                256,
                            );
                        }
                        self.registers[xi] = diff as u8;
                    },
                    6 => {
                        self.registers[15] = vx & 1;
                        proof {
                            assert(vx >> 1 == vx / 2) by (bit_vector);
                        }
                        self.registers[xi] = vx >> 1;
                    },
                    7 => {
                        self.registers[15] = if vy >= vx {
                            1
                        } else {
                            0
                        };
                        let diff = (vy as u16 + 256 - vx as u16) % 256;
                        proof {
                            vstd::arithmetic::div_mod::lemma_mod_add_multiples_vanish(
                                vy as int - vx as int,
                                256,
                            );
                        }
                        self.registers[yi] = diff as u8;
                    },
                    0xE => {
                        self.registers[15] = (vx >> 7) & 1;
                        let dbl = (vx as u16 * 2) % 256;
                        self.registers[xi] = dbl as u8;
                    },
                    _ => {},
                }
                return Ok(());
            },
            9 => {
                if self.registers[xi] != self.registers[yi] {
                    self.pc = self.pc + 2;
                }
                return Ok(());
            },
            0xA => {
                self.index = ins.nnn;
                return Ok(());
            },
            0xB => {
                self.pc = ins.nnn + self.registers[0] as u16;
                return Ok(());
            },
            0xC => {
                proof {
                    let nn16 = ins.nn;
                    assert(nn16 < 256 ==> (rand & nn16) < 256) by (bit_vector);
                }
                self.registers[xi] = (rand & ins.nn) as u8;
                return Ok(());
            },
            0xD => {
                let n = ins.n as usize;
                if n > 0 && self.index as usize + n > 4096 {
                    return Err(Fatal::OutOfBounds);
                }
                let vx = self.registers[xi];
                let vy = self.registers[yi];
                let sx = vx & 63;
                let sy = vy & 31;
                proof {
                    assert(vx & 63 == vx % 64 && vx % 64 < 64) by (bit_vector);
                    assert(vy & 31 == vy % 32 && vy % 32 < 32) by (bit_vector);
                }
                let ghost ii = self.index as int;
                let mut sprite: Vec<u8> = Vec::new();
                let mut t: usize = 0;
                while t < n
                    invariant
                        t <= n,
                        n <= 15,
                        sprite@.len() == t,
                        self.memory@.len() == 4096,
                        ii == self.index as int,
                        n > 0 ==> ii + n <= 4096,
                        forall|q: int| 0 <= q < t ==> sprite@[q] == self.memory@[ii + q],
                    decreases n - t,
                {
                    sprite.push(self.memory[self.index as usize + t]);
                    t += 1;
                }
                proof {
                    if n > 0 {
                        assert(sprite@ =~= self.memory@.subrange(ii, ii + n as int));
                    } else {
                        assert(sprite@ =~= Seq::<u8>::empty());
                    }
                }
                let coll = self.display.draw_sprite(sx, sy, &sprite);
                self.registers[15] = if coll {
                    1
                } else {
                    0
                };
                return Ok(());
            },
            0xE => {
                if ins.nn == 0x9E {
                    let vx = self.registers[xi];
                    if vx >= 16 {
                        return Err(Fatal::OutOfBounds);
                    }
                    if keys.held[vx as usize] {
                        self.pc = self.pc + 2;
                    }
                    return Ok(());
                } else if ins.nn == 0xA1 {
                    let vx = self.registers[xi];
                    if vx >= 16 {
                        return Err(Fatal::OutOfBounds);
                    }
                    if !keys.held[vx as usize] {
                        self.pc = self.pc + 2;
                    }
                    return Ok(());
                } else {
                    return Err(Fatal::UnknownOpcode);
                }
            },
            0xF => {
                if ins.nn == 0x07 {
                    self.registers[xi] = self.delay_timer;
                    return Ok(());
                } else if ins.nn == 0x15 {
                    self.delay_timer = self.registers[xi];
                    return Ok(());
                } else if ins.nn == 0x18 {
                    self.sound_timer = self.registers[xi];
                    return Ok(());
                } else if ins.nn == 0x1E {
                    let ni = (self.index as u32 + self.registers[xi] as u32) % 65536;
                    self.index = ni as u16;
                    if self.index >= 0x1000 {
                        self.registers[15] = 1;
                    }
                    return Ok(());
                } else if ins.nn == 0x0A {
                    let mut k: usize = 0;
                    let mut selected: usize = 16;
                    while k < 16
                        invariant
                            k <= 16,
                            selected <= 16,
                            keys.wf(),
                            selected == 16 ==> (forall|t: int| 0 <= t < k ==> !keys.held@[t]),
                            selected < 16 ==> (keys.held@[selected as int] && (forall|t: int|
                                0 <= t < selected ==> !keys.held@[t])),
                        decreases 16 - k,
                    {
                        if selected == 16 && keys.held[k] {
                            selected = k;
                        }
                        k += 1;
                    }
                    if selected == 16 {
                        self.pc = self.pc - 2;
                    } else {
                        self.registers[xi] = selected as u8;
                        proof {
                            let v = selected as u8;
                            assert(v < 16 && keys.held@[v as int] && (forall|t: int|
                                0 <= t < v ==> !keys.held@[t]) && self.registers@
                                == old(self).registers@.update(ins.x as int, v));
                        }
                    }
                    return Ok(());
                } else if ins.nn == 0x29 {
                    self.index = self.registers[xi] as u16 * 5 + 0x50;
                    return Ok(());
                } else if ins.nn == 0x33 {
                    if self.index as usize + 2 > 4095 {
                        return Err(Fatal::OutOfBounds);
                    }
                    let vx = self.registers[xi];
                    let iu = self.index as usize;
                    self.memory[iu] = vx / 100;
                    self.memory[iu + 1] = (vx / 10) % 10;
                    self.memory[iu + 2] = vx % 10;
                    return Ok(());
                } else if ins.nn == 0x55 {
                    let vx = self.registers[xi];
                    let cnt: usize = if vx as usize + 1 < 16 {
                        vx as usize + 1
                    } else {
                        16
                    };
                    if self.index as usize + cnt > 4096 {
                        return Err(Fatal::OutOfBounds);
                    }
                    let iu = self.index as usize;
                    let mut t: usize = 0;
                    while t < cnt
                        invariant
                            t <= cnt,
                            cnt <= 16,
                            iu + cnt <= 4096,
                            iu == self.index as int,
                            self.memory@.len() == 4096,
                            old(self).memory@.len() == 4096,
                            self.pc as int == old(self).pc as int + 2,
                            self.index == old(self).index,
                            self.stack@ == old(self).stack@,
                            self.delay_timer == old(self).delay_timer,
                            self.sound_timer == old(self).sound_timer,
                            self.display.pixels@ == old(self).display.pixels@,
                            self.display.wf(),
                            self.registers@.len() == 16,
                            self.registers@ == old(self).registers@,
                            forall|a: int|
                                0 <= a < 4096 ==> self.memory@[a] == (if iu <= a < iu + t {
                                    self.registers@[a - iu]
                                } else {
                                    old(self).memory@[a]
                                }),
                        decreases cnt - t,
                    {
                        self.memory[iu + t] = self.registers[t];
                        t += 1;
                    }
                    return Ok(());
                } else if ins.nn == 0x65 {
                    let vx = self.registers[xi];
                    let cnt: usize = if vx as usize + 1 < 16 {
                        vx as usize + 1
                    } else {
                        16
                    };
                    if self.index as usize + cnt > 4096 {
                        return Err(Fatal::OutOfBounds);
                    }
                    let iu = self.index as usize;
                    let mut t: usize = 0;
                    while t < cnt
                        invariant
                            t <= cnt,
                            cnt <= 16,
                            iu + cnt <= 4096,
                            iu == self.index as int,
                            self.memory@ == old(self).memory@,
                            self.pc as int == old(self).pc as int + 2,
                            self.index == old(self).index,
                            self.stack@ == old(self).stack@,
                            self.delay_timer == old(self).delay_timer,
                            self.sound_timer == old(self).sound_timer,
                            self.display.pixels@ == old(self).display.pixels@,
                            self.display.wf(),
                            self.memory@.len() == 4096,
                            old(self).registers@.len() == 16,
                            self.registers@.len() == 16,
                            forall|q: int|
                                0 <= q < 16 ==> self.registers@[q] == (if q < t {
                                    old(self).memory@[iu + q]
                                } else {
                                    old(self).registers@[q]
                                }),
                        decreases cnt - t,
                    {
                        self.registers[t] = self.memory[iu + t];
                        t += 1;
                    }
                    return Ok(());
                } else {
                    return Err(Fatal::UnknownOpcode);
                }
            },
            _ => return Err(Fatal::UnknownOpcode),
        }
    }
}

/// A successful result carries no payload: it can only be `Ok(())`.
proof fn lemma_ok_is_unit(r: Result<(), Fatal>)
    requires
        r is Ok,
    ensures
        r == Result::<(), Fatal>::Ok(()),
{
    match r {
        Result::Ok(u) => {
            assert(u == ());
            assert(r == Result::<(), Fatal>::Ok(u));
        },
        Result::Err(_) => {
            assert(false);
        },
    }
}

/// Fieldwise equality of two machine states.
pub open spec fn machine_eq(a: Machine, b: Machine) -> bool {
    same_mem(a, b) && same_regs(a, b) && same_index(a, b) && same_stack(a, b) && same_timers(a, b)
        && same_display(a, b) && b.pc == a.pc
}

/// `post` is reachable from `pre` by exactly `k` successful instruction
/// cycles under keypad snapshot `keys`, for some drawn random values.
pub open spec fn cycles_rel(pre: Machine, post: Machine, k: nat, keys: Seq<bool>) -> bool
    decreases k,
{
    if k == 0 {
        machine_eq(pre, post)
    } else {
        exists|mid: Machine, rand: u16|
            cycles_rel(pre, mid, (k - 1) as nat, keys) && cycle_rel(
                mid,
                post,
                rand,
                keys,
                Result::<(), Fatal>::Ok(()),
            )
    }
}

/// The timer decay at a frame boundary: each timer drops by one if it is
/// nonzero, and nothing else moves.
pub open spec fn tick_rel(pre: Machine, post: Machine) -> bool {
    same_mem(pre, post) && same_regs(pre, post) && same_index(pre, post) && same_stack(pre, post)
        && same_display(pre, post) && post.pc == pre.pc && post.delay_timer == (
    if pre.delay_timer > 0 {
        pre.delay_timer - 1
    } else {
        0
    }) && post.sound_timer == (if pre.sound_timer > 0 {
        pre.sound_timer - 1
    } else {
        0
    })
}

impl Machine {
    /// Runs one fetch-decode-execute cycle, drawing the value for the
    /// random-byte instruction from the process-wide random source.  Two
    /// calls on equal states may differ; whatever was drawn, the
    /// transition is the one `cycle_rel` describes for it.
    pub fn step(&mut self, keys: &Keypad) -> (r: Result<(), Fatal>)
        requires
            old(self).wf(),
            keys.wf(),
        ensures
            final(self).wf(),
            exists|rand: u16| cycle_rel(*old(self), *final(self), rand, keys.held@, r),
    {
        let rand = crate::rng::random_u16();
        let r = self.step_with(keys, rand);
        proof {
            assert(cycle_rel(*old(self), *self, rand, keys.held@, r));
        }
        r
    }

    /// Runs one rendered frame: a fixed batch of instruction cycles, then
    /// one decay step of both timers.  Stops at the first fatal condition
    /// and reports it, the state then being the faulting cycle's.
    pub fn run_frame(&mut self, keys: &Keypad) -> (r: Result<(), Fatal>)
        requires
            old(self).wf(),
            keys.wf(),
        ensures
            final(self).wf(),
            r is Ok ==> exists|mid: Machine|
                cycles_rel(
                    *old(self),
                    mid,
                    INSTRUCTIONS_PER_FRAME as nat,
                    keys.held@,
                ) && tick_rel(mid, *final(self)),
            r is Err ==> exists|k: nat, mid: Machine, rand: u16|
                k < INSTRUCTIONS_PER_FRAME && cycles_rel(*old(self), mid, k, keys.held@)
                    && cycle_rel(mid, *final(self), rand, keys.held@, r),
    {
        let mut c: usize = 0;
        while c < INSTRUCTIONS_PER_FRAME
            invariant
                self.wf(),
                keys.wf(),
                c <= INSTRUCTIONS_PER_FRAME,
                cycles_rel(*old(self), *self, c as nat, keys.held@),
            decreases INSTRUCTIONS_PER_FRAME - c,
        {
            let ghost prev = *self;
            let r = self.step(keys);
            proof {
                let rand = choose|rv: u16| cycle_rel(prev, *self, rv, keys.held@, r);
                assert(cycle_rel(prev, *self, rand, keys.held@, r));
                if r is Err {
                    assert((c as nat) < INSTRUCTIONS_PER_FRAME && cycles_rel(
                        *old(self),
                        prev,
                        c as nat,
                        keys.held@,
                    ) && cycle_rel(prev, *self, rand, keys.held@, r));
                } else {
                    lemma_ok_is_unit(r);
                    assert(cycles_rel(*old(self), *self, (c + 1) as nat, keys.held@));
                }
            }
            if r.is_err() {
                return r;
            }
            c += 1;
        }
        let ghost mid = *self;
        self.tick_timers();
        proof {
            assert(cycles_rel(*old(self), mid, INSTRUCTIONS_PER_FRAME as nat, keys.held@)
                && tick_rel(mid, *self));
        }
        Ok(())
    }
}

/// One full fetch-decode-execute cycle from `pre` to `post`: fatal if the
/// program counter cannot address a whole instruction word, otherwise the
/// transition of the fetched word.
pub open spec fn cycle_rel(
    pre: Machine,
    post: Machine,
    rand: u16,
    keys: Seq<bool>,
    r: Result<(), Fatal>,
) -> bool {
    if pre.pc > 4094 {
        r == Result::<(), Fatal>::Err(Fatal::OutOfBounds) && only_pc(pre, post, pre.pc as int)
    } else {
        exec_rel(pre, post, fetched(pre), rand, keys, r)
    }
}

/// Law: executing the same draw instruction twice in a row (the same
/// DXYN word fetched twice, with X and Y not naming the flags register,
/// the sprite in bounds, and at least one set sprite bit aimed at an OFF
/// pixel) returns every pixel to its state before the first draw and
/// leaves the flags register at 1: the second draw collides where the
/// first turned a pixel ON.
#[verifier::rlimit(60)]
pub proof fn lemma_draw_twice_executed(
    m0: Machine,
    m1: Machine,
    m2: Machine,
    rand1: u16,
    rand2: u16,
    keys: Seq<bool>,
    r1: Result<(), Fatal>,
    r2: Result<(), Fatal>,
    sx: int,
    sy: int,
    s: Seq<u8>,
)
    requires
        m0.wf(),
        m0.pc <= 4092,
        op_cat(fetched(m0)) == 0xD,
        op_x(fetched(m0)) != 15,
        op_y(fetched(m0)) != 15,
        m0.memory@[m0.pc as int + 2] == m0.memory@[m0.pc as int],
        m0.memory@[m0.pc as int + 3] == m0.memory@[m0.pc as int + 1],
        m0.index as int + op_n(fetched(m0)) as int <= 4096,
        sx == m0.registers@[op_x(fetched(m0)) as int] as int % 64,
        sy == m0.registers@[op_y(fetched(m0)) as int] as int % 32,
        s == m0.memory@.subrange(m0.index as int, m0.index as int + op_n(fetched(m0)) as int),
        cycle_rel(m0, m1, rand1, keys, r1),
        cycle_rel(m1, m2, rand2, keys, r2),
        exists|a: int, b: int|
            0 <= a < s.len() && 0 <= b < 8 && #[trigger] crate::display::sprite_bit(s[a], b)
                && !m0.display.pixels@[crate::display::pix_index(sx + b, sy + a)],
    ensures
        r1 is Ok,
        r2 is Ok,
        m2.display.pixels@ == m0.display.pixels@,
        m2.registers@[15] == 1,
{
    let w = fetched(m0);
    let x = op_x(w) as int;
    let y = op_y(w) as int;
    let n = op_n(w) as int;
    // a set bit exists, so the sprite has at least one row
    let (a0, b0) = choose|a: int, b: int|
        0 <= a < s.len() && 0 <= b < 8 && #[trigger] crate::display::sprite_bit(s[a], b)
            && !m0.display.pixels@[crate::display::pix_index(sx + b, sy + a)];
    assert(s.len() == n);
    assert(n > 0);
    assert(exec_rel(m0, m1, w, rand1, keys, r1));
    assert(r1 is Ok);
    assert(m1.pc == m0.pc as int + 2);
    assert(fetched(m1) == w);
    assert(exec_rel(m1, m2, w, rand2, keys, r2));
    // the first draw writes only the flags register, so the second draw
    // reads the same coordinates and the same sprite bytes
    assert(m1.registers@[x] == m0.registers@[x]);
    assert(m1.registers@[y] == m0.registers@[y]);
    assert(m1.memory@.subrange(m1.index as int, m1.index as int + n) == s);
    assert(r2 is Ok);
    let s1: Seq<u8> = if n == 0 {
        Seq::<u8>::empty()
    } else {
        m0.memory@.subrange(m0.index as int, m0.index as int + n)
    };
    let s2: Seq<u8> = if n == 0 {
        Seq::<u8>::empty()
    } else {
        m1.memory@.subrange(m1.index as int, m1.index as int + n)
    };
    assert(s1 == s && s2 == s);
    assert(draw_post(m0.display.pixels@, m1.display.pixels@, sx, sy, s));
    assert(draw_post(m1.display.pixels@, m2.display.pixels@, sx, sy, s));
    assert(m0.display.pixels@.len() == 2048);
    crate::display::lemma_draw_twice(
        m0.display.pixels@,
        m1.display.pixels@,
        m2.display.pixels@,
        sx,
        sy,
        s,
        crate::display::sprite_collides(m1.display.pixels@, sx, sy, s),
    );
}

/// Law: clearing the display and then executing any in-bounds draw
/// instruction (X and Y not naming the flags register) reproduces exactly
/// the sprite's bit pattern on the display and leaves the flags register
/// at 0: no collision is possible against an all-OFF buffer.
#[verifier::rlimit(60)]
pub proof fn lemma_clear_then_draw_executed(
    m0: Machine,
    m1: Machine,
    m2: Machine,
    rand1: u16,
    rand2: u16,
    keys: Seq<bool>,
    r1: Result<(), Fatal>,
    r2: Result<(), Fatal>,
    w2: u16,
    sx: int,
    sy: int,
    s: Seq<u8>,
)
    requires
        m0.wf(),
        m0.pc <= 4092,
        fetched(m0) == 0x00E0,
        w2 == (m0.memory@[m0.pc as int + 2] * 256 + m0.memory@[m0.pc as int + 3]) as u16,
        op_cat(w2) == 0xD,
        op_x(w2) != 15,
        op_y(w2) != 15,
        m0.index as int + op_n(w2) as int <= 4096,
        sx == m0.registers@[op_x(w2) as int] as int % 64,
        sy == m0.registers@[op_y(w2) as int] as int % 32,
        op_n(w2) > 0,
        s == m0.memory@.subrange(m0.index as int, m0.index as int + op_n(w2) as int),
        cycle_rel(m0, m1, rand1, keys, r1),
        cycle_rel(m1, m2, rand2, keys, r2),
    ensures
        r1 is Ok,
        r2 is Ok,
        forall|k: int|
            0 <= k < 2048 ==> m2.display.pixels@[k] == crate::display::sprite_hits(sx, sy, s, k),
        m2.registers@[15] == 0,
{
    let x = op_x(w2) as int;
    let y = op_y(w2) as int;
    let n = op_n(w2) as int;
    assert(exec_rel(m0, m1, fetched(m0), rand1, keys, r1));
    assert(r1 is Ok);
    assert(m1.pc == m0.pc as int + 2);
    assert(fetched(m1) == w2);
    assert(exec_rel(m1, m2, w2, rand2, keys, r2));
    assert(m1.registers@[x] == m0.registers@[x]);
    assert(m1.registers@[y] == m0.registers@[y]);
    assert(r2 is Ok);
    let s2: Seq<u8> = if n == 0 {
        Seq::<u8>::empty()
    } else {
        m1.memory@.subrange(m1.index as int, m1.index as int + n)
    };
    assert(s2 == s);
    assert(draw_post(m1.display.pixels@, m2.display.pixels@, sx, sy, s));
    assert(m1.display.pixels@.len() == 2048);
    crate::display::lemma_draw_on_clear(m1.display.pixels@, m2.display.pixels@, sx, sy, s);
    assert(!sprite_collides(m1.display.pixels@, sx, sy, s));
}

} // verus!
