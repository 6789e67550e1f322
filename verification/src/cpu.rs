//! The CPU: registers, call stack, program counter and timers, executing one
//! decoded operation per step against the interconnect.

use vstd::arithmetic::div_mod::{
    lemma_div_denominator, lemma_div_is_ordered, lemma_fundamental_div_mod,
    lemma_mod_add_multiples_vanish, lemma_mod_bound,
};
use vstd::math::{max, min};
use vstd::prelude::*;

use crate::errors::Chip8Error;
use crate::interconnect::{
    spec_draw_collision, spec_draw_grid, Interconnect, InterconnectView, GRAPHICS_SIZE, MEM_SIZE,
    PROGRAM_START,
};
use crate::opcodes::{disassemble, opcode_wf, spec_decode, Opcode};
use crate::register::{reg_index, Reg};

verus! {

/// The CPU's architectural state: sixteen 8-bit registers, a sixteen-deep
/// call stack, the index register, the program counter, the stack depth and
/// the two countdown timers.
pub struct Cpu {
    /// The general-purpose registers, `V0` through `VF` in order.
    pub gpregs: [u8; 16],
    /// The call stack's slots; only the first `sp` hold return addresses.
    pub stack: [u16; 16],
    /// The 16-bit index register.
    pub vi: u16,
    /// The program counter.
    pub pc: u16,
    /// The stack depth: how many return addresses are on the stack.
    pub sp: usize,
    /// The delay timer.
    pub delay: u8,
    /// The sound timer.
    pub sound: u8,
}

/// A mathematical snapshot of the CPU's state.
pub struct CpuView {
    /// The general-purpose registers, `V0` through `VF` in order.
    pub regs: Seq<u8>,
    /// The call stack's slots.
    pub stack: Seq<u16>,
    /// The index register.
    pub vi: u16,
    /// The program counter.
    pub pc: u16,
    /// The stack depth.
    pub sp: int,
    /// The delay timer.
    pub delay: u8,
    /// The sound timer.
    pub sound: u8,
}

impl View for Cpu {
    type V = CpuView;

    open spec fn view(&self) -> CpuView {
        CpuView {
            regs: self.gpregs@,
            stack: self.stack@,
            vi: self.vi,
            pc: self.pc,
            sp: self.sp as int,
            delay: self.delay,
            sound: self.sound,
        }
    }
}

impl Cpu {
    /// The CPU is well formed: the stack depth never exceeds the sixteen
    /// slots.
    pub open spec fn wf(&self) -> bool {
        self.sp <= 16
    }

    /// A fresh CPU: every register, stack slot and timer zero, the program
    /// counter at the program start.
    pub fn init() -> (cpu: Self)
        ensures
            cpu.wf(),
            cpu@.regs =~= Seq::new(16, |i: int| 0u8),
            cpu@.stack =~= Seq::new(16, |i: int| 0u16),
            cpu@.vi == 0,
            cpu@.pc == PROGRAM_START,
            cpu@.sp == 0,
            cpu@.delay == 0,
            cpu@.sound == 0,
    {
        Cpu {
            gpregs: [0u8; 16],
            stack: [0u16; 16],
            vi: 0,
            pc: PROGRAM_START as u16,
            sp: 0,
            delay: 0,
            sound: 0,
        }
    }

    /// Decays both timers by up to `ticks` clock ticks, clamped at 255 per
    /// call and saturating at zero: each timer ends at
    /// `max(0, value - min(ticks, 255))` and never wraps.
    pub fn timer(&mut self, ticks: u64)
        ensures
            final(self)@.delay as int == max(0, old(self)@.delay - min(ticks as int, 255)),
            final(self)@.sound as int == max(0, old(self)@.sound - min(ticks as int, 255)),
            final(self)@.regs == old(self)@.regs,
            final(self)@.stack == old(self)@.stack,
            final(self)@.vi == old(self)@.vi,
            final(self)@.pc == old(self)@.pc,
            final(self)@.sp == old(self)@.sp,
            final(self).wf() == old(self).wf(),
    {
        let clock_ticks = if ticks > 0xFF {
            0xFFu8
        } else {
            ticks as u8
        };
        if clock_ticks >= self.delay {
            self.delay = 0;
        } else {
            self.delay = self.delay - clock_ticks;
        }
        if clock_ticks >= self.sound {
            self.sound = 0;
        } else {
            self.sound = self.sound - clock_ticks;
        }
    }
}

/// The value a register holds in a CPU snapshot.
pub open spec fn reg_val(c: CpuView, r: Reg) -> u8 {
    c.regs[reg_index(r)]
}

/// The snapshot with one register replaced.
pub open spec fn upd_reg(c: CpuView, r: Reg, v: u8) -> CpuView {
    CpuView { regs: c.regs.update(reg_index(r), v), ..c }
}

/// The flag register's encoding of a condition.
pub open spec fn flag(b: bool) -> u8 {
    if b {
        1u8
    } else {
        0u8
    }
}

/// A byte value wrapped into eight bits.
pub open spec fn wrap8(v: int) -> u8 {
    (v % 256) as u8
}

/// A halfword value wrapped into sixteen bits.
pub open spec fn wrap16(v: int) -> u16 {
    (v % 0x10000) as u16
}

/// Memory with the bytes of `vals` written at consecutive addresses
/// starting at `base`.
pub open spec fn write_span(mem: Seq<u8>, base: int, vals: Seq<u8>) -> Seq<u8> {
    Seq::new(mem.len(), |j: int| if base <= j < base + vals.len() { vals[j - base] } else { mem[j] })
}

/// What executing one operation does: the CPU and interconnect snapshots
/// after the step and its outcome, from the snapshots before it and, for
/// the random-byte operation alone, the byte the generator supplied. The
/// program counter has already been advanced past the instruction, so
/// jump, call and return targets are absolute, and the blocking key read
/// retries by stepping it back.
#[verifier::opaque]
pub open spec fn step_model(c: CpuView, m: InterconnectView, op: Opcode, rnd: u8) -> (
    CpuView,
    InterconnectView,
    Result<(), Chip8Error>,
) {
    match op {
        Opcode::ClearScreen => (
            c,
            InterconnectView { screen: Seq::new(GRAPHICS_SIZE as nat, |i: int| false), ..m },
            Ok(()),
        ),
        Opcode::Return => if c.sp == 0 {
            (c, m, Err(Chip8Error::StackUnderflow))
        } else {
            (CpuView { pc: c.stack[c.sp - 1], sp: c.sp - 1, ..c }, m, Ok(()))
        },
        Opcode::SysAddr(addr) => (c, m, Err(Chip8Error::UnsupportedSystemCall(addr))),
        Opcode::JumpAddr(addr) => (CpuView { pc: addr, ..c }, m, Ok(())),
        Opcode::CallAddr(addr) => if c.sp == 16 {
            (c, m, Err(Chip8Error::StackOverflow))
        } else {
            (
                CpuView { stack: c.stack.update(c.sp, c.pc), sp: c.sp + 1, pc: addr, ..c },
                m,
                Ok(()),
            )
        },
        Opcode::SkipEqByte(x, byte) => if reg_val(c, x) == byte {
            (CpuView { pc: (c.pc + 2) as u16, ..c }, m, Ok(()))
        } else {
            (c, m, Ok(()))
        },
        Opcode::SkipNEqByte(x, byte) => if reg_val(c, x) != byte {
            (CpuView { pc: (c.pc + 2) as u16, ..c }, m, Ok(()))
        } else {
            (c, m, Ok(()))
        },
        Opcode::SkipEqReg(x, y) => if reg_val(c, x) == reg_val(c, y) {
            (CpuView { pc: (c.pc + 2) as u16, ..c }, m, Ok(()))
        } else {
            (c, m, Ok(()))
        },
        Opcode::LoadByte(x, byte) => (upd_reg(c, x, byte), m, Ok(())),
        Opcode::AddByte(x, byte) => (
            upd_reg(c, x, wrap8(reg_val(c, x) + byte)),
            m,
            Ok(()),
        ),
        Opcode::LoadReg(x, y) => (upd_reg(c, x, reg_val(c, y)), m, Ok(())),
        Opcode::BitOr(x, y) => (upd_reg(c, x, reg_val(c, x) | reg_val(c, y)), m, Ok(())),
        Opcode::BitAnd(x, y) => (upd_reg(c, x, reg_val(c, x) & reg_val(c, y)), m, Ok(())),
        Opcode::BitXor(x, y) => (upd_reg(c, x, reg_val(c, x) ^ reg_val(c, y)), m, Ok(())),
        Opcode::MathAdd(x, y) => (
            upd_reg(
                upd_reg(c, x, wrap8(reg_val(c, x) + reg_val(c, y))),
                Reg::VF,
                flag(reg_val(c, x) + reg_val(c, y) > 255),
            ),
            m,
            Ok(()),
        ),
        Opcode::MathSub(x, y) => (
            upd_reg(
                upd_reg(c, x, wrap8(reg_val(c, x) - reg_val(c, y))),
                Reg::VF,
                flag(reg_val(c, x) >= reg_val(c, y)),
            ),
            m,
            Ok(()),
        ),
        Opcode::ShiftRight(x, _) => {
            let c1 = upd_reg(c, Reg::VF, reg_val(c, x) & 1);
            (upd_reg(c1, x, reg_val(c1, x) >> 1), m, Ok(()))
        },
        Opcode::MathSubN(x, y) => (
            upd_reg(
                upd_reg(c, x, wrap8(reg_val(c, y) - reg_val(c, x))),
                Reg::VF,
                flag(reg_val(c, y) >= reg_val(c, x)),
            ),
            m,
            Ok(()),
        ),
        Opcode::ShiftLeft(x, _) => {
            let c1 = upd_reg(c, Reg::VF, (reg_val(c, x) >> 7) & 1);
            (upd_reg(c1, x, wrap8(reg_val(c1, x) * 2)), m, Ok(()))
        },
        Opcode::SkipNEqReg(x, y) => if reg_val(c, x) != reg_val(c, y) {
            (CpuView { pc: (c.pc + 2) as u16, ..c }, m, Ok(()))
        } else {
            (c, m, Ok(()))
        },
        Opcode::MemLoad(addr) => (CpuView { vi: addr, ..c }, m, Ok(())),
        Opcode::JumpAddV0(addr) => (
            CpuView { pc: (addr + reg_val(c, Reg::V0)) as u16, ..c },
            m,
            Ok(()),
        ),
        Opcode::Rand(x, byte) => (upd_reg(c, x, rnd & byte), m, Ok(())),
        Opcode::Draw(x, y, n) => if c.vi + n > MEM_SIZE {
            (c, m, Err(Chip8Error::OutOfBoundsAccess(c.vi)))
        } else {
            let sprite = m.mem.subrange(c.vi as int, c.vi + n);
            let collision = spec_draw_collision(
                m.screen,
                sprite,
                reg_val(c, x) as int,
                reg_val(c, y) as int,
            );
            (
                upd_reg(c, Reg::VF, flag(collision)),
                InterconnectView {
                    screen: spec_draw_grid(
                        m.screen,
                        sprite,
                        reg_val(c, x) as int,
                        reg_val(c, y) as int,
                    ),
                    ..m
                },
                Ok(()),
            )
        },
        Opcode::KeyEqSkip(x) => if reg_val(c, x) >= 16 {
            (c, m, Err(Chip8Error::OutOfBoundsAccess(reg_val(c, x) as u16)))
        } else if m.keys[reg_val(c, x) as int] {
            (CpuView { pc: (c.pc + 2) as u16, ..c }, m, Ok(()))
        } else {
            (c, m, Ok(()))
        },
        Opcode::KeyNEqSkip(x) => if reg_val(c, x) >= 16 {
            (c, m, Err(Chip8Error::OutOfBoundsAccess(reg_val(c, x) as u16)))
        } else if !m.keys[reg_val(c, x) as int] {
            (CpuView { pc: (c.pc + 2) as u16, ..c }, m, Ok(()))
        } else {
            (c, m, Ok(()))
        },
        Opcode::DelayGet(x) => (upd_reg(c, x, c.delay), m, Ok(())),
        Opcode::KeyGet(x) => match m.pending {
            Some(k) => (
                upd_reg(c, x, k),
                InterconnectView { pending: None, ..m },
                Ok(()),
            ),
            None => (CpuView { pc: (c.pc - 2) as u16, ..c }, m, Ok(())),
        },
        Opcode::DelaySet(x) => (CpuView { delay: reg_val(c, x), ..c }, m, Ok(())),
        Opcode::SoundSet(x) => (CpuView { sound: reg_val(c, x), ..c }, m, Ok(())),
        Opcode::MemAdd(x) => (
            CpuView { vi: wrap16(c.vi + reg_val(c, x)), ..c },
            m,
            Ok(()),
        ),
        Opcode::MemSprite(x) => (
            CpuView { vi: (5 * reg_val(c, x)) as u16, ..c },
            m,
            Ok(()),
        ),
        Opcode::BCD(x) => if c.vi + 2 >= MEM_SIZE {
            (c, m, Err(Chip8Error::OutOfBoundsAccess(c.vi)))
        } else {
            let v = reg_val(c, x) as int;
            (
                c,
                InterconnectView {
                    mem: m.mem.update(c.vi as int, (v / 100) as u8).update(
                        c.vi + 1,
                        ((v / 10) % 10) as u8,
                    ).update(c.vi + 2, (v % 10) as u8),
                    ..m
                },
                Ok(()),
            )
        },
        Opcode::RegDump(x) => if c.vi + reg_index(x) >= MEM_SIZE {
            (c, m, Err(Chip8Error::OutOfBoundsAccess(c.vi)))
        } else {
            (
                c,
                InterconnectView {
                    mem: write_span(m.mem, c.vi as int, c.regs.take(reg_index(x) + 1)),
                    ..m
                },
                Ok(()),
            )
        },
        Opcode::RegLoad(x) => if c.vi + reg_index(x) >= MEM_SIZE {
            (c, m, Err(Chip8Error::OutOfBoundsAccess(c.vi)))
        } else {
            (
                CpuView {
                    regs: Seq::new(
                        16,
                        |i: int|
                            if 0 <= i <= reg_index(x) {
                                m.mem[c.vi + i]
                            } else {
                                c.regs[i]
                            },
                    ),
                    ..c
                },
                m,
                Ok(()),
            )
        },
    }
}

/// Whether an operation belongs to the screen-clearing, flow control and the conditional skips group.
pub open spec fn is_control_op(op: Opcode) -> bool {
    op is ClearScreen || op is Return || op is SysAddr || op is JumpAddr || op is CallAddr || op is SkipEqByte || op is SkipNEqByte || op is SkipEqReg || op is SkipNEqReg
}

/// Whether an operation belongs to the register loads and byte and two-register arithmetic and logic group.
pub open spec fn is_alu_op(op: Opcode) -> bool {
    op is LoadByte || op is AddByte || op is LoadReg || op is BitOr || op is BitAnd || op is BitXor || op is MathAdd || op is MathSub || op is MathSubN
}

/// Whether an operation belongs to the shifts, the index register, random bytes and sprite drawing group.
pub open spec fn is_bits_mem_op(op: Opcode) -> bool {
    op is ShiftRight || op is ShiftLeft || op is MemLoad || op is JumpAddV0 || op is Rand || op is Draw || op is MemAdd || op is MemSprite
}

/// Whether an operation belongs to the keypad queries, timers and the memory block transfers group.
pub open spec fn is_io_op(op: Opcode) -> bool {
    op is KeyEqSkip || op is KeyNEqSkip || op is DelayGet || op is KeyGet || op is DelaySet || op is SoundSet || op is BCD || op is RegDump || op is RegLoad
}

/// Eight-bit addition that wraps around.
fn wrap_add8(a: u8, b: u8) -> (r: u8)
    ensures
        r == wrap8(a as int + b as int),
{
    let sum = a as u16 + b as u16;
    let r = (sum % 256) as u8;
    assert(r == wrap8(a as int + b as int)) by (bit_vector)
        requires
            sum == a as u16 + b as u16 && r == (sum % 256) as u8,
    ;
    r
}

/// Eight-bit subtraction that wraps around.
fn wrap_sub8(a: u8, b: u8) -> (r: u8)
    ensures
        r == wrap8(a as int - b as int),
{
    let diff = a as u16 + 256 - b as u16;
    let r = (diff % 256) as u8;
    proof {
        lemma_mod_add_multiples_vanish(a as int - b as int, 256);
        lemma_mod_bound(a as int - b as int, 256);
    }
    r
}

/// Sixteen-bit addition that wraps around.
fn wrap_add16(a: u16, b: u16) -> (r: u16)
    ensures
        r == wrap16(a as int + b as int),
{
    let sum = a as u32 + b as u32;
    let r = (sum % 0x10000) as u16;
    assert(r == wrap16(a as int + b as int)) by (bit_vector)
        requires
            sum == a as u32 + b as u32 && r == (sum % 0x10000) as u16,
    ;
    r
}

impl Cpu {
    /// The value a general-purpose register holds.
    pub fn get_reg(&self, r: Reg) -> (v: u8)
        ensures
            v == reg_val(self@, r),
    {
        self.gpregs[r.index()]
    }

    /// Replaces the value of a general-purpose register.
    pub fn set_reg(&mut self, r: Reg, v: u8)
        ensures
            final(self)@ == upd_reg(old(self)@, r, v),
            final(self).wf() == old(self).wf(),
    {
        let i = r.index();
        self.gpregs[i] = v;
    }

    /// Copies registers `V0` through `x` to consecutive memory cells
    /// starting at the index register, or fails when they would run past the
    /// extent.
    #[allow(unused_variables)]
    fn op_reg_dump(&mut self, x: Reg, interconnect: &mut Interconnect, rand_byte: u8) -> (r: Result<
        (),
        Chip8Error,
    >)
        requires
            old(self).wf(),
            old(interconnect).wf(),
        ensures
            final(self).wf(),
            final(interconnect).wf(),
            (final(self)@, final(interconnect)@, r) == step_model(
                old(self)@,
                old(interconnect)@,
                Opcode::RegDump(x),
                rand_byte,
            ),
    {
        let ghost c0 = self@;
        let ghost m0 = interconnect@;
        proof {
            reveal(step_model);
        }

        let x_idx = x.index();
        if self.vi as usize + x_idx >= MEM_SIZE {
            return Err(Chip8Error::OutOfBoundsAccess(self.vi));
        }
        let mut i: usize = 0;
        while i <= x_idx
            invariant
                self@ == c0,
                self.wf(),
                interconnect.wf(),
                x_idx == reg_index(x),
                x_idx < 16,
                i <= x_idx + 1,
                self.vi as int + x_idx < MEM_SIZE,
                interconnect.mem().len() == MEM_SIZE,
                interconnect.screen() == m0.screen,
                interconnect.held_keys() == m0.keys,
                interconnect.pending_key() == m0.pending,
                forall|j: int|
                    self.vi as int <= j < self.vi as int + i ==> interconnect.mem()[j]
                        == c0.regs[j - self.vi as int],
                forall|j: int|
                    0 <= j < MEM_SIZE && !(self.vi as int <= j < self.vi as int + i)
                        ==> interconnect.mem()[j] == m0.mem[j],
            decreases x_idx + 1 - i,
        {
            let v = self.gpregs[i];
            interconnect.write_byte(self.vi + i as u16, v);
            i += 1;
        }
        proof {
            let n = reg_index(x) + 1;
            assert forall|j: int| 0 <= j < MEM_SIZE implies interconnect.mem()[j]
                == write_span(m0.mem, c0.vi as int, c0.regs.take(n))[j] by {
                if c0.vi as int <= j < c0.vi as int + n {
                    assert(interconnect.mem()[j] == c0.regs[j - c0.vi as int]);
                    assert(c0.regs.take(n)[j - c0.vi as int] == c0.regs[j - c0.vi
                        as int]);
                }
            }
            assert(interconnect.mem() =~= write_span(
                m0.mem,
                c0.vi as int,
                c0.regs.take(n),
            ));
        }
        Ok(())
    }

    /// Fills registers `V0` through `x` from consecutive memory cells
    /// starting at the index register, or fails when they would run past the
    /// extent.
    #[allow(unused_variables)]
    fn op_reg_load(&mut self, x: Reg, interconnect: &mut Interconnect, rand_byte: u8) -> (r: Result<
        (),
        Chip8Error,
    >)
        requires
            old(self).wf(),
            old(interconnect).wf(),
        ensures
            final(self).wf(),
            final(interconnect).wf(),
            (final(self)@, final(interconnect)@, r) == step_model(
                old(self)@,
                old(interconnect)@,
                Opcode::RegLoad(x),
                rand_byte,
            ),
    {
        let ghost c0 = self@;
        let ghost m0 = interconnect@;
        proof {
            reveal(step_model);
        }

        let x_idx = x.index();
        if self.vi as usize + x_idx >= MEM_SIZE {
            return Err(Chip8Error::OutOfBoundsAccess(self.vi));
        }
        let mut i: usize = 0;
        while i <= x_idx
            invariant
                self.wf(),
                interconnect.wf(),
                interconnect@ == m0,
                x_idx == reg_index(x),
                x_idx < 16,
                i <= x_idx + 1,
                self.vi == c0.vi,
                self.stack@ == c0.stack,
                self.pc == c0.pc,
                self.sp as int == c0.sp,
                self.delay == c0.delay,
                self.sound == c0.sound,
                self.vi as int + x_idx < MEM_SIZE,
                forall|j: int| 0 <= j < i ==> self.gpregs@[j] == m0.mem[c0.vi + j],
                forall|j: int| i <= j < 16 ==> self.gpregs@[j] == c0.regs[j],
            decreases x_idx + 1 - i,
        {
            let v = interconnect.read_byte(self.vi + i as u16);
            self.gpregs[i] = v;
            proof {
                assert(self.gpregs@[i as int] == v);
                assert(v == m0.mem[c0.vi + i]);
            }
            i += 1;
        }
        proof {
            assert(self.gpregs@ =~= Seq::new(
                16,
                |j: int|
                    if 0 <= j <= reg_index(x) {
                        m0.mem[c0.vi + j]
                    } else {
                        c0.regs[j]
                    },
            ));
        }
        Ok(())
    }

    /// One step of the `ClearScreen` operation, as `step_model` describes.
    #[allow(unused_variables)]
    fn op_clear_screen(&mut self, interconnect: &mut Interconnect, rand_byte: u8) -> (r: Result<
        (),
        Chip8Error,
    >)
        requires
            old(self).wf(),
            old(interconnect).wf(),
        ensures
            final(self).wf(),
            final(interconnect).wf(),
            (final(self)@, final(interconnect)@, r) == step_model(
                old(self)@,
                old(interconnect)@,
                Opcode::ClearScreen,
                rand_byte,
            ),
    {
        let ghost c0 = self@;
        let ghost m0 = interconnect@;
        proof {
            reveal(step_model);
        }
        interconnect.clear_sceen();
        Ok(())
    }

    /// One step of the `MathAdd` operation, as `step_model` describes.
    #[allow(unused_variables)]
    fn op_math_add(&mut self, x: Reg, y: Reg, interconnect: &mut Interconnect, rand_byte: u8) -> (r: Result<
        (),
        Chip8Error,
    >)
        requires
            old(self).wf(),
            old(interconnect).wf(),
        ensures
            final(self).wf(),
            final(interconnect).wf(),
            (final(self)@, final(interconnect)@, r) == step_model(
                old(self)@,
                old(interconnect)@,
                Opcode::MathAdd(x, y),
                rand_byte,
            ),
    {
        let ghost c0 = self@;
        let ghost m0 = interconnect@;
        proof {
            reveal(step_model);
        }
        let rx = self.get_reg(x);
        let ry = self.get_reg(y);
        let z = wrap_add8(rx, ry);
        self.set_reg(x, z);
        self.set_reg(
            Reg::VF,
            if rx as u16 + ry as u16 > 255 {
                1
            } else {
                0
            },
        );
        Ok(())
    }

    /// One step of the `MathSub` operation, as `step_model` describes.
    #[allow(unused_variables)]
    fn op_math_sub(&mut self, x: Reg, y: Reg, interconnect: &mut Interconnect, rand_byte: u8) -> (r: Result<
        (),
        Chip8Error,
    >)
        requires
            old(self).wf(),
            old(interconnect).wf(),
        ensures
            final(self).wf(),
            final(interconnect).wf(),
            (final(self)@, final(interconnect)@, r) == step_model(
                old(self)@,
                old(interconnect)@,
                Opcode::MathSub(x, y),
                rand_byte,
            ),
    {
        let ghost c0 = self@;
        let ghost m0 = interconnect@;
        proof {
            reveal(step_model);
        }
        let rx = self.get_reg(x);
        let ry = self.get_reg(y);
        let z = wrap_sub8(rx, ry);
        self.set_reg(x, z);
        self.set_reg(
            Reg::VF,
            if rx >= ry {
                1
            } else {
                0
            },
        );
        Ok(())
    }

    /// One step of the `ShiftRight` operation, as `step_model` describes.
    #[allow(unused_variables)]
    fn op_shift_right(&mut self, x: Reg, y: Reg, interconnect: &mut Interconnect, rand_byte: u8) -> (r: Result<
        (),
        Chip8Error,
    >)
        requires
            old(self).wf(),
            old(interconnect).wf(),
        ensures
            final(self).wf(),
            final(interconnect).wf(),
            (final(self)@, final(interconnect)@, r) == step_model(
                old(self)@,
                old(interconnect)@,
                Opcode::ShiftRight(x, y),
                rand_byte,
            ),
    {
        let ghost c0 = self@;
        let ghost m0 = interconnect@;
        proof {
            reveal(step_model);
        }
        let rx = self.get_reg(x);
        self.set_reg(Reg::VF, rx & 1);
        let cur = self.get_reg(x);
        self.set_reg(x, cur >> 1u8);
        Ok(())
    }

    /// One step of the `MathSubN` operation, as `step_model` describes.
    #[allow(unused_variables)]
    fn op_math_sub_n(&mut self, x: Reg, y: Reg, interconnect: &mut Interconnect, rand_byte: u8) -> (r: Result<
        (),
        Chip8Error,
    >)
        requires
            old(self).wf(),
            old(interconnect).wf(),
        ensures
            final(self).wf(),
            final(interconnect).wf(),
            (final(self)@, final(interconnect)@, r) == step_model(
                old(self)@,
                old(interconnect)@,
                Opcode::MathSubN(x, y),
                rand_byte,
            ),
    {
        let ghost c0 = self@;
        let ghost m0 = interconnect@;
        proof {
            reveal(step_model);
        }
        let rx = self.get_reg(x);
        let ry = self.get_reg(y);
        let z = wrap_sub8(ry, rx);
        self.set_reg(x, z);
        self.set_reg(
            Reg::VF,
            if ry >= rx {
                1
            } else {
                0
            },
        );
        Ok(())
    }

    /// One step of the `ShiftLeft` operation, as `step_model` describes.
    #[allow(unused_variables)]
    fn op_shift_left(&mut self, x: Reg, y: Reg, interconnect: &mut Interconnect, rand_byte: u8) -> (r: Result<
        (),
        Chip8Error,
    >)
        requires
            old(self).wf(),
            old(interconnect).wf(),
        ensures
            final(self).wf(),
            final(interconnect).wf(),
            (final(self)@, final(interconnect)@, r) == step_model(
                old(self)@,
                old(interconnect)@,
                Opcode::ShiftLeft(x, y),
                rand_byte,
            ),
    {
        let ghost c0 = self@;
        let ghost m0 = interconnect@;
        proof {
            reveal(step_model);
        }
        let rx = self.get_reg(x);
        self.set_reg(Reg::VF, (rx >> 7u8) & 1);
        let cur = self.get_reg(x);
        let shifted = cur << 1u8;
        assert(shifted == wrap8(cur as int * 2)) by (bit_vector)
            requires
                shifted == cur << 1u8,
        ;
        self.set_reg(x, shifted);
        Ok(())
    }

    /// One step of the `Draw` operation, as `step_model` describes.
    #[allow(unused_variables)]
    fn op_draw(&mut self, x: Reg, y: Reg, n: u8, interconnect: &mut Interconnect, rand_byte: u8) -> (r: Result<
        (),
        Chip8Error,
    >)
        requires
            old(self).wf(),
            old(interconnect).wf(),
            n < 16,
        ensures
            final(self).wf(),
            final(interconnect).wf(),
            (final(self)@, final(interconnect)@, r) == step_model(
                old(self)@,
                old(interconnect)@,
                Opcode::Draw(x, y, n),
                rand_byte,
            ),
    {
        let ghost c0 = self@;
        let ghost m0 = interconnect@;
        proof {
            reveal(step_model);
        }
        if self.vi as usize + n as usize > MEM_SIZE {
            return Err(Chip8Error::OutOfBoundsAccess(self.vi));
        }
        let rx = self.get_reg(x);
        let ry = self.get_reg(y);
        let collision = interconnect.draw_sprite(
            self.vi as usize,
            rx as usize,
            ry as usize,
            n as usize,
        );
        self.set_reg(
            Reg::VF,
            if collision {
                1
            } else {
                0
            },
        );
        Ok(())
    }

    /// One step of the `KeyGet` operation, as `step_model` describes.
    #[allow(unused_variables)]
    fn op_key_get(&mut self, x: Reg, interconnect: &mut Interconnect, rand_byte: u8) -> (r: Result<
        (),
        Chip8Error,
    >)
        requires
            old(self).wf(),
            old(interconnect).wf(),
            2 <= old(self).pc,
        ensures
            final(self).wf(),
            final(interconnect).wf(),
            (final(self)@, final(interconnect)@, r) == step_model(
                old(self)@,
                old(interconnect)@,
                Opcode::KeyGet(x),
                rand_byte,
            ),
    {
        let ghost c0 = self@;
        let ghost m0 = interconnect@;
        proof {
            reveal(step_model);
        }
        if let Some(key) = interconnect.get_key() {
            self.set_reg(x, key);
        } else {
            self.pc = self.pc - 2;
        }
        Ok(())
    }

    /// One step of the `BCD` operation, as `step_model` describes.
    #[allow(unused_variables)]
    fn op_bcd(&mut self, x: Reg, interconnect: &mut Interconnect, rand_byte: u8) -> (r: Result<
        (),
        Chip8Error,
    >)
        requires
            old(self).wf(),
            old(interconnect).wf(),
        ensures
            final(self).wf(),
            final(interconnect).wf(),
            (final(self)@, final(interconnect)@, r) == step_model(
                old(self)@,
                old(interconnect)@,
                Opcode::BCD(x),
                rand_byte,
            ),
    {
        let ghost c0 = self@;
        let ghost m0 = interconnect@;
        proof {
            reveal(step_model);
        }
        if self.vi as usize + 2 >= MEM_SIZE {
            return Err(Chip8Error::OutOfBoundsAccess(self.vi));
        }
        let (hundreds, tens, ones) = bcd(self.get_reg(x));
        interconnect.write_byte(self.vi, hundreds);
        interconnect.write_byte(self.vi + 1, tens);
        interconnect.write_byte(self.vi + 2, ones);
        Ok(())
    }

    /// One step of the `Return` operation, as `step_model` describes.
    #[allow(unused_variables)]
    fn op_return(&mut self, interconnect: &mut Interconnect, rand_byte: u8) -> (r: Result<
        (),
        Chip8Error,
    >)
        requires
            old(self).wf(),
            old(interconnect).wf(),
        ensures
            final(self).wf(),
            final(interconnect).wf(),
            (final(self)@, final(interconnect)@, r) == step_model(
                old(self)@,
                old(interconnect)@,
                Opcode::Return,
                rand_byte,
            ),
    {
        proof {
            reveal(step_model);
        }
        if self.sp == 0 {
            return Err(Chip8Error::StackUnderflow);
        }
        self.sp = self.sp - 1;
        self.pc = self.stack[self.sp];
        Ok(())
    }

    /// One step of the `SysAddr` operation, as `step_model` describes.
    #[allow(unused_variables)]
    fn op_sys_addr(&mut self, addr: u16, interconnect: &mut Interconnect, rand_byte: u8) -> (r: Result<
        (),
        Chip8Error,
    >)
        requires
            old(self).wf(),
            old(interconnect).wf(),
        ensures
            final(self).wf(),
            final(interconnect).wf(),
            (final(self)@, final(interconnect)@, r) == step_model(
                old(self)@,
                old(interconnect)@,
                Opcode::SysAddr(addr),
                rand_byte,
            ),
    {
        proof {
            reveal(step_model);
        }
        Err(Chip8Error::UnsupportedSystemCall(addr))
    }

    /// One step of the `JumpAddr` operation, as `step_model` describes.
    #[allow(unused_variables)]
    fn op_jump_addr(&mut self, addr: u16, interconnect: &mut Interconnect, rand_byte: u8) -> (r: Result<
        (),
        Chip8Error,
    >)
        requires
            old(self).wf(),
            old(interconnect).wf(),
        ensures
            final(self).wf(),
            final(interconnect).wf(),
            (final(self)@, final(interconnect)@, r) == step_model(
                old(self)@,
                old(interconnect)@,
                Opcode::JumpAddr(addr),
                rand_byte,
            ),
    {
        proof {
            reveal(step_model);
        }
        self.pc = addr;
        Ok(())
    }

    /// One step of the `CallAddr` operation, as `step_model` describes.
    #[allow(unused_variables)]
    fn op_call_addr(&mut self, addr: u16, interconnect: &mut Interconnect, rand_byte: u8) -> (r: Result<
        (),
        Chip8Error,
    >)
        requires
            old(self).wf(),
            old(interconnect).wf(),
        ensures
            final(self).wf(),
            final(interconnect).wf(),
            (final(self)@, final(interconnect)@, r) == step_model(
                old(self)@,
                old(interconnect)@,
                Opcode::CallAddr(addr),
                rand_byte,
            ),
    {
        proof {
            reveal(step_model);
        }
        if self.sp == 16 {
            return Err(Chip8Error::StackOverflow);
        }
        self.stack[self.sp] = self.pc;
        self.sp = self.sp + 1;
        self.pc = addr;
        Ok(())
    }

    /// One step of the `SkipEqByte` operation, as `step_model` describes.
    #[allow(unused_variables)]
    fn op_skip_eq_byte(&mut self, x: Reg, byte: u8, interconnect: &mut Interconnect, rand_byte: u8) -> (r: Result<
        (),
        Chip8Error,
    >)
        requires
            old(self).wf(),
            old(interconnect).wf(),
            old(self).pc <= 0xFFFD,
        ensures
            final(self).wf(),
            final(interconnect).wf(),
            (final(self)@, final(interconnect)@, r) == step_model(
                old(self)@,
                old(interconnect)@,
                Opcode::SkipEqByte(x, byte),
                rand_byte,
            ),
    {
        proof {
            reveal(step_model);
        }
        if self.get_reg(x) == byte {
            self.pc = self.pc + 2;
        }
        Ok(())
    }

    /// One step of the `SkipNEqByte` operation, as `step_model` describes.
    #[allow(unused_variables)]
    fn op_skip_neq_byte(&mut self, x: Reg, byte: u8, interconnect: &mut Interconnect, rand_byte: u8) -> (r: Result<
        (),
        Chip8Error,
    >)
        requires
            old(self).wf(),
            old(interconnect).wf(),
            old(self).pc <= 0xFFFD,
        ensures
            final(self).wf(),
            final(interconnect).wf(),
            (final(self)@, final(interconnect)@, r) == step_model(
                old(self)@,
                old(interconnect)@,
                Opcode::SkipNEqByte(x, byte),
                rand_byte,
            ),
    {
        proof {
            reveal(step_model);
        }
        if self.get_reg(x) != byte {
            self.pc = self.pc + 2;
        }
        Ok(())
    }

    /// One step of the `SkipEqReg` operation, as `step_model` describes.
    #[allow(unused_variables)]
    fn op_skip_eq_reg(&mut self, x: Reg, y: Reg, interconnect: &mut Interconnect, rand_byte: u8) -> (r: Result<
        (),
        Chip8Error,
    >)
        requires
            old(self).wf(),
            old(interconnect).wf(),
            old(self).pc <= 0xFFFD,
        ensures
            final(self).wf(),
            final(interconnect).wf(),
            (final(self)@, final(interconnect)@, r) == step_model(
                old(self)@,
                old(interconnect)@,
                Opcode::SkipEqReg(x, y),
                rand_byte,
            ),
    {
        proof {
            reveal(step_model);
        }
        if self.get_reg(x) == self.get_reg(y) {
            self.pc = self.pc + 2;
        }
        Ok(())
    }

    /// One step of the `LoadByte` operation, as `step_model` describes.
    #[allow(unused_variables)]
    fn op_load_byte(&mut self, x: Reg, byte: u8, interconnect: &mut Interconnect, rand_byte: u8) -> (r: Result<
        (),
        Chip8Error,
    >)
        requires
            old(self).wf(),
            old(interconnect).wf(),
        ensures
            final(self).wf(),
            final(interconnect).wf(),
            (final(self)@, final(interconnect)@, r) == step_model(
                old(self)@,
                old(interconnect)@,
                Opcode::LoadByte(x, byte),
                rand_byte,
            ),
    {
        proof {
            reveal(step_model);
        }
        self.set_reg(x, byte);
        Ok(())
    }

    /// One step of the `AddByte` operation, as `step_model` describes.
    #[allow(unused_variables)]
    fn op_add_byte(&mut self, x: Reg, byte: u8, interconnect: &mut Interconnect, rand_byte: u8) -> (r: Result<
        (),
        Chip8Error,
    >)
        requires
            old(self).wf(),
            old(interconnect).wf(),
        ensures
            final(self).wf(),
            final(interconnect).wf(),
            (final(self)@, final(interconnect)@, r) == step_model(
                old(self)@,
                old(interconnect)@,
                Opcode::AddByte(x, byte),
                rand_byte,
            ),
    {
        proof {
            reveal(step_model);
        }
        let z = wrap_add8(self.get_reg(x), byte);
        self.set_reg(x, z);
        Ok(())
    }

    /// One step of the `LoadReg` operation, as `step_model` describes.
    #[allow(unused_variables)]
    fn op_load_reg(&mut self, x: Reg, y: Reg, interconnect: &mut Interconnect, rand_byte: u8) -> (r: Result<
        (),
        Chip8Error,
    >)
        requires
            old(self).wf(),
            old(interconnect).wf(),
        ensures
            final(self).wf(),
            final(interconnect).wf(),
            (final(self)@, final(interconnect)@, r) == step_model(
                old(self)@,
                old(interconnect)@,
                Opcode::LoadReg(x, y),
                rand_byte,
            ),
    {
        proof {
            reveal(step_model);
        }
        let v = self.get_reg(y);
        self.set_reg(x, v);
        Ok(())
    }

    /// One step of the `BitOr` operation, as `step_model` describes.
    #[allow(unused_variables)]
    fn op_bit_or(&mut self, x: Reg, y: Reg, interconnect: &mut Interconnect, rand_byte: u8) -> (r: Result<
        (),
        Chip8Error,
    >)
        requires
            old(self).wf(),
            old(interconnect).wf(),
        ensures
            final(self).wf(),
            final(interconnect).wf(),
            (final(self)@, final(interconnect)@, r) == step_model(
                old(self)@,
                old(interconnect)@,
                Opcode::BitOr(x, y),
                rand_byte,
            ),
    {
        proof {
            reveal(step_model);
        }
        let v = self.get_reg(x) | self.get_reg(y);
        self.set_reg(x, v);
        Ok(())
    }

    /// One step of the `BitAnd` operation, as `step_model` describes.
    #[allow(unused_variables)]
    fn op_bit_and(&mut self, x: Reg, y: Reg, interconnect: &mut Interconnect, rand_byte: u8) -> (r: Result<
        (),
        Chip8Error,
    >)
        requires
            old(self).wf(),
            old(interconnect).wf(),
        ensures
            final(self).wf(),
            final(interconnect).wf(),
            (final(self)@, final(interconnect)@, r) == step_model(
                old(self)@,
                old(interconnect)@,
                Opcode::BitAnd(x, y),
                rand_byte,
            ),
    {
        proof {
            reveal(step_model);
        }
        let v = self.get_reg(x) & self.get_reg(y);
        self.set_reg(x, v);
        Ok(())
    }

    /// One step of the `BitXor` operation, as `step_model` describes.
    #[allow(unused_variables)]
    fn op_bit_xor(&mut self, x: Reg, y: Reg, interconnect: &mut Interconnect, rand_byte: u8) -> (r: Result<
        (),
        Chip8Error,
    >)
        requires
            old(self).wf(),
            old(interconnect).wf(),
        ensures
            final(self).wf(),
            final(interconnect).wf(),
            (final(self)@, final(interconnect)@, r) == step_model(
                old(self)@,
                old(interconnect)@,
                Opcode::BitXor(x, y),
                rand_byte,
            ),
    {
        proof {
            reveal(step_model);
        }
        let v = self.get_reg(x) ^ self.get_reg(y);
        self.set_reg(x, v);
        Ok(())
    }

    /// One step of the `SkipNEqReg` operation, as `step_model` describes.
    #[allow(unused_variables)]
    fn op_skip_neq_reg(&mut self, x: Reg, y: Reg, interconnect: &mut Interconnect, rand_byte: u8) -> (r: Result<
        (),
        Chip8Error,
    >)
        requires
            old(self).wf(),
            old(interconnect).wf(),
            old(self).pc <= 0xFFFD,
        ensures
            final(self).wf(),
            final(interconnect).wf(),
            (final(self)@, final(interconnect)@, r) == step_model(
                old(self)@,
                old(interconnect)@,
                Opcode::SkipNEqReg(x, y),
                rand_byte,
            ),
    {
        proof {
            reveal(step_model);
        }
        if self.get_reg(x) != self.get_reg(y) {
            self.pc = self.pc + 2;
        }
        Ok(())
    }

    /// One step of the `MemLoad` operation, as `step_model` describes.
    #[allow(unused_variables)]
    fn op_mem_load(&mut self, addr: u16, interconnect: &mut Interconnect, rand_byte: u8) -> (r: Result<
        (),
        Chip8Error,
    >)
        requires
            old(self).wf(),
            old(interconnect).wf(),
        ensures
            final(self).wf(),
            final(interconnect).wf(),
            (final(self)@, final(interconnect)@, r) == step_model(
                old(self)@,
                old(interconnect)@,
                Opcode::MemLoad(addr),
                rand_byte,
            ),
    {
        proof {
            reveal(step_model);
        }
        self.vi = addr;
        Ok(())
    }

    /// One step of the `JumpAddV0` operation, as `step_model` describes.
    #[allow(unused_variables)]
    fn op_jump_add_v0(&mut self, addr: u16, interconnect: &mut Interconnect, rand_byte: u8) -> (r: Result<
        (),
        Chip8Error,
    >)
        requires
            old(self).wf(),
            old(interconnect).wf(),
            addr < 0x1000,
        ensures
            final(self).wf(),
            final(interconnect).wf(),
            (final(self)@, final(interconnect)@, r) == step_model(
                old(self)@,
                old(interconnect)@,
                Opcode::JumpAddV0(addr),
                rand_byte,
            ),
    {
        proof {
            reveal(step_model);
        }
        self.pc = addr + self.get_reg(Reg::V0) as u16;
        Ok(())
    }

    /// One step of the `Rand` operation, as `step_model` describes.
    #[allow(unused_variables)]
    fn op_rand(&mut self, x: Reg, byte: u8, interconnect: &mut Interconnect, rand_byte: u8) -> (r: Result<
        (),
        Chip8Error,
    >)
        requires
            old(self).wf(),
            old(interconnect).wf(),
        ensures
            final(self).wf(),
            final(interconnect).wf(),
            (final(self)@, final(interconnect)@, r) == step_model(
                old(self)@,
                old(interconnect)@,
                Opcode::Rand(x, byte),
                rand_byte,
            ),
    {
        proof {
            reveal(step_model);
        }
        self.set_reg(x, rand_byte & byte);
        Ok(())
    }

    /// One step of the `KeyEqSkip` operation, as `step_model` describes.
    #[allow(unused_variables)]
    fn op_key_eq_skip(&mut self, x: Reg, interconnect: &mut Interconnect, rand_byte: u8) -> (r: Result<
        (),
        Chip8Error,
    >)
        requires
            old(self).wf(),
            old(interconnect).wf(),
            old(self).pc <= 0xFFFD,
        ensures
            final(self).wf(),
            final(interconnect).wf(),
            (final(self)@, final(interconnect)@, r) == step_model(
                old(self)@,
                old(interconnect)@,
                Opcode::KeyEqSkip(x),
                rand_byte,
            ),
    {
        proof {
            reveal(step_model);
        }
        let rx = self.get_reg(x);
        if rx >= 16 {
            return Err(Chip8Error::OutOfBoundsAccess(rx as u16));
        }
        if interconnect.check_key(rx as usize) {
            self.pc = self.pc + 2;
        }
        Ok(())
    }

    /// One step of the `KeyNEqSkip` operation, as `step_model` describes.
    #[allow(unused_variables)]
    fn op_key_neq_skip(&mut self, x: Reg, interconnect: &mut Interconnect, rand_byte: u8) -> (r: Result<
        (),
        Chip8Error,
    >)
        requires
            old(self).wf(),
            old(interconnect).wf(),
            old(self).pc <= 0xFFFD,
        ensures
            final(self).wf(),
            final(interconnect).wf(),
            (final(self)@, final(interconnect)@, r) == step_model(
                old(self)@,
                old(interconnect)@,
                Opcode::KeyNEqSkip(x),
                rand_byte,
            ),
    {
        proof {
            reveal(step_model);
        }
        let rx = self.get_reg(x);
        if rx >= 16 {
            return Err(Chip8Error::OutOfBoundsAccess(rx as u16));
        }
        if !interconnect.check_key(rx as usize) {
            self.pc = self.pc + 2;
        }
        Ok(())
    }

    /// One step of the `DelayGet` operation, as `step_model` describes.
    #[allow(unused_variables)]
    fn op_delay_get(&mut self, x: Reg, interconnect: &mut Interconnect, rand_byte: u8) -> (r: Result<
        (),
        Chip8Error,
    >)
        requires
            old(self).wf(),
            old(interconnect).wf(),
        ensures
            final(self).wf(),
            final(interconnect).wf(),
            (final(self)@, final(interconnect)@, r) == step_model(
                old(self)@,
                old(interconnect)@,
                Opcode::DelayGet(x),
                rand_byte,
            ),
    {
        proof {
            reveal(step_model);
        }
        let v = self.delay;
        self.set_reg(x, v);
        Ok(())
    }

    /// One step of the `DelaySet` operation, as `step_model` describes.
    #[allow(unused_variables)]
    fn op_delay_set(&mut self, x: Reg, interconnect: &mut Interconnect, rand_byte: u8) -> (r: Result<
        (),
        Chip8Error,
    >)
        requires
            old(self).wf(),
            old(interconnect).wf(),
        ensures
            final(self).wf(),
            final(interconnect).wf(),
            (final(self)@, final(interconnect)@, r) == step_model(
                old(self)@,
                old(interconnect)@,
                Opcode::DelaySet(x),
                rand_byte,
            ),
    {
        proof {
            reveal(step_model);
        }
        self.delay = self.get_reg(x);
        Ok(())
    }

    /// One step of the `SoundSet` operation, as `step_model` describes.
    #[allow(unused_variables)]
    fn op_sound_set(&mut self, x: Reg, interconnect: &mut Interconnect, rand_byte: u8) -> (r: Result<
        (),
        Chip8Error,
    >)
        requires
            old(self).wf(),
            old(interconnect).wf(),
        ensures
            final(self).wf(),
            final(interconnect).wf(),
            (final(self)@, final(interconnect)@, r) == step_model(
                old(self)@,
                old(interconnect)@,
                Opcode::SoundSet(x),
                rand_byte,
            ),
    {
        proof {
            reveal(step_model);
        }
        self.sound = self.get_reg(x);
        Ok(())
    }

    /// One step of the `MemAdd` operation, as `step_model` describes.
    #[allow(unused_variables)]
    fn op_mem_add(&mut self, x: Reg, interconnect: &mut Interconnect, rand_byte: u8) -> (r: Result<
        (),
        Chip8Error,
    >)
        requires
            old(self).wf(),
            old(interconnect).wf(),
        ensures
            final(self).wf(),
            final(interconnect).wf(),
            (final(self)@, final(interconnect)@, r) == step_model(
                old(self)@,
                old(interconnect)@,
                Opcode::MemAdd(x),
                rand_byte,
            ),
    {
        proof {
            reveal(step_model);
        }
        self.vi = wrap_add16(self.vi, self.get_reg(x) as u16);
        Ok(())
    }

    /// One step of the `MemSprite` operation, as `step_model` describes.
    #[allow(unused_variables)]
    fn op_mem_sprite(&mut self, x: Reg, interconnect: &mut Interconnect, rand_byte: u8) -> (r: Result<
        (),
        Chip8Error,
    >)
        requires
            old(self).wf(),
            old(interconnect).wf(),
        ensures
            final(self).wf(),
            final(interconnect).wf(),
            (final(self)@, final(interconnect)@, r) == step_model(
                old(self)@,
                old(interconnect)@,
                Opcode::MemSprite(x),
                rand_byte,
            ),
    {
        proof {
            reveal(step_model);
        }
        let addr = interconnect.get_font(self.get_reg(x));
        self.vi = addr as u16;
        Ok(())
    }

    /// Executes the screen-clearing, flow control and the conditional skips, as `step_model` describes.
    fn exec_control(&mut self, opcode: &Opcode, interconnect: &mut Interconnect, rand_byte: u8) -> (r:
        Result<(), Chip8Error>)
        requires
            old(self).wf(),
            old(interconnect).wf(),
            opcode_wf(*opcode),
            2 <= old(self).pc <= 0xFFFD,
            is_control_op(*opcode),
        ensures
            final(self).wf(),
            final(interconnect).wf(),
            (final(self)@, final(interconnect)@, r) == step_model(
                old(self)@,
                old(interconnect)@,
                *opcode,
                rand_byte,
            ),
    {
        match *opcode {
        Opcode::ClearScreen => self.op_clear_screen(interconnect, rand_byte),
        Opcode::Return => self.op_return(interconnect, rand_byte),
        Opcode::SysAddr(addr) => self.op_sys_addr(addr, interconnect, rand_byte),
        Opcode::JumpAddr(addr) => self.op_jump_addr(addr, interconnect, rand_byte),
        Opcode::CallAddr(addr) => self.op_call_addr(addr, interconnect, rand_byte),
        Opcode::SkipEqByte(x, byte) => self.op_skip_eq_byte(x, byte, interconnect, rand_byte),
        Opcode::SkipNEqByte(x, byte) => self.op_skip_neq_byte(x, byte, interconnect, rand_byte),
        Opcode::SkipEqReg(x, y) => self.op_skip_eq_reg(x, y, interconnect, rand_byte),
        Opcode::SkipNEqReg(x, y) => self.op_skip_neq_reg(x, y, interconnect, rand_byte),
            _ => {
                proof {
                    assert(false);
                }
                Err(Chip8Error::StackUnderflow)
            },
        }
    }

    /// Executes the register loads and byte and two-register arithmetic and logic, as `step_model` describes.
    fn exec_alu(&mut self, opcode: &Opcode, interconnect: &mut Interconnect, rand_byte: u8) -> (r:
        Result<(), Chip8Error>)
        requires
            old(self).wf(),
            old(interconnect).wf(),
            opcode_wf(*opcode),
            2 <= old(self).pc <= 0xFFFD,
            is_alu_op(*opcode),
        ensures
            final(self).wf(),
            final(interconnect).wf(),
            (final(self)@, final(interconnect)@, r) == step_model(
                old(self)@,
                old(interconnect)@,
                *opcode,
                rand_byte,
            ),
    {
        match *opcode {
        Opcode::LoadByte(x, byte) => self.op_load_byte(x, byte, interconnect, rand_byte),
        Opcode::AddByte(x, byte) => self.op_add_byte(x, byte, interconnect, rand_byte),
        Opcode::LoadReg(x, y) => self.op_load_reg(x, y, interconnect, rand_byte),
        Opcode::BitOr(x, y) => self.op_bit_or(x, y, interconnect, rand_byte),
        Opcode::BitAnd(x, y) => self.op_bit_and(x, y, interconnect, rand_byte),
        Opcode::BitXor(x, y) => self.op_bit_xor(x, y, interconnect, rand_byte),
        Opcode::MathAdd(x, y) => self.op_math_add(x, y, interconnect, rand_byte),
        Opcode::MathSub(x, y) => self.op_math_sub(x, y, interconnect, rand_byte),
        Opcode::MathSubN(x, y) => self.op_math_sub_n(x, y, interconnect, rand_byte),
            _ => {
                proof {
                    assert(false);
                }
                Err(Chip8Error::StackUnderflow)
            },
        }
    }

    /// Executes the shifts, the index register, random bytes and sprite drawing, as `step_model` describes.
    fn exec_bits_mem(&mut self, opcode: &Opcode, interconnect: &mut Interconnect, rand_byte: u8) -> (r:
        Result<(), Chip8Error>)
        requires
            old(self).wf(),
            old(interconnect).wf(),
            opcode_wf(*opcode),
            2 <= old(self).pc <= 0xFFFD,
            is_bits_mem_op(*opcode),
        ensures
            final(self).wf(),
            final(interconnect).wf(),
            (final(self)@, final(interconnect)@, r) == step_model(
                old(self)@,
                old(interconnect)@,
                *opcode,
                rand_byte,
            ),
    {
        match *opcode {
        Opcode::ShiftRight(x, y) => self.op_shift_right(x, y, interconnect, rand_byte),
        Opcode::ShiftLeft(x, y) => self.op_shift_left(x, y, interconnect, rand_byte),
        Opcode::MemLoad(addr) => self.op_mem_load(addr, interconnect, rand_byte),
        Opcode::JumpAddV0(addr) => self.op_jump_add_v0(addr, interconnect, rand_byte),
        Opcode::Rand(x, byte) => self.op_rand(x, byte, interconnect, rand_byte),
        Opcode::Draw(x, y, n) => self.op_draw(x, y, n, interconnect, rand_byte),
        Opcode::MemAdd(x) => self.op_mem_add(x, interconnect, rand_byte),
        Opcode::MemSprite(x) => self.op_mem_sprite(x, interconnect, rand_byte),
            _ => {
                proof {
                    assert(false);
                }
                Err(Chip8Error::StackUnderflow)
            },
        }
    }

    /// Executes the keypad queries, timers and the memory block transfers, as `step_model` describes.
    fn exec_io(&mut self, opcode: &Opcode, interconnect: &mut Interconnect, rand_byte: u8) -> (r:
        Result<(), Chip8Error>)
        requires
            old(self).wf(),
            old(interconnect).wf(),
            opcode_wf(*opcode),
            2 <= old(self).pc <= 0xFFFD,
            is_io_op(*opcode),
        ensures
            final(self).wf(),
            final(interconnect).wf(),
            (final(self)@, final(interconnect)@, r) == step_model(
                old(self)@,
                old(interconnect)@,
                *opcode,
                rand_byte,
            ),
    {
        match *opcode {
        Opcode::KeyEqSkip(x) => self.op_key_eq_skip(x, interconnect, rand_byte),
        Opcode::KeyNEqSkip(x) => self.op_key_neq_skip(x, interconnect, rand_byte),
        Opcode::DelayGet(x) => self.op_delay_get(x, interconnect, rand_byte),
        Opcode::KeyGet(x) => self.op_key_get(x, interconnect, rand_byte),
        Opcode::DelaySet(x) => self.op_delay_set(x, interconnect, rand_byte),
        Opcode::SoundSet(x) => self.op_sound_set(x, interconnect, rand_byte),
        Opcode::BCD(x) => self.op_bcd(x, interconnect, rand_byte),
        Opcode::RegDump(x) => self.op_reg_dump(x, interconnect, rand_byte),
        Opcode::RegLoad(x) => self.op_reg_load(x, interconnect, rand_byte),
            _ => {
                proof {
                    assert(false);
                }
                Err(Chip8Error::StackUnderflow)
            },
        }
    }

    /// Executes one decoded operation against the interconnect, exactly as
    /// `step_model` describes. The program counter must already stand past
    /// the instruction; `rand_byte` is consulted by the random-byte
    /// operation alone, and the contract holds for every value of it.
    pub fn execute_opcode(&mut self, opcode: &Opcode, interconnect: &mut Interconnect, rand_byte: u8) -> (r:
        Result<(), Chip8Error>)
        requires
            old(self).wf(),
            old(interconnect).wf(),
            opcode_wf(*opcode),
            2 <= old(self).pc <= 0xFFFD,
        ensures
            final(self).wf(),
            final(interconnect).wf(),
            (final(self)@, final(interconnect)@, r) == step_model(
                old(self)@,
                old(interconnect)@,
                *opcode,
                rand_byte,
            ),
    {
        match *opcode {
            Opcode::ClearScreen
            | Opcode::Return
            | Opcode::SysAddr(_)
            | Opcode::JumpAddr(_)
            | Opcode::CallAddr(_)
            | Opcode::SkipEqByte(_, _)
            | Opcode::SkipNEqByte(_, _)
            | Opcode::SkipEqReg(_, _)
            | Opcode::SkipNEqReg(_, _) => self.exec_control(opcode, interconnect, rand_byte),
            Opcode::LoadByte(_, _)
            | Opcode::AddByte(_, _)
            | Opcode::LoadReg(_, _)
            | Opcode::BitOr(_, _)
            | Opcode::BitAnd(_, _)
            | Opcode::BitXor(_, _)
            | Opcode::MathAdd(_, _)
            | Opcode::MathSub(_, _)
            | Opcode::MathSubN(_, _) => self.exec_alu(opcode, interconnect, rand_byte),
            Opcode::ShiftRight(_, _)
            | Opcode::ShiftLeft(_, _)
            | Opcode::MemLoad(_)
            | Opcode::JumpAddV0(_)
            | Opcode::Rand(_, _)
            | Opcode::Draw(_, _, _)
            | Opcode::MemAdd(_)
            | Opcode::MemSprite(_) => self.exec_bits_mem(opcode, interconnect, rand_byte),
            Opcode::KeyEqSkip(_)
            | Opcode::KeyNEqSkip(_)
            | Opcode::DelayGet(_)
            | Opcode::KeyGet(_)
            | Opcode::DelaySet(_)
            | Opcode::SoundSet(_)
            | Opcode::BCD(_)
            | Opcode::RegDump(_)
            | Opcode::RegLoad(_) => self.exec_io(opcode, interconnect, rand_byte),
        }
    }
}

/// Relies on rand::random::<u8>: a fresh byte from the thread-local
/// generator. Nothing is promised of its value; callers state what holds of
/// every outcome.
#[verifier::external_body]
fn random_byte() -> u8 {
    rand::random::<u8>()
}

/// What one fetch-decode-execute cycle does: fetch the big-endian halfword
/// at the program counter (out-of-range counters are a fatal condition),
/// decode it (an unrecognized word is fatal), advance the counter past the
/// instruction, then execute as `step_model` describes with `rnd` as the
/// byte the generator supplied.
pub open spec fn spec_run_cycle(c: CpuView, m: InterconnectView, rnd: u8) -> (
    CpuView,
    InterconnectView,
    Result<(), Chip8Error>,
) {
    if c.pc as int + 1 >= MEM_SIZE {
        (c, m, Err(Chip8Error::OutOfBoundsAccess(c.pc)))
    } else {
        let instr = (256 * (m.mem[c.pc as int] as int) + (m.mem[c.pc as int + 1] as int)) as u16;
        match spec_decode(instr) {
            Result::Err(e) => (c, m, Err(e)),
            Result::Ok(op) => step_model(CpuView { pc: (c.pc + 2) as u16, ..c }, m, op, rnd),
        }
    }
}

impl Cpu {
    /// One cycle of the machine: fetch the instruction at the program
    /// counter, decode it, advance the counter, execute. The outcome is
    /// `spec_run_cycle` for some byte of the random generator; every
    /// operation but the random-byte one ignores that byte.
    pub fn run_cycle(&mut self, interconnect: &mut Interconnect) -> (r: Result<(), Chip8Error>)
        requires
            old(self).wf(),
            old(interconnect).wf(),
        ensures
            final(self).wf(),
            final(interconnect).wf(),
            exists|rnd: u8|
                (final(self)@, final(interconnect)@, r) == #[trigger] spec_run_cycle(
                    old(self)@,
                    old(interconnect)@,
                    rnd,
                ),
    {
        let ghost c0 = self@;
        let ghost m0 = interconnect@;
        if self.pc as usize + 1 >= MEM_SIZE {
            let r = Err(Chip8Error::OutOfBoundsAccess(self.pc));
            proof {
                assert((self@, interconnect@, r) == spec_run_cycle(c0, m0, 0u8));
            }
            return r;
        }
        let instr = interconnect.read_halfword(self.pc);
        let opcode = match disassemble(instr) {
            Ok(op) => op,
            Err(e) => {
                let r = Err(e);
                proof {
                    assert((self@, interconnect@, r) == spec_run_cycle(c0, m0, 0u8));
                }
                return r;
            },
        };
        self.pc = self.pc + 2;
        let rb = if matches!(opcode, Opcode::Rand(_, _)) {
            random_byte()
        } else {
            0
        };
        let r = self.execute_opcode(&opcode, interconnect, rb);
        proof {
            assert((self@, interconnect@, r) == spec_run_cycle(c0, m0, rb));
        }
        r
    }
}

/// The decimal digits of a byte: hundreds, tens and ones.
pub fn bcd(n: u8) -> (r: (u8, u8, u8))
    ensures
        r.0 == n as int / 100,
        r.1 == (n as int / 10) % 10,
        r.2 == n as int % 10,
{
    let ones = n % 10;
    let tens = (n / 10) % 10;
    let hundreds = n / 100;
    (hundreds, tens, ones)
}

/// Decimal decomposition is exact for every byte: the three digits are
/// each below ten (the hundreds digit below three), and recomposing them
/// gives the byte back.
pub proof fn lemma_bcd_digits(n: u8)
    ensures
        0 <= n as int / 100 <= 2,
        0 <= (n as int / 10) % 10 <= 9,
        0 <= n as int % 10 <= 9,
        100 * (n as int / 100) + 10 * ((n as int / 10) % 10) + (n as int % 10) == n as int,
{
    let x = n as int;
    lemma_fundamental_div_mod(x, 10);
    lemma_fundamental_div_mod(x / 10, 10);
    lemma_div_denominator(x, 10, 10);
    lemma_mod_bound(x, 10);
    lemma_mod_bound(x / 10, 10);
    lemma_div_is_ordered(x, 255, 100);
    lemma_div_is_ordered(0, x, 100);
}

} // verus!
