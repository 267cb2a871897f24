//! The CPU: registers, program counter, stack, timers, and the
//! fetch-decode-execute cycle.
//!
//! One [`Cpu::step`] performs exactly one cycle: fetch the big-endian
//! instruction word at the program counter, decode it, run the opcode's
//! handler, and apply the handler's program-counter directive. The whole
//! cycle is specified by the pure function [`step_spec`] over a
//! [`MachineView`] snapshot of the machine; `step` is proved to agree with
//! it. Stack overflow and underflow, out-of-range memory accesses and
//! out-of-range key values are reported as explicit [`Fault`]s before any
//! state changes, instead of corrupting unrelated state.

use crate::display::Display;
use crate::display::draw_collision;
use crate::display::draw_result;
use crate::keyboard::KeyboardState;
use crate::keyboard::any_pressed;
use crate::keyboard::lowest_pressed;
use crate::memory::Memory;
use crate::opcode::Opcode;
use crate::opcode::lemma_decode_operand_ranges;
use crate::opcode::spec_decode;
use vstd::prelude::*;

verus! {

/// What a handler tells the state machine to do with the program counter.
#[derive(Debug, Clone, Copy, PartialEq, Eq, Structural)]
pub enum ProgramCounter {
    /// Stay on this instruction and retry it on the next step.
    Wait,
    /// Advance past this instruction.
    Next,
    /// Advance past this instruction and the one after it.
    Skip,
    /// Continue at the given address.
    Jump(u16),
}

/// What one step changed outside the CPU state proper.
pub struct ProgramChange {
    /// Whether the display was mutated, so a host should redraw.
    pub redraw: bool,
}

/// A defect of the loaded program, reported before any state changes
/// instead of letting an access go out of bounds.
#[derive(Debug, Clone, Copy, PartialEq, Eq, Structural)]
pub enum Fault {
    /// `CALL` at call depth 16.
    StackOverflow,
    /// `RET` at call depth 0.
    StackUnderflow,
    /// A fetch or data access past the 4096-byte address space.
    MemoryOutOfRange,
    /// `SKP`/`SKNP` with a register value that is no key (16 or more).
    KeyOutOfRange,
}

/// Mathematical snapshot of the CPU registers.
#[verifier::ext_equal]
pub struct CpuView {
    /// The 16 general-purpose 8-bit registers V0..=VF.
    pub regs: Seq<u8>,
    /// The 16-bit index register I.
    pub i: u16,
    /// The 8-bit sound timer.
    pub sound_timer: u8,
    /// The 8-bit delay timer.
    pub delay_timer: u8,
    /// The 16-bit program counter.
    pub pc: u16,
    /// The stack pointer: the current call depth, 0..=16.
    pub sp: u8,
    /// The 16-entry stack of call-site addresses.
    pub stack: Seq<u16>,
}

/// Mathematical snapshot of the whole machine as one step sees it.
#[verifier::ext_equal]
pub struct MachineView {
    /// The CPU registers.
    pub cpu: CpuView,
    /// The 4096 memory bytes.
    pub ram: Seq<u8>,
    /// The 2048 display pixels, row-major.
    pub pixels: Seq<bool>,
    /// The 16 key flags.
    pub keys: Seq<bool>,
}

/// Well-formedness of a CPU snapshot: the register bank and stack have
/// their fixed sizes, the call depth stays within the stack, and every
/// stack entry is an address at which a whole instruction was fetched.
pub open spec fn cpu_wf(c: CpuView) -> bool {
    &&& c.regs.len() == 16
    &&& c.stack.len() == 16
    &&& c.sp <= 16
    &&& forall|k: int| 0 <= k < 16 ==> c.stack[k] <= 0xFFE
}

/// Well-formedness of a machine snapshot.
pub open spec fn mview_wf(s: MachineView) -> bool {
    &&& cpu_wf(s.cpu)
    &&& s.ram.len() == 4096
    &&& s.pixels.len() == 2048
    &&& s.keys.len() == 16
}

/// The big-endian 16-bit word at address `a` of `ram`.
pub open spec fn fetch_word_at(ram: Seq<u8>, a: int) -> u16 {
    (ram[a] * 256 + ram[a + 1]) as u16
}

/// The instruction word that the next step of `s` fetches.
pub open spec fn fetch_word(s: MachineView) -> u16 {
    fetch_word_at(s.ram, s.cpu.pc as int)
}

/// The register bank after `ADD Vx, Vy`: VF becomes the carry out of the
/// 8-bit sum, then Vx takes the sum modulo 256 (so VF keeps the sum, not
/// the carry, when `x` is 15 itself).
pub open spec fn add_regs(regs: Seq<u8>, x: int, y: int) -> Seq<u8> {
    let sum = regs[x] + regs[y];
    regs.update(15, if sum > 255 { 1u8 } else { 0u8 }).update(x, (sum % 256) as u8)
}

/// The register bank after `SUB Vx, Vy`: saturating at zero, with VF as
/// the no-borrow flag — 1 and the difference when Vx exceeds Vy, else 0
/// and 0.
pub open spec fn sub_regs(regs: Seq<u8>, x: int, y: int) -> Seq<u8> {
    if regs[x] > regs[y] {
        regs.update(15, 1u8).update(x, (regs[x] - regs[y]) as u8)
    } else {
        regs.update(15, 0u8).update(x, 0u8)
    }
}

/// The register bank after `SHR Vx`: VF takes the bit shifted out, then
/// Vx is halved (so a VF target reads the just-written flag).
pub open spec fn shr_regs(regs: Seq<u8>, x: int) -> Seq<u8> {
    let flagged = regs.update(15, regs[x] & 1);
    flagged.update(x, (flagged[x] / 2) as u8)
}

/// The register bank after loading V0..=Vx from `ram` at `i`.
pub open spec fn load_regs(regs: Seq<u8>, ram: Seq<u8>, i: int, x: int) -> Seq<u8> {
    Seq::new(16, |k: int| if k <= x { ram[i + k] } else { regs[k] })
}

/// The effect of one decoded opcode on the machine snapshot, before the
/// program-counter directive is applied, or the fault it is rejected with.
pub open spec fn op_effect(op: Opcode, s: MachineView) -> Result<
    (MachineView, ProgramCounter),
    Fault,
> {
    match op {
        Opcode::Nop => Ok((s, ProgramCounter::Next)),
        Opcode::Cls => Ok(
            (
                MachineView { pixels: Seq::new(2048, |p: int| false), ..s },
                ProgramCounter::Next,
            ),
        ),
        Opcode::Ret => {
            if s.cpu.sp == 0 {
                Err(Fault::StackUnderflow)
            } else {
                Ok(
                    (
                        MachineView { cpu: CpuView { sp: (s.cpu.sp - 1) as u8, ..s.cpu }, ..s },
                        ProgramCounter::Jump((s.cpu.stack[s.cpu.sp - 1] + 2) as u16),
                    ),
                )
            }
        },
        Opcode::Jp { addr } => Ok((s, ProgramCounter::Jump(addr))),
        Opcode::Call { addr } => {
            if s.cpu.sp >= 16 {
                Err(Fault::StackOverflow)
            } else {
                Ok(
                    (
                        MachineView {
                            cpu: CpuView {
                                stack: s.cpu.stack.update(s.cpu.sp as int, s.cpu.pc),
                                sp: (s.cpu.sp + 1) as u8,
                                ..s.cpu
                            },
                            ..s
                        },
                        ProgramCounter::Jump(addr),
                    ),
                )
            }
        },
        Opcode::Se { x, byte } => Ok(
            (
                s,
                if s.cpu.regs[x as int] == byte {
                    ProgramCounter::Skip
                } else {
                    ProgramCounter::Next
                },
            ),
        ),
        Opcode::Sne { x, byte } => Ok(
            (
                s,
                if s.cpu.regs[x as int] == byte {
                    ProgramCounter::Next
                } else {
                    ProgramCounter::Skip
                },
            ),
        ),
        Opcode::LdImm { x, byte } => Ok(
            (
                MachineView { cpu: CpuView { regs: s.cpu.regs.update(x as int, byte), ..s.cpu }, ..s },
                ProgramCounter::Next,
            ),
        ),
        Opcode::AddImm { x, byte } => Ok(
            (
                MachineView {
                    cpu: CpuView {
                        regs: s.cpu.regs.update(
                            x as int,
                            ((s.cpu.regs[x as int] + byte) % 256) as u8,
                        ),
                        ..s.cpu
                    },
                    ..s
                },
                ProgramCounter::Next,
            ),
        ),
        Opcode::AddR { x, y } => Ok(
            (
                MachineView {
                    cpu: CpuView { regs: add_regs(s.cpu.regs, x as int, y as int), ..s.cpu },
                    ..s
                },
                ProgramCounter::Next,
            ),
        ),
        Opcode::SubR { x, y } => Ok(
            (
                MachineView {
                    cpu: CpuView { regs: sub_regs(s.cpu.regs, x as int, y as int), ..s.cpu },
                    ..s
                },
                ProgramCounter::Next,
            ),
        ),
        Opcode::LdR { x, y } => Ok(
            (
                MachineView {
                    cpu: CpuView {
                        regs: s.cpu.regs.update(x as int, s.cpu.regs[y as int]),
                        ..s.cpu
                    },
                    ..s
                },
                ProgramCounter::Next,
            ),
        ),
        Opcode::LdiImm { addr } => Ok(
            (
                MachineView { cpu: CpuView { i: addr, ..s.cpu }, ..s },
                ProgramCounter::Next,
            ),
        ),
        Opcode::Drw { x, y, size } => {
            if s.cpu.i + size > 4096 {
                Err(Fault::MemoryOutOfRange)
            } else {
                let sprite = s.ram.subrange(s.cpu.i as int, s.cpu.i + size);
                let vx = s.cpu.regs[x as int];
                let vy = s.cpu.regs[y as int];
                let collision = draw_collision(s.pixels, vx as int, vy as int, sprite);
                Ok(
                    (
                        MachineView {
                            cpu: CpuView {
                                regs: s.cpu.regs.update(15, if collision { 1u8 } else { 0u8 }),
                                ..s.cpu
                            },
                            pixels: draw_result(s.pixels, vx as int, vy as int, sprite),
                            ..s
                        },
                        ProgramCounter::Next,
                    ),
                )
            }
        },
        Opcode::Sknp { x } => {
            let vx = s.cpu.regs[x as int];
            if vx >= 16 {
                Err(Fault::KeyOutOfRange)
            } else {
                Ok(
                    (
                        s,
                        if s.keys[vx as int] {
                            ProgramCounter::Next
                        } else {
                            ProgramCounter::Skip
                        },
                    ),
                )
            }
        },
        Opcode::Skp { x } => {
            let vx = s.cpu.regs[x as int];
            if vx >= 16 {
                Err(Fault::KeyOutOfRange)
            } else {
                Ok(
                    (
                        s,
                        if s.keys[vx as int] {
                            ProgramCounter::Skip
                        } else {
                            ProgramCounter::Next
                        },
                    ),
                )
            }
        },
        Opcode::LdRK { x } => {
            if any_pressed(s.keys) {
                let k = choose|k: int| lowest_pressed(s.keys, k);
                Ok(
                    (
                        MachineView {
                            cpu: CpuView { regs: s.cpu.regs.update(x as int, k as u8), ..s.cpu },
                            ..s
                        },
                        ProgramCounter::Next,
                    ),
                )
            } else {
                Ok((s, ProgramCounter::Wait))
            }
        },
        Opcode::AddiR { x } => Ok(
            (
                MachineView {
                    cpu: CpuView {
                        i: ((s.cpu.i + s.cpu.regs[x as int]) % 0x10000) as u16,
                        ..s.cpu
                    },
                    ..s
                },
                ProgramCounter::Next,
            ),
        ),
        Opcode::LdM { x } => {
            if s.cpu.i + x > 4095 {
                Err(Fault::MemoryOutOfRange)
            } else {
                Ok(
                    (
                        MachineView {
                            cpu: CpuView {
                                regs: load_regs(s.cpu.regs, s.ram, s.cpu.i as int, x as int),
                                ..s.cpu
                            },
                            ..s
                        },
                        ProgramCounter::Next,
                    ),
                )
            }
        },
        Opcode::SetDt { x } => Ok(
            (
                MachineView {
                    cpu: CpuView { delay_timer: s.cpu.regs[x as int], ..s.cpu },
                    ..s
                },
                ProgramCounter::Next,
            ),
        ),
        Opcode::SetSt { x } => Ok(
            (
                MachineView {
                    cpu: CpuView { sound_timer: s.cpu.regs[x as int], ..s.cpu },
                    ..s
                },
                ProgramCounter::Next,
            ),
        ),
        Opcode::LdDt { x } => Ok(
            (
                MachineView {
                    cpu: CpuView { regs: s.cpu.regs.update(x as int, s.cpu.delay_timer), ..s.cpu },
                    ..s
                },
                ProgramCounter::Next,
            ),
        ),
        Opcode::And { x, y } => Ok(
            (
                MachineView {
                    cpu: CpuView {
                        regs: s.cpu.regs.update(
                            x as int,
                            s.cpu.regs[x as int] & s.cpu.regs[y as int],
                        ),
                        ..s.cpu
                    },
                    ..s
                },
                ProgramCounter::Next,
            ),
        ),
        Opcode::Shr { x } => Ok(
            (
                MachineView {
                    cpu: CpuView { regs: shr_regs(s.cpu.regs, x as int), ..s.cpu },
                    ..s
                },
                ProgramCounter::Next,
            ),
        ),
        Opcode::XorR { x, y } => Ok(
            (
                MachineView {
                    cpu: CpuView {
                        regs: s.cpu.regs.update(
                            x as int,
                            s.cpu.regs[x as int] ^ s.cpu.regs[y as int],
                        ),
                        ..s.cpu
                    },
                    ..s
                },
                ProgramCounter::Next,
            ),
        ),
        // The random-number instruction is decoded for completeness but has
        // no handler in this machine; like an unrecognized word it falls
        // through as a no-op and execution continues.
        Opcode::Rnd { x, byte } => Ok((s, ProgramCounter::Next)),
    }
}

/// The program counter after a directive: `Next` advances 2 bytes, `Skip`
/// 4, `Jump` replaces it, `Wait` leaves it so the instruction is retried.
pub open spec fn apply_directive(c: CpuView, d: ProgramCounter) -> CpuView {
    match d {
        ProgramCounter::Next => CpuView { pc: (c.pc + 2) as u16, ..c },
        ProgramCounter::Skip => CpuView { pc: (c.pc + 4) as u16, ..c },
        ProgramCounter::Jump(addr) => CpuView { pc: addr, ..c },
        ProgramCounter::Wait => c,
    }
}

/// One whole fetch-decode-execute cycle on a machine snapshot: the result
/// snapshot and whether the display was mutated, or the fault that stopped
/// the cycle before any state changed.
pub open spec fn step_spec(s: MachineView) -> Result<(MachineView, bool), Fault> {
    if s.cpu.pc + 1 >= 4096 {
        Err(Fault::MemoryOutOfRange)
    } else {
        let op = spec_decode(fetch_word(s));
        match op_effect(op, s) {
            Err(f) => Err(f),
            Ok((s1, d)) => Ok(
                (
                    MachineView { cpu: apply_directive(s1.cpu, d), ..s1 },
                    op is Cls || op is Drw,
                ),
            ),
        }
    }
}

/// The CPU registers, timers and call stack.
pub struct Cpu {
    reg_gp: Vec<u8>,
    reg_i: u16,
    reg_sound_timer: u8,
    reg_delay: u8,
    reg_pc: u16,
    reg_sp: u8,
    stack: Vec<u16>,
}

impl View for Cpu {
    type V = CpuView;

    closed spec fn view(&self) -> CpuView {
        CpuView {
            regs: self.reg_gp@,
            i: self.reg_i,
            sound_timer: self.reg_sound_timer,
            delay_timer: self.reg_delay,
            pc: self.reg_pc,
            sp: self.reg_sp,
            stack: self.stack@,
        }
    }
}

impl Cpu {
    /// Well-formedness of the live CPU state.
    pub open spec fn wf(&self) -> bool {
        cpu_wf(self@)
    }

    /// A fresh CPU: everything zero but the program counter, which starts
    /// at the program load origin 0x200.
    pub fn new() -> (c: Cpu)
        ensures
            c.wf(),
            c@.pc == 0x200,
            c@.sp == 0,
            c@.i == 0,
            c@.delay_timer == 0,
            c@.sound_timer == 0,
            forall|k: int| 0 <= k < 16 ==> c@.regs[k] == 0,
            forall|k: int| 0 <= k < 16 ==> c@.stack[k] == 0,
    {
        Cpu {
            reg_gp: vec![0u8; 16],
            reg_i: 0,
            reg_sound_timer: 0,
            reg_delay: 0,
            reg_pc: 0x200,
            reg_sp: 0,
            stack: vec![0u16; 16],
        }
    }

    /// Read register Vx.
    pub fn get_register(&self, x: u8) -> (v: u8)
        requires
            self.wf(),
            x < 16,
        ensures
            v == self@.regs[x as int],
    {
        self.reg_gp[x as usize]
    }

    /// Read the index register I.
    pub fn get_i(&self) -> (v: u16)
        ensures
            v == self@.i,
    {
        self.reg_i
    }

    /// Read the program counter.
    pub fn get_pc(&self) -> (v: u16)
        ensures
            v == self@.pc,
    {
        self.reg_pc
    }

    /// Read the stack pointer (current call depth).
    pub fn get_sp(&self) -> (v: u8)
        ensures
            v == self@.sp,
    {
        self.reg_sp
    }

    /// Read the delay timer.
    pub fn get_delay_timer(&self) -> (v: u8)
        ensures
            v == self@.delay_timer,
    {
        self.reg_delay
    }

    /// Read the sound timer.
    pub fn get_sound_timer(&self) -> (v: u8)
        ensures
            v == self@.sound_timer,
    {
        self.reg_sound_timer
    }

    /// Count down both timers by one tick: a timer above zero decrements,
    /// a timer at zero stays at zero, never wrapping below.
    pub fn tick_timers(&mut self)
        requires
            old(self).wf(),
        ensures
            final(self).wf(),
            final(self)@ == (CpuView {
                delay_timer: if old(self)@.delay_timer > 0 {
                    (old(self)@.delay_timer - 1) as u8
                } else {
                    0u8
                },
                sound_timer: if old(self)@.sound_timer > 0 {
                    (old(self)@.sound_timer - 1) as u8
                } else {
                    0u8
                },
                ..old(self)@
            }),
    {
        if self.reg_delay > 0 {
            self.reg_delay = self.reg_delay - 1;
        }
        if self.reg_sound_timer > 0 {
            self.reg_sound_timer = self.reg_sound_timer - 1;
        }
    }

    fn jp_addr(&mut self, addr: u16) -> (r: ProgramCounter)
        ensures
            final(self)@ == old(self)@,
            r == ProgramCounter::Jump(addr),
    {
        ProgramCounter::Jump(addr)
    }

    fn call_addr(&mut self, addr: u16) -> (r: Result<ProgramCounter, Fault>)
        requires
            old(self).wf(),
            old(self)@.pc <= 0xFFE,
        ensures
            final(self).wf(),
            old(self)@.sp >= 16 ==> r == Err::<ProgramCounter, Fault>(Fault::StackOverflow)
                && final(self)@ == old(self)@,
            old(self)@.sp < 16 ==> r == Ok::<ProgramCounter, Fault>(ProgramCounter::Jump(addr))
                && final(self)@ == (CpuView {
                stack: old(self)@.stack.update(old(self)@.sp as int, old(self)@.pc),
                sp: (old(self)@.sp + 1) as u8,
                ..old(self)@
            }),
    {
        if self.reg_sp >= 16 {
            return Err(Fault::StackOverflow);
        }
        self.stack[self.reg_sp as usize] = self.reg_pc;
        self.reg_sp = self.reg_sp + 1;
        proof {
            assert(self@ =~= (CpuView {
                stack: old(self)@.stack.update(old(self)@.sp as int, old(self)@.pc),
                sp: (old(self)@.sp + 1) as u8,
                ..old(self)@
            }));
        }
        Ok(ProgramCounter::Jump(addr))
    }

    fn ret(&mut self) -> (r: Result<ProgramCounter, Fault>)
        requires
            old(self).wf(),
        ensures
            final(self).wf(),
            old(self)@.sp == 0 ==> r == Err::<ProgramCounter, Fault>(Fault::StackUnderflow)
                && final(self)@ == old(self)@,
            old(self)@.sp > 0 ==> r == Ok::<ProgramCounter, Fault>(
                ProgramCounter::Jump((old(self)@.stack[old(self)@.sp - 1] + 2) as u16),
            ) && final(self)@ == (CpuView { sp: (old(self)@.sp - 1) as u8, ..old(self)@ }),
    {
        if self.reg_sp == 0 {
            return Err(Fault::StackUnderflow);
        }
        let addr = self.stack[self.reg_sp as usize - 1];
        self.reg_sp = self.reg_sp - 1;
        proof {
            assert(self@ =~= (CpuView { sp: (old(self)@.sp - 1) as u8, ..old(self)@ }));
        }
        Ok(ProgramCounter::Jump(addr + 2))
    }

    fn se_vx_byte(&mut self, x: u8, byte: u8) -> (r: ProgramCounter)
        requires
            old(self).wf(),
            x < 16,
        ensures
            final(self)@ == old(self)@,
            r == if old(self)@.regs[x as int] == byte {
                ProgramCounter::Skip
            } else {
                ProgramCounter::Next
            },
    {
        if self.reg_gp[x as usize] == byte {
            ProgramCounter::Skip
        } else {
            ProgramCounter::Next
        }
    }

    fn sne_vx_byte(&mut self, x: u8, byte: u8) -> (r: ProgramCounter)
        requires
            old(self).wf(),
            x < 16,
        ensures
            final(self)@ == old(self)@,
            r == if old(self)@.regs[x as int] == byte {
                ProgramCounter::Next
            } else {
                ProgramCounter::Skip
            },
    {
        if self.reg_gp[x as usize] == byte {
            ProgramCounter::Next
        } else {
            ProgramCounter::Skip
        }
    }

    fn ld_vx_byte(&mut self, x: u8, byte: u8) -> (r: ProgramCounter)
        requires
            old(self).wf(),
            x < 16,
        ensures
            final(self).wf(),
            final(self)@ == (CpuView { regs: old(self)@.regs.update(x as int, byte), ..old(self)@ }),
            r == ProgramCounter::Next,
    {
        self.reg_gp[x as usize] = byte;
        proof {
            assert(self@ =~= (CpuView {
                regs: old(self)@.regs.update(x as int, byte),
                ..old(self)@
            }));
        }
        ProgramCounter::Next
    }

    fn add_vx_byte(&mut self, x: u8, byte: u8) -> (r: ProgramCounter)
        requires
            old(self).wf(),
            x < 16,
        ensures
            final(self).wf(),
            final(self)@ == (CpuView {
                regs: old(self)@.regs.update(
                    x as int,
                    ((old(self)@.regs[x as int] + byte) % 256) as u8,
                ),
                ..old(self)@
            }),
            r == ProgramCounter::Next,
    {
        let val: u16 = (self.reg_gp[x as usize] as u16 + byte as u16) % 256;
        self.reg_gp[x as usize] = val as u8;
        proof {
            assert(self@ =~= (CpuView {
                regs: old(self)@.regs.update(
                    x as int,
                    ((old(self)@.regs[x as int] + byte) % 256) as u8,
                ),
                ..old(self)@
            }));
        }
        ProgramCounter::Next
    }

    fn add_vx_vy(&mut self, x: u8, y: u8) -> (r: ProgramCounter)
        requires
            old(self).wf(),
            x < 16,
            y < 16,
        ensures
            final(self).wf(),
            final(self)@ == (CpuView {
                regs: add_regs(old(self)@.regs, x as int, y as int),
                ..old(self)@
            }),
            r == ProgramCounter::Next,
    {
        let val: u16 = self.reg_gp[x as usize] as u16 + self.reg_gp[y as usize] as u16;
        self.reg_gp[15] = if val > 0xFF {
            1
        } else {
            0
        };
        self.reg_gp[x as usize] = (val % 256) as u8;
        proof {
            assert(self@ =~= (CpuView {
                regs: add_regs(old(self)@.regs, x as int, y as int),
                ..old(self)@
            }));
        }
        ProgramCounter::Next
    }

    fn sub_vx_vy(&mut self, x: u8, y: u8) -> (r: ProgramCounter)
        requires
            old(self).wf(),
            x < 16,
            y < 16,
        ensures
            final(self).wf(),
            final(self)@ == (CpuView {
                regs: sub_regs(old(self)@.regs, x as int, y as int),
                ..old(self)@
            }),
            r == ProgramCounter::Next,
    {
        let vx = self.reg_gp[x as usize];
        let vy = self.reg_gp[y as usize];
        if vx > vy {
            self.reg_gp[15] = 1;
            self.reg_gp[x as usize] = vx - vy;
        } else {
            self.reg_gp[15] = 0;
            self.reg_gp[x as usize] = 0;
        }
        proof {
            assert(self@ =~= (CpuView {
                regs: sub_regs(old(self)@.regs, x as int, y as int),
                ..old(self)@
            }));
        }
        ProgramCounter::Next
    }

    fn ld_vx_vy(&mut self, x: u8, y: u8) -> (r: ProgramCounter)
        requires
            old(self).wf(),
            x < 16,
            y < 16,
        ensures
            final(self).wf(),
            final(self)@ == (CpuView {
                regs: old(self)@.regs.update(x as int, old(self)@.regs[y as int]),
                ..old(self)@
            }),
            r == ProgramCounter::Next,
    {
        self.reg_gp[x as usize] = self.reg_gp[y as usize];
        proof {
            assert(self@ =~= (CpuView {
                regs: old(self)@.regs.update(x as int, old(self)@.regs[y as int]),
                ..old(self)@
            }));
        }
        ProgramCounter::Next
    }

    fn ld_i_addr(&mut self, addr: u16) -> (r: ProgramCounter)
        requires
            old(self).wf(),
        ensures
            final(self).wf(),
            final(self)@ == (CpuView { i: addr, ..old(self)@ }),
            r == ProgramCounter::Next,
    {
        self.reg_i = addr;
        proof {
            assert(self@ =~= (CpuView { i: addr, ..old(self)@ }));
        }
        ProgramCounter::Next
    }

    fn add_i_vx(&mut self, x: u8) -> (r: ProgramCounter)
        requires
            old(self).wf(),
            x < 16,
        ensures
            final(self).wf(),
            final(self)@ == (CpuView {
                i: ((old(self)@.i + old(self)@.regs[x as int]) % 0x10000) as u16,
                ..old(self)@
            }),
            r == ProgramCounter::Next,
    {
        let sum: u32 = (self.reg_i as u32 + self.reg_gp[x as usize] as u32) % 0x10000;
        self.reg_i = sum as u16;
        proof {
            assert(self@ =~= (CpuView {
                i: ((old(self)@.i + old(self)@.regs[x as int]) % 0x10000) as u16,
                ..old(self)@
            }));
        }
        ProgramCounter::Next
    }

    fn set_dt(&mut self, x: u8) -> (r: ProgramCounter)
        requires
            old(self).wf(),
            x < 16,
        ensures
            final(self).wf(),
            final(self)@ == (CpuView { delay_timer: old(self)@.regs[x as int], ..old(self)@ }),
            r == ProgramCounter::Next,
    {
        self.reg_delay = self.reg_gp[x as usize];
        proof {
            assert(self@ =~= (CpuView { delay_timer: old(self)@.regs[x as int], ..old(self)@ }));
        }
        ProgramCounter::Next
    }

    fn set_st(&mut self, x: u8) -> (r: ProgramCounter)
        requires
            old(self).wf(),
            x < 16,
        ensures
            final(self).wf(),
            final(self)@ == (CpuView { sound_timer: old(self)@.regs[x as int], ..old(self)@ }),
            r == ProgramCounter::Next,
    {
        self.reg_sound_timer = self.reg_gp[x as usize];
        proof {
            assert(self@ =~= (CpuView { sound_timer: old(self)@.regs[x as int], ..old(self)@ }));
        }
        ProgramCounter::Next
    }

    fn ld_dt(&mut self, x: u8) -> (r: ProgramCounter)
        requires
            old(self).wf(),
            x < 16,
        ensures
            final(self).wf(),
            final(self)@ == (CpuView {
                regs: old(self)@.regs.update(x as int, old(self)@.delay_timer),
                ..old(self)@
            }),
            r == ProgramCounter::Next,
    {
        self.reg_gp[x as usize] = self.reg_delay;
        proof {
            assert(self@ =~= (CpuView {
                regs: old(self)@.regs.update(x as int, old(self)@.delay_timer),
                ..old(self)@
            }));
        }
        ProgramCounter::Next
    }

    fn and(&mut self, x: u8, y: u8) -> (r: ProgramCounter)
        requires
            old(self).wf(),
            x < 16,
            y < 16,
        ensures
            final(self).wf(),
            final(self)@ == (CpuView {
                regs: old(self)@.regs.update(
                    x as int,
                    old(self)@.regs[x as int] & old(self)@.regs[y as int],
                ),
                ..old(self)@
            }),
            r == ProgramCounter::Next,
    {
        let v = self.reg_gp[x as usize] & self.reg_gp[y as usize];
        self.reg_gp[x as usize] = v;
        proof {
            assert(self@ =~= (CpuView {
                regs: old(self)@.regs.update(
                    x as int,
                    old(self)@.regs[x as int] & old(self)@.regs[y as int],
                ),
                ..old(self)@
            }));
        }
        ProgramCounter::Next
    }

    fn xor_vx_vy(&mut self, x: u8, y: u8) -> (r: ProgramCounter)
        requires
            old(self).wf(),
            x < 16,
            y < 16,
        ensures
            final(self).wf(),
            final(self)@ == (CpuView {
                regs: old(self)@.regs.update(
                    x as int,
                    old(self)@.regs[x as int] ^ old(self)@.regs[y as int],
                ),
                ..old(self)@
            }),
            r == ProgramCounter::Next,
    {
        let v = self.reg_gp[x as usize] ^ self.reg_gp[y as usize];
        self.reg_gp[x as usize] = v;
        proof {
            assert(self@ =~= (CpuView {
                regs: old(self)@.regs.update(
                    x as int,
                    old(self)@.regs[x as int] ^ old(self)@.regs[y as int],
                ),
                ..old(self)@
            }));
        }
        ProgramCounter::Next
    }

    fn shr(&mut self, x: u8) -> (r: ProgramCounter)
        requires
            old(self).wf(),
            x < 16,
        ensures
            final(self).wf(),
            final(self)@ == (CpuView { regs: shr_regs(old(self)@.regs, x as int), ..old(self)@ }),
            r == ProgramCounter::Next,
    {
        self.reg_gp[15] = self.reg_gp[x as usize] & 1;
        self.reg_gp[x as usize] = self.reg_gp[x as usize] / 2;
        proof {
            assert(self@ =~= (CpuView { regs: shr_regs(old(self)@.regs, x as int), ..old(self)@ }));
        }
        ProgramCounter::Next
    }

    fn cls(&mut self, display: &mut Display) -> (r: ProgramCounter)
        requires
            old(display).wf(),
        ensures
            final(self)@ == old(self)@,
            final(display).wf(),
            final(display)@ == Seq::new(2048, |p: int| false),
            final(display).fg() == old(display).fg(),
            final(display).bg() == old(display).bg(),
            r == ProgramCounter::Next,
    {
        display.clear();
        proof {
            assert(display@ =~= Seq::new(2048, |p: int| false));
        }
        ProgramCounter::Next
    }

    fn skp_vx(&mut self, x: u8, keyboard_state: &KeyboardState) -> (r: Result<
        ProgramCounter,
        Fault,
    >)
        requires
            old(self).wf(),
            keyboard_state.wf(),
            x < 16,
        ensures
            final(self)@ == old(self)@,
            ({
                let vx = old(self)@.regs[x as int];
                if vx >= 16 {
                    r == Err::<ProgramCounter, Fault>(Fault::KeyOutOfRange)
                } else {
                    r == Ok::<ProgramCounter, Fault>(
                        if keyboard_state@[vx as int] {
                            ProgramCounter::Skip
                        } else {
                            ProgramCounter::Next
                        },
                    )
                }
            }),
    {
        let vx = self.reg_gp[x as usize];
        if vx >= 16 {
            return Err(Fault::KeyOutOfRange);
        }
        if keyboard_state.is_key_pressed(vx) {
            Ok(ProgramCounter::Skip)
        } else {
            Ok(ProgramCounter::Next)
        }
    }

    fn sknp_vx(&mut self, x: u8, keyboard_state: &KeyboardState) -> (r: Result<
        ProgramCounter,
        Fault,
    >)
        requires
            old(self).wf(),
            keyboard_state.wf(),
            x < 16,
        ensures
            final(self)@ == old(self)@,
            ({
                let vx = old(self)@.regs[x as int];
                if vx >= 16 {
                    r == Err::<ProgramCounter, Fault>(Fault::KeyOutOfRange)
                } else {
                    r == Ok::<ProgramCounter, Fault>(
                        if keyboard_state@[vx as int] {
                            ProgramCounter::Next
                        } else {
                            ProgramCounter::Skip
                        },
                    )
                }
            }),
    {
        let vx = self.reg_gp[x as usize];
        if vx >= 16 {
            return Err(Fault::KeyOutOfRange);
        }
        if keyboard_state.is_key_pressed(vx) {
            Ok(ProgramCounter::Next)
        } else {
            Ok(ProgramCounter::Skip)
        }
    }

    fn ld_vx_k(&mut self, x: u8, keyboard_state: &KeyboardState) -> (r: ProgramCounter)
        requires
            old(self).wf(),
            keyboard_state.wf(),
            x < 16,
        ensures
            final(self).wf(),
            !any_pressed(keyboard_state@) ==> r == ProgramCounter::Wait && final(self)@ == old(
                self,
            )@,
            any_pressed(keyboard_state@) ==> r == ProgramCounter::Next && final(self)@ == (CpuView {
                regs: old(self)@.regs.update(
                    x as int,
                    (choose|k: int| lowest_pressed(keyboard_state@, k)) as u8,
                ),
                ..old(self)@
            }),
    {
        let pressed_keys = keyboard_state.get_pressed_keys();
        if pressed_keys.len() > 0 {
            let lowest = pressed_keys[0];
            proof {
                assert(lowest_pressed(keyboard_state@, lowest as int));
                let kc = choose|k: int| lowest_pressed(keyboard_state@, k);
                if kc < lowest as int {
                    assert(!keyboard_state@[kc]);
                } else if kc > lowest as int {
                    assert(!keyboard_state@[lowest as int]);
                }
                assert(kc == lowest as int);
            }
            self.reg_gp[x as usize] = lowest;
            proof {
                assert(self@ =~= (CpuView {
                    regs: old(self)@.regs.update(
                        x as int,
                        (choose|k: int| lowest_pressed(keyboard_state@, k)) as u8,
                    ),
                    ..old(self)@
                }));
            }
            ProgramCounter::Next
        } else {
            ProgramCounter::Wait
        }
    }

    fn ld_vx_i(&mut self, x: u8, memory: &Memory) -> (r: Result<ProgramCounter, Fault>)
        requires
            old(self).wf(),
            memory.wf(),
            x < 16,
        ensures
            final(self).wf(),
            old(self)@.i + x > 4095 ==> r == Err::<ProgramCounter, Fault>(Fault::MemoryOutOfRange)
                && final(self)@ == old(self)@,
            old(self)@.i + x <= 4095 ==> r == Ok::<ProgramCounter, Fault>(ProgramCounter::Next)
                && final(self)@ == (CpuView {
                regs: load_regs(old(self)@.regs, memory@, old(self)@.i as int, x as int),
                ..old(self)@
            }),
    {
        if self.reg_i as usize + x as usize > 4095 {
            return Err(Fault::MemoryOutOfRange);
        }
        let mut k: usize = 0;
        while k < x as usize + 1
            invariant
                self@.regs.len() == 16,
                x < 16,
                k <= x + 1,
                memory.wf(),
                old(self)@.i + x <= 4095,
                self@.i == old(self)@.i,
                self@.pc == old(self)@.pc,
                self@.sp == old(self)@.sp,
                self@.stack == old(self)@.stack,
                self@.delay_timer == old(self)@.delay_timer,
                self@.sound_timer == old(self)@.sound_timer,
                forall|j: int| 0 <= j < k ==> self@.regs[j] == memory@[old(self)@.i + j],
                forall|j: int| k <= j < 16 ==> self@.regs[j] == old(self)@.regs[j],
            decreases x + 1 - k,
        {
            let b = memory.read_byte(self.reg_i + k as u16);
            self.reg_gp[k] = b;
            k += 1;
        }
        proof {
            assert(self@.regs =~= load_regs(old(self)@.regs, memory@, old(self)@.i as int, x as int));
            assert(self@ =~= (CpuView {
                regs: load_regs(old(self)@.regs, memory@, old(self)@.i as int, x as int),
                ..old(self)@
            }));
        }
        Ok(ProgramCounter::Next)
    }

    fn drw_vx_vy_nibble(
        &mut self,
        x: u8,
        y: u8,
        nibble: u8,
        memory: &Memory,
        display: &mut Display,
    ) -> (r: Result<ProgramCounter, Fault>)
        requires
            old(self).wf(),
            memory.wf(),
            old(display).wf(),
            x < 16,
            y < 16,
            nibble <= 15,
        ensures
            final(self).wf(),
            final(display).wf(),
            final(display).fg() == old(display).fg(),
            final(display).bg() == old(display).bg(),
            old(self)@.i + nibble > 4096 ==> r == Err::<ProgramCounter, Fault>(
                Fault::MemoryOutOfRange,
            ) && final(self)@ == old(self)@ && final(display)@ == old(display)@,
            old(self)@.i + nibble <= 4096 ==> ({
                let sprite = memory@.subrange(old(self)@.i as int, old(self)@.i + nibble);
                let vx = old(self)@.regs[x as int];
                let vy = old(self)@.regs[y as int];
                let collision = draw_collision(old(display)@, vx as int, vy as int, sprite);
                r == Ok::<ProgramCounter, Fault>(ProgramCounter::Next) && final(display)@
                    == draw_result(old(display)@, vx as int, vy as int, sprite) && final(self)@
                    == (CpuView {
                    regs: old(self)@.regs.update(
                        15,
                        if collision {
                            1u8
                        } else {
                            0u8
                        },
                    ),
                    ..old(self)@
                })
            }),
    {
        if self.reg_i as usize + nibble as usize > 4096 {
            return Err(Fault::MemoryOutOfRange);
        }
        let sprite = memory.read_chunk(self.reg_i, nibble as usize);
        let mut set_vflag = false;
        display.draw(self.reg_gp[x as usize], self.reg_gp[y as usize], sprite, &mut set_vflag);
        self.reg_gp[15] = if set_vflag {
            1
        } else {
            0
        };
        proof {
            let sprite_spec = memory@.subrange(old(self)@.i as int, old(self)@.i + nibble);
            let vx = old(self)@.regs[x as int];
            let vy = old(self)@.regs[y as int];
            let collision = draw_collision(old(display)@, vx as int, vy as int, sprite_spec);
            assert(self@ =~= (CpuView {
                regs: old(self)@.regs.update(
                    15,
                    if collision {
                        1u8
                    } else {
                        0u8
                    },
                ),
                ..old(self)@
            }));
        }
        Ok(ProgramCounter::Next)
    }

    /// One fetch-decode-execute cycle against the given memory, display
    /// and keyboard snapshot, exactly as [`step_spec`] describes it: on
    /// success the new machine state is `step_spec`'s snapshot and
    /// `redraw` says whether the display changed; on a fault nothing has
    /// changed and the fault is `step_spec`'s.
    #[verifier::rlimit(60)]
    pub fn step(
        &mut self,
        memory: &mut Memory,
        display: &mut Display,
        keyboard_state: &KeyboardState,
    ) -> (r: Result<ProgramChange, Fault>)
        requires
            old(self).wf(),
            old(memory).wf(),
            old(display).wf(),
            keyboard_state.wf(),
        ensures
            final(self).wf(),
            final(memory).wf(),
            final(display).wf(),
            final(memory)@ == old(memory)@,
            final(display).fg() == old(display).fg(),
            final(display).bg() == old(display).bg(),
            ({
                let pre = MachineView {
                    cpu: old(self)@,
                    ram: old(memory)@,
                    pixels: old(display)@,
                    keys: keyboard_state@,
                };
                match step_spec(pre) {
                    Ok((post, redraw)) => r matches Ok(c) && c.redraw == redraw && final(self)@
                        == post.cpu && final(display)@ == post.pixels,
                    Err(f) => r == Err::<ProgramChange, Fault>(f) && final(self)@ == old(self)@
                        && final(display)@ == old(display)@,
                }
            }),
    {
        let ghost pre = MachineView {
            cpu: self@,
            ram: memory@,
            pixels: display@,
            keys: keyboard_state@,
        };
        if self.reg_pc > 0xFFE {
            return Err(Fault::MemoryOutOfRange);
        }
        let instruction = memory.read_doublebyte(self.reg_pc);
        let opcode = Opcode::decode(instruction);
        proof {
            lemma_decode_operand_ranges(instruction);
            assert(instruction == fetch_word(pre));
        }
        let mut redraw = false;
        let directive = match opcode {
            Opcode::Nop => ProgramCounter::Next,
            Opcode::Cls => {
                redraw = true;
                self.cls(display)
            },
            Opcode::Ret => match self.ret() {
                Ok(d) => d,
                Err(f) => {
                    return Err(f);
                },
            },
            Opcode::Jp { addr } => self.jp_addr(addr),
            Opcode::Call { addr } => match self.call_addr(addr) {
                Ok(d) => d,
                Err(f) => {
                    return Err(f);
                },
            },
            Opcode::Se { x, byte } => self.se_vx_byte(x, byte),
            Opcode::Sne { x, byte } => self.sne_vx_byte(x, byte),
            Opcode::LdImm { x, byte } => self.ld_vx_byte(x, byte),
            Opcode::AddImm { x, byte } => self.add_vx_byte(x, byte),
            Opcode::AddR { x, y } => self.add_vx_vy(x, y),
            Opcode::SubR { x, y } => self.sub_vx_vy(x, y),
            Opcode::LdR { x, y } => self.ld_vx_vy(x, y),
            Opcode::LdiImm { addr } => self.ld_i_addr(addr),
            Opcode::Drw { x, y, size } => {
                redraw = true;
                match self.drw_vx_vy_nibble(x, y, size, memory, display) {
                    Ok(d) => d,
                    Err(f) => {
                        return Err(f);
                    },
                }
            },
            Opcode::Sknp { x } => match self.sknp_vx(x, keyboard_state) {
                Ok(d) => d,
                Err(f) => {
                    return Err(f);
                },
            },
            Opcode::Skp { x } => match self.skp_vx(x, keyboard_state) {
                Ok(d) => d,
                Err(f) => {
                    return Err(f);
                },
            },
            Opcode::LdRK { x } => self.ld_vx_k(x, keyboard_state),
            Opcode::AddiR { x } => self.add_i_vx(x),
            Opcode::LdM { x } => match self.ld_vx_i(x, memory) {
                Ok(d) => d,
                Err(f) => {
                    return Err(f);
                },
            },
            Opcode::SetDt { x } => self.set_dt(x),
            Opcode::SetSt { x } => self.set_st(x),
            Opcode::LdDt { x } => self.ld_dt(x),
            Opcode::And { x, y } => self.and(x, y),
            Opcode::Shr { x } => self.shr(x),
            Opcode::XorR { x, y } => self.xor_vx_vy(x, y),
            Opcode::Rnd { x: _, byte: _ } => ProgramCounter::Next,
        };
        match directive {
            ProgramCounter::Next => {
                self.reg_pc = self.reg_pc + 2;
            },
            ProgramCounter::Jump(addr) => {
                self.reg_pc = addr;
            },
            ProgramCounter::Skip => {
                self.reg_pc = self.reg_pc + 4;
            },
            ProgramCounter::Wait => {},
        }
        proof {
            match step_spec(pre) {
                Ok((post, rd)) => {
                    assert(self@ =~= post.cpu);
                    assert(display@ =~= post.pixels);
                    assert(rd == redraw);
                },
                Err(f) => {
                    assert(false);
                },
            }
        }
        Ok(ProgramChange { redraw })
    }
}

/// A `CALL addr` followed immediately by the `RET` it jumped to resumes
/// at the instruction after the call site: two steps later the program
/// counter is exactly the call site plus 2.
pub proof fn lemma_call_then_ret(s: MachineView, addr: u16)
    requires
        mview_wf(s),
        s.cpu.pc + 1 < 4096,
        spec_decode(fetch_word(s)) == (Opcode::Call { addr }),
        s.cpu.sp < 16,
        addr + 1 < 4096,
        spec_decode(fetch_word_at(s.ram, addr as int)) == Opcode::Ret,
    ensures
        step_spec(s) matches Ok(p1) && step_spec(p1.0) matches Ok(p2) && p2.0.cpu.pc == s.cpu.pc
            + 2,
{
    let p1 = match step_spec(s) {
        Ok(p1) => p1,
        Err(_) => arbitrary(),
    };
    let s1 = p1.0;
    assert(s1.cpu.pc == addr);
    assert(s1.cpu.sp == s.cpu.sp + 1);
    assert(s1.cpu.stack[s.cpu.sp as int] == s.cpu.pc);
    assert(fetch_word(s1) == fetch_word_at(s.ram, addr as int));
}

/// `ADD Vx, Vy` stores the 8-bit wrapped sum of the operands in Vx, and
/// VF becomes 1 exactly when the unsigned sum exceeds 255 — except when
/// Vx is VF itself, which the stored sum then overwrites.
pub proof fn lemma_add_carry(regs: Seq<u8>, x: int, y: int)
    requires
        regs.len() == 16,
        0 <= x < 16,
        0 <= y < 16,
    ensures
        add_regs(regs, x, y)[x] == (regs[x] + regs[y]) % 256,
        x != 15 ==> (add_regs(regs, x, y)[15] == 1 <==> regs[x] + regs[y] > 255),
        x != 15 ==> (add_regs(regs, x, y)[15] == 0 <==> regs[x] + regs[y] <= 255),
        forall|k: int| 0 <= k < 16 && k != x && k != 15 ==> add_regs(regs, x, y)[k] == regs[k],
{
}

/// After a `CLS` step, reading any of the 64x32 pixels yields off.
pub proof fn lemma_cls_clears(s: MachineView)
    requires
        mview_wf(s),
        s.cpu.pc + 1 < 4096,
        spec_decode(fetch_word(s)) == Opcode::Cls,
    ensures
        step_spec(s) matches Ok(p) && forall|q: int| 0 <= q < 2048 ==> !p.0.pixels[q],
{
}

/// After a `DRW` step that is in range, VF reads 1 exactly when some
/// 1-bit of the sprite landed on a pixel that was on before the draw.
pub proof fn lemma_drw_sets_collision_flag(s: MachineView, x: u8, y: u8, size: u8)
    requires
        mview_wf(s),
        s.cpu.pc + 1 < 4096,
        spec_decode(fetch_word(s)) == (Opcode::Drw { x, y, size }),
        s.cpu.i + size <= 4096,
    ensures
        step_spec(s) matches Ok(p) && (p.0.cpu.regs[15] == 1 <==> crate::display::draw_collision(
            s.pixels,
            s.cpu.regs[x as int] as int,
            s.cpu.regs[y as int] as int,
            s.ram.subrange(s.cpu.i as int, s.cpu.i + size),
        )),
{
    lemma_decode_operand_ranges(fetch_word(s));
}

} // verus!
