//! The composed machine: CPU, memory, display and keyboard snapshot.
//!
//! A host owns the window, the time source and the input events; it loads
//! a program here, feeds key states in, steps the machine at its chosen
//! rates, and reads the framebuffer out.

use crate::cpu::Cpu;
use crate::cpu::Fault;
use crate::cpu::MachineView;
use crate::cpu::ProgramChange;
use crate::cpu::step_spec;
use crate::display::Display;
use crate::keyboard::KeyboardState;
use crate::memory::Memory;
use vstd::prelude::*;

verus! {

/// A whole CHIP-8 machine.
pub struct Chip8 {
    /// Registers, stack and timers.
    pub cpu: Cpu,
    /// The 4096-byte address space.
    pub memory: Memory,
    /// The 64x32 framebuffer.
    pub display: Display,
    /// The 16-key snapshot the CPU reads during a step.
    pub keyboard: KeyboardState,
}

impl Chip8 {
    /// Well-formedness of all components.
    pub open spec fn wf(&self) -> bool {
        &&& self.cpu.wf()
        &&& self.memory.wf()
        &&& self.display.wf()
        &&& self.keyboard.wf()
    }

    /// The machine as the snapshot that [`step_spec`] speaks about.
    pub open spec fn view_spec(&self) -> MachineView {
        MachineView {
            cpu: self.cpu@,
            ram: self.memory@,
            pixels: self.display@,
            keys: self.keyboard@,
        }
    }

    /// A fresh machine with `program` loaded verbatim at 0x200.
    /// A program longer than the 3584 bytes of memory above the load
    /// origin is rejected before anything is built.
    pub fn new(program: &[u8]) -> (r: Result<Chip8, Fault>)
        ensures
            program@.len() > 3584 ==> r == Err::<Chip8, Fault>(Fault::MemoryOutOfRange),
            program@.len() <= 3584 ==> (r matches Ok(m) && {
                &&& m.wf()
                &&& m.cpu@.pc == 0x200
                &&& m.cpu@.sp == 0
                &&& m.cpu@.i == 0
                &&& m.cpu@.delay_timer == 0
                &&& m.cpu@.sound_timer == 0
                &&& (forall|k: int| 0 <= k < 16 ==> m.cpu@.regs[k] == 0)
                &&& (forall|a: int|
                    0x200 <= a < 0x200 + program@.len() ==> m.memory@[a] == program@[a - 0x200])
                &&& (forall|a: int|
                    0 <= a < 4096 && !(0x200 <= a < 0x200 + program@.len()) ==> m.memory@[a] == 0)
                &&& (forall|p: int| 0 <= p < 2048 ==> !m.display@[p])
                &&& (forall|k: int| 0 <= k < 16 ==> !m.keyboard@[k])
            }),
    {
        if program.len() > 3584 {
            return Err(Fault::MemoryOutOfRange);
        }
        let cpu = Cpu::new();
        let mut memory = Memory::new();
        memory.write_chunk(0x200, program);
        Ok(
            Chip8 {
                cpu,
                memory,
                display: Display::new(),
                keyboard: KeyboardState::new(),
            },
        )
    }

    /// One fetch-decode-execute cycle, as [`step_spec`] describes it on
    /// this machine's snapshot; the keyboard is read, never changed.
    pub fn step(&mut self) -> (r: Result<ProgramChange, Fault>)
        requires
            old(self).wf(),
        ensures
            final(self).wf(),
            final(self).memory@ == old(self).memory@,
            final(self).keyboard@ == old(self).keyboard@,
            final(self).display.fg() == old(self).display.fg(),
            final(self).display.bg() == old(self).display.bg(),
            match step_spec(old(self).view_spec()) {
                Ok((post, redraw)) => r matches Ok(c) && c.redraw == redraw && final(self).cpu@
                    == post.cpu && final(self).display@ == post.pixels,
                Err(f) => r == Err::<ProgramChange, Fault>(f) && final(self).cpu@ == old(self).cpu@
                    && final(self).display@ == old(self).display@,
            },
    {
        self.cpu.step(&mut self.memory, &mut self.display, &self.keyboard)
    }

    /// Count down both timers by one tick, saturating at zero.
    pub fn tick_timers(&mut self)
        requires
            old(self).wf(),
        ensures
            final(self).wf(),
            final(self).memory@ == old(self).memory@,
            final(self).display@ == old(self).display@,
            final(self).keyboard@ == old(self).keyboard@,
            final(self).cpu@.delay_timer == if old(self).cpu@.delay_timer > 0 {
                (old(self).cpu@.delay_timer - 1) as u8
            } else {
                0u8
            },
            final(self).cpu@.sound_timer == if old(self).cpu@.sound_timer > 0 {
                (old(self).cpu@.sound_timer - 1) as u8
            } else {
                0u8
            },
            final(self).cpu@.regs == old(self).cpu@.regs,
            final(self).cpu@.pc == old(self).cpu@.pc,
            final(self).cpu@.i == old(self).cpu@.i,
            final(self).cpu@.sp == old(self).cpu@.sp,
            final(self).cpu@.stack == old(self).cpu@.stack,
    {
        self.cpu.tick_timers();
    }

    /// Record one key of the pad as held or released.
    pub fn set_key(&mut self, key: u8, pressed: bool)
        requires
            old(self).wf(),
            key < 16,
        ensures
            final(self).wf(),
            final(self).keyboard@ == old(self).keyboard@.update(key as int, pressed),
            final(self).cpu@ == old(self).cpu@,
            final(self).memory@ == old(self).memory@,
            final(self).display@ == old(self).display@,
    {
        self.keyboard.set_key(key, pressed);
    }
}

} // verus!
