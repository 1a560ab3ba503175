//! A verified core for a classic 8-bit handheld game console: CPU, memory
//! routing, cartridge bank switching, input latch and scanline renderer.
//!
//! Every state transition of the machine is described by a spec-level
//! function, and the executable code is proved to follow it exactly.
use vstd::prelude::*;

pub mod cpu;
pub mod gpu;
pub mod input;
pub mod mbc;
pub mod mmu;

verus! {

/// The fatal conditions the emulator can report.
///
/// `InvalidCartridge` is raised at construction time for an empty ROM image;
/// `UnsupportedInstruction` carries the opcode byte of an undefined encoding,
/// after which emulation must not continue.
#[derive(Copy, Clone, PartialEq, Eq, Structural, Debug)]
pub enum EmuError {
    InvalidCartridge,
    UnsupportedInstruction(u8),
}

/// Pixels per framebuffer row.
pub const DISPLAY_WIDTH: u32 = 160;

/// Framebuffer rows.
pub const DISPLAY_HEIGHT: u32 = 144;

/// One clock budget for a frame-advance call: the clocks of one full
/// 154-scanline display cycle.
pub const FRAME_TICKS: u32 = 70224;

/// The whole console: the processor (which owns the memory map and through
/// it every device) and the fixed display dimensions.
pub struct GameBoy {
    pub width: u32,
    pub height: u32,
    pub cpu: cpu::Cpu,
}

impl GameBoy {
    /// The machine invariant: the memory map is well formed and the
    /// dimensions are the console's.
    pub open spec fn wf(self) -> bool {
        &&& self.cpu.wf()
        &&& self.width == DISPLAY_WIDTH
        &&& self.height == DISPLAY_HEIGHT
    }

    /// Build a console around a cartridge image. An empty image is
    /// rejected as an invalid cartridge before any cycle executes; any
    /// other image is accepted (reads past its end degrade to the fill
    /// byte) and the machine starts at the documented power-on state.
    pub fn new(rom_data: Vec<u8>) -> (r: Result<GameBoy, EmuError>)
        ensures
            r is Err <==> rom_data@.len() == 0,
            r is Err ==> r == Err::<GameBoy, EmuError>(EmuError::InvalidCartridge),
            r is Ok ==> (r->Ok_0).wf() && (r->Ok_0).cpu.memory@ == mmu::spec_power_on(rom_data@)
                && (r->Ok_0).cpu.reg == (cpu::Registers {
                a: 0x01,
                f: 0xB0,
                b: 0x00,
                c: 0x13,
                d: 0x00,
                e: 0xD8,
                h: 0x01,
                l: 0x4D,
                pc: 0x0100,
                sp: 0xFFFE,
            }) && !(r->Ok_0).cpu.halted && !(r->Ok_0).cpu.ime && (r->Ok_0).cpu.ei_delay == 0,
    {
        if rom_data.len() == 0 {
            return Err(EmuError::InvalidCartridge);
        }
        Ok(GameBoy { cpu: cpu::Cpu::new(rom_data), width: DISPLAY_WIDTH, height: DISPLAY_HEIGHT })
    }

    /// The framebuffer width in pixels.
    pub fn width(&self) -> (r: u32)
        ensures
            r == self.width,
    {
        self.width
    }

    /// The framebuffer height in pixels.
    pub fn height(&self) -> (r: u32)
        ensures
            r == self.height,
    {
        self.height
    }

    /// Advance the machine by up to one frame: execute instructions until
    /// either a frame's worth of clocks has elapsed or the graphics unit
    /// reports a completed frame, whichever comes first, then clear the
    /// completion flag (so at most one completed framebuffer is consumed
    /// per call). The loop provably terminates because every step consumes
    /// at least four clocks. An undefined opcode aborts the frame with the
    /// machine standing at the faulting instruction: the program counter
    /// still addresses the undefined opcode the error names, and neither
    /// an interrupt dispatch nor the halt state could have taken its
    /// place.
    pub fn frame(&mut self) -> (r: Result<(), EmuError>)
        requires
            old(self).wf(),
        ensures
            final(self).wf(),
            final(self).cpu.memory@.rom == old(self).cpu.memory@.rom,
            r is Ok ==> !final(self).cpu.memory@.gpu.updated,
            r is Err ==> !cpu::spec_supported(final(self).cpu.spec_next_op()) && r->Err_0
                == EmuError::UnsupportedInstruction(final(self).cpu.spec_next_op())
                && !final(self).cpu.spec_dispatches() && !final(self).cpu.spec_stays_halted(),
    {
        let mut ticks: u32 = 0;
        let mut frame_done = false;
        while ticks < FRAME_TICKS && !frame_done
            invariant
                self.wf(),
                self.cpu.memory@.rom == old(self).cpu.memory@.rom,
                ticks <= FRAME_TICKS + 24,
            decreases FRAME_TICKS + 24 - ticks,
        {
            let c = match self.cpu.do_cycle() {
                Ok(c) => c,
                Err(e) => {
                    return Err(e);
                },
            };
            ticks = ticks + c;
            if self.cpu.memory.gpu.updated {
                frame_done = true;
            }
        }
        self.cpu.memory.gpu.updated = false;
        Ok(())
    }

    /// A read-only view of the most recently completed frame: RGBA bytes,
    /// row-major, top to bottom.
    pub fn data(&self) -> (r: &Vec<u8>)
        ensures
            r@ == self.cpu.memory@.gpu.data,
    {
        &self.cpu.memory.gpu.data
    }

    /// Press a button: latches the key bit and, for a fresh press, the
    /// joypad interrupt. Nothing else of the machine changes.
    pub fn keydown(&mut self, key: input::Button)
        requires
            old(self).wf(),
        ensures
            final(self).wf(),
            final(self).cpu.memory@ == (mmu::MmuView {
                input: old(self).cpu.memory@.input.spec_keydown(key),
                ..old(self).cpu.memory@
            }),
            final(self).cpu.reg == old(self).cpu.reg,
            final(self).width == old(self).width,
            final(self).height == old(self).height,
    {
        self.cpu.memory.input.keydown(key);
        proof {
            assert(self.cpu.memory@ =~= (mmu::MmuView {
                input: old(self).cpu.memory@.input.spec_keydown(key),
                ..old(self).cpu.memory@
            }));
        }
    }

    /// Release a button: restores the key bit; releases never raise an
    /// interrupt.
    pub fn keyup(&mut self, key: input::Button)
        requires
            old(self).wf(),
        ensures
            final(self).wf(),
            final(self).cpu.memory@ == (mmu::MmuView {
                input: old(self).cpu.memory@.input.spec_keyup(key),
                ..old(self).cpu.memory@
            }),
            final(self).cpu.reg == old(self).cpu.reg,
            final(self).width == old(self).width,
            final(self).height == old(self).height,
    {
        self.cpu.memory.input.keyup(key);
        proof {
            assert(self.cpu.memory@ =~= (mmu::MmuView {
                input: old(self).cpu.memory@.input.spec_keyup(key),
                ..old(self).cpu.memory@
            }));
        }
    }
}

} // verus!
