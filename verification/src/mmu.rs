//! The memory management unit: routes every 16-bit address to its owner
//! (cartridge banks, video RAM, work RAM, object attribute memory, the
//! input register, high RAM, the interrupt registers), performs the
//! synchronous object-attribute transfer, and drains the interrupt bits
//! the graphics unit and the input latch raise each tick into the shared
//! pending register.
use crate::gpu::spec_cycle;
use crate::gpu::spec_gpu_read;
use crate::gpu::spec_gpu_write;
use crate::gpu::Gpu;
use crate::gpu::GpuView;
use crate::input::Input;
use crate::mbc::spec_bank_value;
use crate::mbc::spec_rom_read;
use crate::mbc::MemoryBankController;
use crate::mbc::ROM_BANK_COUNT;
use vstd::prelude::*;

verus! {

/// Bytes of work RAM (a shared low bank plus seven switchable banks).
pub const WRAM_BYTES: usize = 0x8000;

/// Bytes of high RAM.
pub const ZRAM_BYTES: usize = 0x7F;

/// The memory management unit and the devices it routes to.
pub struct MemoryManagementUnit {
    pub wram: Vec<u8>,
    pub zram: Vec<u8>,
    pub inte: u8,
    pub intf: u8,
    pub input: Input,
    pub gpu: Gpu,
    pub wrambank: usize,
    pub mbc: MemoryBankController,
}

/// The mathematical state of the whole memory map.
#[verifier::ext_equal]
pub struct MmuView {
    pub wram: Seq<u8>,
    pub zram: Seq<u8>,
    pub inte: u8,
    pub intf: u8,
    pub input: Input,
    pub gpu: GpuView,
    pub wrambank: int,
    pub rom: Seq<u8>,
    pub rombank: int,
    pub rombanks: int,
}

impl View for MemoryManagementUnit {
    type V = MmuView;

    open spec fn view(&self) -> MmuView {
        MmuView {
            wram: self.wram@,
            zram: self.zram@,
            inte: self.inte,
            intf: self.intf,
            input: self.input,
            gpu: self.gpu@,
            wrambank: self.wrambank as int,
            rom: self.mbc.rom@,
            rombank: self.mbc.rombank as int,
            rombanks: self.mbc.rombanks as int,
        }
    }
}

impl MmuView {
    /// RAM sizes, device invariants, and the ranges of both bank
    /// registers.
    pub open spec fn wf(self) -> bool {
        &&& self.wram.len() == WRAM_BYTES
        &&& self.zram.len() == ZRAM_BYTES
        &&& self.gpu.wf()
        &&& self.input.wf()
        &&& 1 <= self.wrambank < 8
        &&& self.rombanks == ROM_BANK_COUNT
        &&& 0 <= self.rombank < self.rombanks
    }
}

/// What a read of address `a` returns: each region routed to its owner,
/// with the echo region aliasing work RAM and unmapped addresses reading
/// as 0xFF.
pub open spec fn spec_mmu_read(m: MmuView, a: u16) -> u8 {
    if a < 0x8000 {
        spec_rom_read(m.rom, m.rombank, a)
    } else if a <= 0x9FFF {
        spec_gpu_read(m.gpu, a)
    } else if (0xC000 <= a && a <= 0xCFFF) || (0xE000 <= a && a <= 0xEFFF) {
        m.wram[a as int % 0x1000]
    } else if (0xD000 <= a && a <= 0xDFFF) || (0xF000 <= a && a <= 0xFDFF) {
        m.wram[m.wrambank * 0x1000 + a as int % 0x1000]
    } else if 0xFE00 <= a && a <= 0xFE9F {
        spec_gpu_read(m.gpu, a)
    } else if a == 0xFF00 {
        m.input.spec_read()
    } else if a == 0xFF0F {
        m.intf | 0xE0
    } else if 0xFF40 <= a && a <= 0xFF4F {
        spec_gpu_read(m.gpu, a)
    } else if 0xFF68 <= a && a <= 0xFF6B {
        spec_gpu_read(m.gpu, a)
    } else if a == 0xFF70 {
        m.wrambank as u8
    } else if 0xFF80 <= a && a <= 0xFFFE {
        m.zram[a as int % 0x80]
    } else if a == 0xFFFF {
        m.inte
    } else {
        0xFF
    }
}

/// The object-attribute transfer, byte by byte: byte `k` of object
/// attribute memory takes the value read from `base + k`, in increasing
/// order, each read seeing the writes made before it.
pub open spec fn spec_dma_upto(m: MmuView, base: int, n: nat) -> MmuView
    decreases n,
{
    if n == 0 {
        m
    } else {
        let prev = spec_dma_upto(m, base, (n - 1) as nat);
        let b = spec_mmu_read(prev, (base + n - 1) as u16);
        MmuView { gpu: GpuView { voam: prev.gpu.voam.update(n - 1, b), ..prev.gpu }, ..prev }
    }
}

/// The full 160-byte object-attribute transfer from page `v`.
pub open spec fn spec_dma(m: MmuView, v: u8) -> MmuView {
    spec_dma_upto(m, v as int * 256, 160)
}

/// The state after a write to address `a`: each region routed to its
/// owner; writes to unmapped addresses are ignored.
pub open spec fn spec_mmu_write(m: MmuView, a: u16, v: u8) -> MmuView {
    if a < 0x8000 {
        if 0x2000 <= a && a <= 0x3FFF {
            MmuView { rombank: spec_bank_value(ROM_BANK_COUNT, v) as int, ..m }
        } else {
            m
        }
    } else if a <= 0x9FFF {
        MmuView { gpu: spec_gpu_write(m.gpu, a, v), ..m }
    } else if (0xC000 <= a && a <= 0xCFFF) || (0xE000 <= a && a <= 0xEFFF) {
        MmuView { wram: m.wram.update(a as int % 0x1000, v), ..m }
    } else if (0xD000 <= a && a <= 0xDFFF) || (0xF000 <= a && a <= 0xFDFF) {
        MmuView { wram: m.wram.update(m.wrambank * 0x1000 + a as int % 0x1000, v), ..m }
    } else if 0xFE00 <= a && a <= 0xFE9F {
        MmuView { gpu: spec_gpu_write(m.gpu, a, v), ..m }
    } else if a == 0xFF00 {
        MmuView { input: (Input { current: m.input.spec_select(v), ..m.input }), ..m }
    } else if a == 0xFF46 {
        spec_dma(m, v)
    } else if 0xFF40 <= a && a <= 0xFF4F {
        MmuView { gpu: spec_gpu_write(m.gpu, a, v), ..m }
    } else if 0xFF68 <= a && a <= 0xFF6B {
        MmuView { gpu: spec_gpu_write(m.gpu, a, v), ..m }
    } else if a == 0xFF0F {
        MmuView { intf: v, ..m }
    } else if a == 0xFF70 {
        MmuView {
            wrambank: if v as int % 8 == 0 {
                1int
            } else {
                v as int % 8
            },
            ..m
        }
    } else if 0xFF80 <= a && a <= 0xFFFE {
        MmuView { zram: m.zram.update(a as int % 0x80, v), ..m }
    } else if a == 0xFFFF {
        MmuView { inte: v, ..m }
    } else {
        m
    }
}

/// The documented power-on state of the whole memory map around a
/// cartridge image: zeroed RAM and memories, no interrupts pending or
/// enabled, the direction row selected, bank 1 in both switchable windows,
/// and the display registers as the boot sequence leaves them (display on,
/// unsigned tile base, both tilemaps low, 8-pixel sprites disabled,
/// background palette 0xFC, sprite palette 0xFF).
pub open spec fn spec_power_on(rom: Seq<u8>) -> MmuView {
    MmuView {
        wram: Seq::new(WRAM_BYTES as nat, |i: int| 0u8),
        zram: Seq::new(ZRAM_BYTES as nat, |i: int| 0u8),
        inte: 0,
        intf: 0,
        input: (Input { current: 0x10, buttons: 0xf, directions: 0xf, interrupt: 0 }),
        gpu: (GpuView {
            mode: 0,
            clock: 0,
            line: 0,
            lyc: 0,
            lcd_on: true,
            win_tilemap: 0x9800,
            tilebase: 0x8000,
            bg_tilemap: 0x9800,
            sprite_size: 8,
            sprite_on: false,
            ly: false,
            scy: 0,
            scx: 0,
            winy: 0,
            winx: 0,
            wy_trigger: false,
            wy_pos: -1,
            palbr: 0xFC,
            pal0r: 0xFF,
            palb: crate::gpu::spec_palette(0xFC),
            pal0: crate::gpu::spec_palette(0xFF),
            vram: Seq::new(crate::gpu::VRAM_BYTES as nat, |i: int| 0u8),
            voam: Seq::new(crate::gpu::OAM_BYTES as nat, |i: int| 0u8),
            vrambank: 0,
            data: Seq::new(crate::gpu::FRAME_BYTES as nat, |i: int| 0u8),
            updated: false,
            interrupt: 0,
        }),
        wrambank: 1,
        rom: rom,
        rombank: 1,
        rombanks: ROM_BANK_COUNT as int,
    }
}

/// One device tick of `t` clocks as the memory unit performs it: the
/// graphics unit advances, and the interrupt bits it and the input latch
/// have raised move into the shared pending register, each device's local
/// copy cleared.
pub open spec fn spec_tick(m: MmuView, t: int) -> MmuView {
    MmuView {
        gpu: (GpuView { interrupt: 0, ..spec_cycle(m.gpu, t) }),
        input: (Input { interrupt: 0, ..m.input }),
        intf: m.intf | spec_cycle(m.gpu, t).interrupt | m.input.interrupt,
        ..m
    }
}

/// The object-attribute transfer never touches the cartridge image or the
/// RAM banks outside object attribute memory.
pub proof fn lemma_dma_frame(m: MmuView, base: int, n: nat)
    ensures
        spec_dma_upto(m, base, n).rom == m.rom,
    decreases n,
{
    if n > 0 {
        lemma_dma_frame(m, base, (n - 1) as nat);
    }
}

/// No write changes the cartridge image.
pub proof fn lemma_mmu_write_rom(m: MmuView, a: u16, v: u8)
    ensures
        spec_mmu_write(m, a, v).rom == m.rom,
{
    if a == 0xFF46 {
        lemma_dma_frame(m, v as int * 256, 160);
    }
}

/// Read-after-write: on every RAM region (video RAM, work RAM and its echo,
/// object attribute memory, high RAM) reading an address straight after
/// writing it returns the written value; no write ever changes the
/// cartridge image, and reads of the fixed low bank are untouched by any
/// write.
pub proof fn lemma_read_after_write(m: MmuView, a: u16, v: u8)
    requires
        m.wf(),
    ensures
        0x8000 <= a <= 0x9FFF ==> spec_mmu_read(spec_mmu_write(m, a, v), a) == v,
        0xC000 <= a <= 0xFDFF ==> spec_mmu_read(spec_mmu_write(m, a, v), a) == v,
        0xFE00 <= a <= 0xFE9F ==> spec_mmu_read(spec_mmu_write(m, a, v), a) == v,
        0xFF80 <= a <= 0xFFFE ==> spec_mmu_read(spec_mmu_write(m, a, v), a) == v,
        spec_mmu_write(m, a, v).rom == m.rom,
        a < 0x4000 ==> spec_mmu_read(spec_mmu_write(m, a, v), a) == spec_rom_read(m.rom, 0, a),
{
    lemma_mmu_write_rom(m, a, v);
    if 0x8000 <= a && a <= 0x9FFF {
        assert(m.gpu.vrambank * 0x2000 + a as int % 0x2000 < crate::gpu::VRAM_BYTES);
    }
}

impl MemoryManagementUnit {
    /// Read one byte of the address space.
    pub fn read_byte(&self, address: u16) -> (r: u8)
        requires
            self@.wf(),
        ensures
            r == spec_mmu_read(self@, address),
    {
        if address < 0x8000 {
            self.mbc.readrom(address)
        } else if address <= 0x9FFF {
            self.gpu.read_byte(address)
        } else if (0xC000 <= address && address <= 0xCFFF) || (0xE000 <= address && address
            <= 0xEFFF) {
            self.wram[(address as usize) % 0x1000]
        } else if (0xD000 <= address && address <= 0xDFFF) || (0xF000 <= address && address
            <= 0xFDFF) {
            self.wram[self.wrambank * 0x1000 + (address as usize) % 0x1000]
        } else if 0xFE00 <= address && address <= 0xFE9F {
            self.gpu.read_byte(address)
        } else if address == 0xFF00 {
            self.input.read_byte()
        } else if address == 0xFF0F {
            self.intf | 0xE0
        } else if 0xFF40 <= address && address <= 0xFF4F {
            self.gpu.read_byte(address)
        } else if 0xFF68 <= address && address <= 0xFF6B {
            self.gpu.read_byte(address)
        } else if address == 0xFF70 {
            self.wrambank as u8
        } else if 0xFF80 <= address && address <= 0xFFFE {
            self.zram[(address as usize) % 0x80]
        } else if address == 0xFFFF {
            self.inte
        } else {
            0xFF
        }
    }

    /// Read a 16-bit word, low byte first.
    pub fn read_word(&self, address: u16) -> (r: u16)
        requires
            self@.wf(),
            address < 0xFFFF,
        ensures
            r == spec_mmu_read(self@, address) as u16 + spec_mmu_read(self@, (address + 1) as u16)
                as u16 * 256,
    {
        let lo = self.read_byte(address) as u16;
        let hi = self.read_byte(address + 1) as u16;
        lo + hi * 256
    }

    /// Write one byte of the address space.
    pub fn write_byte(&mut self, address: u16, value: u8)
        requires
            old(self)@.wf(),
        ensures
            final(self)@.wf(),
            final(self)@ == spec_mmu_write(old(self)@, address, value),
            final(self)@.rom == old(self)@.rom,
    {
        proof {
            lemma_mmu_write_rom(old(self)@, address, value);
        }
        if address < 0x8000 {
            self.mbc.writerom(address, value);
        } else if address <= 0x9FFF {
            self.gpu.write_byte(address, value);
        } else if (0xC000 <= address && address <= 0xCFFF) || (0xE000 <= address && address
            <= 0xEFFF) {
            let idx = (address as usize) % 0x1000;
            self.wram[idx] = value;
        } else if (0xD000 <= address && address <= 0xDFFF) || (0xF000 <= address && address
            <= 0xFDFF) {
            let idx = self.wrambank * 0x1000 + (address as usize) % 0x1000;
            self.wram[idx] = value;
        } else if 0xFE00 <= address && address <= 0xFE9F {
            self.gpu.write_byte(address, value);
        } else if address == 0xFF00 {
            self.input.write_byte(value);
        } else if address == 0xFF46 {
            self.run_dma(value);
        } else if 0xFF40 <= address && address <= 0xFF4F {
            self.gpu.write_byte(address, value);
        } else if 0xFF68 <= address && address <= 0xFF6B {
            self.gpu.write_byte(address, value);
        } else if address == 0xFF0F {
            self.intf = value;
        } else if address == 0xFF70 {
            self.wrambank = if value % 8 == 0 {
                1
            } else {
                (value % 8) as usize
            };
        } else if 0xFF80 <= address && address <= 0xFFFE {
            let idx = (address as usize) % 0x80;
            self.zram[idx] = value;
        } else if address == 0xFFFF {
            self.inte = value;
        }
        proof {
            assert(self@ =~= spec_mmu_write(old(self)@, address, value));
        }
    }

    /// Write a 16-bit word, low byte first.
    pub fn write_word(&mut self, address: u16, value: u16)
        requires
            old(self)@.wf(),
            address < 0xFFFF,
        ensures
            final(self)@.wf(),
            final(self)@ == spec_mmu_write(
                spec_mmu_write(old(self)@, address, (value % 256) as u8),
                (address + 1) as u16,
                (value / 256) as u8,
            ),
            final(self)@.rom == old(self)@.rom,
    {
        self.write_byte(address, (value % 256) as u8);
        self.write_byte(address + 1, (value / 256) as u8);
    }

    /// The synchronous 160-byte transfer into object attribute memory from
    /// page `value`.
    fn run_dma(&mut self, value: u8)
        requires
            old(self)@.wf(),
        ensures
            final(self)@.wf(),
            final(self)@ == spec_dma(old(self)@, value),
    {
        let base: u16 = (value as u16) * 256;
        let mut i: u16 = 0;
        while i < 160
            invariant
                i <= 160,
                self@.wf(),
                base == value as int * 256,
                self@ == spec_dma_upto(old(self)@, base as int, i as nat),
            decreases 160 - i,
        {
            let b = self.read_byte(base + i);
            let idx = i as usize;
            self.gpu.voam[idx] = b;
            proof {
                assert(self@ =~= (MmuView {
                    gpu: GpuView {
                        voam: spec_dma_upto(old(self)@, base as int, i as nat).gpu.voam.update(
                            i as int,
                            b,
                        ),
                        ..spec_dma_upto(old(self)@, base as int, i as nat).gpu
                    },
                    ..spec_dma_upto(old(self)@, base as int, i as nat)
                }));
                assert(self@ =~= spec_dma_upto(old(self)@, base as int, (i + 1) as nat));
            }
            i += 1;
        }
    }

    /// Advance the graphics unit by `ticks` clocks, then drain the
    /// interrupt bits the graphics unit and the input latch have raised
    /// into the shared pending register, clearing each device's local
    /// copy. Returns the ticks consumed.
    pub fn do_cycle(&mut self, ticks: u32) -> (r: u32)
        requires
            old(self)@.wf(),
        ensures
            final(self)@.wf(),
            final(self)@ == spec_tick(old(self)@, ticks as int),
            r == ticks,
    {
        self.gpu.do_cycle(ticks);
        self.intf = self.intf | self.gpu.interrupt;
        self.gpu.interrupt = 0;
        self.intf = self.intf | self.input.interrupt;
        self.input.interrupt = 0;
        proof {
            assert(self@ =~= spec_tick(old(self)@, ticks as int));
        }
        ticks
    }

    /// Build the memory map around a cartridge image and install the
    /// documented power-on register values.
    pub fn new(data: Vec<u8>) -> (r: MemoryManagementUnit)
        ensures
            r@.wf(),
            r@ == spec_power_on(data@),
    {
        let mbc = MemoryBankController::new(data);
        let mut res = MemoryManagementUnit {
            wram: crate::gpu::filled_vec(WRAM_BYTES, 0),
            zram: crate::gpu::filled_vec(ZRAM_BYTES, 0),
            wrambank: 1,
            inte: 0,
            intf: 0,
            input: Input::new(),
            gpu: Gpu::new(),
            mbc,
        };
        res.write_byte(0xFF40, 0x91);
        proof {
            assert(0x91u8 & 0x80 == 0x80 && 0x91u8 & 0x40 == 0 && 0x91u8 & 0x10 == 0x10 && 0x91u8
                & 0x08 == 0 && 0x91u8 & 0x04 == 0 && 0x91u8 & 0x02 == 0) by (bit_vector);
        }
        res.write_byte(0xFF42, 0);
        res.write_byte(0xFF43, 0);
        res.write_byte(0xFF45, 0);
        res.write_byte(0xFF47, 0xFC);
        res.write_byte(0xFF48, 0xFF);
        res.write_byte(0xFF49, 0xFF);
        res.write_byte(0xFF4A, 0);
        res.write_byte(0xFF4B, 0);
        proof {
            assert(res@ =~= spec_power_on(data@));
        }
        res
    }
}

} // verus!
