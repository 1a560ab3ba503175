//! The processor: a fetch-decode-execute engine over the memory-mapped
//! address space. Each step executes one instruction (or services one
//! interrupt, or idles while halted) and returns the elapsed clock cycles,
//! then ticks the memory unit for that many cycles. Interrupts are taken
//! at instruction boundaries only; enabling them with the dedicated
//! instruction takes effect one instruction late. The eleven undefined
//! opcodes are reported as a fatal error before any state changes.
use crate::mmu::spec_mmu_read;
use crate::mmu::spec_mmu_write;
use crate::mmu::spec_tick;
use crate::mmu::MemoryManagementUnit;
use crate::mmu::MmuView;
use crate::EmuError;
use vstd::prelude::*;

verus! {

/// The register file: accumulator and flags, three general pairs, stack
/// pointer and program counter.
pub struct Registers {
    pub a: u8,
    pub f: u8,
    pub b: u8,
    pub c: u8,
    pub d: u8,
    pub e: u8,
    pub h: u8,
    pub l: u8,
    pub pc: u16,
    pub sp: u16,
}

impl Registers {
    fn bc(&self) -> (r: u16)
        ensures
            r == self.b * 256 + self.c,
    {
        self.b as u16 * 256 + self.c as u16
    }

    fn de(&self) -> (r: u16)
        ensures
            r == self.d * 256 + self.e,
    {
        self.d as u16 * 256 + self.e as u16
    }

    fn hl(&self) -> (r: u16)
        ensures
            r == self.h * 256 + self.l,
    {
        self.h as u16 * 256 + self.l as u16
    }

    fn af(&self) -> (r: u16)
        ensures
            r == self.a * 256 + self.f,
    {
        self.a as u16 * 256 + self.f as u16
    }

    fn set_bc(&mut self, v: u16)
        ensures
            *final(self) == (Registers { b: (v / 256) as u8, c: (v % 256) as u8, ..*old(self) }),
    {
        self.b = (v / 256) as u8;
        self.c = (v % 256) as u8;
    }

    fn set_de(&mut self, v: u16)
        ensures
            *final(self) == (Registers { d: (v / 256) as u8, e: (v % 256) as u8, ..*old(self) }),
    {
        self.d = (v / 256) as u8;
        self.e = (v % 256) as u8;
    }

    fn set_hl(&mut self, v: u16)
        ensures
            *final(self) == (Registers { h: (v / 256) as u8, l: (v % 256) as u8, ..*old(self) }),
    {
        self.h = (v / 256) as u8;
        self.l = (v % 256) as u8;
    }

    fn flag_z(&self) -> (r: bool)
        ensures
            r == (self.f & 0x80 != 0),
    {
        self.f & 0x80 != 0
    }

    fn flag_n(&self) -> (r: bool)
        ensures
            r == (self.f & 0x40 != 0),
    {
        self.f & 0x40 != 0
    }

    fn flag_h(&self) -> (r: bool)
        ensures
            r == (self.f & 0x20 != 0),
    {
        self.f & 0x20 != 0
    }

    fn flag_c(&self) -> (r: bool)
        ensures
            r == (self.f & 0x10 != 0),
    {
        self.f & 0x10 != 0
    }

    fn set_flags(&mut self, z: bool, n: bool, h: bool, c: bool)
        ensures
            *final(self) == (Registers { f: spec_flags(z, n, h, c), ..*old(self) }),
    {
        self.f = (if z {
            0x80u8
        } else {
            0u8
        }) | (if n {
            0x40u8
        } else {
            0u8
        }) | (if h {
            0x20u8
        } else {
            0u8
        }) | (if c {
            0x10u8
        } else {
            0u8
        });
    }
}

/// Wrapping arithmetic, one step off either end: the Euclidean remainder
/// of a value within one modulus of the range.
proof fn lemma_mod_wrap(t: int, m: int)
    requires
        0 < m,
        -m <= t < 2 * m,
    ensures
        t % m == (if t < 0 {
            t + m
        } else if t < m {
            t
        } else {
            t - m
        }),
{
    if t < 0 {
        vstd::arithmetic::div_mod::lemma_mod_multiples_vanish(1, t, m);
        vstd::arithmetic::div_mod::lemma_small_mod((t + m) as nat, m as nat);
    } else if t < m {
        vstd::arithmetic::div_mod::lemma_small_mod(t as nat, m as nat);
    } else {
        vstd::arithmetic::div_mod::lemma_mod_multiples_vanish(1, t - m, m);
        vstd::arithmetic::div_mod::lemma_small_mod((t - m) as nat, m as nat);
    }
}

/// The flag register encoding: zero, subtract, half-carry and carry, high
/// bit first.
pub open spec fn spec_flags(z: bool, n: bool, h: bool, c: bool) -> u8 {
    (if z {
        0x80u8
    } else {
        0u8
    }) | (if n {
        0x40u8
    } else {
        0u8
    }) | (if h {
        0x20u8
    } else {
        0u8
    }) | (if c {
        0x10u8
    } else {
        0u8
    })
}

/// The mask that clears exactly the highest-priority (lowest) pending
/// interrupt bit.
pub open spec fn spec_served_mask(p: u8) -> u8 {
    if p & 0x01 != 0 {
        0xFE
    } else if p & 0x02 != 0 {
        0xFD
    } else if p & 0x04 != 0 {
        0xFB
    } else if p & 0x08 != 0 {
        0xF7
    } else {
        0xEF
    }
}

/// The fixed handler address of the highest-priority (lowest) pending
/// interrupt bit.
pub open spec fn spec_vector(p: u8) -> u16 {
    if p & 0x01 != 0 {
        0x40
    } else if p & 0x02 != 0 {
        0x48
    } else if p & 0x04 != 0 {
        0x50
    } else if p & 0x08 != 0 {
        0x58
    } else {
        0x60
    }
}

/// One increment or decrement of a register-table operand (the column-4
/// and column-5 opcodes below 0x40), from the state already past the
/// opcode byte: flags are set from the old value (the carry flag kept),
/// then the wrapped result is stored back.
pub open spec fn spec_incdec_body(s1: CpuView, op: u8) -> (CpuView, int) {
    let dst = (op as int / 8) % 8;
    let v = spec_read_r(s1, dst);
    let inc = op as int % 8 == 4;
    let r: u8 = if inc {
        ((v + 1) % 256) as u8
    } else {
        ((v - 1) % 256) as u8
    };
    let f = if inc {
        spec_flags((v + 1) % 256 == 0, false, v % 16 == 0xF, s1.reg.f & 0x10 != 0)
    } else {
        spec_flags((v - 1) % 256 == 0, true, v % 16 == 0, s1.reg.f & 0x10 != 0)
    };
    (
        spec_write_r(CpuView { reg: (Registers { f: f, ..s1.reg }), ..s1 }, dst, r),
        if dst == 6 {
            12int
        } else {
            4int
        },
    )
}

/// The same, from the state still addressing the opcode byte.
pub open spec fn spec_incdec_step(s: CpuView, op: u8) -> (CpuView, int) {
    spec_incdec_body(
        CpuView { reg: (Registers { pc: ((s.reg.pc + 1) % 0x10000) as u16, ..s.reg }), ..s },
        op,
    )
}

/// One relative jump (unconditional or on a flag), from the state already
/// past the opcode byte: the displacement byte is consumed, and on a taken
/// jump the program counter moves by its signed value.
pub open spec fn spec_jr_body(s1: CpuView, op: u8) -> (CpuView, int) {
    let d = spec_mmu_read(s1.mem, s1.reg.pc);
    let s2 = CpuView { reg: (Registers { pc: ((s1.reg.pc + 1) % 0x10000) as u16, ..s1.reg }), ..s1 };
    let cond = if op == 0x18 {
        true
    } else if op == 0x20 {
        s1.reg.f & 0x80 == 0
    } else if op == 0x28 {
        s1.reg.f & 0x80 != 0
    } else if op == 0x30 {
        s1.reg.f & 0x10 == 0
    } else {
        s1.reg.f & 0x10 != 0
    };
    if cond {
        (
            CpuView {
                reg: (Registers {
                    pc: ((s2.reg.pc + (if d >= 0x80 {
                        d + 0xFF00
                    } else {
                        d as int
                    })) % 0x10000) as u16,
                    ..s2.reg
                }),
                ..s2
            },
            12int,
        )
    } else {
        (s2, 8int)
    }
}

/// The same, from the state still addressing the opcode byte.
pub open spec fn spec_jr_step(s: CpuView, op: u8) -> (CpuView, int) {
    spec_jr_body(
        CpuView { reg: (Registers { pc: ((s.reg.pc + 1) % 0x10000) as u16, ..s.reg }), ..s },
        op,
    )
}

/// One immediate load into a register-table operand (the column-6
/// opcodes below 0x40), from the state already past the opcode byte: the
/// immediate byte is consumed and stored.
pub open spec fn spec_ldn_body(s1: CpuView, op: u8) -> (CpuView, int) {
    let dst = (op as int / 8) % 8;
    let d = spec_mmu_read(s1.mem, s1.reg.pc);
    let s2 = CpuView { reg: (Registers { pc: ((s1.reg.pc + 1) % 0x10000) as u16, ..s1.reg }), ..s1 };
    (spec_write_r(s2, dst, d), if dst == 6 {
        12int
    } else {
        8int
    })
}

/// The same, from the state still addressing the opcode byte.
pub open spec fn spec_ldn_step(s: CpuView, op: u8) -> (CpuView, int) {
    spec_ldn_body(
        CpuView { reg: (Registers { pc: ((s.reg.pc + 1) % 0x10000) as u16, ..s.reg }), ..s },
        op,
    )
}

/// One whole prefixed instruction including the 0xCB byte itself, from
/// the state still addressing that byte.
pub open spec fn spec_prefixed_step(s: CpuView) -> (CpuView, int) {
    spec_cb_step(
        CpuView { reg: (Registers { pc: ((s.reg.pc + 1) % 0x10000) as u16, ..s.reg }), ..s },
    )
}

/// Whether an opcode byte has a defined encoding. The eleven holes of the
/// instruction map are fatal to execute.
pub open spec fn spec_supported(op: u8) -> bool {
    !(op == 0xD3 || op == 0xDB || op == 0xDD || op == 0xE3 || op == 0xE4 || op == 0xEB || op
        == 0xEC || op == 0xED || op == 0xF4 || op == 0xFC || op == 0xFD)
}

fn op_supported(op: u8) -> (r: bool)
    ensures
        r == spec_supported(op),
{
    !(op == 0xD3 || op == 0xDB || op == 0xDD || op == 0xE3 || op == 0xE4 || op == 0xEB || op
        == 0xEC || op == 0xED || op == 0xF4 || op == 0xFC || op == 0xFD)
}

/// The processor together with the memory map it owns.
pub struct Cpu {
    pub reg: Registers,
    pub memory: MemoryManagementUnit,
    pub halted: bool,
    pub ime: bool,
    pub ei_delay: u8,
}

/// The mathematical state of the processor: the register file and
/// execution flags as they stand, the memory map as its view.
#[verifier::ext_equal]
pub struct CpuView {
    pub reg: Registers,
    pub halted: bool,
    pub ime: bool,
    pub ei_delay: u8,
    pub mem: MmuView,
}

impl View for Cpu {
    type V = CpuView;

    open spec fn view(&self) -> CpuView {
        CpuView {
            reg: self.reg,
            halted: self.halted,
            ime: self.ime,
            ei_delay: self.ei_delay,
            mem: self.memory@,
        }
    }
}

/// The operand the register table denotes: B, C, D, E, H, L, the byte at
/// HL, A.
pub open spec fn spec_read_r(s: CpuView, idx: int) -> u8 {
    if idx == 0 {
        s.reg.b
    } else if idx == 1 {
        s.reg.c
    } else if idx == 2 {
        s.reg.d
    } else if idx == 3 {
        s.reg.e
    } else if idx == 4 {
        s.reg.h
    } else if idx == 5 {
        s.reg.l
    } else if idx == 6 {
        spec_mmu_read(s.mem, (s.reg.h * 256 + s.reg.l) as u16)
    } else {
        s.reg.a
    }
}

/// The state after a store into the register table.
pub open spec fn spec_write_r(s: CpuView, idx: int, v: u8) -> CpuView {
    if idx == 0 {
        CpuView { reg: (Registers { b: v, ..s.reg }), ..s }
    } else if idx == 1 {
        CpuView { reg: (Registers { c: v, ..s.reg }), ..s }
    } else if idx == 2 {
        CpuView { reg: (Registers { d: v, ..s.reg }), ..s }
    } else if idx == 3 {
        CpuView { reg: (Registers { e: v, ..s.reg }), ..s }
    } else if idx == 4 {
        CpuView { reg: (Registers { h: v, ..s.reg }), ..s }
    } else if idx == 5 {
        CpuView { reg: (Registers { l: v, ..s.reg }), ..s }
    } else if idx == 6 {
        CpuView {
            mem: spec_mmu_write(s.mem, (s.reg.h * 256 + s.reg.l) as u16, v),
            ..s
        }
    } else {
        CpuView { reg: (Registers { a: v, ..s.reg }), ..s }
    }
}

/// One register-to-register load of the 0x40-0x7F block (0x76 excepted),
/// from the state already past the opcode byte: the source operand is
/// stored into the destination; 8 cycles when memory is touched, else 4.
pub open spec fn spec_ld_body(s1: CpuView, op: u8) -> (CpuView, int) {
    let src = op as int % 8;
    let dst = (op as int / 8) % 8;
    let v = spec_read_r(s1, src);
    (spec_write_r(s1, dst, v), if src == 6 || dst == 6 {
        8int
    } else {
        4int
    })
}

/// The same load, from the state still addressing the opcode byte.
pub open spec fn spec_ld_step(s: CpuView, op: u8) -> (CpuView, int) {
    spec_ld_body(
        CpuView { reg: (Registers { pc: ((s.reg.pc + 1) % 0x10000) as u16, ..s.reg }), ..s },
        op,
    )
}

/// The accumulator and flags after one arithmetic/logic operation of the
/// 0x80-0xBF block: `kind` ranges over add, add-with-carry, subtract,
/// subtract-with-borrow, and, xor, or, compare.
pub open spec fn spec_alu_acc(a: u8, f: u8, kind: int, v: u8) -> (u8, u8) {
    if kind == 0 || kind == 1 {
        let cin: int = if kind == 1 && f & 0x10 != 0 {
            1int
        } else {
            0int
        };
        (
            ((a + v + cin) % 256) as u8,
            spec_flags((a + v + cin) % 256 == 0, false, a % 16 + v % 16 + cin > 0xF, a + v + cin > 0xFF),
        )
    } else if kind == 2 || kind == 3 {
        let cin: int = if kind == 3 && f & 0x10 != 0 {
            1int
        } else {
            0int
        };
        (
            ((a - v - cin) % 256) as u8,
            spec_flags((a - v - cin) % 256 == 0, true, a % 16 < v % 16 + cin, a < v + cin),
        )
    } else if kind == 4 {
        (a & v, spec_flags(a & v == 0, false, true, false))
    } else if kind == 5 {
        (a ^ v, spec_flags(a ^ v == 0, false, false, false))
    } else if kind == 6 {
        (a | v, spec_flags(a | v == 0, false, false, false))
    } else {
        (a, spec_flags(a == v, true, a % 16 < v % 16, a < v))
    }
}

/// One arithmetic/logic instruction of the 0x80-0xBF block, from the
/// state already past the opcode byte: the source operand feeds the
/// operation selected by bits 3-5, and the accumulator and flags take its
/// result.
pub open spec fn spec_alu_body(s1: CpuView, op: u8) -> (CpuView, int) {
    let src = op as int % 8;
    let kind = (op as int / 8) % 8;
    let v = spec_read_r(s1, src);
    let r = spec_alu_acc(s1.reg.a, s1.reg.f, kind, v);
    (
        CpuView { reg: (Registers { a: r.0, f: r.1, ..s1.reg }), ..s1 },
        if src == 6 {
            8int
        } else {
            4int
        },
    )
}

/// The same operation, from the state still addressing the opcode byte.
pub open spec fn spec_alu_step(s: CpuView, op: u8) -> (CpuView, int) {
    spec_alu_body(
        CpuView { reg: (Registers { pc: ((s.reg.pc + 1) % 0x10000) as u16, ..s.reg }), ..s },
        op,
    )
}

/// The value and flags one prefixed rotate/shift/swap produces: `k` ranges
/// over rotate left/right (plain and through carry), the arithmetic and
/// logical shifts, and the nibble swap.
pub open spec fn spec_cb_rot(v: u8, f: u8, k: int) -> (u8, u8) {
    if k == 0 {
        let r = (v << 1u8) | (v >> 7u8);
        (r, spec_flags(r == 0, false, false, v >= 0x80))
    } else if k == 1 {
        let r = (v >> 1u8) | (v << 7u8);
        (r, spec_flags(r == 0, false, false, v % 2 == 1))
    } else if k == 2 {
        let r = (v << 1u8) | (if f & 0x10 != 0 {
            1u8
        } else {
            0u8
        });
        (r, spec_flags(r == 0, false, false, v >= 0x80))
    } else if k == 3 {
        let r = (v >> 1u8) | (if f & 0x10 != 0 {
            0x80u8
        } else {
            0u8
        });
        (r, spec_flags(r == 0, false, false, v % 2 == 1))
    } else if k == 4 {
        let r = v << 1u8;
        (r, spec_flags(r == 0, false, false, v >= 0x80))
    } else if k == 5 {
        let r = (v >> 1u8) | (v & 0x80);
        (r, spec_flags(r == 0, false, false, v % 2 == 1))
    } else if k == 6 {
        let r = (v << 4u8) | (v >> 4u8);
        (r, spec_flags(r == 0, false, false, false))
    } else {
        let r = v >> 1u8;
        (r, spec_flags(r == 0, false, false, v % 2 == 1))
    }
}

/// One whole prefixed instruction, from the state standing after the 0xCB
/// byte itself: the second opcode byte is fetched and decoded into a
/// rotate/shift/swap, a bit test, a bit reset or a bit set on the operand
/// its low three bits name.
pub open spec fn spec_cb_step(s: CpuView) -> (CpuView, int) {
    let op2 = spec_mmu_read(s.mem, s.reg.pc);
    let s1 = CpuView { reg: (Registers { pc: ((s.reg.pc + 1) % 0x10000) as u16, ..s.reg }), ..s };
    let r = op2 as int % 8;
    let k = (op2 as int / 8) % 8;
    let block = op2 as int / 64;
    let v = spec_read_r(s1, r);
    if block == 0 {
        let res = spec_cb_rot(v, s1.reg.f, k);
        (
            spec_write_r(CpuView { reg: (Registers { f: res.1, ..s1.reg }), ..s1 }, r, res.0),
            if r == 6 {
                16int
            } else {
                8int
            },
        )
    } else if block == 1 {
        let z = v & (1u8 << (k as u8)) == 0;
        (
            CpuView {
                reg: (Registers {
                    f: spec_flags(z, false, true, s1.reg.f & 0x10 != 0),
                    ..s1.reg
                }),
                ..s1
            },
            if r == 6 {
                12int
            } else {
                8int
            },
        )
    } else if block == 2 {
        (spec_write_r(s1, r, v & !(1u8 << (k as u8))), if r == 6 {
            16int
        } else {
            8int
        })
    } else {
        (spec_write_r(s1, r, v | (1u8 << (k as u8))), if r == 6 {
            16int
        } else {
            8int
        })
    }
}

impl Cpu {
    /// The memory map is well formed.
    pub open spec fn wf(self) -> bool {
        self.memory@.wf()
    }

    /// The interrupt-master flag as it stands after the delayed-enable
    /// update at the top of a step.
    pub open spec fn spec_ime_now(self) -> bool {
        if self.ei_delay == 1 {
            true
        } else {
            self.ime
        }
    }

    /// The pending, enabled interrupt bits.
    pub open spec fn spec_pending(self) -> u8 {
        self.memory@.inte & self.memory@.intf & 0x1F
    }

    /// Whether the next step services an interrupt instead of fetching.
    pub open spec fn spec_dispatches(self) -> bool {
        self.spec_ime_now() && self.spec_pending() != 0
    }

    /// Whether the next step merely idles in the halted state.
    pub open spec fn spec_stays_halted(self) -> bool {
        self.halted && self.spec_pending() == 0
    }

    /// The opcode the next step would fetch.
    pub open spec fn spec_next_op(self) -> u8 {
        spec_mmu_read(self.memory@, self.reg.pc)
    }

    /// Build a processor around a cartridge image, with the documented
    /// power-on register file and memory map.
    pub fn new(data: Vec<u8>) -> (r: Cpu)
        ensures
            r.wf(),
            r.memory@ == crate::mmu::spec_power_on(data@),
            r.reg == (Registers {
                a: 0x01,
                f: 0xB0,
                b: 0x00,
                c: 0x13,
                d: 0x00,
                e: 0xD8,
                h: 0x01,
                l: 0x4D,
                pc: 0x0100,
                sp: 0xFFFE,
            }),
            !r.halted,
            !r.ime,
            r.ei_delay == 0,
    {
        Cpu {
            reg: Registers {
                a: 0x01,
                f: 0xB0,
                b: 0x00,
                c: 0x13,
                d: 0x00,
                e: 0xD8,
                h: 0x01,
                l: 0x4D,
                pc: 0x0100,
                sp: 0xFFFE,
            },
            memory: MemoryManagementUnit::new(data),
            halted: false,
            ime: false,
            ei_delay: 0,
        }
    }

    /// Read the byte at the program counter and step past it.
    fn fetch_byte(&mut self) -> (r: u8)
        requires
            old(self).wf(),
        ensures
            final(self).wf(),
            final(self).memory@ == old(self).memory@,
            final(self).memory@.rom == old(self).memory@.rom,
            final(self).ime == old(self).ime,
            final(self).halted == old(self).halted,
            final(self).ei_delay == old(self).ei_delay,
            r == spec_mmu_read(old(self).memory@, old(self).reg.pc),
            final(self).reg == (Registers {
                pc: ((old(self).reg.pc + 1) % 0x10000) as u16,
                ..old(self).reg
            }),
    {
        proof {
            lemma_mod_wrap(old(self).reg.pc + 1, 0x10000);
        }
        let b = self.memory.read_byte(self.reg.pc);
        self.reg.pc = self.reg.pc.wrapping_add(1);
        b
    }

    /// Read the 16-bit word at the program counter, low byte first, and
    /// step past it.
    fn fetch_word(&mut self) -> (r: u16)
        requires
            old(self).wf(),
        ensures
            final(self).wf(),
            final(self).memory@ == old(self).memory@,
            final(self).memory@.rom == old(self).memory@.rom,
            final(self).ime == old(self).ime,
            final(self).halted == old(self).halted,
            final(self).ei_delay == old(self).ei_delay,
            r == spec_mmu_read(old(self).memory@, old(self).reg.pc) + spec_mmu_read(
                old(self).memory@,
                ((old(self).reg.pc + 1) % 0x10000) as u16,
            ) * 256,
            final(self).reg == (Registers {
                pc: ((old(self).reg.pc + 2) % 0x10000) as u16,
                ..old(self).reg
            }),
    {
        proof {
            lemma_mod_wrap(old(self).reg.pc + 1, 0x10000);
            lemma_mod_wrap(old(self).reg.pc + 2, 0x10000);
            lemma_mod_wrap((old(self).reg.pc + 1) % 0x10000 + 1, 0x10000);
        }
        let lo = self.fetch_byte();
        let hi = self.fetch_byte();
        hi as u16 * 256 + lo as u16
    }

    /// Push a 16-bit word onto the stack: the high byte at the first
    /// decremented address, the low byte below it.
    fn push_word(&mut self, v: u16)
        requires
            old(self).wf(),
        ensures
            final(self).wf(),
            final(self).memory@.rom == old(self).memory@.rom,
            final(self).ime == old(self).ime,
            final(self).halted == old(self).halted,
            final(self).ei_delay == old(self).ei_delay,
            final(self).reg == (Registers {
                sp: ((old(self).reg.sp - 2) % 0x10000) as u16,
                ..old(self).reg
            }),
            final(self).memory@ == crate::mmu::spec_mmu_write(
                crate::mmu::spec_mmu_write(
                    old(self).memory@,
                    ((old(self).reg.sp - 1) % 0x10000) as u16,
                    (v / 256) as u8,
                ),
                ((old(self).reg.sp - 2) % 0x10000) as u16,
                (v % 256) as u8,
            ),
    {
        proof {
            lemma_mod_wrap(old(self).reg.sp - 1, 0x10000);
            lemma_mod_wrap(old(self).reg.sp - 2, 0x10000);
            lemma_mod_wrap((old(self).reg.sp - 1) % 0x10000 - 1, 0x10000);
        }
        self.reg.sp = self.reg.sp.wrapping_sub(1);
        self.memory.write_byte(self.reg.sp, (v / 256) as u8);
        self.reg.sp = self.reg.sp.wrapping_sub(1);
        self.memory.write_byte(self.reg.sp, (v % 256) as u8);
    }

    /// Pop a 16-bit word off the stack, low byte first.
    fn pop_word(&mut self) -> (r: u16)
        requires
            old(self).wf(),
        ensures
            final(self).wf(),
            final(self).memory@ == old(self).memory@,
            final(self).memory@.rom == old(self).memory@.rom,
            final(self).ime == old(self).ime,
            final(self).halted == old(self).halted,
            final(self).ei_delay == old(self).ei_delay,
            r == spec_mmu_read(old(self).memory@, old(self).reg.sp) + spec_mmu_read(
                old(self).memory@,
                ((old(self).reg.sp + 1) % 0x10000) as u16,
            ) * 256,
            final(self).reg == (Registers {
                sp: ((old(self).reg.sp + 2) % 0x10000) as u16,
                ..old(self).reg
            }),
    {
        proof {
            lemma_mod_wrap(old(self).reg.sp + 1, 0x10000);
            lemma_mod_wrap(old(self).reg.sp + 2, 0x10000);
            lemma_mod_wrap((old(self).reg.sp + 1) % 0x10000 + 1, 0x10000);
        }
        let lo = self.memory.read_byte(self.reg.sp);
        self.reg.sp = self.reg.sp.wrapping_add(1);
        let hi = self.memory.read_byte(self.reg.sp);
        self.reg.sp = self.reg.sp.wrapping_add(1);
        hi as u16 * 256 + lo as u16
    }

    /// Relative jump by a signed displacement byte.
    fn jr(&mut self, d: u8)
        ensures
            final(self).memory@ == old(self).memory@,
            final(self).reg == (Registers {
                pc: ((old(self).reg.pc + (if d >= 0x80 {
                    d + 0xFF00
                } else {
                    d as int
                })) % 0x10000) as u16,
                ..old(self).reg
            }),
            final(self).halted == old(self).halted,
            final(self).ime == old(self).ime,
            final(self).ei_delay == old(self).ei_delay,
    {
        proof {
            lemma_mod_wrap(
                old(self).reg.pc + (if d >= 0x80 {
                    d + 0xFF00
                } else {
                    d as int
                }),
                0x10000,
            );
        }
        let off: u16 = if d >= 0x80 {
            0xFF00 + d as u16
        } else {
            d as u16
        };
        self.reg.pc = self.reg.pc.wrapping_add(off);
    }

    /// The operand table of the register-indexed encodings: B, C, D, E,
    /// H, L, the byte at HL, A.
    fn read_r(&self, idx: u8) -> (r: u8)
        requires
            idx < 8,
            self.wf(),
        ensures
            r == (match idx {
                0 => self.reg.b,
                1 => self.reg.c,
                2 => self.reg.d,
                3 => self.reg.e,
                4 => self.reg.h,
                5 => self.reg.l,
                6 => spec_mmu_read(self.memory@, (self.reg.h * 256 + self.reg.l) as u16),
                _ => self.reg.a,
            }),
    {
        match idx {
            0 => self.reg.b,
            1 => self.reg.c,
            2 => self.reg.d,
            3 => self.reg.e,
            4 => self.reg.h,
            5 => self.reg.l,
            6 => self.memory.read_byte(self.reg.hl()),
            _ => self.reg.a,
        }
    }

    /// Store into the operand table: a register, or the byte at HL.
    fn write_r(&mut self, idx: u8, v: u8)
        requires
            idx < 8,
            old(self).wf(),
        ensures
            final(self).wf(),
            final(self).memory@.rom == old(self).memory@.rom,
            final(self).ime == old(self).ime,
            final(self).halted == old(self).halted,
            final(self).ei_delay == old(self).ei_delay,
            idx != 6 ==> final(self).memory@ == old(self).memory@,
            final(self).reg == (match idx {
                0 => (Registers { b: v, ..old(self).reg }),
                1 => (Registers { c: v, ..old(self).reg }),
                2 => (Registers { d: v, ..old(self).reg }),
                3 => (Registers { e: v, ..old(self).reg }),
                4 => (Registers { h: v, ..old(self).reg }),
                5 => (Registers { l: v, ..old(self).reg }),
                6 => old(self).reg,
                _ => (Registers { a: v, ..old(self).reg }),
            }),
            idx == 6 ==> final(self).memory@ == crate::mmu::spec_mmu_write(
                old(self).memory@,
                (old(self).reg.h * 256 + old(self).reg.l) as u16,
                v,
            ),
    {
        match idx {
            0 => self.reg.b = v,
            1 => self.reg.c = v,
            2 => self.reg.d = v,
            3 => self.reg.e = v,
            4 => self.reg.h = v,
            5 => self.reg.l = v,
            6 => {
                let a = self.reg.hl();
                self.memory.write_byte(a, v);
            },
            _ => self.reg.a = v,
        }
    }

    /// Add to the accumulator, with the optional carry-in, wrapping at
    /// 256; flags from the true sum.
    fn alu_add(&mut self, b: u8, use_carry: bool)
        ensures
            final(self).memory@ == old(self).memory@,
            ({
                let a = old(self).reg.a;
                let cin: int = if use_carry && old(self).reg.f & 0x10 != 0 {
                    1int
                } else {
                    0int
                };
                &&& final(self).reg.a == (a + b + cin) % 256
                &&& final(self).reg.f == spec_flags(
                    (a + b + cin) % 256 == 0,
                    false,
                    a % 16 + b % 16 + cin > 0xF,
                    a + b + cin > 0xFF,
                )
                &&& final(self).reg == (Registers {
                    a: final(self).reg.a,
                    f: final(self).reg.f,
                    ..old(self).reg
                })
            }),
            final(self).halted == old(self).halted,
            final(self).ime == old(self).ime,
            final(self).ei_delay == old(self).ei_delay,
    {
        let c: u8 = if use_carry && self.reg.flag_c() {
            1
        } else {
            0
        };
        let a = self.reg.a;
        let r = a.wrapping_add(b).wrapping_add(c);
        proof {
            lemma_mod_wrap(a + b + c, 256);
        }
        self.reg.set_flags(
            r == 0,
            false,
            a % 16 + b % 16 + c > 0xF,
            a as u16 + b as u16 + c as u16 > 0xFF,
        );
        self.reg.a = r;
    }

    /// Subtract from the accumulator, with the optional borrow, wrapping
    /// at 256; flags from the true difference.
    fn alu_sub(&mut self, b: u8, use_carry: bool)
        ensures
            final(self).memory@ == old(self).memory@,
            ({
                let a = old(self).reg.a;
                let cin: int = if use_carry && old(self).reg.f & 0x10 != 0 {
                    1int
                } else {
                    0int
                };
                &&& final(self).reg.a == (a - b - cin) % 256
                &&& final(self).reg.f == spec_flags(
                    (a - b - cin) % 256 == 0,
                    true,
                    a % 16 < b % 16 + cin,
                    a < b + cin,
                )
                &&& final(self).reg == (Registers {
                    a: final(self).reg.a,
                    f: final(self).reg.f,
                    ..old(self).reg
                })
            }),
            final(self).halted == old(self).halted,
            final(self).ime == old(self).ime,
            final(self).ei_delay == old(self).ei_delay,
    {
        let c: u8 = if use_carry && self.reg.flag_c() {
            1
        } else {
            0
        };
        let a = self.reg.a;
        let r = a.wrapping_sub(b).wrapping_sub(c);
        proof {
            lemma_mod_wrap(a - b - c, 256);
        }
        self.reg.set_flags(
            r == 0,
            true,
            (a % 16) < (b % 16) + c,
            (a as u16) < b as u16 + c as u16,
        );
        self.reg.a = r;
    }

    /// Bitwise AND into the accumulator; the half-carry flag is set, as
    /// the hardware does.
    fn alu_and(&mut self, b: u8)
        ensures
            final(self).memory@ == old(self).memory@,
            final(self).reg == (Registers {
                a: old(self).reg.a & b,
                f: spec_flags(old(self).reg.a & b == 0, false, true, false),
                ..old(self).reg
            }),
            final(self).halted == old(self).halted,
            final(self).ime == old(self).ime,
            final(self).ei_delay == old(self).ei_delay,
    {
        let r = self.reg.a & b;
        self.reg.set_flags(r == 0, false, true, false);
        self.reg.a = r;
    }

    /// Bitwise exclusive-or into the accumulator.
    fn alu_xor(&mut self, b: u8)
        ensures
            final(self).memory@ == old(self).memory@,
            final(self).reg == (Registers {
                a: old(self).reg.a ^ b,
                f: spec_flags(old(self).reg.a ^ b == 0, false, false, false),
                ..old(self).reg
            }),
            final(self).halted == old(self).halted,
            final(self).ime == old(self).ime,
            final(self).ei_delay == old(self).ei_delay,
    {
        let r = self.reg.a ^ b;
        self.reg.set_flags(r == 0, false, false, false);
        self.reg.a = r;
    }

    /// Bitwise OR into the accumulator.
    fn alu_or(&mut self, b: u8)
        ensures
            final(self).memory@ == old(self).memory@,
            final(self).reg == (Registers {
                a: old(self).reg.a | b,
                f: spec_flags(old(self).reg.a | b == 0, false, false, false),
                ..old(self).reg
            }),
            final(self).halted == old(self).halted,
            final(self).ime == old(self).ime,
            final(self).ei_delay == old(self).ei_delay,
    {
        let r = self.reg.a | b;
        self.reg.set_flags(r == 0, false, false, false);
        self.reg.a = r;
    }

    /// Compare the accumulator with `b`: the flags of the subtraction,
    /// with the accumulator untouched.
    fn alu_cp(&mut self, b: u8)
        ensures
            final(self).memory@ == old(self).memory@,
            final(self).reg == (Registers {
                f: spec_flags(
                    old(self).reg.a == b,
                    true,
                    old(self).reg.a % 16 < b % 16,
                    old(self).reg.a < b,
                ),
                ..old(self).reg
            }),
            final(self).halted == old(self).halted,
            final(self).ime == old(self).ime,
            final(self).ei_delay == old(self).ei_delay,
    {
        let a = self.reg.a;
        let r = a.wrapping_sub(b);
        self.reg.set_flags(r == 0, true, (a % 16) < (b % 16), (a as u16) < (b as u16));
    }

    /// Increment a byte, wrapping; the carry flag is left alone.
    fn alu_inc(&mut self, v: u8) -> (r: u8)
        ensures
            final(self).memory@ == old(self).memory@,
            r == (v + 1) % 256,
            final(self).reg == (Registers {
                f: spec_flags(
                    (v + 1) % 256 == 0,
                    false,
                    v % 16 == 0xF,
                    old(self).reg.f & 0x10 != 0,
                ),
                ..old(self).reg
            }),
            final(self).halted == old(self).halted,
            final(self).ime == old(self).ime,
            final(self).ei_delay == old(self).ei_delay,
    {
        proof {
            lemma_mod_wrap(v + 1, 256);
        }
        let r = v.wrapping_add(1);
        let c = self.reg.flag_c();
        self.reg.set_flags(r == 0, false, v % 16 == 0xF, c);
        r
    }

    /// Decrement a byte, wrapping; the carry flag is left alone.
    fn alu_dec(&mut self, v: u8) -> (r: u8)
        ensures
            final(self).memory@ == old(self).memory@,
            r == (v - 1) % 256,
            final(self).reg == (Registers {
                f: spec_flags((v - 1) % 256 == 0, true, v % 16 == 0, old(self).reg.f & 0x10 != 0),
                ..old(self).reg
            }),
            final(self).halted == old(self).halted,
            final(self).ime == old(self).ime,
            final(self).ei_delay == old(self).ei_delay,
    {
        proof {
            lemma_mod_wrap(v - 1, 256);
        }
        let r = v.wrapping_sub(1);
        let c = self.reg.flag_c();
        self.reg.set_flags(r == 0, true, v % 16 == 0, c);
        r
    }

    /// 16-bit add into HL, wrapping; the zero flag is left alone.
    fn add_hl(&mut self, v: u16)
        ensures
            final(self).memory@ == old(self).memory@,
            ({
                let hl = old(self).reg.h * 256 + old(self).reg.l;
                let sum = (hl + v) % 0x10000;
                final(self).reg == (Registers {
                    h: (sum / 256) as u8,
                    l: (sum % 256) as u8,
                    f: spec_flags(
                        old(self).reg.f & 0x80 != 0,
                        false,
                        hl % 0x1000 + v % 0x1000 > 0xFFF,
                        hl + v > 0xFFFF,
                    ),
                    ..old(self).reg
                })
            }),
            final(self).halted == old(self).halted,
            final(self).ime == old(self).ime,
            final(self).ei_delay == old(self).ei_delay,
    {
        proof {
            lemma_mod_wrap(
                (old(self).reg.h * 256 + old(self).reg.l) + v,
                0x10000,
            );
        }
        let hl = self.reg.hl();
        let z = self.reg.flag_z();
        self.reg.set_flags(
            z,
            false,
            hl % 0x1000 + v % 0x1000 > 0xFFF,
            hl as u32 + v as u32 > 0xFFFF,
        );
        let r = hl.wrapping_add(v);
        self.reg.set_hl(r);
    }

    /// The stack pointer plus a signed displacement byte, setting the
    /// half-carry and carry flags from the low-byte addition.
    /// The stack pointer plus a signed displacement byte; the half-carry
    /// and carry flags come from the low-byte addition.
    fn sp_plus(&mut self, d: u8) -> (r: u16)
        ensures
            final(self).memory@ == old(self).memory@,
            r == (old(self).reg.sp + (if d >= 0x80 {
                d + 0xFF00
            } else {
                d as int
            })) % 0x10000,
            final(self).reg == (Registers {
                f: spec_flags(
                    false,
                    false,
                    old(self).reg.sp % 16 + d % 16 > 0xF,
                    old(self).reg.sp % 256 + d > 0xFF,
                ),
                ..old(self).reg
            }),
            final(self).halted == old(self).halted,
            final(self).ime == old(self).ime,
            final(self).ei_delay == old(self).ei_delay,
    {
        proof {
            lemma_mod_wrap(
                old(self).reg.sp + (if d >= 0x80 {
                    d + 0xFF00
                } else {
                    d as int
                }),
                0x10000,
            );
        }
        let sp = self.reg.sp;
        let off: u16 = if d >= 0x80 {
            0xFF00 + d as u16
        } else {
            d as u16
        };
        self.reg.set_flags(false, false, sp % 16 + d as u16 % 16 > 0xF, sp % 256 + d as u16 > 0xFF);
        sp.wrapping_add(off)
    }

    /// Rotate left, the old high bit entering both the carry and bit 0.
    fn alu_rlc(&mut self, v: u8, zero_flag: bool) -> (r: u8)
        ensures
            final(self).memory@ == old(self).memory@,
            r == (v << 1u8) | (v >> 7u8),
            final(self).reg == (Registers {
                f: spec_flags(zero_flag && r == 0, false, false, v >= 0x80),
                ..old(self).reg
            }),
            final(self).halted == old(self).halted,
            final(self).ime == old(self).ime,
            final(self).ei_delay == old(self).ei_delay,
    {
        let r = (v << 1u8) | (v >> 7u8);
        let carry = v >= 0x80;
        self.reg.set_flags(zero_flag && r == 0, false, false, carry);
        r
    }

    /// Rotate right, the old low bit entering both the carry and bit 7.
    fn alu_rrc(&mut self, v: u8, zero_flag: bool) -> (r: u8)
        ensures
            final(self).memory@ == old(self).memory@,
            r == (v >> 1u8) | (v << 7u8),
            final(self).reg == (Registers {
                f: spec_flags(zero_flag && r == 0, false, false, v % 2 == 1),
                ..old(self).reg
            }),
            final(self).halted == old(self).halted,
            final(self).ime == old(self).ime,
            final(self).ei_delay == old(self).ei_delay,
    {
        let r = (v >> 1u8) | (v << 7u8);
        let carry = v % 2 == 1;
        self.reg.set_flags(zero_flag && r == 0, false, false, carry);
        r
    }

    /// Rotate left through the carry flag.
    fn alu_rl(&mut self, v: u8, zero_flag: bool) -> (r: u8)
        ensures
            final(self).memory@ == old(self).memory@,
            r == (v << 1u8) | (if old(self).reg.f & 0x10 != 0 {
                1u8
            } else {
                0u8
            }),
            final(self).reg == (Registers {
                f: spec_flags(zero_flag && r == 0, false, false, v >= 0x80),
                ..old(self).reg
            }),
            final(self).halted == old(self).halted,
            final(self).ime == old(self).ime,
            final(self).ei_delay == old(self).ei_delay,
    {
        let cin: u8 = if self.reg.flag_c() {
            1
        } else {
            0
        };
        let r = (v << 1u8) | cin;
        let carry = v >= 0x80;
        self.reg.set_flags(zero_flag && r == 0, false, false, carry);
        r
    }

    /// Rotate right through the carry flag.
    fn alu_rr(&mut self, v: u8, zero_flag: bool) -> (r: u8)
        ensures
            final(self).memory@ == old(self).memory@,
            r == (v >> 1u8) | (if old(self).reg.f & 0x10 != 0 {
                0x80u8
            } else {
                0u8
            }),
            final(self).reg == (Registers {
                f: spec_flags(zero_flag && r == 0, false, false, v % 2 == 1),
                ..old(self).reg
            }),
            final(self).halted == old(self).halted,
            final(self).ime == old(self).ime,
            final(self).ei_delay == old(self).ei_delay,
    {
        let cin: u8 = if self.reg.flag_c() {
            0x80
        } else {
            0
        };
        let r = (v >> 1u8) | cin;
        let carry = v % 2 == 1;
        self.reg.set_flags(zero_flag && r == 0, false, false, carry);
        r
    }

    /// Arithmetic shift left.
    fn alu_sla(&mut self, v: u8) -> (r: u8)
        ensures
            final(self).memory@ == old(self).memory@,
            r == v << 1u8,
            final(self).reg == (Registers {
                f: spec_flags(r == 0, false, false, v >= 0x80),
                ..old(self).reg
            }),
            final(self).halted == old(self).halted,
            final(self).ime == old(self).ime,
            final(self).ei_delay == old(self).ei_delay,
    {
        let r = v << 1u8;
        self.reg.set_flags(r == 0, false, false, v >= 0x80);
        r
    }

    /// Arithmetic shift right, keeping the sign bit.
    fn alu_sra(&mut self, v: u8) -> (r: u8)
        ensures
            final(self).memory@ == old(self).memory@,
            r == (v >> 1u8) | (v & 0x80),
            final(self).reg == (Registers {
                f: spec_flags(r == 0, false, false, v % 2 == 1),
                ..old(self).reg
            }),
            final(self).halted == old(self).halted,
            final(self).ime == old(self).ime,
            final(self).ei_delay == old(self).ei_delay,
    {
        let r = (v >> 1u8) | (v & 0x80);
        self.reg.set_flags(r == 0, false, false, v % 2 == 1);
        r
    }

    /// Logical shift right.
    fn alu_srl(&mut self, v: u8) -> (r: u8)
        ensures
            final(self).memory@ == old(self).memory@,
            r == v >> 1u8,
            final(self).reg == (Registers {
                f: spec_flags(r == 0, false, false, v % 2 == 1),
                ..old(self).reg
            }),
            final(self).halted == old(self).halted,
            final(self).ime == old(self).ime,
            final(self).ei_delay == old(self).ei_delay,
    {
        let r = v >> 1u8;
        self.reg.set_flags(r == 0, false, false, v % 2 == 1);
        r
    }

    /// Swap the two nibbles.
    fn alu_swap(&mut self, v: u8) -> (r: u8)
        ensures
            final(self).memory@ == old(self).memory@,
            r == (v << 4u8) | (v >> 4u8),
            final(self).reg == (Registers {
                f: spec_flags(r == 0, false, false, false),
                ..old(self).reg
            }),
            final(self).halted == old(self).halted,
            final(self).ime == old(self).ime,
            final(self).ei_delay == old(self).ei_delay,
    {
        let r = (v << 4u8) | (v >> 4u8);
        self.reg.set_flags(r == 0, false, false, false);
        r
    }

    /// Decimal adjust after a BCD addition or subtraction: the correction
    /// is 0x06, 0x60 or 0x66 according to the half-carry and carry flags
    /// (and, after an addition, the digits themselves); it is added back or
    /// subtracted according to the subtract flag, and the carry reports a
    /// high-digit correction.
    fn op_daa(&mut self)
        ensures
            final(self).memory@ == old(self).memory@,
            final(self).halted == old(self).halted,
            final(self).ime == old(self).ime,
            final(self).ei_delay == old(self).ei_delay,
            ({
                let f = old(self).reg.f;
                let a = old(self).reg.a;
                let adj0: u8 = if f & 0x10 != 0 {
                    0x60u8
                } else {
                    0x00u8
                };
                let adj1: u8 = if f & 0x20 != 0 {
                    adj0 | 0x06
                } else {
                    adj0
                };
                let adjust: u8 = if f & 0x40 == 0 {
                    let adj2: u8 = if a % 16 > 0x09 {
                        adj1 | 0x06
                    } else {
                        adj1
                    };
                    if a > 0x99 {
                        adj2 | 0x60
                    } else {
                        adj2
                    }
                } else {
                    adj1
                };
                let a2: u8 = if f & 0x40 == 0 {
                    ((a + adjust) % 256) as u8
                } else {
                    ((a - adjust) % 256) as u8
                };
                final(self).reg == (Registers {
                    a: a2,
                    f: spec_flags(a2 == 0, f & 0x40 != 0, false, adjust >= 0x60),
                    ..old(self).reg
                })
            }),
    {
        let mut adjust: u8 = if self.reg.flag_c() {
            0x60
        } else {
            0x00
        };
        if self.reg.flag_h() {
            adjust = adjust | 0x06;
        }
        let mut a = self.reg.a;
        if !self.reg.flag_n() {
            if a % 16 > 0x09 {
                adjust = adjust | 0x06;
            }
            if a > 0x99 {
                adjust = adjust | 0x60;
            }
            proof {
                lemma_mod_wrap(a + adjust, 256);
            }
            a = a.wrapping_add(adjust);
        } else {
            proof {
                lemma_mod_wrap(a - adjust, 256);
            }
            a = a.wrapping_sub(adjust);
        }
        let n = self.reg.flag_n();
        self.reg.set_flags(a == 0, n, false, adjust >= 0x60);
        self.reg.a = a;
    }

    /// One rotate/shift/swap of the prefixed page, selected by the
    /// opcode's kind field, with its flags.
    fn cb_rot(&mut self, v: u8, k: u8) -> (r: u8)
        requires
            k < 8,
        ensures
            final(self).memory@ == old(self).memory@,
            r == spec_cb_rot(v, old(self).reg.f, k as int).0,
            final(self).reg == (Registers {
                f: spec_cb_rot(v, old(self).reg.f, k as int).1,
                ..old(self).reg
            }),
            final(self).halted == old(self).halted,
            final(self).ime == old(self).ime,
            final(self).ei_delay == old(self).ei_delay,
    {
        if k == 0 {
            self.alu_rlc(v, true)
        } else if k == 1 {
            self.alu_rrc(v, true)
        } else if k == 2 {
            self.alu_rl(v, true)
        } else if k == 3 {
            self.alu_rr(v, true)
        } else if k == 4 {
            self.alu_sla(v)
        } else if k == 5 {
            self.alu_sra(v)
        } else if k == 6 {
            self.alu_swap(v)
        } else {
            self.alu_srl(v)
        }
    }

    /// The prefixed instruction page: rotates, shifts, nibble swap, and
    /// single-bit test/reset/set on a register or on the byte at HL.
    #[verifier::rlimit(100)]
    fn exec_cb(&mut self) -> (cycles: u32)
        requires
            old(self).wf(),
        ensures
            final(self).wf(),
            final(self).memory@.rom == old(self).memory@.rom,
            cycles == 8 || cycles == 12 || cycles == 16,
            final(self)@ == spec_cb_step(old(self)@).0,
            cycles as int == spec_cb_step(old(self)@).1,
    {
        proof {
            lemma_mod_wrap(old(self).reg.pc + 1, 0x10000);
        }
        let op2 = self.fetch_byte();
        let ghost s1 = self@;
        proof {
            assert(s1 =~= (CpuView {
                reg: (Registers {
                    pc: ((old(self).reg.pc + 1) % 0x10000) as u16,
                    ..old(self).reg
                }),
                ..old(self)@
            }));
        }
        let r = op2 % 8;
        let k = (op2 / 8) % 8;
        let block = op2 / 64;
        if block == 0 {
            let v = self.read_r(r);
            let v2 = self.cb_rot(v, k);
            self.write_r(r, v2);
            proof {
                assert(self@ =~= spec_cb_step(old(self)@).0);
            }
            if r == 6 {
                16
            } else {
                8
            }
        } else if block == 1 {
            let v = self.read_r(r);
            let z = v & (1u8 << k) == 0;
            let c = self.reg.flag_c();
            self.reg.set_flags(z, false, true, c);
            proof {
                assert(self@ =~= spec_cb_step(old(self)@).0);
            }
            if r == 6 {
                12
            } else {
                8
            }
        } else if block == 2 {
            let v = self.read_r(r);
            self.write_r(r, v & !(1u8 << k));
            proof {
                assert(self@ =~= spec_cb_step(old(self)@).0);
            }
            if r == 6 {
                16
            } else {
                8
            }
        } else {
            let v = self.read_r(r);
            self.write_r(r, v | (1u8 << k));
            proof {
                assert(self@ =~= spec_cb_step(old(self)@).0);
            }
            if r == 6 {
                16
            } else {
                8
            }
        }
    }

    /// One increment or decrement of a register-table operand, decoded
    /// from the opcode's destination field.
    #[verifier::rlimit(100)]
    fn exec_incdec(&mut self, op: u8) -> (cycles: u32)
        requires
            old(self).wf(),
            op < 0x40,
            op % 8 == 4 || op % 8 == 5,
        ensures
            final(self).wf(),
            final(self).memory@.rom == old(self).memory@.rom,
            final(self)@ == spec_incdec_body(old(self)@, op).0,
            cycles as int == spec_incdec_body(old(self)@, op).1,
    {
        let dst = (op / 8) % 8;
        let v = self.read_r(dst);
        let r = if op % 8 == 4 {
            self.alu_inc(v)
        } else {
            self.alu_dec(v)
        };
        self.write_r(dst, r);
        proof {
            assert(self@ =~= spec_incdec_body(old(self)@, op).0);
        }
        if dst == 6 {
            12
        } else {
            4
        }
    }

    /// One immediate load into a register-table operand.
    #[verifier::rlimit(100)]
    fn exec_ldn(&mut self, op: u8) -> (cycles: u32)
        requires
            old(self).wf(),
            op < 0x40,
            op % 8 == 6,
        ensures
            final(self).wf(),
            final(self).memory@.rom == old(self).memory@.rom,
            final(self)@ == spec_ldn_body(old(self)@, op).0,
            cycles as int == spec_ldn_body(old(self)@, op).1,
    {
        let dst = (op / 8) % 8;
        let d = self.fetch_byte();
        self.write_r(dst, d);
        proof {
            assert(self@ =~= spec_ldn_body(old(self)@, op).0);
        }
        if dst == 6 {
            12
        } else {
            8
        }
    }

    /// One relative jump, taken or not according to the flag the opcode
    /// names.
    #[verifier::rlimit(100)]
    fn exec_jr(&mut self, op: u8) -> (cycles: u32)
        requires
            old(self).wf(),
            op == 0x18 || op == 0x20 || op == 0x28 || op == 0x30 || op == 0x38,
        ensures
            final(self).wf(),
            final(self).memory@.rom == old(self).memory@.rom,
            final(self)@ == spec_jr_body(old(self)@, op).0,
            cycles as int == spec_jr_body(old(self)@, op).1,
    {
        let d = self.fetch_byte();
        let cond = if op == 0x18 {
            true
        } else if op == 0x20 {
            !self.reg.flag_z()
        } else if op == 0x28 {
            self.reg.flag_z()
        } else if op == 0x30 {
            !self.reg.flag_c()
        } else {
            self.reg.flag_c()
        };
        if cond {
            self.jr(d);
            proof {
                assert(self@ =~= spec_jr_body(old(self)@, op).0);
            }
            12
        } else {
            proof {
                assert(self@ =~= spec_jr_body(old(self)@, op).0);
            }
            8
        }
    }

    /// One load of the register-to-register block, decoded from the
    /// opcode's two index fields.
    #[verifier::rlimit(100)]
    fn exec_ld_block(&mut self, op: u8) -> (cycles: u32)
        requires
            old(self).wf(),
            0x40 <= op <= 0x7F,
            op != 0x76,
        ensures
            final(self).wf(),
            final(self).memory@.rom == old(self).memory@.rom,
            final(self)@ == spec_ld_body(old(self)@, op).0,
            cycles as int == spec_ld_body(old(self)@, op).1,
    {
        let src = op % 8;
        let dst = (op / 8) % 8;
        let v = self.read_r(src);
        self.write_r(dst, v);
        proof {
            assert(self@ =~= spec_ld_body(old(self)@, op).0);
        }
        if src == 6 || dst == 6 {
            8
        } else {
            4
        }
    }

    /// One operation of the arithmetic/logic block, decoded from the
    /// opcode's kind and source fields.
    #[verifier::rlimit(100)]
    fn exec_alu_block(&mut self, op: u8) -> (cycles: u32)
        requires
            old(self).wf(),
            0x80 <= op <= 0xBF,
        ensures
            final(self).wf(),
            final(self).memory@.rom == old(self).memory@.rom,
            final(self)@ == spec_alu_body(old(self)@, op).0,
            cycles as int == spec_alu_body(old(self)@, op).1,
    {
        let src = op % 8;
        let kind = (op / 8) % 8;
        let v = self.read_r(src);
        if kind == 0 {
            self.alu_add(v, false);
        } else if kind == 1 {
            self.alu_add(v, true);
        } else if kind == 2 {
            self.alu_sub(v, false);
        } else if kind == 3 {
            self.alu_sub(v, true);
        } else if kind == 4 {
            self.alu_and(v);
        } else if kind == 5 {
            self.alu_xor(v);
        } else if kind == 6 {
            self.alu_or(v);
        } else {
            self.alu_cp(v);
        }
        proof {
            assert(self@ =~= spec_alu_body(old(self)@, op).0);
        }
        if src == 6 {
            8
        } else {
            4
        }
    }

    /// Execute the instruction whose opcode byte is `op` (already fetched
    /// but not consumed); advances the program counter past it and returns
    /// the elapsed clock cycles.
    #[verifier::rlimit(100)]
    fn exec_op(&mut self, op: u8) -> (cycles: u32)
        requires
            old(self).wf(),
            spec_supported(op),
        ensures
            final(self).wf(),
            final(self).memory@.rom == old(self).memory@.rom,
            4 <= cycles <= 24 && cycles % 4 == 0,
            0x40 <= op <= 0x7F && op != 0x76 ==> final(self)@ == spec_ld_step(old(self)@, op).0
                && cycles as int == spec_ld_step(old(self)@, op).1,
            0x80 <= op <= 0xBF ==> final(self)@ == spec_alu_step(old(self)@, op).0 && cycles as int
                == spec_alu_step(old(self)@, op).1,
            op == 0xCB ==> final(self)@ == spec_prefixed_step(old(self)@).0 && cycles as int
                == spec_prefixed_step(old(self)@).1,
            op < 0x40 && (op % 8 == 4 || op % 8 == 5) ==> final(self)@ == spec_incdec_step(
                old(self)@,
                op,
            ).0 && cycles as int == spec_incdec_step(old(self)@, op).1,
            (op == 0x18 || op == 0x20 || op == 0x28 || op == 0x30 || op == 0x38) ==> final(self)@
                == spec_jr_step(old(self)@, op).0 && cycles as int == spec_jr_step(
                old(self)@,
                op,
            ).1,
            op < 0x40 && op % 8 == 6 ==> final(self)@ == spec_ldn_step(old(self)@, op).0
                && cycles as int == spec_ldn_step(old(self)@, op).1,
            op == 0x00 ==> final(self)@ == (CpuView {
                reg: (Registers {
                    pc: ((old(self).reg.pc + 1) % 0x10000) as u16,
                    ..old(self).reg
                }),
                ..old(self)@
            }) && cycles == 4,
            op == 0x76 ==> final(self)@ == (CpuView {
                halted: true,
                reg: (Registers {
                    pc: ((old(self).reg.pc + 1) % 0x10000) as u16,
                    ..old(self).reg
                }),
                ..old(self)@
            }) && cycles == 4,
    {
        proof {
            lemma_mod_wrap(old(self).reg.pc + 1, 0x10000);
        }
        self.reg.pc = self.reg.pc.wrapping_add(1);
        let ghost s_bumped = self@;
        proof {
            assert(s_bumped =~= (CpuView {
                reg: (Registers {
                    pc: ((old(self).reg.pc + 1) % 0x10000) as u16,
                    ..old(self).reg
                }),
                ..old(self)@
            }));
        }
        match op {
            0x00 => 4,
            0x04 | 0x05 | 0x0C | 0x0D | 0x14 | 0x15 | 0x1C | 0x1D | 0x24 | 0x25 | 0x2C | 0x2D
            | 0x34 | 0x35 | 0x3C | 0x3D => self.exec_incdec(op),
            0x06 | 0x0E | 0x16 | 0x1E | 0x26 | 0x2E | 0x36 | 0x3E => self.exec_ldn(op),
            0x18 | 0x20 | 0x28 | 0x30 | 0x38 => self.exec_jr(op),
            0x01 => {
                let v = self.fetch_word();
                self.reg.set_bc(v);
                12
            },
            0x02 => {
                let a = self.reg.bc();
                self.memory.write_byte(a, self.reg.a);
                8
            },
            0x03 => {
                let v = self.reg.bc().wrapping_add(1);
                self.reg.set_bc(v);
                8
            },
            0x07 => {
                let v = self.alu_rlc(self.reg.a, false);
                self.reg.a = v;
                4
            },
            0x08 => {
                let a = self.fetch_word();
                self.memory.write_byte(a, (self.reg.sp % 256) as u8);
                self.memory.write_byte(a.wrapping_add(1), (self.reg.sp / 256) as u8);
                20
            },
            0x09 => {
                let v = self.reg.bc();
                self.add_hl(v);
                8
            },
            0x0A => {
                let a = self.reg.bc();
                self.reg.a = self.memory.read_byte(a);
                8
            },
            0x0B => {
                let v = self.reg.bc().wrapping_sub(1);
                self.reg.set_bc(v);
                8
            },
            0x0F => {
                let v = self.alu_rrc(self.reg.a, false);
                self.reg.a = v;
                4
            },
            0x10 => {
                // STOP consumes its padding byte and otherwise idles.
                let _pad = self.fetch_byte();
                4
            },
            0x11 => {
                let v = self.fetch_word();
                self.reg.set_de(v);
                12
            },
            0x12 => {
                let a = self.reg.de();
                self.memory.write_byte(a, self.reg.a);
                8
            },
            0x13 => {
                let v = self.reg.de().wrapping_add(1);
                self.reg.set_de(v);
                8
            },
            0x17 => {
                let v = self.alu_rl(self.reg.a, false);
                self.reg.a = v;
                4
            },
            0x19 => {
                let v = self.reg.de();
                self.add_hl(v);
                8
            },
            0x1A => {
                let a = self.reg.de();
                self.reg.a = self.memory.read_byte(a);
                8
            },
            0x1B => {
                let v = self.reg.de().wrapping_sub(1);
                self.reg.set_de(v);
                8
            },
            0x1F => {
                let v = self.alu_rr(self.reg.a, false);
                self.reg.a = v;
                4
            },
            0x21 => {
                let v = self.fetch_word();
                self.reg.set_hl(v);
                12
            },
            0x22 => {
                let a = self.reg.hl();
                self.memory.write_byte(a, self.reg.a);
                self.reg.set_hl(a.wrapping_add(1));
                8
            },
            0x23 => {
                let v = self.reg.hl().wrapping_add(1);
                self.reg.set_hl(v);
                8
            },
            0x27 => {
                self.op_daa();
                4
            },
            0x29 => {
                let v = self.reg.hl();
                self.add_hl(v);
                8
            },
            0x2A => {
                let a = self.reg.hl();
                self.reg.a = self.memory.read_byte(a);
                self.reg.set_hl(a.wrapping_add(1));
                8
            },
            0x2B => {
                let v = self.reg.hl().wrapping_sub(1);
                self.reg.set_hl(v);
                8
            },
            0x2F => {
                self.reg.a = !self.reg.a;
                let z = self.reg.flag_z();
                let c = self.reg.flag_c();
                self.reg.set_flags(z, true, true, c);
                4
            },
            0x31 => {
                let v = self.fetch_word();
                self.reg.sp = v;
                12
            },
            0x32 => {
                let a = self.reg.hl();
                self.memory.write_byte(a, self.reg.a);
                self.reg.set_hl(a.wrapping_sub(1));
                8
            },
            0x33 => {
                self.reg.sp = self.reg.sp.wrapping_add(1);
                8
            },
            0x37 => {
                let z = self.reg.flag_z();
                self.reg.set_flags(z, false, false, true);
                4
            },
            0x39 => {
                let v = self.reg.sp;
                self.add_hl(v);
                8
            },
            0x3A => {
                let a = self.reg.hl();
                self.reg.a = self.memory.read_byte(a);
                self.reg.set_hl(a.wrapping_sub(1));
                8
            },
            0x3B => {
                self.reg.sp = self.reg.sp.wrapping_sub(1);
                8
            },
            0x3F => {
                let z = self.reg.flag_z();
                let c = self.reg.flag_c();
                self.reg.set_flags(z, false, false, !c);
                4
            },
            0x76 => {
                self.halted = true;
                4
            },
            0x40..=0x7F => self.exec_ld_block(op),
            0x80..=0xBF => self.exec_alu_block(op),
            0xC0 => {
                if !self.reg.flag_z() {
                    let a = self.pop_word();
                    self.reg.pc = a;
                    20
                } else {
                    8
                }
            },
            0xC1 => {
                let v = self.pop_word();
                self.reg.set_bc(v);
                12
            },
            0xC2 => {
                let a = self.fetch_word();
                if !self.reg.flag_z() {
                    self.reg.pc = a;
                    16
                } else {
                    12
                }
            },
            0xC3 => {
                let a = self.fetch_word();
                self.reg.pc = a;
                16
            },
            0xC4 => {
                let a = self.fetch_word();
                if !self.reg.flag_z() {
                    let pc = self.reg.pc;
                    self.push_word(pc);
                    self.reg.pc = a;
                    24
                } else {
                    12
                }
            },
            0xC5 => {
                let v = self.reg.bc();
                self.push_word(v);
                16
            },
            0xC6 => {
                let v = self.fetch_byte();
                self.alu_add(v, false);
                8
            },
            0xC7 | 0xCF | 0xD7 | 0xDF | 0xE7 | 0xEF | 0xF7 | 0xFF => {
                let pc = self.reg.pc;
                self.push_word(pc);
                self.reg.pc = (op - 0xC7) as u16;
                16
            },
            0xC8 => {
                if self.reg.flag_z() {
                    let a = self.pop_word();
                    self.reg.pc = a;
                    20
                } else {
                    8
                }
            },
            0xC9 => {
                let a = self.pop_word();
                self.reg.pc = a;
                16
            },
            0xCA => {
                let a = self.fetch_word();
                if self.reg.flag_z() {
                    self.reg.pc = a;
                    16
                } else {
                    12
                }
            },
            0xCB => self.exec_cb(),
            0xCC => {
                let a = self.fetch_word();
                if self.reg.flag_z() {
                    let pc = self.reg.pc;
                    self.push_word(pc);
                    self.reg.pc = a;
                    24
                } else {
                    12
                }
            },
            0xCD => {
                let a = self.fetch_word();
                let pc = self.reg.pc;
                self.push_word(pc);
                self.reg.pc = a;
                24
            },
            0xCE => {
                let v = self.fetch_byte();
                self.alu_add(v, true);
                8
            },
            0xD0 => {
                if !self.reg.flag_c() {
                    let a = self.pop_word();
                    self.reg.pc = a;
                    20
                } else {
                    8
                }
            },
            0xD1 => {
                let v = self.pop_word();
                self.reg.set_de(v);
                12
            },
            0xD2 => {
                let a = self.fetch_word();
                if !self.reg.flag_c() {
                    self.reg.pc = a;
                    16
                } else {
                    12
                }
            },
            0xD4 => {
                let a = self.fetch_word();
                if !self.reg.flag_c() {
                    let pc = self.reg.pc;
                    self.push_word(pc);
                    self.reg.pc = a;
                    24
                } else {
                    12
                }
            },
            0xD5 => {
                let v = self.reg.de();
                self.push_word(v);
                16
            },
            0xD6 => {
                let v = self.fetch_byte();
                self.alu_sub(v, false);
                8
            },
            0xD8 => {
                if self.reg.flag_c() {
                    let a = self.pop_word();
                    self.reg.pc = a;
                    20
                } else {
                    8
                }
            },
            0xD9 => {
                let a = self.pop_word();
                self.reg.pc = a;
                self.ime = true;
                16
            },
            0xDA => {
                let a = self.fetch_word();
                if self.reg.flag_c() {
                    self.reg.pc = a;
                    16
                } else {
                    12
                }
            },
            0xDC => {
                let a = self.fetch_word();
                if self.reg.flag_c() {
                    let pc = self.reg.pc;
                    self.push_word(pc);
                    self.reg.pc = a;
                    24
                } else {
                    12
                }
            },
            0xDE => {
                let v = self.fetch_byte();
                self.alu_sub(v, true);
                8
            },
            0xE0 => {
                let n = self.fetch_byte();
                self.memory.write_byte(0xFF00 + n as u16, self.reg.a);
                12
            },
            0xE1 => {
                let v = self.pop_word();
                self.reg.set_hl(v);
                12
            },
            0xE2 => {
                self.memory.write_byte(0xFF00 + self.reg.c as u16, self.reg.a);
                8
            },
            0xE5 => {
                let v = self.reg.hl();
                self.push_word(v);
                16
            },
            0xE6 => {
                let v = self.fetch_byte();
                self.alu_and(v);
                8
            },
            0xE8 => {
                let d = self.fetch_byte();
                let r = self.sp_plus(d);
                self.reg.sp = r;
                16
            },
            0xE9 => {
                self.reg.pc = self.reg.hl();
                4
            },
            0xEA => {
                let a = self.fetch_word();
                self.memory.write_byte(a, self.reg.a);
                16
            },
            0xEE => {
                let v = self.fetch_byte();
                self.alu_xor(v);
                8
            },
            0xF0 => {
                let n = self.fetch_byte();
                self.reg.a = self.memory.read_byte(0xFF00 + n as u16);
                12
            },
            0xF1 => {
                let v = self.pop_word();
                self.reg.a = (v / 256) as u8;
                self.reg.f = (v % 256) as u8 & 0xF0;
                12
            },
            0xF2 => {
                self.reg.a = self.memory.read_byte(0xFF00 + self.reg.c as u16);
                8
            },
            0xF3 => {
                self.ime = false;
                self.ei_delay = 0;
                4
            },
            0xF5 => {
                let v = self.reg.af();
                self.push_word(v);
                16
            },
            0xF6 => {
                let v = self.fetch_byte();
                self.alu_or(v);
                8
            },
            0xF8 => {
                let d = self.fetch_byte();
                let r = self.sp_plus(d);
                self.reg.set_hl(r);
                12
            },
            0xF9 => {
                self.reg.sp = self.reg.hl();
                8
            },
            0xFA => {
                let a = self.fetch_word();
                self.reg.a = self.memory.read_byte(a);
                16
            },
            0xFB => {
                self.ei_delay = 2;
                4
            },
            0xFE => {
                let v = self.fetch_byte();
                self.alu_cp(v);
                8
            },
            _ => {
                // the eleven undefined encodings, excluded by the
                // precondition
                proof {
                    assert(false);
                }
                4
            },
        }
    }

    /// Push the program counter, clear the master-enable flag and the
    /// single highest-priority pending bit, and jump to that interrupt's
    /// vector.
    fn service_interrupt(&mut self)
        requires
            old(self).wf(),
            old(self).memory@.inte & old(self).memory@.intf & 0x1F != 0,
        ensures
            final(self).wf(),
            final(self).memory@.rom == old(self).memory@.rom,
            !final(self).ime,
            final(self).halted == old(self).halted,
            final(self).ei_delay == old(self).ei_delay,
            ({
                let pending = old(self).memory@.inte & old(self).memory@.intf & 0x1F;
                let pc = old(self).reg.pc;
                &&& final(self).reg == (Registers {
                    pc: spec_vector(pending),
                    sp: ((old(self).reg.sp - 2) % 0x10000) as u16,
                    ..old(self).reg
                })
                &&& final(self).memory@ == crate::mmu::spec_mmu_write(
                    crate::mmu::spec_mmu_write(
                        (MmuView {
                            intf: old(self).memory@.intf & spec_served_mask(pending),
                            ..old(self).memory@
                        }),
                        ((old(self).reg.sp - 1) % 0x10000) as u16,
                        (pc / 256) as u8,
                    ),
                    ((old(self).reg.sp - 2) % 0x10000) as u16,
                    (pc % 256) as u8,
                )
            }),
    {
        self.ime = false;
        let pending = self.memory.inte & self.memory.intf & 0x1F;
        let pc = self.reg.pc;
        if pending & 0x01 != 0 {
            self.memory.intf = self.memory.intf & 0xFE;
            proof {
                assert(self.memory@ =~= (MmuView {
                    intf: old(self).memory@.intf & spec_served_mask(pending),
                    ..old(self).memory@
                }));
            }
            self.push_word(pc);
            self.reg.pc = 0x0040;
        } else if pending & 0x02 != 0 {
            self.memory.intf = self.memory.intf & 0xFD;
            proof {
                assert(self.memory@ =~= (MmuView {
                    intf: old(self).memory@.intf & spec_served_mask(pending),
                    ..old(self).memory@
                }));
            }
            self.push_word(pc);
            self.reg.pc = 0x0048;
        } else if pending & 0x04 != 0 {
            self.memory.intf = self.memory.intf & 0xFB;
            proof {
                assert(self.memory@ =~= (MmuView {
                    intf: old(self).memory@.intf & spec_served_mask(pending),
                    ..old(self).memory@
                }));
            }
            self.push_word(pc);
            self.reg.pc = 0x0050;
        } else if pending & 0x08 != 0 {
            self.memory.intf = self.memory.intf & 0xF7;
            proof {
                assert(self.memory@ =~= (MmuView {
                    intf: old(self).memory@.intf & spec_served_mask(pending),
                    ..old(self).memory@
                }));
            }
            self.push_word(pc);
            self.reg.pc = 0x0058;
        } else {
            self.memory.intf = self.memory.intf & 0xEF;
            proof {
                assert(self.memory@ =~= (MmuView {
                    intf: old(self).memory@.intf & spec_served_mask(pending),
                    ..old(self).memory@
                }));
            }
            self.push_word(pc);
            self.reg.pc = 0x0060;
        }
    }

    /// What the delayed-enable counter decays to at the top of a step.
    pub open spec fn spec_ei_decay(self) -> u8 {
        if self.ei_delay > 0 {
            (self.ei_delay - 1) as u8
        } else {
            0
        }
    }

    /// One machine step: apply the delayed interrupt enable, then either
    /// service one pending enabled interrupt, idle while halted, or fetch
    /// and execute one instruction; finally tick the memory unit for the
    /// elapsed cycles and return them. Fetching an undefined opcode
    /// reports it fatally, with the machine left exactly as it was.
    ///
    /// Servicing an interrupt is stated in full: the master flag drops,
    /// the served pending bit (and only it) is cleared, the old program
    /// counter is pushed at the two bytes below the stack pointer, control
    /// arrives at the fixed vector, and the devices are ticked for the
    /// fixed 16-clock cost. The halted idle likewise: nothing moves but
    /// the 4-clock device tick. For an executed instruction of the regular
    /// families -- the register-to-register loads, the arithmetic/logic
    /// block, the whole prefixed page, the increments and decrements, the
    /// relative jumps, the immediate loads, no-operation and halt -- the
    /// step states the full transition, device tick included. The
    /// remaining, irregular instructions guarantee the frame conditions
    /// (well-formedness, an untouched cartridge image, the cycle range,
    /// the device interrupts drained by the tick); their effect is pinned
    /// by the exact contracts of the fetch, stack, flag and arithmetic
    /// helpers they are built from.
    pub fn do_cycle(&mut self) -> (r: Result<u32, EmuError>)
        requires
            old(self).wf(),
        ensures
            final(self).wf(),
            final(self).memory@.rom == old(self).memory@.rom,
            (r is Err) <==> (!old(self).spec_dispatches() && !old(self).spec_stays_halted()
                && !spec_supported(old(self).spec_next_op())),
            r is Err ==> r == Err::<u32, EmuError>(
                EmuError::UnsupportedInstruction(old(self).spec_next_op()),
            ) && *final(self) == *old(self),
            r is Ok ==> 4 <= r->Ok_0 <= 24 && r->Ok_0 % 4 == 0,
            r is Ok ==> final(self).memory@.gpu.interrupt == 0
                && final(self).memory@.input.interrupt == 0,
            old(self).spec_dispatches() ==> ({
                let pending = old(self).spec_pending();
                let pc = old(self).reg.pc;
                let sp = old(self).reg.sp;
                let served = spec_mmu_write(
                    spec_mmu_write(
                        (MmuView {
                            intf: old(self).memory@.intf & spec_served_mask(pending),
                            ..old(self).memory@
                        }),
                        ((sp - 1) % 0x10000) as u16,
                        (pc / 256) as u8,
                    ),
                    ((sp - 2) % 0x10000) as u16,
                    (pc % 256) as u8,
                );
                &&& r == Ok::<u32, EmuError>(16)
                &&& !final(self).ime
                &&& !final(self).halted
                &&& final(self).ei_delay == old(self).spec_ei_decay()
                &&& final(self).reg == (Registers {
                    pc: spec_vector(pending),
                    sp: ((sp - 2) % 0x10000) as u16,
                    ..old(self).reg
                })
                &&& final(self).memory@ == spec_tick(served, 16)
            }),
            old(self).spec_stays_halted() ==> ({
                &&& r == Ok::<u32, EmuError>(4)
                &&& final(self).reg == old(self).reg
                &&& final(self).halted
                &&& final(self).ime == old(self).spec_ime_now()
                &&& final(self).ei_delay == old(self).spec_ei_decay()
                &&& final(self).memory@ == spec_tick(old(self).memory@, 4)
            }),
            (!old(self).spec_dispatches() && !old(self).spec_stays_halted()) ==> ({
                let s0 = CpuView {
                    ime: old(self).spec_ime_now(),
                    ei_delay: old(self).spec_ei_decay(),
                    halted: false,
                    ..old(self)@
                };
                let op = old(self).spec_next_op();
                &&& (0x40 <= op <= 0x7F && op != 0x76 ==> ({
                    let step = spec_ld_step(s0, op);
                    r == Ok::<u32, EmuError>(step.1 as u32) && final(self)@ == (CpuView {
                        mem: spec_tick(step.0.mem, step.1),
                        ..step.0
                    })
                }))
                &&& (0x80 <= op <= 0xBF ==> ({
                    let step = spec_alu_step(s0, op);
                    r == Ok::<u32, EmuError>(step.1 as u32) && final(self)@ == (CpuView {
                        mem: spec_tick(step.0.mem, step.1),
                        ..step.0
                    })
                }))
                &&& (op == 0xCB ==> ({
                    let step = spec_prefixed_step(s0);
                    r == Ok::<u32, EmuError>(step.1 as u32) && final(self)@ == (CpuView {
                        mem: spec_tick(step.0.mem, step.1),
                        ..step.0
                    })
                }))
                &&& (op < 0x40 && (op % 8 == 4 || op % 8 == 5) ==> ({
                    let step = spec_incdec_step(s0, op);
                    r == Ok::<u32, EmuError>(step.1 as u32) && final(self)@ == (CpuView {
                        mem: spec_tick(step.0.mem, step.1),
                        ..step.0
                    })
                }))
                &&& ((op == 0x18 || op == 0x20 || op == 0x28 || op == 0x30 || op == 0x38) ==> ({
                    let step = spec_jr_step(s0, op);
                    r == Ok::<u32, EmuError>(step.1 as u32) && final(self)@ == (CpuView {
                        mem: spec_tick(step.0.mem, step.1),
                        ..step.0
                    })
                }))
                &&& (op < 0x40 && op % 8 == 6 ==> ({
                    let step = spec_ldn_step(s0, op);
                    r == Ok::<u32, EmuError>(step.1 as u32) && final(self)@ == (CpuView {
                        mem: spec_tick(step.0.mem, step.1),
                        ..step.0
                    })
                }))
                &&& (op == 0x00 ==> r == Ok::<u32, EmuError>(4) && final(self)@ == (CpuView {
                    reg: (Registers { pc: ((s0.reg.pc + 1) % 0x10000) as u16, ..s0.reg }),
                    mem: spec_tick(s0.mem, 4),
                    ..s0
                }))
                &&& (op == 0x76 ==> r == Ok::<u32, EmuError>(4) && final(self)@ == (CpuView {
                    halted: true,
                    reg: (Registers { pc: ((s0.reg.pc + 1) % 0x10000) as u16, ..s0.reg }),
                    mem: spec_tick(s0.mem, 4),
                    ..s0
                }))
            }),
    {
        let ime_now = if self.ei_delay == 1 {
            true
        } else {
            self.ime
        };
        let pending = self.memory.inte & self.memory.intf & 0x1F;
        let dispatch = ime_now && pending != 0;
        let stays_halted = self.halted && pending == 0;
        if !dispatch && !stays_halted {
            let op = self.memory.read_byte(self.reg.pc);
            if !op_supported(op) {
                return Err(EmuError::UnsupportedInstruction(op));
            }
            if self.ei_delay == 1 {
                self.ime = true;
            }
            if self.ei_delay > 0 {
                self.ei_delay = self.ei_delay - 1;
            }
            if self.halted {
                self.halted = false;
            }
            let ghost s0 = self@;
            proof {
                assert(s0 =~= (CpuView {
                    ime: old(self).spec_ime_now(),
                    ei_delay: old(self).spec_ei_decay(),
                    halted: false,
                    ..old(self)@
                }));
            }
            let c = self.exec_op(op);
            let ghost s_exec = self@;
            self.memory.do_cycle(c);
            proof {
                assert(self@ =~= (CpuView { mem: spec_tick(s_exec.mem, c as int), ..s_exec }));
            }
            Ok(c)
        } else {
            if self.ei_delay == 1 {
                self.ime = true;
            }
            if self.ei_delay > 0 {
                self.ei_delay = self.ei_delay - 1;
            }
            if dispatch {
                self.halted = false;
                self.service_interrupt();
                self.memory.do_cycle(16);
                Ok(16)
            } else {
                self.memory.do_cycle(4);
                Ok(4)
            }
        }
    }
}

} // verus!
