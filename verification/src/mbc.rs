//! The cartridge bank controller: maps the 32KB logical ROM window onto a
//! larger cartridge image through a selectable bank register. Bank 0 is
//! always visible in the low 16KB window; the selected bank occupies the
//! high window. Reads past the end of the image return the fill byte 0xFF.
use vstd::prelude::*;

verus! {

/// The number of switchable banks the controller addresses.
pub const ROM_BANK_COUNT: usize = 8;

/// The cartridge image together with the bank-select state.
pub struct MemoryBankController {
    pub rom: Vec<u8>,
    pub rombank: usize,
    pub rombanks: usize,
}

impl MemoryBankController {
    /// The selected bank always lies below the bank count.
    pub open spec fn wf(self) -> bool {
        &&& self.rombanks == ROM_BANK_COUNT
        &&& self.rombank < self.rombanks
    }

    /// The byte a read returns: addresses below 0x4000 map to bank 0, the
    /// rest to the selected bank; offsets beyond the image end give 0xFF.
    pub open spec fn spec_readrom(self, a: u16) -> u8 {
        spec_rom_read(self.rom@, self.rombank as int, a)
    }

    /// The bank a select write installs: the low 5 bits of the value, with
    /// 0 coerced to 1, reduced modulo the bank count. Writes outside
    /// 0x2000-0x3FFF change nothing.
    pub open spec fn spec_bank_after(self, a: u16, v: u8) -> usize {
        if 0x2000 <= a && a <= 0x3FFF {
            spec_bank_value(self.rombanks, v)
        } else {
            self.rombank
        }
    }

    /// Take ownership of the cartridge image, starting on bank 1.
    pub fn new(data: Vec<u8>) -> (r: MemoryBankController)
        ensures
            r.wf(),
            r.rom@ == data@,
            r.rombank == 1,
            r.rombanks == ROM_BANK_COUNT,
    {
        MemoryBankController { rom: data, rombank: 1, rombanks: ROM_BANK_COUNT }
    }

    /// Read one byte through the bank mapping.
    pub fn readrom(&self, a: u16) -> (r: u8)
        requires
            self.wf(),
        ensures
            r == self.spec_readrom(a),
    {
        let bank: usize = if a < 0x4000 {
            0
        } else {
            self.rombank
        };
        let idx: usize = bank * 0x4000 + a as usize % 0x4000;
        if idx < self.rom.len() {
            self.rom[idx]
        } else {
            0xFF
        }
    }

    /// A write into 0x2000-0x3FFF selects a bank; any other address is
    /// ignored. The image itself is never written.
    pub fn writerom(&mut self, a: u16, v: u8)
        requires
            old(self).wf(),
        ensures
            final(self).wf(),
            final(self).rombank == old(self).spec_bank_after(a, v),
            final(self).rom@ == old(self).rom@,
            final(self).rombanks == old(self).rombanks,
    {
        if 0x2000 <= a && a <= 0x3FFF {
            let lower: usize = if v as usize % 32 == 0 {
                1
            } else {
                v as usize % 32
            };
            let ghost rb = self.rombank;
            proof {
                assert((rb & 0x60) | lower == lower) by (bit_vector)
                    requires
                        rb < 8usize,
                        0 < lower < 32usize,
                ;
            }
            self.rombank = ((self.rombank & 0x60) | lower) % self.rombanks;
        }
    }
}

/// The byte the bank mapping yields for address `a` over a cartridge
/// image `rom` with the switchable window on bank `rombank`.
pub open spec fn spec_rom_read(rom: Seq<u8>, rombank: int, a: u16) -> u8 {
    let bank: int = if a < 0x4000 {
        0
    } else {
        rombank
    };
    let idx = bank * 0x4000 + a as int % 0x4000;
    if idx < rom.len() {
        rom[idx]
    } else {
        0xFF
    }
}

/// The bank number a select value denotes: its low five bits, with zero
/// coerced to one, reduced modulo the bank count.
pub open spec fn spec_bank_value(rombanks: usize, v: u8) -> usize {
    (if v as usize % 32 == 0 {
        1usize
    } else {
        v as usize % 32
    }) % rombanks
}

/// Bank selection follows the documented rule: value 0 selects bank 1, and
/// value `k` selects `k mod 32 mod bank-count` (with the zero coercion);
/// reads below 0x4000 return bank-0 data whatever bank is selected.
pub proof fn lemma_bank_select(m: MemoryBankController, a: u16, v: u8)
    requires
        m.wf(),
        0x2000 <= a <= 0x3FFF,
    ensures
        v as usize % 32 == 0 ==> m.spec_bank_after(a, v) == 1usize,
        v as usize % 32 != 0 ==> m.spec_bank_after(a, v) == (v as usize % 32) % ROM_BANK_COUNT,
        forall|m2: MemoryBankController, a2: u16|
            m2.rom@ == m.rom@ && a2 < 0x4000 ==> #[trigger] m2.spec_readrom(a2) == m.spec_readrom(
                a2,
            ),
{
    if v as usize % 32 == 0 {
        assert(1usize % 8 == 1);
    }
}

} // verus!
