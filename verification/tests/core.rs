//! End-to-end behaviour of the emulator core: memory routing, bank
//! switching, the input latch and the interrupt it raises, and whole-frame
//! execution through the processor.
use gb::input::Button;
use gb::input::Input;
use gb::mbc::MemoryBankController;
use gb::mmu::MemoryManagementUnit;
use gb::EmuError;
use gb::GameBoy;

fn blank_rom() -> Vec<u8> {
    vec![0u8; 0x8000]
}

#[test]
fn ram_read_after_write() {
    let mut m = MemoryManagementUnit::new(blank_rom());
    // work RAM, both windows, high RAM, video RAM, object attribute memory
    m.write_byte(0xC000, 0x11);
    assert_eq!(m.read_byte(0xC000), 0x11);
    m.write_byte(0xDFFF, 0x22);
    assert_eq!(m.read_byte(0xDFFF), 0x22);
    m.write_byte(0xFF80, 0x33);
    assert_eq!(m.read_byte(0xFF80), 0x33);
    m.write_byte(0x8ABC, 0x44);
    assert_eq!(m.read_byte(0x8ABC), 0x44);
    m.write_byte(0xFE12, 0x55);
    assert_eq!(m.read_byte(0xFE12), 0x55);
}

#[test]
fn echo_region_aliases_work_ram() {
    let mut m = MemoryManagementUnit::new(blank_rom());
    m.write_byte(0xC123, 0x99);
    assert_eq!(m.read_byte(0xE123), 0x99);
    m.write_byte(0xF456, 0x77);
    assert_eq!(m.read_byte(0xD456), 0x77);
}

#[test]
fn rom_is_read_only() {
    let mut rom = blank_rom();
    rom[0x1234] = 0xAB;
    let mut m = MemoryManagementUnit::new(rom);
    assert_eq!(m.read_byte(0x1234), 0xAB);
    // a write into the low window is a no-op on the image (it is a bank
    // select only outside 0x2000-0x3FFF, and never a store)
    m.write_byte(0x1234, 0x00);
    assert_eq!(m.read_byte(0x1234), 0xAB);
}

#[test]
fn unmapped_reads_give_fill_byte() {
    let m = MemoryManagementUnit::new(blank_rom());
    assert_eq!(m.read_byte(0xA123), 0xFF);
    assert_eq!(m.read_byte(0xFEA0), 0xFF);
    assert_eq!(m.read_byte(0xFF77), 0xFF);
}

#[test]
fn bank_select_zero_coerces_to_one() {
    // 8 banks of 16KB, each filled with its own bank number
    let mut rom = vec![0u8; 8 * 0x4000];
    for b in 0..8 {
        for i in 0..0x4000 {
            rom[b * 0x4000 + i] = b as u8;
        }
    }
    let mut mbc = MemoryBankController::new(rom);
    assert_eq!(mbc.readrom(0x4000), 1); // starts on bank 1
    mbc.writerom(0x2000, 0);
    assert_eq!(mbc.readrom(0x4000), 1); // 0 selects bank 1
    mbc.writerom(0x2000, 3);
    assert_eq!(mbc.readrom(0x4000), 3);
    mbc.writerom(0x2000, 11);
    assert_eq!(mbc.readrom(0x4000), 3); // 11 mod 8
    mbc.writerom(0x2000, 8);
    assert_eq!(mbc.readrom(0x4000), 0); // 8 mod 8: the fixed bank again
    // the low window always shows bank 0
    mbc.writerom(0x2000, 5);
    assert_eq!(mbc.readrom(0x0000), 0);
    assert_eq!(mbc.readrom(0x3FFF), 0);
    assert_eq!(mbc.readrom(0x7FFF), 5);
}

#[test]
fn short_rom_reads_fill_byte() {
    let mbc = MemoryBankController::new(vec![0x42]);
    assert_eq!(mbc.readrom(0x0000), 0x42);
    assert_eq!(mbc.readrom(0x0001), 0xFF);
    assert_eq!(mbc.readrom(0x4000), 0xFF);
}

#[test]
fn input_rows_and_select() {
    let mut inp = Input::new();
    // direction row selected at power-on
    assert_eq!(inp.read_byte(), 0xF);
    inp.keydown(Button::Left);
    assert_eq!(inp.read_byte(), 0xD);
    inp.keyup(Button::Left);
    assert_eq!(inp.read_byte(), 0xF);
    // select the action row (bit 5 cleared in the written value)
    inp.write_byte(0x10);
    inp.keydown(Button::A);
    assert_eq!(inp.read_byte(), 0xE);
    // a write that selects no row keeps the previous selection
    inp.write_byte(0x30);
    assert_eq!(inp.read_byte(), 0xE);
    // back to the direction row, where nothing is held
    inp.write_byte(0x20);
    assert_eq!(inp.read_byte(), 0xF);
}

#[test]
fn fresh_press_raises_interrupt_once() {
    let mut inp = Input::new();
    assert_eq!(inp.interrupt, 0);
    inp.keydown(Button::Start);
    assert_eq!(inp.interrupt, 0x10);
    inp.interrupt = 0;
    // pressing the already-held button raises nothing more
    inp.keydown(Button::Start);
    assert_eq!(inp.interrupt, 0);
    // a different fresh press raises again, whatever row is selected
    inp.keydown(Button::Up);
    assert_eq!(inp.interrupt, 0x10);
}

#[test]
fn input_interrupt_reaches_pending_register() {
    let mut m = MemoryManagementUnit::new(blank_rom());
    m.input.keydown(Button::B);
    assert_eq!(m.intf & 0x10, 0);
    m.do_cycle(4);
    assert_eq!(m.intf & 0x10, 0x10);
    assert_eq!(m.input.interrupt, 0);
}

#[test]
fn word_access_is_little_endian() {
    let mut m = MemoryManagementUnit::new(blank_rom());
    m.write_word(0xC100, 0xABCD);
    assert_eq!(m.read_byte(0xC100), 0xCD);
    assert_eq!(m.read_byte(0xC101), 0xAB);
    assert_eq!(m.read_word(0xC100), 0xABCD);
}

#[test]
fn work_ram_banking() {
    let mut m = MemoryManagementUnit::new(blank_rom());
    assert_eq!(m.read_byte(0xFF70), 1);
    m.write_byte(0xD000, 0xAA); // bank 1
    m.write_byte(0xFF70, 3);
    assert_eq!(m.read_byte(0xFF70), 3);
    m.write_byte(0xD000, 0xBB); // bank 3
    m.write_byte(0xFF70, 0); // 0 is coerced to 1
    assert_eq!(m.read_byte(0xFF70), 1);
    assert_eq!(m.read_byte(0xD000), 0xAA);
    m.write_byte(0xFF70, 3);
    assert_eq!(m.read_byte(0xD000), 0xBB);
}

#[test]
fn dma_copies_into_oam() {
    let mut m = MemoryManagementUnit::new(blank_rom());
    for i in 0..0xA0u16 {
        m.write_byte(0xC200 + i, (i as u8).wrapping_mul(3));
    }
    m.write_byte(0xFF46, 0xC2);
    for i in 0..0xA0u16 {
        assert_eq!(m.read_byte(0xFE00 + i), (i as u8).wrapping_mul(3));
    }
}

#[test]
fn construction_rejects_empty_cartridge() {
    assert!(matches!(GameBoy::new(Vec::new()), Err(EmuError::InvalidCartridge)));
    assert!(GameBoy::new(vec![0u8]).is_ok());
}

#[test]
fn dimensions_are_fixed() {
    let gb = GameBoy::new(blank_rom()).unwrap();
    assert_eq!(gb.width(), 160);
    assert_eq!(gb.height(), 144);
    assert_eq!(gb.data().len(), 160 * 144 * 4);
}

/// A ROM that spins forever (a relative jump to itself) still yields a
/// frame: the frame-advance loop is bounded by the frame's clock budget.
#[test]
fn frame_returns_on_wait_loop() {
    let mut rom = blank_rom();
    rom[0x100] = 0x18; // JR -2: jump to itself
    rom[0x101] = 0xFE;
    let mut gb = GameBoy::new(rom).unwrap();
    assert_eq!(gb.frame(), Ok(()));
    assert!(!gb.cpu.memory.gpu.updated);
}

/// A halted machine with interrupts disabled also cannot stall the frame
/// loop.
#[test]
fn frame_returns_when_halted() {
    let mut rom = blank_rom();
    rom[0x100] = 0xF3; // DI
    rom[0x101] = 0x76; // HALT
    let mut gb = GameBoy::new(rom).unwrap();
    assert_eq!(gb.frame(), Ok(()));
}

#[test]
fn undefined_opcode_is_fatal() {
    let mut rom = blank_rom();
    rom[0x100] = 0xD3;
    let mut gb = GameBoy::new(rom).unwrap();
    assert_eq!(gb.frame(), Err(EmuError::UnsupportedInstruction(0xD3)));
}

/// A small program: load, add, store, halt. The stored sum is visible in
/// work RAM after one frame.
#[test]
fn program_computes_and_stores() {
    let mut rom = blank_rom();
    let program = [
        0x3E, 0x05, // LD A, 5
        0xC6, 0x07, // ADD A, 7
        0xEA, 0x00, 0xC0, // LD (0xC000), A
        0xF3, // DI
        0x76, // HALT
    ];
    rom[0x100..0x100 + program.len()].copy_from_slice(&program);
    let mut gb = GameBoy::new(rom).unwrap();
    assert_eq!(gb.frame(), Ok(()));
    assert_eq!(gb.cpu.memory.read_byte(0xC000), 12);
}

/// Pushes and pops through the stack, a call and a return.
#[test]
fn program_call_and_return() {
    let mut rom = blank_rom();
    let program = [
        0x31, 0x00, 0xD0, // LD SP, 0xD000
        0xCD, 0x0A, 0x01, // CALL 0x010A
        0xEA, 0x01, 0xC0, // LD (0xC001), A
        0x76, // HALT (at 0x0109)
        0x3E, 0x2A, // 0x010A: LD A, 42
        0xC9, // RET
    ];
    rom[0x100..0x100 + program.len()].copy_from_slice(&program);
    let mut gb = GameBoy::new(rom).unwrap();
    assert_eq!(gb.frame(), Ok(()));
    assert_eq!(gb.cpu.memory.read_byte(0xC001), 42);
}

/// The VBlank interrupt is serviced through its vector once enabled.
#[test]
fn vblank_interrupt_is_serviced() {
    let mut rom = blank_rom();
    let program = [
        0x31, 0xFE, 0xFF, // LD SP, 0xFFFE
        0x3E, 0x01, // LD A, 1
        0xE0, 0xFF, // LDH (0xFF), A: enable the frame interrupt
        0xFB, // EI
        0x18, 0xFE, // JR -2: wait for it
    ];
    rom[0x100..0x100 + program.len()].copy_from_slice(&program);
    // the frame-interrupt vector: record a witness, halt
    rom[0x40] = 0x3E; // LD A, 0x5A
    rom[0x41] = 0x5A;
    rom[0x42] = 0xEA; // LD (0xC002), A
    rom[0x43] = 0x02;
    rom[0x44] = 0xC0;
    rom[0x45] = 0xF3; // DI
    rom[0x46] = 0x76; // HALT
    let mut gb = GameBoy::new(rom).unwrap();
    // the first frame ends the moment vertical blank marks it complete;
    // the pending interrupt is serviced at the top of the next one
    assert_eq!(gb.frame(), Ok(()));
    assert_eq!(gb.frame(), Ok(()));
    assert_eq!(gb.cpu.memory.read_byte(0xC002), 0x5A);
}

#[test]
fn gameboy_routes_input() {
    let mut gb = GameBoy::new(blank_rom()).unwrap();
    gb.keydown(Button::A);
    assert_eq!(gb.cpu.memory.input.buttons, 0xE);
    assert_eq!(gb.cpu.memory.input.interrupt, 0x10);
    gb.keyup(Button::A);
    assert_eq!(gb.cpu.memory.input.buttons, 0xF);
}

/// A counted loop: decrements and a conditional backward jump.
#[test]
fn program_counted_loop() {
    let mut rom = blank_rom();
    let program = [
        0x06, 0x03, // LD B, 3
        0x05, // DEC B
        0x20, 0xFD, // JR NZ, -3: back to the DEC
        0x78, // LD A, B
        0xEA, 0x03, 0xC0, // LD (0xC003), A
        0xF3, // DI
        0x76, // HALT
    ];
    rom[0x100..0x100 + program.len()].copy_from_slice(&program);
    let mut gb = GameBoy::new(rom).unwrap();
    assert_eq!(gb.frame(), Ok(()));
    assert_eq!(gb.cpu.memory.read_byte(0xC003), 0);
}

/// Decimal adjust after a BCD addition: 0x15 + 0x27 adjusts to 0x42.
#[test]
fn program_decimal_adjust() {
    let mut rom = blank_rom();
    let program = [
        0x3E, 0x15, // LD A, 0x15
        0xC6, 0x27, // ADD A, 0x27
        0x27, // DAA
        0xEA, 0x04, 0xC0, // LD (0xC004), A
        0xF3, // DI
        0x76, // HALT
    ];
    rom[0x100..0x100 + program.len()].copy_from_slice(&program);
    let mut gb = GameBoy::new(rom).unwrap();
    assert_eq!(gb.frame(), Ok(()));
    assert_eq!(gb.cpu.memory.read_byte(0xC004), 0x42);
}

/// A prefixed instruction: swapping the accumulator's nibbles.
#[test]
fn program_swap_nibbles() {
    let mut rom = blank_rom();
    let program = [
        0x3E, 0xF0, // LD A, 0xF0
        0xCB, 0x37, // SWAP A
        0xEA, 0x05, 0xC0, // LD (0xC005), A
        0xF3, // DI
        0x76, // HALT
    ];
    rom[0x100..0x100 + program.len()].copy_from_slice(&program);
    let mut gb = GameBoy::new(rom).unwrap();
    assert_eq!(gb.frame(), Ok(()));
    assert_eq!(gb.cpu.memory.read_byte(0xC005), 0x0F);
}

/// Enabling interrupts takes effect one instruction late: the instruction
/// after the enable executes before a pending interrupt is serviced.
#[test]
fn interrupt_enable_is_delayed_one_instruction() {
    let mut rom = blank_rom();
    rom[0x100] = 0xFB; // EI
    rom[0x101] = 0x04; // INC B
    let mut gb = GameBoy::new(rom).unwrap();
    gb.cpu.memory.inte = 1;
    gb.cpu.memory.intf = 1;
    gb.cpu.do_cycle().unwrap(); // EI itself
    assert_eq!(gb.cpu.reg.pc, 0x101);
    assert!(!gb.cpu.ime);
    gb.cpu.do_cycle().unwrap(); // one more instruction still runs
    assert_eq!(gb.cpu.reg.pc, 0x102);
    assert_eq!(gb.cpu.reg.b, 1);
    gb.cpu.do_cycle().unwrap(); // now the pending interrupt is taken
    assert_eq!(gb.cpu.reg.pc, 0x40);
    assert!(!gb.cpu.ime);
}

/// A halted machine idles without fetching, and wakes when an enabled
/// interrupt becomes pending even while the master flag is off.
#[test]
fn halt_idles_and_wakes_on_pending_interrupt() {
    let mut rom = blank_rom();
    rom[0x100] = 0xF3; // DI
    rom[0x101] = 0x76; // HALT
    rom[0x102] = 0x04; // INC B
    let mut gb = GameBoy::new(rom).unwrap();
    gb.cpu.memory.inte = 1;
    gb.cpu.do_cycle().unwrap(); // DI
    gb.cpu.do_cycle().unwrap(); // HALT
    assert!(gb.cpu.halted);
    let pc = gb.cpu.reg.pc;
    assert_eq!(gb.cpu.do_cycle().unwrap(), 4); // idling
    assert_eq!(gb.cpu.reg.pc, pc);
    assert!(gb.cpu.halted);
    gb.cpu.memory.intf = 1; // an enabled interrupt becomes pending
    gb.cpu.do_cycle().unwrap(); // wakes and executes (master flag off)
    assert!(!gb.cpu.halted);
    assert_eq!(gb.cpu.reg.b, 1);
}

/// Memory addressing through HL, an absolute load, a rotate and the stack
/// working together.
#[test]
fn program_hl_stack_and_rotate() {
    let mut rom = blank_rom();
    let program = [
        0x31, 0xFE, 0xFF, // LD SP, 0xFFFE
        0x21, 0x10, 0xC0, // LD HL, 0xC010
        0x36, 0x34, // LD (HL), 0x34
        0x23, // INC HL
        0x36, 0x12, // LD (HL), 0x12
        0xFA, 0x10, 0xC0, // LD A, (0xC010)
        0x07, // RLCA: 0x34 -> 0x68
        0x47, // LD B, A
        0xC5, // PUSH BC
        0xD1, // POP DE
        0x7A, // LD A, D
        0xEA, 0x20, 0xC0, // LD (0xC020), A
        0xF3, // DI
        0x76, // HALT
    ];
    rom[0x100..0x100 + program.len()].copy_from_slice(&program);
    let mut gb = GameBoy::new(rom).unwrap();
    assert_eq!(gb.frame(), Ok(()));
    assert_eq!(gb.cpu.memory.read_byte(0xC010), 0x34);
    assert_eq!(gb.cpu.memory.read_byte(0xC011), 0x12);
    assert_eq!(gb.cpu.memory.read_byte(0xC020), 0x68);
}

/// Signed stack-pointer arithmetic: a negative displacement, and the
/// HL-from-SP form.
#[test]
fn program_signed_stack_arithmetic() {
    let mut rom = blank_rom();
    let program = [
        0x31, 0xF0, 0xFF, // LD SP, 0xFFF0
        0xE8, 0xFE, // ADD SP, -2: SP = 0xFFEE
        0xF8, 0x01, // LD HL, SP+1: HL = 0xFFEF
        0x7D, // LD A, L
        0xEA, 0x21, 0xC0, // LD (0xC021), A
        0xF3, // DI
        0x76, // HALT
    ];
    rom[0x100..0x100 + program.len()].copy_from_slice(&program);
    let mut gb = GameBoy::new(rom).unwrap();
    assert_eq!(gb.frame(), Ok(()));
    assert_eq!(gb.cpu.reg.sp, 0xFFEE);
    assert_eq!(gb.cpu.memory.read_byte(0xC021), 0xEF);
}

/// Loads and arithmetic through the HL operand of the register table.
#[test]
fn program_hl_operand_forms() {
    let mut rom = blank_rom();
    let program = [
        0x21, 0x30, 0xC0, // LD HL, 0xC030
        0x36, 0x21, // LD (HL), 0x21
        0x46, // LD B, (HL)
        0x78, // LD A, B
        0x86, // ADD A, (HL): 0x21 + 0x21 = 0x42
        0xEA, 0x31, 0xC0, // LD (0xC031), A
        0xAE, // XOR (HL): 0x42 ^ 0x21 = 0x63
        0xEA, 0x32, 0xC0, // LD (0xC032), A
        0xF3, // DI
        0x76, // HALT
    ];
    rom[0x100..0x100 + program.len()].copy_from_slice(&program);
    let mut gb = GameBoy::new(rom).unwrap();
    assert_eq!(gb.frame(), Ok(()));
    assert_eq!(gb.cpu.memory.read_byte(0xC031), 0x42);
    assert_eq!(gb.cpu.memory.read_byte(0xC032), 0x63);
}
