use c8lib::cpu::{bcd, Cpu};
use c8lib::errors::Chip8Error;
use c8lib::interconnect::{bit_index, Interconnect};
use c8lib::opcodes::{disassemble, halfword2nibbles, nibble2byte, nibbles2addr, Opcode};
use c8lib::register::{reg, Reg};
use c8lib::timing::Scheduler;

#[test]
fn check_bcd() {
    assert_eq!((2, 3, 4), bcd(234));
    assert_eq!((0, 0, 4), bcd(4));
    assert_eq!((2, 0, 1), bcd(201));
    assert_eq!((1, 0, 1), bcd(101));
    assert_eq!((1, 3, 9), bcd(139));
}

#[test]
fn halfwordsplit() {
    assert_eq!((0x0, 0x0, 0x0, 0x0), halfword2nibbles(0x0000));
    assert_eq!((0x1, 0x0, 0x1, 0x0), halfword2nibbles(0x1010));
    assert_eq!((0x1, 0x1, 0x0, 0x1), halfword2nibbles(0x1101));
    assert_eq!((0x8, 0x3, 0x7, 0x0), halfword2nibbles(0x8370));
    assert_eq!((0xA, 0x3, 0x3, 0xB), halfword2nibbles(0xA33B));
    assert_eq!((0x4, 0xE, 0x9, 0xB), halfword2nibbles(0x4E9B));
    assert_eq!((0xF, 0xF, 0xF, 0xF), halfword2nibbles(0xFFFF));
}

#[test]
fn bytejoin() {
    assert_eq!(nibble2byte(0x0, 0x0), 0x00);
    assert_eq!(nibble2byte(0x1, 0x0), 0x10);
    assert_eq!(nibble2byte(0x1, 0x1), 0x11);
    assert_eq!(nibble2byte(0x8, 0x3), 0x83);
    assert_eq!(nibble2byte(0xA, 0x3), 0xA3);
    assert_eq!(nibble2byte(0x4, 0xE), 0x4E);
    assert_eq!(nibble2byte(0xF, 0xF), 0xFF);

    // Try to mess it up
    assert_eq!(nibble2byte(0x10, 0x60), 0x00);
    assert_eq!(nibble2byte(0x41, 0x60), 0x10);
    assert_eq!(nibble2byte(0xA1, 0x91), 0x11);
    assert_eq!(nibble2byte(0x98, 0xA3), 0x83);
    assert_eq!(nibble2byte(0x2A, 0xF3), 0xA3);
    assert_eq!(nibble2byte(0x34, 0x1E), 0x4E);
    assert_eq!(nibble2byte(0x4F, 0x6F), 0xFF);
}

#[test]
fn addr_from_nibbles() {
    assert_eq!(nibbles2addr(0x0, 0x0, 0x0), 0x0000);
    assert_eq!(nibbles2addr(0x1, 0x0, 0x0), 0x0100);
    assert_eq!(nibbles2addr(0x1, 0x1, 0x7), 0x0117);
    assert_eq!(nibbles2addr(0x8, 0x3, 0xE), 0x083E);
    assert_eq!(nibbles2addr(0xA, 0x3, 0xD), 0x0A3D);
    assert_eq!(nibbles2addr(0x4, 0xE, 0xB), 0x04EB);
    assert_eq!(nibbles2addr(0xF, 0xF, 0xF), 0x0FFF);
}

#[test]
fn it_works() {}

#[test]
fn split_join_round_trip() {
    for b in 0..=255u8 {
        assert_eq!(nibble2byte(b >> 4, b & 0x0F), b);
    }
    for w in [0x0000u16, 0x1234, 0x8370, 0xA33B, 0xFFFF] {
        let (a, b, c, d) = halfword2nibbles(w);
        assert_eq!(nibbles2addr(b, c, d), w & 0x0FFF);
        assert_eq!(nibble2byte(a, b), (w >> 8) as u8);
    }
}

#[test]
fn decode_is_total_and_exact() {
    assert_eq!(disassemble(0x00E0), Ok(Opcode::ClearScreen));
    assert_eq!(disassemble(0x00EE), Ok(Opcode::Return));
    assert_eq!(disassemble(0x0123), Ok(Opcode::SysAddr(0x123)));
    assert_eq!(disassemble(0x1ABC), Ok(Opcode::JumpAddr(0xABC)));
    assert_eq!(disassemble(0x2ABC), Ok(Opcode::CallAddr(0xABC)));
    assert_eq!(disassemble(0x3A42), Ok(Opcode::SkipEqByte(Reg::VA, 0x42)));
    assert_eq!(disassemble(0x6A05), Ok(Opcode::LoadByte(Reg::VA, 0x05)));
    assert_eq!(disassemble(0x8124), Ok(Opcode::MathAdd(Reg::V1, Reg::V2)));
    assert_eq!(disassemble(0x8125), Ok(Opcode::MathSub(Reg::V1, Reg::V2)));
    assert_eq!(disassemble(0xD125), Ok(Opcode::Draw(Reg::V1, Reg::V2, 5)));
    assert_eq!(disassemble(0xF533), Ok(Opcode::BCD(Reg::V5)));
    // unmatched patterns carry the raw word back
    assert_eq!(
        disassemble(0x5ABF),
        Err(Chip8Error::UnrecognizedOpcode(0x5ABF))
    );
    assert_eq!(
        disassemble(0xE000),
        Err(Chip8Error::UnrecognizedOpcode(0xE000))
    );
    assert_eq!(
        disassemble(0xFFFF),
        Err(Chip8Error::UnrecognizedOpcode(0xFFFF))
    );
    // decoding is deterministic: the same word decodes the same way twice
    for w in 0..=0xFFFFu16 {
        assert_eq!(disassemble(w), disassemble(w));
    }
}

#[test]
fn reg_names_all_nibbles() {
    assert_eq!(reg(0), Reg::V0);
    assert_eq!(reg(9), Reg::V9);
    assert_eq!(reg(0xA), Reg::VA);
    assert_eq!(reg(0xF), Reg::VF);
    for x in 0..16u8 {
        assert_eq!(reg(x).index(), x as usize);
    }
}

#[test]
fn bit_index_msb_first() {
    assert!(bit_index(0b1000_0000, 0));
    assert!(!bit_index(0b1000_0000, 1));
    assert!(bit_index(0b0000_0001, 7));
    assert!(bit_index(0xF0, 3));
    assert!(!bit_index(0xF0, 4));
}

#[test]
fn load_rom_rejects_oversized() {
    let mut ic = Interconnect::init();
    let rom = vec![0u8; 4096 - 0x200 + 1];
    assert_eq!(
        ic.load_rom(&rom),
        Err(Chip8Error::CapacityExceeded(4096 - 0x200 + 1))
    );
    let rom = vec![0xABu8; 4096 - 0x200];
    assert_eq!(ic.load_rom(&rom), Ok(4096 - 0x200));
    assert_eq!(ic.read_byte(0x200), 0xAB);
    assert_eq!(ic.read_byte(0xFFF), 0xAB);
}

#[test]
fn load_byte_then_underflowing_return() {
    let mut ic = Interconnect::init();
    let rom = [0x6A, 0x05, 0x00, 0xEE];
    assert_eq!(ic.load_rom(&rom), Ok(4));
    let mut cpu = Cpu::init();
    assert_eq!(cpu.pc, 0x200);
    assert_eq!(cpu.run_cycle(&mut ic), Ok(()));
    assert_eq!(cpu.gpregs[0xA], 5);
    assert_eq!(cpu.pc, 0x202);
    // the return finds an empty call stack and must report it, not execute
    assert_eq!(cpu.run_cycle(&mut ic), Err(Chip8Error::StackUnderflow));
}

#[test]
fn unsupported_system_call_is_fatal() {
    let mut ic = Interconnect::init();
    let rom = [0x01, 0x23];
    assert_eq!(ic.load_rom(&rom), Ok(2));
    let mut cpu = Cpu::init();
    assert_eq!(
        cpu.run_cycle(&mut ic),
        Err(Chip8Error::UnsupportedSystemCall(0x123))
    );
}

#[test]
fn call_stack_overflow_is_fatal() {
    let mut ic = Interconnect::init();
    // a call that targets itself: every step pushes a return address
    let rom = [0x22, 0x00];
    assert_eq!(ic.load_rom(&rom), Ok(2));
    let mut cpu = Cpu::init();
    for _ in 0..16 {
        assert_eq!(cpu.run_cycle(&mut ic), Ok(()));
    }
    assert_eq!(cpu.run_cycle(&mut ic), Err(Chip8Error::StackOverflow));
}

#[test]
fn draw_glyph_wraps_rows() {
    let mut ic = Interconnect::init();
    // the digit-0 glyph lives at the base of memory, five rows of 0xF0/0x90
    let addr = ic.get_font(0);
    assert_eq!(addr, 0);
    let collision = ic.draw_sprite(addr, 60, 30, 5);
    assert!(!collision);
    // rows 30 and 31 on screen, rows 2, 3 and 4 wrapped to the top
    assert!(ic.graphics[30 * 64 + 60]);
    assert!(ic.graphics[30 * 64 + 63]);
    assert!(ic.graphics[31 * 64 + 60]);
    assert!(!ic.graphics[31 * 64 + 61]);
    assert!(ic.graphics[31 * 64 + 63]);
    assert!(ic.graphics[0 * 64 + 60]);
    assert!(ic.graphics[0 * 64 + 63]);
    assert!(ic.graphics[1 * 64 + 60]);
    assert!(ic.graphics[2 * 64 + 60]);
    assert!(ic.graphics[2 * 64 + 62]);
}

#[test]
fn draw_glyph_wraps_columns() {
    let mut ic = Interconnect::init();
    // drawn at column 62, the left half of each row runs past x = 63 and
    // wraps back to x = 0 rather than clipping
    let collision = ic.draw_sprite(0, 62, 0, 5);
    assert!(!collision);
    assert!(ic.graphics[0 * 64 + 62]);
    assert!(ic.graphics[0 * 64 + 63]);
    assert!(ic.graphics[0 * 64 + 0]);
    assert!(ic.graphics[0 * 64 + 1]);
    assert!(ic.graphics[1 * 64 + 62]);
    assert!(!ic.graphics[1 * 64 + 63]);
    assert!(!ic.graphics[1 * 64 + 0]);
    assert!(ic.graphics[1 * 64 + 1]);
}

#[test]
fn draw_twice_clears_and_collides() {
    let mut ic = Interconnect::init();
    let first = ic.draw_sprite(0, 10, 10, 5);
    assert!(!first);
    let second = ic.draw_sprite(0, 10, 10, 5);
    assert!(second);
    for i in 0..2048 {
        assert!(!ic.graphics[i]);
    }
}

#[test]
fn disjoint_draws_never_collide() {
    let mut ic = Interconnect::init();
    assert!(!ic.draw_sprite(0, 0, 0, 5));
    assert!(!ic.draw_sprite(0, 8, 0, 5));
    assert!(!ic.draw_sprite(0, 0, 8, 5));
}

#[test]
fn timer_decay_saturates() {
    let mut cpu = Cpu::init();
    cpu.delay = 10;
    cpu.sound = 3;
    cpu.timer(4);
    assert_eq!(cpu.delay, 6);
    assert_eq!(cpu.sound, 0);
    cpu.timer(0);
    assert_eq!(cpu.delay, 6);
    // a huge backlog is clamped to 255 ticks and the timer stops at zero
    cpu.delay = 255;
    cpu.timer(1_000_000);
    assert_eq!(cpu.delay, 0);
    cpu.timer(1_000_000);
    assert_eq!(cpu.delay, 0);
}

#[test]
fn keypad_latch_semantics() {
    let mut ic = Interconnect::init();
    assert_eq!(ic.get_key(), None);
    ic.set_key(5);
    ic.set_key(3);
    // both keys read as held; the latch remembers only the last press
    assert!(ic.check_key(5));
    assert!(ic.check_key(3));
    assert!(!ic.check_key(4));
    assert_eq!(ic.get_key(), Some(3));
    assert_eq!(ic.get_key(), None);
    ic.set_key(7);
    ic.reset_keys();
    assert!(!ic.check_key(7));
    assert_eq!(ic.get_key(), None);
}

#[test]
fn blocking_key_read_rewinds() {
    let mut ic = Interconnect::init();
    // wait for a key into V3
    let rom = [0xF3, 0x0A];
    assert_eq!(ic.load_rom(&rom), Ok(2));
    let mut cpu = Cpu::init();
    assert_eq!(cpu.run_cycle(&mut ic), Ok(()));
    assert_eq!(cpu.pc, 0x200);
    assert_eq!(cpu.run_cycle(&mut ic), Ok(()));
    assert_eq!(cpu.pc, 0x200);
    ic.set_key(0xB);
    assert_eq!(cpu.run_cycle(&mut ic), Ok(()));
    assert_eq!(cpu.pc, 0x202);
    assert_eq!(cpu.gpregs[3], 0xB);
}

#[test]
fn arithmetic_flags() {
    let mut ic = Interconnect::init();
    // V0 = 200; V1 = 100; V0 += V1 (overflow); V2 = 5; V2 -= V1 (borrow)
    let rom = [0x60, 200, 0x61, 100, 0x80, 0x14, 0x62, 5, 0x82, 0x15];
    assert_eq!(ic.load_rom(&rom), Ok(10));
    let mut cpu = Cpu::init();
    for _ in 0..3 {
        assert_eq!(cpu.run_cycle(&mut ic), Ok(()));
    }
    assert_eq!(cpu.gpregs[0], 44); // 300 wrapped to 44
    assert_eq!(cpu.gpregs[0xF], 1); // addition overflowed
    for _ in 0..2 {
        assert_eq!(cpu.run_cycle(&mut ic), Ok(()));
    }
    assert_eq!(cpu.gpregs[2], 161); // 5 - 100 wrapped
    assert_eq!(cpu.gpregs[0xF], 0); // a borrow occurred: flag cleared
}

#[test]
fn bcd_writes_digits_to_memory() {
    let mut ic = Interconnect::init();
    // V5 = 234; VI = 0x300; BCD V5
    let rom = [0x65, 234, 0xA3, 0x00, 0xF5, 0x33];
    assert_eq!(ic.load_rom(&rom), Ok(6));
    let mut cpu = Cpu::init();
    for _ in 0..3 {
        assert_eq!(cpu.run_cycle(&mut ic), Ok(()));
    }
    assert_eq!(ic.read_byte(0x300), 2);
    assert_eq!(ic.read_byte(0x301), 3);
    assert_eq!(ic.read_byte(0x302), 4);
}

#[test]
fn rand_respects_mask() {
    let mut ic = Interconnect::init();
    // V1 = random & 0x0F, repeated
    let rom = [0xC1, 0x0F, 0x12, 0x00];
    assert_eq!(ic.load_rom(&rom), Ok(4));
    let mut cpu = Cpu::init();
    for _ in 0..40 {
        assert_eq!(cpu.run_cycle(&mut ic), Ok(()));
        assert_eq!(cpu.gpregs[1] & 0xF0, 0);
    }
}

#[test]
fn scheduler_backlog() {
    let mut s = Scheduler::init();
    let (ticks, cycles) = s.advance(1_000_000_000);
    assert_eq!(cycles, 500);
    assert_eq!(ticks, 1_000_000_000 / 16_666_667);
    let (ticks2, cycles2) = s.advance(2_000_000_000);
    assert_eq!(cycles2, 500);
    assert_eq!(ticks2, 2_000_000_000 / 16_666_667 - ticks);
    // the clock standing still yields no work
    let (ticks3, cycles3) = s.advance(2_000_000_000);
    assert_eq!((ticks3, cycles3), (0, 0));
}

#[test]
fn out_of_bounds_fetch_is_fatal() {
    let mut ic = Interconnect::init();
    // jump to the top of memory; the next fetch would run past the extent
    let rom = [0x1F, 0xFF];
    assert_eq!(ic.load_rom(&rom), Ok(2));
    let mut cpu = Cpu::init();
    assert_eq!(cpu.run_cycle(&mut ic), Ok(()));
    assert_eq!(cpu.pc, 0xFFF);
    assert_eq!(
        cpu.run_cycle(&mut ic),
        Err(Chip8Error::OutOfBoundsAccess(0xFFF))
    );
}

#[test]
fn mnemonic_round_trip() {
    // every word that decodes renders a mnemonic whose re-parse recovers
    // the same dispatch-table tag
    for w in 0..=0xFFFFu16 {
        if let Ok(op) = disassemble(w) {
            let token = op.mnemonic();
            let rep = c8lib::opcodes::parse_mnemonic(token)
                .expect("a rendered mnemonic must parse");
            assert_eq!(rep.mnemonic(), token);
        }
    }
    assert_eq!(
        c8lib::opcodes::parse_mnemonic("SKIP.NKEY"),
        Some(Opcode::KeyNEqSkip(Reg::V0))
    );
    assert_eq!(c8lib::opcodes::parse_mnemonic("NONSENSE"), None);
}

#[test]
fn display_keys_lists_held() {
    let mut ic = Interconnect::init();
    assert_eq!(ic.display_keys(), "Keys []");
    ic.set_key(0x3);
    ic.set_key(0xA);
    assert_eq!(ic.display_keys(), "Keys [3, a, ]");
    ic.reset_keys();
    assert_eq!(ic.display_keys(), "Keys []");
}
