use chip8::error::Chip8Error;
use chip8::instruction::{decode, Instruction};
use chip8::machine::Chip8;

fn boot(program: &[u8]) -> Chip8 {
    match Chip8::new(program) {
        Ok(m) => m,
        Err(e) => panic!("load failed: {:?}", e),
    }
}

fn run(m: &mut Chip8, steps: usize) {
    for _ in 0..steps {
        assert_eq!(m.step(0), Ok(()));
    }
}

/// A program of `len` bytes with `words` placed at the given addresses.
fn program_with(len: usize, words: &[(usize, u16)]) -> Vec<u8> {
    let mut p = vec![0u8; len];
    for &(addr, w) in words {
        p[addr - 0x200] = (w >> 8) as u8;
        p[addr - 0x200 + 1] = (w & 0xFF) as u8;
    }
    p
}

#[test]
fn load_add_end_to_end() {
    let mut m = boot(&[0x60, 0x05, 0x61, 0x03, 0x80, 0x14]);
    run(&mut m, 3);
    assert_eq!(m.register(0), 8);
    assert_eq!(m.register(15), 0);
    assert_eq!(m.pc(), 0x206);
}

#[test]
fn add_sets_carry() {
    let mut m = boot(&[0x60, 0xFF, 0x61, 0x01, 0x80, 0x14]);
    run(&mut m, 3);
    assert_eq!(m.register(0), 0x00);
    assert_eq!(m.register(15), 1);
}

#[test]
fn sub_borrow_clears_flag() {
    let mut m = boot(&[0x60, 0x01, 0x61, 0x02, 0x80, 0x15]);
    run(&mut m, 3);
    assert_eq!(m.register(0), 0xFF);
    assert_eq!(m.register(15), 0);
}

#[test]
fn sub_without_borrow_sets_flag() {
    let mut m = boot(&[0x60, 0x05, 0x61, 0x02, 0x80, 0x15]);
    run(&mut m, 3);
    assert_eq!(m.register(0), 3);
    assert_eq!(m.register(15), 1);
}

#[test]
fn subn_and_shifts() {
    // V0 = 3, V1 = 5, V0 = V1 - V0
    let mut m = boot(&[0x60, 0x03, 0x61, 0x05, 0x80, 0x17]);
    run(&mut m, 3);
    assert_eq!(m.register(0), 2);
    assert_eq!(m.register(15), 1);
    // V1 = 0x81, V0 = V1 >> 1, then V2 = V1 << 1
    let mut m = boot(&[0x61, 0x81, 0x80, 0x16, 0x82, 0x1E]);
    run(&mut m, 2);
    assert_eq!(m.register(0), 0x40);
    assert_eq!(m.register(15), 1);
    run(&mut m, 1);
    assert_eq!(m.register(2), 0x02);
    assert_eq!(m.register(15), 1);
}

#[test]
fn add_byte_wraps_without_flag() {
    let mut m = boot(&[0x60, 0xFE, 0x70, 0x05]);
    run(&mut m, 2);
    assert_eq!(m.register(0), 0x03);
    assert_eq!(m.register(15), 0);
}

#[test]
fn bitwise_ops() {
    let mut m = boot(&[0x60, 0xCC, 0x61, 0xAA, 0x82, 0x00, 0x82, 0x11, 0x83, 0x00, 0x83, 0x12, 0x84, 0x00, 0x84, 0x13]);
    run(&mut m, 8);
    assert_eq!(m.register(2), 0xEE);
    assert_eq!(m.register(3), 0x88);
    assert_eq!(m.register(4), 0x66);
}

#[test]
fn bcd_writes_digits() {
    let mut m = boot(&[0x60, 234, 0xA3, 0x00, 0xF0, 0x33]);
    run(&mut m, 3);
    assert_eq!(m.memory_at(0x300), Ok(2));
    assert_eq!(m.memory_at(0x301), Ok(3));
    assert_eq!(m.memory_at(0x302), Ok(4));
}

#[test]
fn bcd_into_reserved_area_faults() {
    let mut m = boot(&[0x60, 234, 0xA0, 0x50, 0xF0, 0x33]);
    run(&mut m, 2);
    assert_eq!(m.step(0), Err(Chip8Error::MemoryAccess { address: 0x50 }));
    assert_eq!(m.memory_at(0x50), Ok(0xF0));
    assert_eq!(m.pc(), 0x204);
}

#[test]
fn delay_timer_stops_at_zero() {
    let mut m = boot(&[0x60, 0x01, 0xF0, 0x15]);
    run(&mut m, 2);
    assert_eq!(m.delay_timer(), 1);
    m.tick();
    assert_eq!(m.delay_timer(), 0);
    m.tick();
    assert_eq!(m.delay_timer(), 0);
}

#[test]
fn sound_timer_counts_down_and_delay_reads_back() {
    let mut m = boot(&[0x60, 0x03, 0xF0, 0x18, 0xF0, 0x15, 0xF1, 0x07]);
    run(&mut m, 3);
    m.tick();
    assert_eq!(m.sound_timer(), 2);
    assert_eq!(m.delay_timer(), 2);
    run(&mut m, 1);
    assert_eq!(m.register(1), 2);
}

#[test]
fn call_then_return_round_trip() {
    let p = program_with(0x102, &[(0x200, 0x2300), (0x300, 0x00EE)]);
    let mut m = boot(&p);
    assert_eq!(m.stack_depth(), 0);
    run(&mut m, 1);
    assert_eq!(m.pc(), 0x300);
    assert_eq!(m.stack_depth(), 1);
    run(&mut m, 1);
    assert_eq!(m.pc(), 0x202);
    assert_eq!(m.stack_depth(), 0);
}

#[test]
fn seventeenth_nested_call_overflows() {
    let mut m = boot(&[0x22, 0x00]);
    run(&mut m, 16);
    assert_eq!(m.stack_depth(), 16);
    assert_eq!(m.step(0), Err(Chip8Error::StackOverflow { depth: 16 }));
    assert_eq!(m.stack_depth(), 16);
    assert_eq!(m.pc(), 0x200);
}

#[test]
fn return_on_empty_stack_underflows() {
    let mut m = boot(&[0x00, 0xEE]);
    assert_eq!(m.step(0), Err(Chip8Error::StackUnderflow { depth: 0 }));
    assert_eq!(m.pc(), 0x200);
}

#[test]
fn unknown_opcode_is_reported() {
    let mut m = boot(&[0xFF, 0xFF]);
    assert_eq!(m.step(0), Err(Chip8Error::UnknownOpcode { address: 0x200, opcode: 0xFFFF }));
    assert_eq!(m.pc(), 0x200);
    let mut m = boot(&[0x00, 0x00]);
    assert_eq!(m.step(0), Err(Chip8Error::UnknownOpcode { address: 0x200, opcode: 0x0000 }));
}

#[test]
fn jump_outside_program_area_faults() {
    let mut m = boot(&[0x11, 0x00]);
    assert_eq!(m.step(0), Err(Chip8Error::MemoryAccess { address: 0x100 }));
    let mut m = boot(&[0x12, 0x03]);
    assert_eq!(m.step(0), Err(Chip8Error::MemoryAccess { address: 0x203 }));
    let mut m = boot(&[0x12, 0x08]);
    run(&mut m, 1);
    assert_eq!(m.pc(), 0x208);
}

#[test]
fn jump_with_offset() {
    let mut m = boot(&[0x60, 0x04, 0xB2, 0x00]);
    run(&mut m, 2);
    assert_eq!(m.pc(), 0x204);
}

#[test]
fn skips_follow_comparisons() {
    let mut m = boot(&[0x60, 0x05, 0x30, 0x05]);
    run(&mut m, 2);
    assert_eq!(m.pc(), 0x206);
    let mut m = boot(&[0x60, 0x05, 0x40, 0x05]);
    run(&mut m, 2);
    assert_eq!(m.pc(), 0x204);
    let mut m = boot(&[0x60, 0x05, 0x61, 0x05, 0x50, 0x10]);
    run(&mut m, 3);
    assert_eq!(m.pc(), 0x208);
    let mut m = boot(&[0x60, 0x05, 0x61, 0x05, 0x90, 0x10]);
    run(&mut m, 3);
    assert_eq!(m.pc(), 0x206);
}

#[test]
fn key_skips() {
    let mut m = boot(&[0x60, 0x07, 0xE0, 0x9E]);
    m.set_key(7, true);
    assert!(m.is_pressed(7));
    run(&mut m, 2);
    assert_eq!(m.pc(), 0x206);
    let mut m = boot(&[0x60, 0x07, 0xE0, 0xA1]);
    run(&mut m, 2);
    assert_eq!(m.pc(), 0x206);
}

#[test]
fn wait_for_key_polls_without_advancing() {
    let mut m = boot(&[0xF3, 0x0A]);
    assert_eq!(m.any_pressed(), None);
    run(&mut m, 1);
    assert_eq!(m.pc(), 0x200);
    assert!(m.is_waiting());
    run(&mut m, 1);
    assert_eq!(m.pc(), 0x200);
    m.set_key(0xB, true);
    m.set_key(0x5, true);
    assert_eq!(m.any_pressed(), Some(5));
    run(&mut m, 1);
    assert_eq!(m.register(3), 5);
    assert_eq!(m.pc(), 0x202);
    assert!(!m.is_waiting());
}

#[test]
fn random_is_masked() {
    let mut m = boot(&[0xC0, 0xF0]);
    assert_eq!(m.step(0xAB), Ok(()));
    assert_eq!(m.register(0), 0xA0);
}

#[test]
fn index_instructions() {
    let mut m = boot(&[0xA1, 0x23, 0x60, 0x10, 0xF0, 0x1E, 0x61, 0x0F, 0xF1, 0x29]);
    run(&mut m, 1);
    assert_eq!(m.index(), 0x123);
    run(&mut m, 2);
    assert_eq!(m.index(), 0x133);
    run(&mut m, 2);
    assert_eq!(m.index(), 0x50 + 15 * 5);
}

#[test]
fn store_and_load_registers() {
    let mut m = boot(&[0x60, 0x11, 0x61, 0x22, 0x62, 0x33, 0xA4, 0x00, 0xF2, 0x55, 0x60, 0x00, 0x61, 0x00, 0x62, 0x00, 0xF1, 0x65]);
    run(&mut m, 5);
    assert_eq!(m.memory_at(0x400), Ok(0x11));
    assert_eq!(m.memory_at(0x401), Ok(0x22));
    assert_eq!(m.memory_at(0x402), Ok(0x33));
    assert_eq!(m.memory_at(0x403), Ok(0x00));
    run(&mut m, 4);
    assert_eq!(m.register(0), 0x11);
    assert_eq!(m.register(1), 0x22);
    assert_eq!(m.register(2), 0x00);
}

#[test]
fn load_registers_past_memory_faults() {
    let mut m = boot(&[0xAF, 0xFE, 0xF3, 0x65]);
    run(&mut m, 1);
    assert_eq!(m.step(0), Err(Chip8Error::MemoryAccess { address: 4096 }));
}

#[test]
fn draw_past_memory_faults() {
    let mut m = boot(&[0xAF, 0xFF, 0xD0, 0x05]);
    run(&mut m, 1);
    assert_eq!(m.step(0), Err(Chip8Error::MemoryAccess { address: 4096 }));
    assert_eq!(m.pc(), 0x202);
}

#[test]
fn font_is_loaded_at_fixed_offset() {
    let m = boot(&[]);
    assert_eq!(m.memory_at(0x50), Ok(0xF0));
    assert_eq!(m.memory_at(0x55), Ok(0x20));
    assert_eq!(m.memory_at(0x9F), Ok(0x80));
    assert_eq!(m.memory_at(0x4F), Ok(0x00));
    assert_eq!(m.memory_at(4096), Err(Chip8Error::MemoryAccess { address: 4096 }));
    assert_eq!(m.pc(), 0x200);
}

#[test]
fn oversized_program_is_refused() {
    let big = vec![0u8; 0xE01];
    assert_eq!(Chip8::new(&big).err(), Some(Chip8Error::RomTooLarge { len: 0xE01 }));
    let fits = vec![0xABu8; 0xE00];
    let m = boot(&fits);
    assert_eq!(m.memory_at(0xFFF), Ok(0xAB));
}

#[test]
fn draw_collision_flag() {
    let mut m = boot(&[]);
    assert!(!m.draw(0, 0, &[0x80]));
    assert!(m.pixel(0, 0));
    assert!(m.draw(0, 0, &[0x80]));
    assert!(!m.pixel(0, 0));
    assert!(!m.draw(0, 0, &[0x80]));
    assert!(!m.draw(1, 0, &[0x80]));
    assert!(m.pixel(1, 0));
}

#[test]
fn draw_wraps_at_edges() {
    let mut m = boot(&[]);
    assert!(!m.draw(63, 31, &[0x80]));
    assert!(m.pixel(63, 31));
    let mut a = boot(&[]);
    let mut b = boot(&[]);
    a.draw(64, 5, &[0xFF, 0x81]);
    b.draw(0, 5, &[0xFF, 0x81]);
    assert_eq!(a.snapshot(), b.snapshot());
    let mut m = boot(&[]);
    m.draw(62, 31, &[0xC0, 0x80]);
    assert!(m.pixel(62, 31));
    assert!(m.pixel(63, 31));
    assert!(m.pixel(62, 0));
    assert!(!m.pixel(0, 31));
}

#[test]
fn clear_blanks_snapshot() {
    let mut m = boot(&[]);
    m.draw(10, 10, &[0xFF, 0xFF, 0xFF]);
    assert!(m.snapshot().iter().any(|&p| p));
    m.clear();
    let snap = m.snapshot();
    assert_eq!(snap.len(), 64 * 32);
    assert!(snap.iter().all(|&p| !p));
}

#[test]
fn draw_instruction_uses_font_and_sets_flag() {
    // I = glyph of 0, draw at (V0, V1) = (0, 0) twice
    let mut m = boot(&[0x60, 0x00, 0xF0, 0x29, 0xD0, 0x05, 0xD0, 0x05, 0x00, 0xE0]);
    run(&mut m, 3);
    assert_eq!(m.register(15), 0);
    assert!(m.pixel(0, 0) && m.pixel(3, 0) && !m.pixel(1, 1) && m.pixel(0, 4));
    run(&mut m, 1);
    assert_eq!(m.register(15), 1);
    assert!(m.snapshot().iter().all(|&p| !p));
    m.draw(0, 0, &[0x80]);
    run(&mut m, 1);
    assert!(m.snapshot().iter().all(|&p| !p));
}

#[test]
fn decode_paths() {
    assert_eq!(decode(0x00E0), Some(Instruction::Clear));
    assert_eq!(decode(0x00EE), Some(Instruction::Return));
    assert_eq!(decode(0x1ABC), Some(Instruction::Jump { nnn: 0xABC }));
    assert_eq!(decode(0x8014), Some(Instruction::Add { x: 0, y: 1 }));
    assert_eq!(decode(0x8ABE), Some(Instruction::ShiftLeft { x: 0xA, y: 0xB }));
    assert_eq!(decode(0xD12F), Some(Instruction::Draw { x: 1, y: 2, n: 0xF }));
    assert_eq!(decode(0xF265), Some(Instruction::LoadRegs { x: 2 }));
    assert_eq!(decode(0x5001), None);
    assert_eq!(decode(0x8008), None);
    assert_eq!(decode(0xE0FF), None);
    assert_eq!(decode(0xF0FF), None);
}
