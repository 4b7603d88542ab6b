use chip8::chip8::{Chip8, Status};
use chip8::fault::Chip8Error;
use chip8::opcode::Opcode;

#[test]
fn test_add_with_carry() {
    let mut chip = Chip8::default();
    chip.execute_instruction(Opcode::LDx(0, 0xFF)).unwrap();
    chip.execute_instruction(Opcode::LDx(1, 0x01)).unwrap();
    chip.execute_instruction(Opcode::ADDxy(0, 1)).unwrap();
    assert_eq!(chip.cpu.v[0], 0x00);
    assert_eq!(chip.cpu.v[0xF], 0x01);

    chip.execute_instruction(Opcode::LDx(0, 0x01)).unwrap();
    chip.execute_instruction(Opcode::ADDxy(0, 1)).unwrap();
    assert_eq!(chip.cpu.v[0], 0x02);
    // The flag is cleared on no overflow, not left at its old value.
    assert_eq!(chip.cpu.v[0xF], 0x00);
}

#[test]
fn test_add_immediate_wraps_without_flag() {
    let mut chip = Chip8::default();
    chip.execute_instruction(Opcode::LDx(2, 0xFF)).unwrap();
    chip.execute_instruction(Opcode::ADDx(2, 0x02)).unwrap();
    assert_eq!(chip.cpu.v[2], 0x01);
    assert_eq!(chip.cpu.v[0xF], 0x00);
}

#[test]
fn test_subtract_with_borrow() {
    // X = 0x05, Y = 0x0A. Y - X borrows nothing: flag 1, result 0x05.
    let mut chip = Chip8::default();
    chip.execute_instruction(Opcode::LDx(0, 0x05)).unwrap();
    chip.execute_instruction(Opcode::LDx(1, 0x0A)).unwrap();
    chip.execute_instruction(Opcode::SUBNxy(0, 1)).unwrap();
    assert_eq!(chip.cpu.v[0], 0x05);
    assert_eq!(chip.cpu.v[0xF], 0x01);

    // X - Y borrows: flag 0, result wrapped to 0xFB.
    let mut chip = Chip8::default();
    chip.execute_instruction(Opcode::LDx(0, 0x05)).unwrap();
    chip.execute_instruction(Opcode::LDx(1, 0x0A)).unwrap();
    chip.execute_instruction(Opcode::SUBxy(0, 1)).unwrap();
    assert_eq!(chip.cpu.v[0], 0xFB);
    assert_eq!(chip.cpu.v[0xF], 0x00);
}

#[test]
fn test_shifts_set_flag_from_preshift_value() {
    let mut chip = Chip8::default();
    chip.execute_instruction(Opcode::LDx(0, 0x03)).unwrap();
    chip.execute_instruction(Opcode::SHRxy(0, 0)).unwrap();
    assert_eq!(chip.cpu.v[0], 0x01);
    assert_eq!(chip.cpu.v[0xF], 0x01);

    chip.execute_instruction(Opcode::LDx(0, 0x80)).unwrap();
    chip.execute_instruction(Opcode::SHLxy(0, 0)).unwrap();
    assert_eq!(chip.cpu.v[0], 0x00);
    assert_eq!(chip.cpu.v[0xF], 0x01);
}

#[test]
fn test_logic_ops() {
    let mut chip = Chip8::default();
    chip.execute_instruction(Opcode::LDx(0, 0b1100)).unwrap();
    chip.execute_instruction(Opcode::LDx(1, 0b1010)).unwrap();
    chip.execute_instruction(Opcode::ORxy(0, 1)).unwrap();
    assert_eq!(chip.cpu.v[0], 0b1110);
    chip.execute_instruction(Opcode::LDx(0, 0b1100)).unwrap();
    chip.execute_instruction(Opcode::ANDxy(0, 1)).unwrap();
    assert_eq!(chip.cpu.v[0], 0b1000);
    chip.execute_instruction(Opcode::LDx(0, 0b1100)).unwrap();
    chip.execute_instruction(Opcode::XORxy(0, 1)).unwrap();
    assert_eq!(chip.cpu.v[0], 0b0110);
    chip.execute_instruction(Opcode::LDxy(2, 0)).unwrap();
    assert_eq!(chip.cpu.v[2], 0b0110);
}

#[test]
fn test_pc_advances_by_two_except_control_flow() {
    let mut chip = Chip8::default();
    assert_eq!(chip.cpu.pc, 0x200);
    chip.execute_instruction(Opcode::LDx(0, 1)).unwrap();
    assert_eq!(chip.cpu.pc, 0x202);
    chip.execute_instruction(Opcode::ADDx(0, 1)).unwrap();
    assert_eq!(chip.cpu.pc, 0x204);
    chip.execute_instruction(Opcode::LDI(0x300)).unwrap();
    assert_eq!(chip.cpu.pc, 0x206);
    chip.execute_instruction(Opcode::CLS).unwrap();
    assert_eq!(chip.cpu.pc, 0x208);
}

#[test]
fn test_jump_call_return_set_pc_exactly() {
    let mut chip = Chip8::default();
    chip.execute_instruction(Opcode::JP(0x300)).unwrap();
    assert_eq!(chip.cpu.pc, 0x300);
    // A call lands on its target and remembers the address after the call.
    chip.execute_instruction(Opcode::CALL(0x400)).unwrap();
    assert_eq!(chip.cpu.pc, 0x400);
    // The return lands exactly on the remembered address, not two past it.
    chip.execute_instruction(Opcode::RET).unwrap();
    assert_eq!(chip.cpu.pc, 0x302);
}

#[test]
fn test_jump_v0_relative() {
    let mut chip = Chip8::default();
    chip.execute_instruction(Opcode::LDx(0, 0x10)).unwrap();
    chip.execute_instruction(Opcode::JPV0(0x300)).unwrap();
    assert_eq!(chip.cpu.pc, 0x310);
}

#[test]
fn test_skips() {
    let mut chip = Chip8::default();
    chip.execute_instruction(Opcode::LDx(0, 7)).unwrap();
    let pc = chip.cpu.pc;
    chip.execute_instruction(Opcode::SEx(0, 7)).unwrap();
    assert_eq!(chip.cpu.pc, pc + 4);
    let pc = chip.cpu.pc;
    chip.execute_instruction(Opcode::SEx(0, 8)).unwrap();
    assert_eq!(chip.cpu.pc, pc + 2);
    let pc = chip.cpu.pc;
    chip.execute_instruction(Opcode::SNEx(0, 8)).unwrap();
    assert_eq!(chip.cpu.pc, pc + 4);
    chip.execute_instruction(Opcode::LDx(1, 7)).unwrap();
    let pc = chip.cpu.pc;
    chip.execute_instruction(Opcode::SExy(0, 1)).unwrap();
    assert_eq!(chip.cpu.pc, pc + 4);
    let pc = chip.cpu.pc;
    chip.execute_instruction(Opcode::SNExy(0, 1)).unwrap();
    assert_eq!(chip.cpu.pc, pc + 2);
}

#[test]
fn test_unknown_word_halts_the_engine() {
    let mut chip = Chip8::default();
    chip.load_rom(vec![0x00, 0x00]).unwrap();
    assert_eq!(chip.tick(), Err(Chip8Error::UnknownInstruction(0x0000)));
    assert_eq!(chip.status, Status::Halted(Chip8Error::UnknownInstruction(0x0000)));
    // Halted is terminal: the fault is reported again, nothing moves.
    assert_eq!(chip.tick(), Err(Chip8Error::UnknownInstruction(0x0000)));
    assert_eq!(chip.cpu.pc, 0x200);
}

#[test]
fn test_stack_depth_is_bounded() {
    let mut chip = Chip8::default();
    for k in 0..16 {
        assert_eq!(chip.execute_instruction(Opcode::CALL(0x300 + k)), Ok(()));
    }
    assert_eq!(chip.cpu.stack.len(), 16);
    // The seventeenth call is reported and halts.
    assert_eq!(chip.execute_instruction(Opcode::CALL(0x400)), Err(Chip8Error::StackOverflow));
    assert_eq!(chip.status, Status::Halted(Chip8Error::StackOverflow));
    assert_eq!(chip.cpu.stack.len(), 16);
}

#[test]
fn test_return_on_empty_stack_underflows() {
    let mut chip = Chip8::default();
    assert_eq!(chip.execute_instruction(Opcode::RET), Err(Chip8Error::StackUnderflow));
    assert_eq!(chip.status, Status::Halted(Chip8Error::StackUnderflow));
}

#[test]
fn test_returns_are_last_in_first_out() {
    let mut chip = Chip8::default();
    chip.execute_instruction(Opcode::CALL(0x300)).unwrap();
    chip.execute_instruction(Opcode::CALL(0x400)).unwrap();
    chip.execute_instruction(Opcode::RET).unwrap();
    assert_eq!(chip.cpu.pc, 0x302);
    chip.execute_instruction(Opcode::RET).unwrap();
    assert_eq!(chip.cpu.pc, 0x202);
}

#[test]
fn test_key_wait_blocks_then_resumes() {
    let mut chip = Chip8::default();
    chip.load_rom(vec![0xF0, 0x0A]).unwrap();
    // No key is down: the machine reports that it awaits one and stays put.
    assert_eq!(chip.tick(), Ok(()));
    assert_eq!(chip.status, Status::AwaitingKey(0));
    assert_eq!(chip.cpu.pc, 0x200);
    assert_eq!(chip.tick(), Ok(()));
    assert_eq!(chip.status, Status::AwaitingKey(0));
    // Key 7 goes down: the next step stores it and resumes.
    chip.set_keys(1 << 7);
    assert_eq!(chip.tick(), Ok(()));
    assert_eq!(chip.cpu.v[0], 7);
    assert_eq!(chip.cpu.pc, 0x202);
    assert_eq!(chip.status, Status::Running);
}

#[test]
fn test_key_skips() {
    let mut chip = Chip8::default();
    chip.execute_instruction(Opcode::LDx(0, 5)).unwrap();
    chip.set_keys(1 << 5);
    let pc = chip.cpu.pc;
    chip.execute_instruction(Opcode::SKPx(0)).unwrap();
    assert_eq!(chip.cpu.pc, pc + 4);
    let pc = chip.cpu.pc;
    chip.execute_instruction(Opcode::SKNPx(0)).unwrap();
    assert_eq!(chip.cpu.pc, pc + 2);
    chip.set_keys(0);
    let pc = chip.cpu.pc;
    chip.execute_instruction(Opcode::SKPx(0)).unwrap();
    assert_eq!(chip.cpu.pc, pc + 2);
    let pc = chip.cpu.pc;
    chip.execute_instruction(Opcode::SKNPx(0)).unwrap();
    assert_eq!(chip.cpu.pc, pc + 4);
}

#[test]
fn test_timers() {
    let mut chip = Chip8::default();
    chip.execute_instruction(Opcode::LDx(0, 2)).unwrap();
    chip.execute_instruction(Opcode::LDDTx(0)).unwrap();
    chip.execute_instruction(Opcode::LDx(1, 1)).unwrap();
    chip.execute_instruction(Opcode::LDSTx(1)).unwrap();
    assert_eq!(chip.cpu.dt, 2);
    assert_eq!(chip.cpu.st, 1);
    chip.tick_timers();
    assert_eq!(chip.cpu.dt, 1);
    assert_eq!(chip.cpu.st, 0);
    chip.tick_timers();
    chip.tick_timers();
    // Timers floor at zero, they never wrap.
    assert_eq!(chip.cpu.dt, 0);
    assert_eq!(chip.cpu.st, 0);
    chip.execute_instruction(Opcode::LDDTx(0)).unwrap();
    chip.execute_instruction(Opcode::LDxDT(3)).unwrap();
    assert_eq!(chip.cpu.v[3], 2);
}

#[test]
fn test_bcd() {
    let mut chip = Chip8::default();
    chip.execute_instruction(Opcode::LDx(0, 234)).unwrap();
    chip.execute_instruction(Opcode::LDI(0x300)).unwrap();
    chip.execute_instruction(Opcode::LDBx(0)).unwrap();
    assert_eq!(chip.memory.get_byte_at(0x300).unwrap(), 2);
    assert_eq!(chip.memory.get_byte_at(0x301).unwrap(), 3);
    assert_eq!(chip.memory.get_byte_at(0x302).unwrap(), 4);
}

#[test]
fn test_register_dump_and_load_round_trip() {
    let mut chip = Chip8::default();
    chip.execute_instruction(Opcode::LDx(0, 11)).unwrap();
    chip.execute_instruction(Opcode::LDx(1, 22)).unwrap();
    chip.execute_instruction(Opcode::LDx(2, 33)).unwrap();
    chip.execute_instruction(Opcode::LDI(0x400)).unwrap();
    chip.execute_instruction(Opcode::LDIx(2)).unwrap();
    assert_eq!(chip.memory.get_byte_at(0x400).unwrap(), 11);
    assert_eq!(chip.memory.get_byte_at(0x401).unwrap(), 22);
    assert_eq!(chip.memory.get_byte_at(0x402).unwrap(), 33);
    // Register 3 onward was not dumped.
    assert_eq!(chip.memory.get_byte_at(0x403).unwrap(), 0);
    chip.execute_instruction(Opcode::LDx(0, 0)).unwrap();
    chip.execute_instruction(Opcode::LDx(1, 0)).unwrap();
    chip.execute_instruction(Opcode::LDx(2, 0)).unwrap();
    chip.execute_instruction(Opcode::LDxI(2)).unwrap();
    assert_eq!(chip.cpu.v[0], 11);
    assert_eq!(chip.cpu.v[1], 22);
    assert_eq!(chip.cpu.v[2], 33);
}

#[test]
fn test_index_register_ops() {
    let mut chip = Chip8::default();
    chip.execute_instruction(Opcode::LDI(0xFFF)).unwrap();
    assert_eq!(chip.cpu.i, 0xFFF);
    chip.execute_instruction(Opcode::LDx(0, 2)).unwrap();
    chip.execute_instruction(Opcode::ADDIx(0)).unwrap();
    // The index register wraps within the 12-bit address space.
    assert_eq!(chip.cpu.i, 0x001);
}

#[test]
fn test_font_glyph_address() {
    let mut chip = Chip8::default();
    chip.execute_instruction(Opcode::LDx(0, 0x0A)).unwrap();
    chip.execute_instruction(Opcode::LDFx(0)).unwrap();
    assert_eq!(chip.cpu.i, 0x50 + 5 * 0x0A);
    // Only the low nibble of the register names the glyph.
    chip.execute_instruction(Opcode::LDx(0, 0xF3)).unwrap();
    chip.execute_instruction(Opcode::LDFx(0)).unwrap();
    assert_eq!(chip.cpu.i, 0x50 + 5 * 3);
}

#[test]
fn test_random_masked_load() {
    let mut chip = Chip8::default();
    // A zero mask forces a zero result whatever the generator holds.
    chip.execute_instruction(Opcode::RNDx(0, 0x00)).unwrap();
    assert_eq!(chip.cpu.v[0], 0);
    // Equal seeds give equal draws.
    let mut a = Chip8::default();
    let mut b = Chip8::default();
    a.set_rng_seed(0x1234);
    b.set_rng_seed(0x1234);
    a.execute_instruction(Opcode::RNDx(0, 0xFF)).unwrap();
    b.execute_instruction(Opcode::RNDx(0, 0xFF)).unwrap();
    assert_eq!(a.cpu.v[0], b.cpu.v[0]);
    // The masked draw keeps only masked bits.
    a.execute_instruction(Opcode::RNDx(1, 0x0F)).unwrap();
    assert_eq!(a.cpu.v[1] & 0xF0, 0);
}

#[test]
fn test_sprite_draw_through_engine() {
    let mut chip = Chip8::default();
    // Write an all-lit sprite row into memory, point the index register at
    // it, and draw at (60, 0): four pixels wrap onto the left edge.
    chip.memory.write_byte(0x300, 0xFF).unwrap();
    chip.execute_instruction(Opcode::LDI(0x300)).unwrap();
    chip.execute_instruction(Opcode::LDx(0, 60)).unwrap();
    chip.execute_instruction(Opcode::LDx(1, 0)).unwrap();
    chip.execute_instruction(Opcode::DRWxy(0, 1, 1)).unwrap();
    assert_eq!(chip.cpu.v[0xF], 0);
    for x in [60, 61, 62, 63, 0, 1, 2, 3] {
        assert!(chip.display.pixels[x]);
    }
    // Drawing the same sprite again clears the pixels and reports collision.
    chip.execute_instruction(Opcode::DRWxy(0, 1, 1)).unwrap();
    assert_eq!(chip.cpu.v[0xF], 1);
    for x in 0..64 {
        assert!(!chip.display.pixels[x]);
    }
}

#[test]
fn test_sprite_read_past_memory_end_halts() {
    let mut chip = Chip8::default();
    chip.execute_instruction(Opcode::LDI(0xFFE)).unwrap();
    assert_eq!(chip.execute_instruction(Opcode::DRWxy(0, 1, 3)), Err(Chip8Error::OutOfBounds));
    assert_eq!(chip.status, Status::Halted(Chip8Error::OutOfBounds));
}

#[test]
fn test_fetch_past_memory_end_halts() {
    let mut chip = Chip8::default();
    chip.execute_instruction(Opcode::JP(0xFFF)).unwrap();
    assert_eq!(chip.tick(), Err(Chip8Error::OutOfBounds));
    assert_eq!(chip.status, Status::Halted(Chip8Error::OutOfBounds));
}

#[test]
fn test_tick_runs_a_small_program() {
    let mut chip = Chip8::default();
    // LDx(0, 5); ADDx(0, 3); JP(0x200): a two-instruction body and a loop.
    chip.load_rom(vec![0x60, 0x05, 0x70, 0x03, 0x12, 0x00]).unwrap();
    chip.tick().unwrap();
    assert_eq!(chip.cpu.v[0], 5);
    assert_eq!(chip.cpu.pc, 0x202);
    chip.tick().unwrap();
    assert_eq!(chip.cpu.v[0], 8);
    assert_eq!(chip.cpu.pc, 0x204);
    chip.tick().unwrap();
    assert_eq!(chip.cpu.pc, 0x200);
}
