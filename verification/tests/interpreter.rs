use chip8::decode::decode;
use chip8::machine::{Fatal, Keypad, Machine};

fn machine_with(prog: &[u8]) -> Machine {
    let mut m = Machine::new();
    let bytes: Vec<u8> = prog.to_vec();
    m.load_program(&bytes);
    m
}

fn idle_keys() -> Keypad {
    Keypad::new()
}

#[test]
fn decode_splits_all_fields() {
    let ins = decode(0xD123);
    assert_eq!(ins.category, 0xD);
    assert_eq!(ins.x, 0x1);
    assert_eq!(ins.y, 0x2);
    assert_eq!(ins.n, 0x3);
    assert_eq!(ins.nn, 0x23);
    assert_eq!(ins.nnn, 0x123);
}

#[test]
fn decode_zero_and_max() {
    let z = decode(0x0000);
    assert_eq!((z.category, z.x, z.y, z.n, z.nn, z.nnn), (0, 0, 0, 0, 0, 0));
    let f = decode(0xFFFF);
    assert_eq!((f.category, f.x, f.y, f.n), (0xF, 0xF, 0xF, 0xF));
    assert_eq!(f.nn, 0xFF);
    assert_eq!(f.nnn, 0xFFF);
}

#[test]
fn startup_state() {
    let m = Machine::new();
    assert_eq!(m.pc, 0x200);
    assert_eq!(m.index, 0);
    assert_eq!(m.stack.len(), 0);
    assert_eq!(m.delay_timer, 0);
    assert_eq!(m.sound_timer, 0);
    assert_eq!(m.memory.len(), 4096);
    assert_eq!(m.memory[0x50], 0xF0); // first font row (glyph 0)
    assert_eq!(m.memory[0x9F], 0x80); // last font row (glyph F)
    assert_eq!(m.memory[0x4F], 0);
    assert_eq!(m.memory[0xA0], 0);
    assert!(m.registers.iter().all(|&v| v == 0));
    assert!(m.display.pixels.iter().all(|&p| !p));
}

#[test]
fn load_program_places_image() {
    let m = machine_with(&[0xAA, 0xBB, 0xCC]);
    assert_eq!(m.memory[0x200], 0xAA);
    assert_eq!(m.memory[0x201], 0xBB);
    assert_eq!(m.memory[0x202], 0xCC);
    assert_eq!(m.memory[0x203], 0);
}

// Scenario: V0:=10; V1:=5; V0+=V1 with carry; after 3 cycles V0=15, VF=0.
#[test]
fn add_registers_scenario() {
    let mut m = machine_with(&[0x60, 0x0A, 0x61, 0x05, 0x80, 0x14]);
    let kp = idle_keys();
    for _ in 0..3 {
        assert!(m.step_with(&kp, 0).is_ok());
    }
    assert_eq!(m.registers[0], 15);
    assert_eq!(m.registers[0xF], 0);
    assert_eq!(m.pc, 0x206);
}

// Scenario: return with an empty call stack aborts.
#[test]
fn return_on_empty_stack_is_fatal() {
    let mut m = machine_with(&[0x00, 0xEE]);
    let kp = idle_keys();
    assert_eq!(m.step_with(&kp, 0), Err(Fatal::StackUnderflow));
}

// Scenario: ANNN then FX1E; no overflow first, then crossing 0x1000.
#[test]
fn index_add_overflow_flag() {
    let mut m = machine_with(&[0xA3, 0x00, 0xF0, 0x1E]);
    m.registers[0] = 0xFF;
    let kp = idle_keys();
    assert!(m.step_with(&kp, 0).is_ok());
    assert_eq!(m.index, 0x300);
    assert!(m.step_with(&kp, 0).is_ok());
    assert_eq!(m.index, 0x3FF);
    assert_eq!(m.registers[0xF], 0);

    let mut m2 = machine_with(&[0xF0, 0x1E]);
    m2.index = 0x0FFF;
    m2.registers[0] = 0x10;
    assert!(m2.step_with(&kp, 0).is_ok());
    assert_eq!(m2.index, 0x100F);
    assert_eq!(m2.registers[0xF], 1);
}

#[test]
fn add_with_carry_wraps() {
    let mut m = machine_with(&[0x80, 0x14]);
    m.registers[0] = 200;
    m.registers[1] = 100;
    let kp = idle_keys();
    assert!(m.step_with(&kp, 0).is_ok());
    assert_eq!(m.registers[0], 44); // (200 + 100) mod 256
    assert_eq!(m.registers[0xF], 1);
}

#[test]
fn add_immediate_wraps_without_flag() {
    let mut m = machine_with(&[0x70, 0x0A]);
    m.registers[0] = 250;
    m.registers[0xF] = 0;
    let kp = idle_keys();
    assert!(m.step_with(&kp, 0).is_ok());
    assert_eq!(m.registers[0], 4); // (250 + 10) mod 256
    assert_eq!(m.registers[0xF], 0); // 7XNN never touches VF
}

#[test]
fn subtract_sets_borrow_flags() {
    // no borrow: VX >= VY
    let mut m = machine_with(&[0x80, 0x15]);
    m.registers[0] = 10;
    m.registers[1] = 5;
    let kp = idle_keys();
    assert!(m.step_with(&kp, 0).is_ok());
    assert_eq!(m.registers[0], 5);
    assert_eq!(m.registers[0xF], 1);

    // borrow: VX < VY, result wraps mod 256
    let mut m2 = machine_with(&[0x80, 0x15]);
    m2.registers[0] = 5;
    m2.registers[1] = 10;
    assert!(m2.step_with(&kp, 0).is_ok());
    assert_eq!(m2.registers[0], 251);
    assert_eq!(m2.registers[0xF], 0);
}

#[test]
fn reverse_subtract_targets_vy() {
    let mut m = machine_with(&[0x80, 0x17]);
    m.registers[0] = 3;
    m.registers[1] = 10;
    let kp = idle_keys();
    assert!(m.step_with(&kp, 0).is_ok());
    assert_eq!(m.registers[1], 7); // VY := VY - VX
    assert_eq!(m.registers[0], 3);
    assert_eq!(m.registers[0xF], 1); // no borrow

    let mut m2 = machine_with(&[0x80, 0x17]);
    m2.registers[0] = 10;
    m2.registers[1] = 3;
    assert!(m2.step_with(&kp, 0).is_ok());
    assert_eq!(m2.registers[1], 249);
    assert_eq!(m2.registers[0xF], 0);
}

#[test]
fn alu_bitwise_and_shifts() {
    let kp = idle_keys();
    let mut m = machine_with(&[0x80, 0x11, 0x80, 0x12, 0x80, 0x13]);
    m.registers[0] = 0b1100;
    m.registers[1] = 0b1010;
    assert!(m.step_with(&kp, 0).is_ok()); // OR
    assert_eq!(m.registers[0], 0b1110);
    m.registers[0] = 0b1100;
    assert!(m.step_with(&kp, 0).is_ok()); // AND
    assert_eq!(m.registers[0], 0b1000);
    m.registers[0] = 0b1100;
    assert!(m.step_with(&kp, 0).is_ok()); // XOR
    assert_eq!(m.registers[0], 0b0110);

    let mut s = machine_with(&[0x80, 0x16, 0x80, 0x1E]);
    s.registers[0] = 0b1000_0011;
    assert!(s.step_with(&kp, 0).is_ok()); // shift right
    assert_eq!(s.registers[0], 0b0100_0001);
    assert_eq!(s.registers[0xF], 1); // old bit 0
    assert!(s.step_with(&kp, 0).is_ok()); // shift left
    assert_eq!(s.registers[0], 0b1000_0010);
    assert_eq!(s.registers[0xF], 0); // old bit 7 of 0b0100_0001
}

#[test]
fn skip_instructions_advance_pc_by_four_or_two() {
    let kp = idle_keys();
    // 3XNN: condition holds -> 4, fails -> 2
    let mut m = machine_with(&[0x30, 0x07]);
    m.registers[0] = 7;
    assert!(m.step_with(&kp, 0).is_ok());
    assert_eq!(m.pc, 0x204);
    let mut m2 = machine_with(&[0x30, 0x07]);
    m2.registers[0] = 8;
    assert!(m2.step_with(&kp, 0).is_ok());
    assert_eq!(m2.pc, 0x202);
    // 4XNN
    let mut m3 = machine_with(&[0x40, 0x07]);
    m3.registers[0] = 8;
    assert!(m3.step_with(&kp, 0).is_ok());
    assert_eq!(m3.pc, 0x204);
    // 5XY0
    let mut m4 = machine_with(&[0x50, 0x10]);
    m4.registers[0] = 9;
    m4.registers[1] = 9;
    assert!(m4.step_with(&kp, 0).is_ok());
    assert_eq!(m4.pc, 0x204);
    // 9XY0
    let mut m5 = machine_with(&[0x90, 0x10]);
    m5.registers[0] = 9;
    m5.registers[1] = 8;
    assert!(m5.step_with(&kp, 0).is_ok());
    assert_eq!(m5.pc, 0x204);
    let mut m6 = machine_with(&[0x90, 0x10]);
    m6.registers[0] = 9;
    m6.registers[1] = 9;
    assert!(m6.step_with(&kp, 0).is_ok());
    assert_eq!(m6.pc, 0x202);
}

#[test]
fn jump_call_and_return() {
    let kp = idle_keys();
    let mut m = machine_with(&[0x12, 0x34]);
    assert!(m.step_with(&kp, 0).is_ok());
    assert_eq!(m.pc, 0x234);

    // call pushes the advanced pc, return pops it
    let mut m2 = machine_with(&[0x23, 0x00]);
    m2.memory[0x300] = 0x00;
    m2.memory[0x301] = 0xEE;
    assert!(m2.step_with(&kp, 0).is_ok());
    assert_eq!(m2.pc, 0x300);
    assert_eq!(m2.stack, vec![0x202]);
    assert!(m2.step_with(&kp, 0).is_ok());
    assert_eq!(m2.pc, 0x202);
    assert!(m2.stack.is_empty());
}

#[test]
fn jump_with_offset() {
    let kp = idle_keys();
    let mut m = machine_with(&[0xB3, 0x00]);
    m.registers[0] = 0x42;
    assert!(m.step_with(&kp, 0).is_ok());
    assert_eq!(m.pc, 0x342);
}

#[test]
fn random_byte_is_masked() {
    let kp = idle_keys();
    let mut m = machine_with(&[0xC0, 0x0F]);
    assert!(m.step_with(&kp, 0xAB).is_ok());
    assert_eq!(m.registers[0], 0x0B); // 0xAB & 0x0F
}

#[test]
fn register_dump_counts() {
    let kp = idle_keys();
    // VX = 0: exactly one register stored
    let mut m = machine_with(&[0xF0, 0x55]);
    m.index = 0x400;
    m.registers[0] = 0; // count = min(0 + 1, 16) = 1
    m.registers[1] = 0x11;
    m.memory[0x401] = 0xEE;
    assert!(m.step_with(&kp, 0).is_ok());
    assert_eq!(m.memory[0x400], 0);
    assert_eq!(m.memory[0x401], 0xEE); // untouched

    // VX = 15: all 16 registers stored
    let mut m2 = machine_with(&[0xF5, 0x55]);
    m2.index = 0x400;
    for i in 0..16 {
        m2.registers[i] = i as u8 + 1;
    }
    m2.registers[5] = 15; // count = 16
    assert!(m2.step_with(&kp, 0).is_ok());
    for i in 0..16 {
        let expect = if i == 5 { 15 } else { i as u8 + 1 };
        assert_eq!(m2.memory[0x400 + i], expect);
    }
    assert_eq!(m2.memory[0x410], 0); // one past the block untouched
}

#[test]
fn register_load_counts() {
    let kp = idle_keys();
    let mut m = machine_with(&[0xF0, 0x65]);
    m.index = 0x400;
    for i in 0..16 {
        m.memory[0x400 + i] = 0x20 + i as u8;
    }
    m.registers[0] = 0; // count = 1
    m.registers[1] = 0xAA;
    assert!(m.step_with(&kp, 0).is_ok());
    assert_eq!(m.registers[0], 0x20);
    assert_eq!(m.registers[1], 0xAA); // untouched

    let mut m2 = machine_with(&[0xF0, 0x65]);
    m2.index = 0x400;
    for i in 0..16 {
        m2.memory[0x400 + i] = 0x20 + i as u8;
    }
    m2.registers[0] = 15; // count = 16
    assert!(m2.step_with(&kp, 0).is_ok());
    for i in 0..16 {
        assert_eq!(m2.registers[i], 0x20 + i as u8);
    }
}

#[test]
fn bcd_digits() {
    let kp = idle_keys();
    let mut m = machine_with(&[0xF0, 0x33]);
    m.index = 0x500;
    m.registers[0] = 123;
    assert!(m.step_with(&kp, 0).is_ok());
    assert_eq!(m.memory[0x500], 1);
    assert_eq!(m.memory[0x501], 2);
    assert_eq!(m.memory[0x502], 3);

    let mut m2 = machine_with(&[0xF0, 0x33]);
    m2.index = 0x500;
    m2.registers[0] = 7;
    assert!(m2.step_with(&kp, 0).is_ok());
    assert_eq!(
        (m2.memory[0x500], m2.memory[0x501], m2.memory[0x502]),
        (0, 0, 7)
    );
}

#[test]
fn font_address() {
    let kp = idle_keys();
    let mut m = machine_with(&[0xF0, 0x29]);
    m.registers[0] = 0xA;
    assert!(m.step_with(&kp, 0).is_ok());
    assert_eq!(m.index, 0x50 + 0xA * 5);
}

#[test]
fn timers_read_write_and_decay() {
    let kp = idle_keys();
    let mut m = machine_with(&[0xF0, 0x15, 0xF1, 0x18, 0xF2, 0x07]);
    m.registers[0] = 3;
    m.registers[1] = 2;
    assert!(m.step_with(&kp, 0).is_ok());
    assert_eq!(m.delay_timer, 3);
    assert!(m.step_with(&kp, 0).is_ok());
    assert_eq!(m.sound_timer, 2);
    m.tick_timers();
    assert_eq!(m.delay_timer, 2);
    assert_eq!(m.sound_timer, 1);
    assert!(m.step_with(&kp, 0).is_ok());
    assert_eq!(m.registers[2], 2);
    m.tick_timers();
    m.tick_timers();
    m.tick_timers();
    assert_eq!(m.delay_timer, 0); // stays at zero
    assert_eq!(m.sound_timer, 0);
}

#[test]
fn key_skips() {
    let mut kp = Keypad::new();
    kp.set_key(7, true);
    // EX9E skips when the key in VX is held
    let mut m = machine_with(&[0xE0, 0x9E]);
    m.registers[0] = 7;
    assert!(m.step_with(&kp, 0).is_ok());
    assert_eq!(m.pc, 0x204);
    // EXA1 skips when it is not held
    let mut m2 = machine_with(&[0xE0, 0xA1]);
    m2.registers[0] = 7;
    assert!(m2.step_with(&kp, 0).is_ok());
    assert_eq!(m2.pc, 0x202);
    let mut m3 = machine_with(&[0xE0, 0xA1]);
    m3.registers[0] = 3;
    assert!(m3.step_with(&kp, 0).is_ok());
    assert_eq!(m3.pc, 0x204);
}

#[test]
fn wait_for_key_polls_and_stores_lowest() {
    let kp = idle_keys();
    let mut m = machine_with(&[0xF0, 0x0A]);
    // no key held: the instruction re-executes (pc steps back)
    assert!(m.step_with(&kp, 0).is_ok());
    assert_eq!(m.pc, 0x200);
    // two keys held: the lowest-indexed one is stored
    let mut held = Keypad::new();
    held.set_key(9, true);
    held.set_key(4, true);
    assert!(m.step_with(&held, 0).is_ok());
    assert_eq!(m.registers[0], 4);
    assert_eq!(m.pc, 0x202);
}

#[test]
fn unknown_opcodes() {
    let kp = idle_keys();
    // unknown E sub-opcode is fatal
    let mut m = machine_with(&[0xE0, 0x55]);
    assert_eq!(m.step_with(&kp, 0), Err(Fatal::UnknownOpcode));
    // unknown F sub-opcode is fatal
    let mut m2 = machine_with(&[0xF0, 0x99]);
    assert_eq!(m2.step_with(&kp, 0), Err(Fatal::UnknownOpcode));
    // unknown 0NNN and 8XYN sub-opcodes are silently ignored
    let mut m3 = machine_with(&[0x01, 0x23, 0x80, 0x18]);
    assert!(m3.step_with(&kp, 0).is_ok());
    assert!(m3.step_with(&kp, 0).is_ok());
    assert_eq!(m3.pc, 0x204);
}

#[test]
fn out_of_bounds_is_fatal() {
    let kp = idle_keys();
    // fetch past the end of memory
    let mut m = Machine::new();
    m.pc = 4095;
    assert_eq!(m.step_with(&kp, 0), Err(Fatal::OutOfBounds));
    // BCD write past the end
    let mut m2 = machine_with(&[0xF0, 0x33]);
    m2.index = 4094;
    assert_eq!(m2.step_with(&kp, 0), Err(Fatal::OutOfBounds));
    // sprite read past the end
    let mut m3 = machine_with(&[0xD0, 0x05]);
    m3.index = 4093;
    assert_eq!(m3.step_with(&kp, 0), Err(Fatal::OutOfBounds));
    // register dump past the end
    let mut m4 = machine_with(&[0xF0, 0x55]);
    m4.index = 4096 - 1;
    m4.registers[0] = 1; // count 2
    assert_eq!(m4.step_with(&kp, 0), Err(Fatal::OutOfBounds));
    // key index beyond the pad
    let mut m5 = machine_with(&[0xE0, 0x9E]);
    m5.registers[0] = 16;
    assert_eq!(m5.step_with(&kp, 0), Err(Fatal::OutOfBounds));
}

#[test]
fn run_frame_executes_batch_and_ticks_timers() {
    let kp = idle_keys();
    // twelve 7011 adds: V0 gains 0x11 twelve times in one frame
    let mut prog = Vec::new();
    for _ in 0..12 {
        prog.push(0x70);
        prog.push(0x01);
    }
    let mut m = machine_with(&prog);
    m.delay_timer = 5;
    assert!(m.run_frame(&kp).is_ok());
    assert_eq!(m.registers[0], 12);
    assert_eq!(m.delay_timer, 4);
    assert_eq!(m.pc, 0x218);
}

#[test]
fn run_frame_stops_at_fatal() {
    let kp = idle_keys();
    let mut m = machine_with(&[0x00, 0xEE]);
    assert_eq!(m.run_frame(&kp), Err(Fatal::StackUnderflow));
}
