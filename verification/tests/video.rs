use chip8::display::{screen_coords, Display, BLACK, WHITE};
use chip8::machine::{Keypad, Machine};

fn machine_with(prog: &[u8]) -> Machine {
    let mut m = Machine::new();
    let bytes: Vec<u8> = prog.to_vec();
    m.load_program(&bytes);
    m
}

#[test]
fn screen_coords_wrap_around() {
    assert_eq!(screen_coords(2, 1), 66);
    assert_eq!(screen_coords(63, 31), 2047);
    assert_eq!(screen_coords(70, 0), 70); // off-column folds into the next row
    assert_eq!(screen_coords(68, 31), 4); // off the last row wraps to the top
}

#[test]
fn draw_reproduces_bit_pattern_on_clear_screen() {
    let kp = Keypad::new();
    let mut m = machine_with(&[0xD0, 0x12]); // 2-row sprite at (V0, V1)
    m.index = 0x300;
    m.memory[0x300] = 0xA5; // 1010 0101
    m.memory[0x301] = 0x81; // 1000 0001
    m.registers[0] = 4;
    m.registers[1] = 3;
    assert!(m.step_with(&kp, 0).is_ok());
    assert_eq!(m.registers[0xF], 0); // no collision against an all-OFF buffer
    let row0 = [true, false, true, false, false, true, false, true];
    let row1 = [true, false, false, false, false, false, false, true];
    for j in 0..8 {
        assert_eq!(m.display.pixels[screen_coords(4 + j, 3)], row0[j as usize]);
        assert_eq!(m.display.pixels[screen_coords(4 + j, 4)], row1[j as usize]);
    }
    // pixels around the sprite stay OFF
    assert!(!m.display.pixels[screen_coords(3, 3)]);
    assert!(!m.display.pixels[screen_coords(12, 3)]);
    assert!(!m.display.pixels[screen_coords(4, 5)]);
}

#[test]
fn draw_twice_restores_pixels_and_collides() {
    let kp = Keypad::new();
    let mut m = machine_with(&[0xD0, 0x12, 0xD0, 0x12]);
    m.index = 0x300;
    m.memory[0x300] = 0xFF;
    m.memory[0x301] = 0x3C;
    m.registers[0] = 10;
    m.registers[1] = 7;
    assert!(m.step_with(&kp, 0).is_ok());
    assert_eq!(m.registers[0xF], 0);
    assert!(m.display.pixels.iter().any(|&p| p));
    assert!(m.step_with(&kp, 0).is_ok());
    assert_eq!(m.registers[0xF], 1); // the second draw collides
    assert!(m.display.pixels.iter().all(|&p| !p)); // every pixel restored
}

#[test]
fn draw_wraps_at_screen_edges() {
    let kp = Keypad::new();
    let mut m = machine_with(&[0xD0, 0x11]);
    m.index = 0x300;
    m.memory[0x300] = 0xFF; // 8 pixels starting at column 60 of the last row
    m.registers[0] = 60;
    m.registers[1] = 31;
    assert!(m.step_with(&kp, 0).is_ok());
    for j in 0..8u16 {
        assert!(m.display.pixels[screen_coords(60 + j, 31)]);
    }
    // columns 64..67 of row 31 wrap to columns 0..3 of row 0
    assert!(m.display.pixels[0]);
    assert!(m.display.pixels[1]);
    assert!(m.display.pixels[2]);
    assert!(m.display.pixels[3]);
}

#[test]
fn draw_coordinates_reduce_modulo_grid() {
    let kp = Keypad::new();
    let mut m = machine_with(&[0xD0, 0x11]);
    m.index = 0x300;
    m.memory[0x300] = 0x80;
    m.registers[0] = 64 + 5; // starts at column 5
    m.registers[1] = 32 + 2; // starts at row 2
    assert!(m.step_with(&kp, 0).is_ok());
    assert!(m.display.pixels[screen_coords(5, 2)]);
}

#[test]
fn partial_overlap_collides_without_restoring() {
    let kp = Keypad::new();
    let mut m = machine_with(&[0xD0, 0x11, 0xD2, 0x11]);
    m.index = 0x300;
    m.memory[0x300] = 0xC0; // two pixels
    m.registers[0] = 0;
    m.registers[1] = 0;
    m.registers[2] = 1; // second draw shifted one column right
    assert!(m.step_with(&kp, 0).is_ok());
    assert_eq!(m.registers[0xF], 0);
    assert!(m.step_with(&kp, 0).is_ok());
    assert_eq!(m.registers[0xF], 1); // they overlap at column 1
    assert!(m.display.pixels[screen_coords(0, 0)]);
    assert!(!m.display.pixels[screen_coords(1, 0)]); // toggled off
    assert!(m.display.pixels[screen_coords(2, 0)]);
}

#[test]
fn clear_screen_turns_everything_off() {
    let kp = Keypad::new();
    let mut m = machine_with(&[0xD0, 0x11, 0x00, 0xE0]);
    m.index = 0x300;
    m.memory[0x300] = 0xFF;
    assert!(m.step_with(&kp, 0).is_ok());
    assert!(m.display.pixels.iter().any(|&p| p));
    assert!(m.step_with(&kp, 0).is_ok());
    assert!(m.display.pixels.iter().all(|&p| !p));
}

#[test]
fn zero_row_sprite_draws_nothing() {
    let kp = Keypad::new();
    let mut m = machine_with(&[0xD0, 0x10]);
    m.index = 0x300;
    m.registers[0xF] = 1;
    assert!(m.step_with(&kp, 0).is_ok());
    assert_eq!(m.registers[0xF], 0); // VF reset, no pixels drawn
    assert!(m.display.pixels.iter().all(|&p| !p));
}

#[test]
fn upscaled_buffer_replicates_pixels() {
    let mut d = Display::new();
    let big = d.upscaled();
    assert_eq!(big.len(), 64 * 32 * 16 * 16);
    assert!(big.iter().all(|&c| c == BLACK));

    // turn on the single pixel at (1, 0) and rescale
    let sprite = vec![0x80u8];
    let collided = d.draw_sprite(1, 0, &sprite);
    assert!(!collided);
    let big2 = d.upscaled();
    // its 16x16 block is white, its neighbors black
    assert_eq!(big2[16], WHITE); // row 0, column 16
    assert_eq!(big2[31], WHITE);
    assert_eq!(big2[15], BLACK);
    assert_eq!(big2[32], BLACK);
    assert_eq!(big2[15 * 1024 + 16], WHITE); // big row 15 still inside the block
    assert_eq!(big2[16 * 1024 + 16], BLACK); // big row 16 is the next logical row
}

#[test]
fn keypad_records_held_keys() {
    let mut kp = Keypad::new();
    assert!(kp.held.iter().all(|&h| !h));
    kp.set_key(0xC, true);
    assert!(kp.held[0xC]);
    kp.set_key(0xC, false);
    assert!(!kp.held[0xC]);
}
