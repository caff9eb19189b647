use chip8::opcode::{Opcode, ParseOpcodeError};
use chip8::{Chip8, Chip8Error, Key, Keyboard, VirtualScreen, Window, HEIGHT, WIDTH};

struct Host {
    pressed: Option<Key>,
    frames: usize,
}

impl Window for Host {
    fn shown(&self) -> vstd::seq::Seq<u8> {
        unreachable!()
    }

    fn shown_size(&self) -> (usize, usize) {
        unreachable!()
    }

    fn update_with_buffer(&mut self, buffer: &[u8], width: usize, height: usize) {
        assert_eq!(buffer.len(), width * height);
        self.frames += 1;
    }

    fn is_running(&mut self) -> bool {
        true
    }
}

impl Keyboard for Host {
    fn is_key_down(&self, key: Key) -> bool {
        self.pressed == Some(key)
    }

    fn wait_key_down(&self) -> Key {
        self.pressed.unwrap_or(Key::Key0)
    }
}

fn machine(words: &[u16], pressed: Option<Key>) -> Chip8<Host> {
    let mut rom = Vec::new();
    for w in words {
        rom.push((w >> 8) as u8);
        rom.push((w & 0xFF) as u8);
    }
    let mut chip = Chip8::new(Host { pressed, frames: 0 });
    chip.init(&rom);
    chip
}

fn run(chip: &mut Chip8<Host>, cycles: usize) {
    for _ in 0..cycles {
        chip.cycle().unwrap();
    }
}

#[test]
fn new_machine_starts_at_program_start() {
    let chip = Chip8::new(Host { pressed: None, frames: 0 });
    assert_eq!(chip.pc(), 0x200);
    assert_eq!(chip.index(), 0);
    assert_eq!(chip.stack_depth(), 0);
    assert!(chip.buffer().iter().all(|c| *c == 0));
    assert_eq!(chip.buffer().len(), WIDTH * HEIGHT);
}

#[test]
fn init_loads_font_and_rom() {
    let chip = machine(&[0x1234, 0xABCD], None);
    assert_eq!(chip.memory(0), 0xF0);
    assert_eq!(chip.memory(79), 0x80);
    assert_eq!(chip.memory(80), 0);
    assert_eq!(chip.memory(0x200), 0x12);
    assert_eq!(chip.memory(0x201), 0x34);
    assert_eq!(chip.memory(0x202), 0xAB);
    assert_eq!(chip.memory(0x203), 0xCD);
    assert_eq!(chip.memory(0x204), 0);
}

#[test]
fn add_with_carry_sets_flag() {
    let mut chip = machine(&[0x60FF, 0x6101, 0x8014], None);
    run(&mut chip, 3);
    assert_eq!(chip.register(0), 0x00);
    assert_eq!(chip.register(0xF), 1);
}

#[test]
fn add_without_carry_keeps_flag() {
    let mut chip = machine(&[0x6F07, 0x6010, 0x6101, 0x8014], None);
    run(&mut chip, 4);
    assert_eq!(chip.register(0), 0x11);
    assert_eq!(chip.register(0xF), 7);
}

#[test]
fn sub_with_borrow_wraps() {
    let mut chip = machine(&[0x6005, 0x6109, 0x8015], None);
    run(&mut chip, 3);
    assert_eq!(chip.register(0xF), 0);
    assert_eq!(chip.register(0), 0xFC);
}

#[test]
fn sub_without_borrow_sets_flag() {
    let mut chip = machine(&[0x6009, 0x6105, 0x8015], None);
    run(&mut chip, 3);
    assert_eq!(chip.register(0xF), 1);
    assert_eq!(chip.register(0), 0x04);
}

#[test]
fn subn_wraps() {
    let mut chip = machine(&[0x6009, 0x6105, 0x8017], None);
    run(&mut chip, 3);
    assert_eq!(chip.register(0xF), 0);
    assert_eq!(chip.register(0), 0xFC);
}

#[test]
fn shr_moves_low_bit_to_flag() {
    let mut chip = machine(&[0x6003, 0x8006], None);
    run(&mut chip, 2);
    assert_eq!(chip.register(0xF), 1);
    assert_eq!(chip.register(0), 0x01);
}

#[test]
fn shl_moves_high_bit_to_flag() {
    let mut chip = machine(&[0x6081, 0x800E], None);
    run(&mut chip, 2);
    assert_eq!(chip.register(0xF), 1);
    assert_eq!(chip.register(0), 0x02);
}

#[test]
fn bitwise_and_byte_ops() {
    let mut chip = machine(&[0x600C, 0x610A, 0x8011, 0x6207, 0x8212, 0x6305, 0x8313, 0x74FF, 0x8540], None);
    run(&mut chip, 9);
    assert_eq!(chip.register(0), 0x0E);
    assert_eq!(chip.register(2), 0x07 & 0x0A);
    assert_eq!(chip.register(3), 0x05 ^ 0x0A);
    assert_eq!(chip.register(4), 0xFF);
    assert_eq!(chip.register(5), 0xFF);
}

#[test]
fn jump_sets_pc_exactly() {
    let mut chip = machine(&[0x1300], None);
    run(&mut chip, 1);
    assert_eq!(chip.pc(), 0x300);
}

#[test]
fn legacy_machine_call_is_a_jump() {
    assert_eq!(Opcode::decode(0x0123).unwrap(), Opcode::Jump { addr: 0x123 });
}

#[test]
fn skip_equal_byte_matching_skips() {
    let mut chip = machine(&[0x6042, 0x3042], None);
    run(&mut chip, 2);
    assert_eq!(chip.pc(), 0x202 + 4);
}

#[test]
fn skip_equal_byte_not_matching_moves_on() {
    let mut chip = machine(&[0x6042, 0x3043], None);
    run(&mut chip, 2);
    assert_eq!(chip.pc(), 0x202 + 2);
}

#[test]
fn skip_register_compares() {
    let mut chip = machine(&[0x6001, 0x6101, 0x5010, 0x0000, 0x9010, 0x4002], None);
    run(&mut chip, 3);
    assert_eq!(chip.pc(), 0x208);
    run(&mut chip, 1);
    assert_eq!(chip.pc(), 0x20A);
    run(&mut chip, 1);
    assert_eq!(chip.pc(), 0x20E);
}

#[test]
fn call_then_return_resumes_after_call() {
    let mut chip = machine(&[0x2206, 0x0000, 0x0000, 0x00EE], None);
    run(&mut chip, 1);
    assert_eq!(chip.pc(), 0x206);
    assert_eq!(chip.stack_depth(), 1);
    run(&mut chip, 1);
    assert_eq!(chip.pc(), 0x202);
    assert_eq!(chip.stack_depth(), 0);
}

#[test]
fn return_on_empty_stack_fails() {
    let mut chip = machine(&[0x00EE], None);
    assert_eq!(chip.cycle(), Err(Chip8Error::StackUnderflow));
    assert_eq!(chip.pc(), 0x200);
}

#[test]
fn seventeenth_nested_call_fails() {
    let mut chip = machine(&[0x2200], None);
    run(&mut chip, 16);
    assert_eq!(chip.stack_depth(), 16);
    assert_eq!(chip.cycle(), Err(Chip8Error::StackOverflow));
    assert_eq!(chip.stack_depth(), 16);
}

#[test]
fn unknown_opcode_is_reported() {
    let mut chip = machine(&[0x800F], None);
    assert_eq!(chip.cycle(), Err(Chip8Error::Decode(ParseOpcodeError::UnknownOpcode(0x800F))));
}

#[test]
fn fetch_past_memory_fails() {
    let mut chip = machine(&[0x1FFF], None);
    run(&mut chip, 1);
    assert_eq!(chip.cycle(), Err(Chip8Error::AddressOutOfRange));
}

#[test]
fn draw_past_memory_fails() {
    let mut chip = machine(&[0xAFFE, 0xD005], None);
    run(&mut chip, 1);
    assert_eq!(chip.cycle(), Err(Chip8Error::AddressOutOfRange));
}

#[test]
fn unknown_key_value_fails() {
    let mut chip = machine(&[0x6020, 0xE09E], None);
    run(&mut chip, 1);
    assert_eq!(chip.cycle(), Err(Chip8Error::UnknownKey(0x20)));
}

#[test]
fn skip_key_pressed_polls_backend() {
    let mut chip = machine(&[0x6005, 0xE09E, 0x0000, 0xE0A1], Some(Key::Key5));
    run(&mut chip, 2);
    assert_eq!(chip.pc(), 0x206);
    run(&mut chip, 1);
    assert_eq!(chip.pc(), 0x208);
}

#[test]
fn wait_key_stores_key_and_stays() {
    let mut chip = machine(&[0xF30A], Some(Key::KeyB));
    run(&mut chip, 1);
    assert_eq!(chip.register(3), 0xB);
    assert_eq!(chip.pc(), 0x200);
}

#[test]
fn timers_count_down_and_stop_at_zero() {
    let mut chip = machine(&[0x6002, 0xF015, 0xF018, 0xF107, 0xF207], None);
    run(&mut chip, 2);
    assert_eq!(chip.delay_timer(), 1);
    run(&mut chip, 1);
    assert_eq!(chip.delay_timer(), 0);
    assert_eq!(chip.sound_timer(), 1);
    run(&mut chip, 2);
    assert_eq!(chip.register(1), 0);
    assert_eq!(chip.sound_timer(), 0);
}

#[test]
fn bcd_stores_digits() {
    let mut chip = machine(&[0x60EA, 0xA300, 0xF033], None);
    run(&mut chip, 3);
    assert_eq!(chip.memory(0x300), 2);
    assert_eq!(chip.memory(0x301), 3);
    assert_eq!(chip.memory(0x302), 4);
}

#[test]
fn save_and_load_registers_include_x() {
    let mut chip = machine(&[0x6011, 0x6122, 0x6233, 0x6344, 0xA300, 0xF255, 0x6000, 0x6100, 0x6200, 0xF265], None);
    run(&mut chip, 6);
    assert_eq!(chip.memory(0x300), 0x11);
    assert_eq!(chip.memory(0x301), 0x22);
    assert_eq!(chip.memory(0x302), 0x33);
    assert_eq!(chip.memory(0x303), 0);
    run(&mut chip, 4);
    assert_eq!(chip.register(0), 0x11);
    assert_eq!(chip.register(1), 0x22);
    assert_eq!(chip.register(2), 0x33);
    assert_eq!(chip.register(3), 0x44);
}

#[test]
fn load_sprite_and_add_index() {
    let mut chip = machine(&[0x600A, 0xF029, 0x6103, 0xF11E, 0x60FF, 0xF029], None);
    run(&mut chip, 2);
    assert_eq!(chip.index(), 50);
    run(&mut chip, 2);
    assert_eq!(chip.index(), 53);
    run(&mut chip, 2);
    assert_eq!(chip.index(), 0xFF * 5);
}

#[test]
fn jump_v0_adds_register() {
    let mut chip = machine(&[0x6010, 0xB300], None);
    run(&mut chip, 2);
    assert_eq!(chip.pc(), 0x310);
}

#[test]
fn random_masks_with_byte() {
    let mut chip = machine(&[0xC000, 0xC10F], None);
    run(&mut chip, 2);
    assert_eq!(chip.register(0), 0);
    assert!(chip.register(1) <= 0x0F);
}

#[test]
fn draw_then_redraw_collides() {
    let mut screen = VirtualScreen::new();
    let mut vf: u8 = 7;
    screen.display(&[0xFF], 0, 0, &mut vf);
    assert_eq!(vf, 0);
    assert_eq!(screen.buffer.iter().filter(|c| **c == 1).count(), 8);
    for col in 0..8 {
        assert_eq!(screen.buffer[col], 1);
    }
    screen.display(&[0xFF], 0, 0, &mut vf);
    assert_eq!(vf, 1);
    assert!(screen.buffer.iter().all(|c| *c == 0));
}

#[test]
fn draw_wraps_to_column_zero() {
    let mut screen = VirtualScreen::new();
    let mut vf: u8 = 0;
    screen.display(&[0xC0], WIDTH - 1, 0, &mut vf);
    assert_eq!(screen.buffer[WIDTH - 1], 1);
    assert_eq!(screen.buffer[0], 1);
    assert_eq!(screen.buffer.iter().filter(|c| **c == 1).count(), 2);
}

#[test]
fn draw_wraps_to_row_zero() {
    let mut screen = VirtualScreen::new();
    let mut vf: u8 = 0;
    screen.display(&[0x80, 0x80], 2, HEIGHT - 1, &mut vf);
    assert_eq!(screen.buffer[(HEIGHT - 1) * WIDTH + 2], 1);
    assert_eq!(screen.buffer[2], 1);
}

#[test]
fn clear_blanks_screen() {
    let mut screen = VirtualScreen::new();
    let mut vf: u8 = 0;
    screen.display(&[0xAA, 0x55], 10, 10, &mut vf);
    screen.need_update = false;
    screen.clear();
    assert!(screen.buffer.iter().all(|c| *c == 0));
    assert!(screen.need_update);
}

#[test]
fn font_glyph_zero_end_to_end() {
    let mut chip = machine(&[0x00E0, 0xA000, 0xD005], None);
    run(&mut chip, 3);
    let glyph = [0xF0u8, 0x90, 0x90, 0x90, 0xF0];
    for row in 0..HEIGHT {
        for col in 0..WIDTH {
            let expected = if row < 5 && col < 8 { (glyph[row] >> (7 - col)) & 1 } else { 0 };
            assert_eq!(chip.buffer()[row * WIDTH + col], expected);
        }
    }
    assert_eq!(chip.register(0xF), 0);
    chip.display();
}

#[test]
fn execute_applies_given_inputs() {
    let mut chip = machine(&[], None);
    chip.execute(Opcode::Random { x: 2, kk: 0xF0 }, false, Key::Key0, 0xAB).unwrap();
    assert_eq!(chip.register(2), 0xA0);
    assert_eq!(chip.pc(), 0x202);
    chip.execute(Opcode::WaitKeyPressed { x: 4 }, false, Key::KeyE, 0).unwrap();
    assert_eq!(chip.register(4), 0xE);
    assert_eq!(chip.pc(), 0x202);
    chip.execute(Opcode::SkipKeyNotPressed { x: 0 }, true, Key::Key0, 0).unwrap();
    assert_eq!(chip.pc(), 0x204);
}

#[test]
fn key_from_byte() {
    assert_eq!(Key::from_u8(0xA), Some(Key::KeyA));
    assert_eq!(Key::from_u8(0xF).map(|k| k.value()), Some(0xF));
    assert_eq!(Key::from_u8(0x10), None);
}
