use chip8::bridge::Key;
use chip8::chip8::Chip8;
use chip8::machine::{decode, Fault, Instruction, LoadError, Status, FLAG};

fn program(words: &[u16]) -> Vec<u8> {
    let mut bytes = Vec::new();
    for w in words {
        bytes.push((w >> 8) as u8);
        bytes.push((w & 0xFF) as u8);
    }
    bytes
}

fn boot(words: &[u16]) -> Chip8 {
    Chip8::new(&program(words)).unwrap()
}

fn run(chip: &mut Chip8, steps: usize) {
    for _ in 0..steps {
        assert_eq!(chip.step(0), Ok(Status::Ran));
    }
}

#[test]
fn new_loads_font_and_program() {
    let chip = boot(&[0x1234]);
    assert_eq!(chip.pc(), 0x200);
    assert_eq!(chip.index(), 0);
    assert_eq!(chip.stack_depth(), 0);
    assert_eq!(chip.key(), None);
    assert_eq!(chip.memory_at(0x50), Some(0xF0));
    assert_eq!(chip.memory_at(0x9F), Some(0x80));
    assert_eq!(chip.memory_at(0x200), Some(0x12));
    assert_eq!(chip.memory_at(0x201), Some(0x34));
    assert_eq!(chip.memory_at(0x202), Some(0));
    assert_eq!(chip.memory_at(4095), Some(0));
    assert_eq!(chip.memory_at(4096), None);
    for r in 0..16 {
        assert_eq!(chip.register(r), 0);
    }
}

#[test]
fn new_refuses_empty_program() {
    assert!(matches!(Chip8::new(&[]), Err(LoadError::EmptyProgram)));
}

#[test]
fn new_refuses_oversized_program() {
    let big = vec![0u8; 0xE01];
    assert!(matches!(Chip8::new(&big), Err(LoadError::ProgramTooLarge)));
    let fits = vec![0u8; 0xE00];
    assert!(Chip8::new(&fits).is_ok());
}

#[test]
fn decode_splits_fields() {
    assert_eq!(
        decode(0xD12F),
        Instruction { family: 0xD, x: 1, y: 2, n: 0xF, nn: 0x2F, nnn: 0x12F }
    );
}

#[test]
fn fetch_reads_big_endian_and_advances() {
    let mut chip = boot(&[0xA2F0]);
    assert_eq!(chip.fetch(), Ok(0xA2F0));
    assert_eq!(chip.pc(), 0x202);
}

#[test]
fn clear_opcode_blanks_active_plane() {
    // I = glyph 0, draw it at (0, 0), then clear.
    let mut chip = boot(&[0xA050, 0xD005, 0x00E0]);
    run(&mut chip, 2);
    assert!(chip.display().pixel(0, 0));
    run(&mut chip, 1);
    let d = chip.display();
    for y in 0..d.height() {
        for x in 0..d.width() as usize {
            assert!(!d.pixel(x, y));
        }
    }
}

#[test]
fn draw_twice_collides_and_restores() {
    let mut chip = boot(&[0xA050, 0xD005, 0xD005]);
    run(&mut chip, 2);
    assert_eq!(chip.register(FLAG), 0);
    run(&mut chip, 1);
    assert_eq!(chip.register(FLAG), 1);
    let frame = chip.display().pixels();
    assert!(frame.iter().all(|row| row.iter().all(|p| !p)));
}

#[test]
fn add_literal_wraps_without_flag() {
    let mut chip = boot(&[0x60FF, 0x6F07, 0x7001]);
    run(&mut chip, 3);
    assert_eq!(chip.register(0), 0x00);
    assert_eq!(chip.register(FLAG), 0x07);
    for r in 1..15 {
        assert_eq!(chip.register(r), 0);
    }
}

#[test]
fn add_registers_sets_carry() {
    let mut chip = boot(&[0x60FF, 0x6101, 0x8014]);
    run(&mut chip, 3);
    assert_eq!(chip.register(0), 0x00);
    assert_eq!(chip.register(FLAG), 1);

    let mut chip = boot(&[0x6001, 0x6101, 0x8014]);
    run(&mut chip, 3);
    assert_eq!(chip.register(0), 0x02);
    assert_eq!(chip.register(FLAG), 0);
}

#[test]
fn subtract_sets_no_borrow_flag() {
    let mut chip = boot(&[0x6005, 0x6103, 0x8015]);
    run(&mut chip, 3);
    assert_eq!(chip.register(0), 0x02);
    assert_eq!(chip.register(FLAG), 1);

    let mut chip = boot(&[0x6003, 0x6105, 0x8015]);
    run(&mut chip, 3);
    assert_eq!(chip.register(0), 0xFE);
    assert_eq!(chip.register(FLAG), 0);
}

#[test]
fn reverse_subtract_sets_no_borrow_flag() {
    let mut chip = boot(&[0x6003, 0x6105, 0x8017]);
    run(&mut chip, 3);
    assert_eq!(chip.register(0), 0x02);
    assert_eq!(chip.register(FLAG), 1);

    let mut chip = boot(&[0x6005, 0x6103, 0x8017]);
    run(&mut chip, 3);
    assert_eq!(chip.register(0), 0xFE);
    assert_eq!(chip.register(FLAG), 0);
}

#[test]
fn shifts_put_out_bit_in_flag() {
    let mut chip = boot(&[0x6005, 0x8006]);
    run(&mut chip, 2);
    assert_eq!(chip.register(0), 0x02);
    assert_eq!(chip.register(FLAG), 1);

    let mut chip = boot(&[0x6081, 0x800E]);
    run(&mut chip, 2);
    assert_eq!(chip.register(0), 0x02);
    assert_eq!(chip.register(FLAG), 1);

    let mut chip = boot(&[0x6040, 0x800E]);
    run(&mut chip, 2);
    assert_eq!(chip.register(0), 0x80);
    assert_eq!(chip.register(FLAG), 0);
}

#[test]
fn logic_ops_combine_registers() {
    let mut chip = boot(&[0x60F0, 0x613C, 0x8201, 0x8012, 0x6233, 0x8123, 0x8320]);
    run(&mut chip, 7);
    assert_eq!(chip.register(0), 0x30);
    assert_eq!(chip.register(1), 0x0F);
    assert_eq!(chip.register(3), 0x33);
}

#[test]
fn bcd_writes_three_digits() {
    let mut chip = boot(&[0x609C, 0xA300, 0xF033]);
    run(&mut chip, 3);
    assert_eq!(chip.memory_at(0x300), Some(1));
    assert_eq!(chip.memory_at(0x301), Some(5));
    assert_eq!(chip.memory_at(0x302), Some(6));
}

#[test]
fn bcd_past_end_of_memory_faults() {
    let mut chip = boot(&[0xAFFE, 0xF033]);
    run(&mut chip, 1);
    assert_eq!(chip.step(0), Err(Fault::MemoryOutOfBounds));
    assert_eq!(chip.pc(), 0x202);
    assert_eq!(chip.memory_at(0xFFE), Some(0));
}

#[test]
fn call_then_return_resumes_after_call() {
    // 0x200: call 0x206; 0x206: return.
    let mut chip = boot(&[0x2206, 0x0000, 0x0000, 0x00EE]);
    run(&mut chip, 1);
    assert_eq!(chip.pc(), 0x206);
    assert_eq!(chip.stack_depth(), 1);
    run(&mut chip, 1);
    assert_eq!(chip.pc(), 0x202);
    assert_eq!(chip.stack_depth(), 0);
}

#[test]
fn return_on_empty_stack_faults() {
    let mut chip = boot(&[0x00EE]);
    assert_eq!(chip.step(0), Err(Fault::StackUnderflow));
    assert_eq!(chip.pc(), 0x200);
}

#[test]
fn fetch_past_end_of_memory_faults() {
    let mut chip = boot(&[0x1FFF]);
    run(&mut chip, 1);
    assert_eq!(chip.pc(), 0xFFF);
    assert_eq!(chip.step(0), Err(Fault::PcOutOfBounds));
    assert_eq!(chip.pc(), 0xFFF);
}

#[test]
fn key_wait_blocks_until_key() {
    let mut chip = boot(&[0xF30A]);
    for _ in 0..5 {
        assert_eq!(chip.tick_with(0), Ok(Status::AwaitingKey));
        assert_eq!(chip.pc(), 0x200);
    }
    chip.get_input(Some(Key::W));
    assert_eq!(chip.tick_with(0), Ok(Status::Ran));
    assert_eq!(chip.register(3), 0x5);
    assert_eq!(chip.pc(), 0x202);
}

#[test]
fn key_skips_follow_pressed_key() {
    let mut chip = boot(&[0x6007, 0xE09E, 0x0000, 0xE0A1]);
    chip.get_input(Some(Key::A));
    run(&mut chip, 2);
    assert_eq!(chip.pc(), 0x206);
    run(&mut chip, 1);
    assert_eq!(chip.pc(), 0x208);

    let mut chip = boot(&[0x6007, 0xE0A1]);
    run(&mut chip, 2);
    assert_eq!(chip.pc(), 0x206);
}

#[test]
fn skips_compare_registers_and_literals() {
    let mut chip = boot(&[0x3000, 0x0000, 0x4001, 0x0000, 0x5010, 0x0000, 0x9010]);
    run(&mut chip, 3);
    assert_eq!(chip.pc(), 0x20C);
    run(&mut chip, 1);
    assert_eq!(chip.pc(), 0x20E);

    let mut chip = boot(&[0x3001, 0x4000, 0x6101, 0x9010]);
    run(&mut chip, 4);
    assert_eq!(chip.pc(), 0x20A);
}

#[test]
fn jumps_and_offset_jump() {
    let mut chip = boot(&[0x1300]);
    run(&mut chip, 1);
    assert_eq!(chip.pc(), 0x300);

    let mut chip = boot(&[0x6210, 0xB300]);
    run(&mut chip, 2);
    assert_eq!(chip.pc(), 0x300);

    let mut chip = boot(&[0x6310, 0xB300]);
    run(&mut chip, 2);
    assert_eq!(chip.pc(), 0x310);
}

#[test]
fn random_is_masked() {
    let mut chip = boot(&[0xC30F]);
    assert_eq!(chip.step(0xAB), Ok(Status::Ran));
    assert_eq!(chip.register(3), 0x0B);

    let mut chip = boot(&[0xC300]);
    assert_eq!(chip.tick(), Ok(Status::Ran));
    assert_eq!(chip.register(3), 0);
}

#[test]
fn index_add_flags_overflow_when_enabled() {
    let mut chip = boot(&[0xAFFE, 0x6001, 0xF01E]);
    run(&mut chip, 3);
    assert_eq!(chip.index(), 0xFFF);
    assert_eq!(chip.register(FLAG), 1);

    let mut chip = boot(&[0xA100, 0x6001, 0xF01E]);
    run(&mut chip, 3);
    assert_eq!(chip.index(), 0x101);
    assert_eq!(chip.register(FLAG), 0);

    let mut chip = boot(&[0xAFFE, 0x6001, 0xF01E]);
    chip.set_index_overflow_flag(false);
    run(&mut chip, 3);
    assert_eq!(chip.index(), 0xFFF);
    assert_eq!(chip.register(FLAG), 0);
}

#[test]
fn font_address_of_digit() {
    let mut chip = boot(&[0x600A, 0xF029]);
    run(&mut chip, 2);
    assert_eq!(chip.index(), 0x50 + 5 * 10);
}

#[test]
fn store_and_load_registers_inclusive() {
    let mut chip = boot(&[0x6011, 0x6122, 0x6233, 0xA300, 0xF155, 0x6000, 0x6100, 0x6200, 0xF265]);
    run(&mut chip, 5);
    assert_eq!(chip.memory_at(0x300), Some(0x11));
    assert_eq!(chip.memory_at(0x301), Some(0x22));
    assert_eq!(chip.memory_at(0x302), Some(0));
    assert_eq!(chip.index(), 0x300);
    run(&mut chip, 4);
    assert_eq!(chip.register(0), 0x11);
    assert_eq!(chip.register(1), 0x22);
    assert_eq!(chip.register(2), 0);
}

#[test]
fn timers_set_and_count_down() {
    let mut chip = boot(&[0x6003, 0xF015, 0xF018, 0xF107]);
    run(&mut chip, 3);
    assert_eq!(chip.delay_timer(), 3);
    assert_eq!(chip.sound_timer(), 3);
    assert_eq!(chip.tick_with(0), Ok(Status::Ran));
    assert_eq!(chip.register(1), 3);
    assert_eq!(chip.delay_timer(), 2);
    for _ in 0..5 {
        chip.tick_timers();
    }
    assert_eq!(chip.delay_timer(), 0);
    assert_eq!(chip.sound_timer(), 0);
}

#[test]
fn unknown_opcodes_are_skipped() {
    let mut chip = boot(&[0x800F, 0xE0FF, 0xF0FF, 0x0123]);
    assert_eq!(chip.step(0), Ok(Status::Unrecognized(0x800F)));
    assert_eq!(chip.step(0), Ok(Status::Unrecognized(0xE0FF)));
    assert_eq!(chip.step(0), Ok(Status::Unrecognized(0xF0FF)));
    assert_eq!(chip.step(0), Ok(Status::Unrecognized(0x0123)));
    assert_eq!(chip.pc(), 0x208);
}

#[test]
fn draw_origin_wraps_to_standard_resolution() {
    // V0 = 66 (2 mod 64), V1 = 33 (1 mod 32); glyph 0's first row is 0xF0.
    let mut chip = boot(&[0x6042, 0x6121, 0xA050, 0xD011]);
    run(&mut chip, 4);
    let d = chip.display();
    assert!(d.pixel(2, 1));
    assert!(d.pixel(5, 1));
    assert!(!d.pixel(6, 1));
    assert!(!d.pixel(1, 1));
}

#[test]
fn draw_past_end_of_memory_faults() {
    let mut chip = boot(&[0xAFFE, 0xD005]);
    run(&mut chip, 1);
    assert_eq!(chip.step(0), Err(Fault::MemoryOutOfBounds));
    assert!(!chip.display().changed());
}

#[test]
fn screen_opcodes_reach_framebuffer() {
    let mut chip = boot(&[0x00FF, 0xA050, 0xD001, 0x00C2, 0x00FB, 0x00FC, 0x00FE]);
    run(&mut chip, 1);
    assert!(chip.display().hi_mode());
    assert_eq!(chip.display().width(), 128);
    run(&mut chip, 2);
    assert!(chip.display().pixel(0, 0));
    run(&mut chip, 1);
    assert!(!chip.display().pixel(0, 0));
    assert!(chip.display().pixel(0, 2));
    run(&mut chip, 1);
    assert!(!chip.display().pixel(0, 2));
    assert!(chip.display().pixel(4, 2));
    run(&mut chip, 1);
    assert!(chip.display().pixel(0, 2));
    run(&mut chip, 1);
    assert!(!chip.display().hi_mode());
    assert_eq!(chip.display().height(), 32);
}

#[test]
fn render_hands_out_frame_only_when_dirty() {
    let mut chip = boot(&[0xA050, 0xD005]);
    assert!(chip.render().is_none());
    run(&mut chip, 2);
    let frame = chip.render().unwrap();
    assert_eq!(frame.len(), 32);
    assert_eq!(frame[0].len(), 64);
    assert!(frame[0][0]);
    assert!(!frame[0][4]);
    assert!(chip.render().is_none());
}
