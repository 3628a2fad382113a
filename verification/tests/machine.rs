use chipster::machine::{Machine, RomError, FONTSET, ROM_START_ADDR};

#[test]
fn fontset_is_loaded_at_start() {
    let m = Machine::new();
    assert_eq!(&m.memory()[0..FONTSET.len()], &FONTSET);
}

#[test]
fn load_rom_into_memory() {
    let mut m = Machine::new();
    let dummy_rom = vec![0x12, 0x34, 0x56, 0x78];

    let result = m.load_rom_bytes(&dummy_rom);
    assert!(result.is_ok());

    let end = ROM_START_ADDR + dummy_rom.len();
    assert_eq!(&m.memory()[ROM_START_ADDR..end], &dummy_rom);
}

#[test]
fn returns_err_from_empty_rom() {
    let mut m = Machine::new();
    let empty_rom: Vec<u8> = vec![];
    let result = m.load_rom_bytes(&empty_rom);
    assert!(result.is_err());
}

#[test]
fn returns_err_for_oversized_rom() {
    let mut m = Machine::new();
    let max_allowed_space = m.memory().len() - ROM_START_ADDR;
    let oversized_rom = vec![0u8; max_allowed_space + 1];

    let result = m.load_rom_bytes(&oversized_rom);
    assert!(result.is_err());
}

#[test]
fn new_machine_starts_at_load_address_with_zeroed_state() {
    let m = Machine::new();
    assert_eq!(m.pc(), 0x200);
    assert_eq!(m.index_register(), 0);
    assert_eq!(m.stack_pointer(), 0);
    assert_eq!(m.delay_timer(), 0);
    assert_eq!(m.sound_timer(), 0);
    for x in 0..16 {
        assert_eq!(m.register(x), 0);
    }
    assert!(m.display.iter().all(|p| !p));
    assert!(m.memory()[FONTSET.len()..].iter().all(|b| *b == 0));
}

#[test]
fn default_is_new() {
    let d = Machine::default();
    let n = Machine::new();
    assert_eq!(&d.memory()[..], &n.memory()[..]);
    assert_eq!(d.pc(), n.pc());
}

#[test]
fn rom_errors_name_the_reason() {
    let mut m = Machine::new();
    assert_eq!(m.load_rom_bytes(&[]), Err(RomError::Empty));
    let oversized = vec![1u8; 3585];
    assert_eq!(
        m.load_rom_bytes(&oversized),
        Err(RomError::TooLarge { size: 3585, max: 3584 })
    );
    // A refused image leaves memory untouched.
    assert!(m.memory()[ROM_START_ADDR..].iter().all(|b| *b == 0));
}

#[test]
fn rom_filling_all_memory_is_accepted() {
    let mut m = Machine::new();
    let rom: Vec<u8> = (0..3584).map(|k| (k % 251) as u8).collect();
    assert_eq!(m.load_rom_bytes(&rom), Ok(()));
    assert_eq!(&m.memory()[ROM_START_ADDR..], &rom[..]);
    assert_eq!(&m.memory()[0..FONTSET.len()], &FONTSET);
}

#[test]
fn cycle_fetches_big_endian_and_executes() {
    let mut m = Machine::new();
    m.load_rom_bytes(&[0x6A, 0x2B, 0x7A, 0x01]).unwrap();
    assert_eq!(m.fetch_opcode(), 0x6A2B);
    assert!(m.can_cycle());
    m.cycle();
    assert_eq!(m.register(0xA), 0x2B);
    assert_eq!(m.pc(), 0x202);
    m.cycle();
    assert_eq!(m.register(0xA), 0x2C);
    assert_eq!(m.pc(), 0x204);
}

#[test]
fn cycle_is_refused_at_the_end_of_memory() {
    let mut m = Machine::new();
    m.execute_with(0x1FFF, 0);
    assert_eq!(m.pc(), 0xFFF);
    assert!(!m.can_cycle());
    m.execute_with(0x1FFE, 0);
    assert!(m.can_cycle());
}

#[test]
fn call_then_return_resumes_after_the_call() {
    let mut m = Machine::new();
    m.execute_with(0x2400, 0);
    assert_eq!(m.pc(), 0x400);
    assert_eq!(m.stack_pointer(), 1);
    m.execute_with(0x00EE, 0);
    assert_eq!(m.pc(), 0x202);
    assert_eq!(m.stack_pointer(), 0);
}

#[test]
fn stack_limits_are_reported() {
    let mut m = Machine::new();
    assert!(!m.can_execute(0x00EE));
    for _ in 0..16 {
        assert!(m.can_execute(0x2300));
        m.execute_with(0x2300, 0);
    }
    assert_eq!(m.stack_pointer(), 16);
    assert!(!m.can_execute(0x2300));
    assert!(m.can_execute(0x00EE));
}

#[test]
fn jump_and_jump_with_offset() {
    let mut m = Machine::new();
    m.execute_with(0x1ABC, 0);
    assert_eq!(m.pc(), 0xABC);
    m.execute_with(0x6004, 0);
    m.execute_with(0xB300, 0);
    assert_eq!(m.pc(), 0x304);
}

#[test]
fn skips_compare_registers_and_constants() {
    let mut m = Machine::new();
    m.execute_with(0x6105, 0); // V1 = 5, pc = 0x202
    m.execute_with(0x3105, 0); // equal: skip
    assert_eq!(m.pc(), 0x206);
    m.execute_with(0x3106, 0); // not equal: no skip
    assert_eq!(m.pc(), 0x208);
    m.execute_with(0x4106, 0); // not equal: skip
    assert_eq!(m.pc(), 0x20C);
    m.execute_with(0x6205, 0); // V2 = 5
    m.execute_with(0x5120, 0); // V1 == V2: skip
    assert_eq!(m.pc(), 0x212);
    m.execute_with(0x9120, 0); // V1 == V2: no skip
    assert_eq!(m.pc(), 0x214);
    m.execute_with(0x5121, 0); // not an instruction: only advances
    assert_eq!(m.pc(), 0x216);
}

#[test]
fn add_constant_wraps_without_touching_flag() {
    let mut m = Machine::new();
    m.execute_with(0x60FF, 0);
    m.execute_with(0x7002, 0);
    assert_eq!(m.register(0), 1);
    assert_eq!(m.register(0xF), 0);
}

#[test]
fn logic_operations() {
    let mut m = Machine::new();
    m.execute_with(0x600C, 0);
    m.execute_with(0x610A, 0);
    m.execute_with(0x8011, 0);
    assert_eq!(m.register(0), 0x0E);
    m.execute_with(0x8012, 0);
    assert_eq!(m.register(0), 0x0A);
    m.execute_with(0x8013, 0);
    assert_eq!(m.register(0), 0x00);
    m.execute_with(0x8010, 0);
    assert_eq!(m.register(0), 0x0A);
}

#[test]
fn add_registers_sets_carry() {
    let mut m = Machine::new();
    m.execute_with(0x60FF, 0);
    m.execute_with(0x6102, 0);
    m.execute_with(0x8014, 0);
    assert_eq!(m.register(0), 0x01);
    assert_eq!(m.register(0xF), 1);
    m.execute_with(0x8014, 0);
    assert_eq!(m.register(0), 0x03);
    assert_eq!(m.register(0xF), 0);
}

#[test]
fn add_into_flag_register_keeps_the_sum() {
    let mut m = Machine::new();
    m.execute_with(0x6FFF, 0);
    m.execute_with(0x6102, 0);
    m.execute_with(0x8F14, 0);
    assert_eq!(m.register(0xF), 0x01);
}

#[test]
fn subtract_sets_not_borrow() {
    let mut m = Machine::new();
    m.execute_with(0x6001, 0);
    m.execute_with(0x6102, 0);
    m.execute_with(0x8015, 0);
    assert_eq!(m.register(0), 0xFF);
    assert_eq!(m.register(0xF), 0);
    m.execute_with(0x6005, 0);
    m.execute_with(0x8015, 0);
    assert_eq!(m.register(0), 0x03);
    assert_eq!(m.register(0xF), 1);
    m.execute_with(0x6005, 0);
    m.execute_with(0x8017, 0); // V0 = V1 - V0 = 2 - 5
    assert_eq!(m.register(0), 0xFD);
    assert_eq!(m.register(0xF), 0);
}

#[test]
fn shifts_put_the_lost_bit_in_flag() {
    let mut m = Machine::new();
    m.execute_with(0x6005, 0);
    m.execute_with(0x8006, 0);
    assert_eq!(m.register(0), 0x02);
    assert_eq!(m.register(0xF), 1);
    m.execute_with(0x6081, 0);
    m.execute_with(0x800E, 0);
    assert_eq!(m.register(0), 0x02);
    assert_eq!(m.register(0xF), 1);
    m.execute_with(0x6F03, 0);
    m.execute_with(0x8F06, 0); // shifting VF itself: VF holds the bit shifted out
    assert_eq!(m.register(0xF), 1);
    m.execute_with(0x6F80, 0);
    m.execute_with(0x8F0E, 0);
    assert_eq!(m.register(0xF), 1);
    m.execute_with(0x6F40, 0);
    m.execute_with(0x8F0E, 0);
    assert_eq!(m.register(0xF), 0);
}

#[test]
fn random_byte_is_masked() {
    let mut m = Machine::new();
    m.execute_with(0xC00F, 0x1234);
    assert_eq!(m.register(0), 0x04);
    for _ in 0..64 {
        m.execute(0xC10F);
        assert_eq!(m.register(1) & !0x0F, 0);
    }
    m.execute(0xC200);
    assert_eq!(m.register(2), 0);
}

fn lit(m: &Machine, x: usize, y: usize) -> bool {
    m.display[y * 64 + x]
}

#[test]
fn draw_font_digit_then_erase_it() {
    let mut m = Machine::new();
    m.execute_with(0xA000, 0); // I = sprite of digit 0
    m.execute_with(0xD015, 0); // draw at (V0, V1) = (0, 0)
    assert_eq!(m.register(0xF), 0);
    // Top row 0xF0: four pixels on.
    assert!(lit(&m, 0, 0) && lit(&m, 1, 0) && lit(&m, 2, 0) && lit(&m, 3, 0));
    assert!(!lit(&m, 4, 0));
    // Second row 0x90: pixels 0 and 3.
    assert!(lit(&m, 0, 1) && !lit(&m, 1, 1) && !lit(&m, 2, 1) && lit(&m, 3, 1));
    assert_eq!(m.display.iter().filter(|p| **p).count(), 14);
    m.execute_with(0xD015, 0);
    assert_eq!(m.register(0xF), 1);
    assert!(m.display.iter().all(|p| !p));
}

#[test]
fn draw_clips_at_the_right_and_bottom_edges() {
    let mut m = Machine::new();
    m.execute_with(0x603E, 0); // x = 62
    m.execute_with(0x611E, 0); // y = 30
    m.execute_with(0xA000, 0);
    m.execute_with(0xD015, 0);
    assert!(lit(&m, 62, 30) && lit(&m, 63, 30));
    assert!(lit(&m, 62, 31) && !lit(&m, 63, 31));
    assert_eq!(m.display.iter().filter(|p| **p).count(), 3);
}

#[test]
fn draw_position_wraps() {
    let mut m = Machine::new();
    m.execute_with(0x6041, 0); // x = 65 -> 1
    m.execute_with(0x6122, 0); // y = 34 -> 2
    m.execute_with(0xA000, 0);
    m.execute_with(0xD011, 0);
    assert!(lit(&m, 1, 2) && lit(&m, 4, 2) && !lit(&m, 0, 2) && !lit(&m, 5, 2));
}

#[test]
fn draw_reading_past_memory_is_refused() {
    let mut m = Machine::new();
    m.execute_with(0xAFFF, 0);
    assert!(m.can_execute(0xD001));
    assert!(!m.can_execute(0xD002));
    // Only the first row below the screen is read: at y = 31 a tall sprite reads two rows.
    m.execute_with(0x611F, 0);
    m.execute_with(0xAFFE, 0);
    assert!(m.can_execute(0xD01F));
    m.execute_with(0xAFFF, 0);
    assert!(!m.can_execute(0xD01F));
}

#[test]
fn clear_screen() {
    let mut m = Machine::new();
    m.execute_with(0xD015, 0);
    assert!(m.display.iter().any(|p| *p));
    m.execute_with(0x00E0, 0);
    assert!(m.display.iter().all(|p| !p));
}

#[test]
fn keys_and_key_skips() {
    let mut m = Machine::new();
    m.execute_with(0x6007, 0); // V0 = 7
    m.execute_with(0xE09E, 0); // key 7 up: no skip
    assert_eq!(m.pc(), 0x204);
    m.execute_with(0xE0A1, 0); // key 7 up: skip
    assert_eq!(m.pc(), 0x208);
    m.keydown(7);
    m.execute_with(0xE09E, 0);
    assert_eq!(m.pc(), 0x20C);
    m.keyup(7);
    m.execute_with(0xE09E, 0);
    assert_eq!(m.pc(), 0x20E);
    m.keydown(16); // ignored
    m.execute_with(0x6010, 0); // V0 = 16: names no key
    m.execute_with(0xE0A1, 0);
    assert_eq!(m.pc(), 0x212);
}

#[test]
fn wait_for_key_repeats_until_a_key_is_down() {
    let mut m = Machine::new();
    m.execute_with(0xF30A, 0);
    assert_eq!(m.pc(), 0x200);
    m.keydown(9);
    m.keydown(4);
    m.execute_with(0xF30A, 0);
    assert_eq!(m.register(3), 4);
    assert_eq!(m.pc(), 0x202);
}

#[test]
fn timers_count_down_to_zero() {
    let mut m = Machine::new();
    m.execute_with(0x6002, 0);
    m.execute_with(0xF015, 0);
    m.execute_with(0x6001, 0);
    m.execute_with(0xF018, 0);
    m.update_timers();
    assert_eq!(m.delay_timer(), 1);
    assert_eq!(m.sound_timer(), 0);
    m.update_timers();
    m.update_timers();
    assert_eq!(m.delay_timer(), 0);
    assert_eq!(m.sound_timer(), 0);
    m.execute_with(0xF107, 0);
    assert_eq!(m.register(1), 0);
}

#[test]
fn index_register_operations() {
    let mut m = Machine::new();
    m.execute_with(0x600A, 0);
    m.execute_with(0xF029, 0);
    assert_eq!(m.index_register(), 50);
    m.execute_with(0xAFFF, 0);
    m.execute_with(0x60FF, 0);
    m.execute_with(0xF01E, 0);
    assert_eq!(m.index_register(), 0x10FE);
}

#[test]
fn bcd_of_register() {
    let mut m = Machine::new();
    m.execute_with(0x65FE, 0); // V5 = 254
    m.execute_with(0xA300, 0);
    m.execute_with(0xF533, 0);
    assert_eq!(&m.memory()[0x300..0x303], &[2, 5, 4]);
    m.execute_with(0xAFFD, 0);
    assert!(m.can_execute(0xF533));
    m.execute_with(0xAFFE, 0);
    assert!(!m.can_execute(0xF533));
}

#[test]
fn store_and_load_registers() {
    let mut m = Machine::new();
    m.execute_with(0x6011, 0);
    m.execute_with(0x6122, 0);
    m.execute_with(0x6233, 0);
    m.execute_with(0x6344, 0);
    m.execute_with(0xA400, 0);
    m.execute_with(0xF255, 0);
    assert_eq!(&m.memory()[0x400..0x404], &[0x11, 0x22, 0x33, 0]);
    m.execute_with(0x6000, 0);
    m.execute_with(0x6100, 0);
    m.execute_with(0xF165, 0);
    assert_eq!(m.register(0), 0x11);
    assert_eq!(m.register(1), 0x22);
    assert_eq!(m.register(2), 0x33);
    assert_eq!(m.register(3), 0x44);
    m.execute_with(0xAFF1, 0);
    assert!(m.can_execute(0xFE55));
    assert!(!m.can_execute(0xFF65));
}

#[test]
fn keydown_twice_then_keyup_releases_the_key() {
    let mut m = Machine::new();
    m.execute_with(0x6005, 0); // V0 = 5
    m.keydown(5);
    m.keydown(5);
    m.execute_with(0xE09E, 0);
    assert_eq!(m.pc(), 0x206);
    m.keyup(5);
    m.execute_with(0xE0A1, 0);
    assert_eq!(m.pc(), 0x20A);
}

#[test]
fn redraw_of_an_empty_sprite_reports_no_collision() {
    let mut m = Machine::new();
    m.execute_with(0xA300, 0); // I points at zero bytes
    m.execute_with(0xD015, 0);
    m.execute_with(0xD015, 0);
    assert_eq!(m.register(0xF), 0);
    assert!(m.display.iter().all(|p| !p));
}

#[test]
fn set_then_read_delay_timer() {
    let mut m = Machine::new();
    m.execute_with(0x6342, 0);
    m.execute_with(0xF315, 0);
    m.execute_with(0xF707, 0);
    assert_eq!(m.delay_timer(), 0x42);
    assert_eq!(m.register(7), 0x42);
    assert_eq!(m.pc(), 0x206);
}
