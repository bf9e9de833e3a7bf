use chip8_core::emulator::{font_sprites, Emulator};
use chip8_core::input::map_key_char;
use chip8_core::instruction::Instruction;
use chip8_core::semantics::Chip8Error;
use chip8_core::timing::should_run;

#[test]
fn rom_bytes_land_at_the_load_address() {
    let mut emulator = Emulator::new();
    let rom: Vec<u8> = (0..132u32).map(|i| (i % 251) as u8).collect();

    emulator.load_rom(&rom).expect("failed to load ROM");

    for (offset, byte) in rom.iter().enumerate() {
        assert_eq!(emulator.memory_byte(0x200 + offset), *byte);
    }
    assert_eq!(emulator.get_program_counter(), 0x200);
}

#[test]
fn rom_of_maximum_size_is_accepted() {
    let mut emulator = Emulator::new();
    let rom: Vec<u8> = vec![0xAB; 4096 - 0x200];

    assert!(emulator.load_rom(&rom).is_ok());
    assert_eq!(emulator.memory_byte(0xFFF), 0xAB);
}

#[test]
fn rom_larger_than_memory_is_rejected() {
    let mut emulator = Emulator::new();
    let rom: Vec<u8> = vec![0xAB; 4096 - 0x200 + 1];

    assert_eq!(emulator.load_rom(&rom), Err(Chip8Error::RomTooLarge));
    // Nothing was written.
    assert_eq!(emulator.memory_byte(0x200), 0);
    assert_eq!(emulator.get_program_counter(), 0);
}

#[test]
fn font_survives_rom_load() {
    let mut emulator = Emulator::new();
    let rom: Vec<u8> = vec![0xFF; 4096 - 0x200];
    emulator.load_rom(&rom).expect("failed to load ROM");

    let font = font_sprites();
    for k in 0..80 {
        assert_eq!(emulator.memory_byte(0xF0 + k), font[k]);
    }
}

#[test]
fn add_sets_carry_flag_on_overflow() {
    let mut emulator = Emulator::new();
    emulator.set_register(0x1, 0xFF);
    emulator.set_register(0x2, 0x01);

    emulator
        .execute_instruction(Instruction::new([0x81, 0x24]))
        .expect("Failed to execute");

    assert_eq!(emulator.get_register(0x1), 0x00);
    assert_eq!(emulator.get_register(0xF), 1);

    emulator.set_register(0x1, 0x01);
    emulator.set_register(0x2, 0x01);
    emulator
        .execute_instruction(Instruction::new([0x81, 0x24]))
        .expect("Failed to execute");

    assert_eq!(emulator.get_register(0x1), 0x02);
    assert_eq!(emulator.get_register(0xF), 0);
}

#[test]
fn subtract_wraps_and_reports_borrow() {
    let mut emulator = Emulator::new();
    emulator.set_register(0x1, 0x05);
    emulator.set_register(0x2, 0x09);

    emulator
        .execute_instruction(Instruction::new([0x81, 0x25]))
        .expect("Failed to execute");

    assert_eq!(emulator.get_register(0x1), 0xFC);
    // VF = 0 signals that a borrow occurred.
    assert_eq!(emulator.get_register(0xF), 0);
}

#[test]
fn shift_right_reports_the_shifted_out_bit() {
    let mut emulator = Emulator::new();
    emulator.set_register(0x1, 0b1000_0001);

    emulator
        .execute_instruction(Instruction::new([0x81, 0x16]))
        .expect("Failed to execute");

    assert_eq!(emulator.get_register(0x1), 0b0100_0000);
    assert_eq!(emulator.get_register(0xF), 1);
}

#[test]
fn draw_wraps_and_reports_collision_on_the_second_pass() {
    let mut emulator = Emulator::new();
    // An 8x1 sprite with every bit set, stored at 0x300.
    emulator.set_memory_byte(0x300, 0xFF);
    emulator.set_index_register(0x300);
    emulator.set_register(0x0, 60);
    emulator.set_register(0x1, 0);

    emulator
        .execute_instruction(Instruction::new([0xD0, 0x11]))
        .expect("Failed to execute");
    let display = emulator.get_display_buffer();
    for col in 0..8usize {
        assert!(display[(60 + col) % 64]);
    }
    assert_eq!(emulator.get_register(0xF), 0);

    emulator
        .execute_instruction(Instruction::new([0xD0, 0x11]))
        .expect("Failed to execute");
    let display = emulator.get_display_buffer();
    for col in 0..8usize {
        assert!(!display[(60 + col) % 64]);
    }
    // Every touched pixel was already set and got cleared.
    assert_eq!(emulator.get_register(0xF), 1);
}

#[test]
fn call_and_return_round_trip_through_the_stack() {
    let mut emulator = Emulator::new();
    emulator.set_program_counter(0x200);

    emulator
        .execute_instruction(Instruction::new([0x2A, 0xBC]))
        .expect("Failed to execute");
    assert_eq!(emulator.get_program_counter(), 0xABC);
    assert_eq!(emulator.stack_peek(), Some(0x200));

    emulator
        .execute_instruction(Instruction::new([0x00, 0xEE]))
        .expect("Failed to execute");
    assert_eq!(emulator.get_program_counter(), 0x200);
    assert_eq!(emulator.stack_size(), 0);
}

#[test]
fn skip_advances_by_an_extra_two_exactly_when_equal() {
    // One whole cycle: fetch advances by two, the skip adds two more only
    // when the register equals the immediate.
    let mut emulator = Emulator::new();
    emulator.set_program_counter(0x200);
    emulator.set_memory_byte(0x200, 0x3A);
    emulator.set_memory_byte(0x201, 0xBC);
    emulator.set_register(0xA, 0xBC);

    let instruction = emulator.fetch_instruction().expect("Did not fetch");
    emulator.set_program_counter(0x202);
    emulator
        .execute_instruction(instruction)
        .expect("Failed to execute");
    assert_eq!(emulator.get_program_counter(), 0x204);

    let mut emulator = Emulator::new();
    emulator.set_program_counter(0x200);
    emulator.set_memory_byte(0x200, 0x3A);
    emulator.set_memory_byte(0x201, 0xBC);
    emulator.set_register(0xA, 0xB0);

    let instruction = emulator.fetch_instruction().expect("Did not fetch");
    emulator.set_program_counter(0x202);
    emulator
        .execute_instruction(instruction)
        .expect("Failed to execute");
    assert_eq!(emulator.get_program_counter(), 0x202);
}

#[test]
fn timers_never_underflow() {
    let mut emulator = Emulator::new();
    emulator.set_delay_timer(1);
    emulator.set_sound_timer(2);

    for _ in 0..5 {
        emulator.handle_timers();
    }

    assert_eq!(emulator.get_delay_timer(), 0);
    assert_eq!(emulator.get_sound_timer(), 0);
}

#[test]
fn return_on_empty_stack_is_a_stack_underflow() {
    let mut emulator = Emulator::new();
    let result = emulator.execute_instruction(Instruction::new([0x00, 0xEE]));
    assert_eq!(result, Err(Chip8Error::StackUnderflow));
}

#[test]
fn draw_past_the_end_of_memory_is_rejected() {
    let mut emulator = Emulator::new();
    emulator.set_index_register(0xFFA);
    let result = emulator.execute_instruction(Instruction::new([0xD0, 0x0F]));
    assert_eq!(result, Err(Chip8Error::MemoryOutOfRange));
}

#[test]
fn store_past_the_end_of_memory_is_rejected() {
    let mut emulator = Emulator::new();
    emulator.set_index_register(0xFFA);
    let result = emulator.execute_instruction(Instruction::new([0xFF, 0x55]));
    assert_eq!(result, Err(Chip8Error::MemoryOutOfRange));
}

#[test]
fn fetch_at_the_end_of_memory_is_rejected() {
    let mut emulator = Emulator::new();
    emulator.set_program_counter(0xFFF);
    match emulator.fetch_instruction() {
        Err(e) => assert_eq!(e, Chip8Error::ProgramCounterOutOfRange),
        Ok(_) => panic!("fetch past the end of memory succeeded"),
    }
}

#[test]
fn execute_and_fetch_runs_a_batch_of_eight() {
    let mut emulator = Emulator::new();
    // A ROM of eight register-set instructions: V0=1, V1=2, ..., V7=8.
    let mut rom: Vec<u8> = Vec::new();
    for i in 0..8u8 {
        rom.push(0x60 + i);
        rom.push(i + 1);
    }
    emulator.load_rom(&rom).expect("failed to load ROM");

    emulator.execute_and_fetch().expect("Failed to execute");

    for i in 0..8u8 {
        assert_eq!(emulator.get_register(i), i + 1);
    }
    assert_eq!(emulator.get_program_counter(), 0x200 + 16);
}

#[test]
fn execute_and_fetch_stops_at_a_fatal_error() {
    let mut emulator = Emulator::new();
    // Return with an empty stack as the very first instruction.
    let rom: Vec<u8> = vec![0x00, 0xEE];
    emulator.load_rom(&rom).expect("failed to load ROM");

    let result = emulator.execute_and_fetch();
    assert_eq!(result, Err(Chip8Error::StackUnderflow));
    // The program counter stopped just past the failing instruction.
    assert_eq!(emulator.get_program_counter(), 0x202);
}

#[test]
fn unknown_opcode_is_a_no_op() {
    let mut emulator = Emulator::new();
    emulator.set_program_counter(0x200);
    emulator
        .execute_instruction(Instruction::new([0x0A, 0xBC]))
        .expect("Failed to execute");
    assert_eq!(emulator.get_program_counter(), 0x200);
    for i in 0..=0xF {
        assert_eq!(emulator.get_register(i), 0);
    }
}

#[test]
fn handle_input_records_masks_and_clears_keys() {
    let mut emulator = Emulator::new();

    assert!(!emulator.handle_input(Some(0x12)));
    emulator.set_program_counter(0x10);
    emulator
        .execute_instruction(Instruction::new([0xFA, 0x0A]))
        .expect("Failed to execute");
    // The low nibble of 0x12 was recorded.
    assert_eq!(emulator.get_register(0xA), 0x2);

    assert!(!emulator.handle_input(None));
    emulator
        .execute_instruction(Instruction::new([0xFA, 0x0A]))
        .expect("Failed to execute");
    // No key recorded: the program counter was rewound by two.
    assert_eq!(emulator.get_program_counter(), 0x10 - 2);

    // The sentinel only signals a quit request.
    assert!(emulator.handle_input(Some(0xFF)));
}

#[test]
fn font_character_points_at_each_glyph() {
    let mut emulator = Emulator::new();
    for key in 0..=0xFu8 {
        emulator.set_register(0x0, key);
        emulator
            .execute_instruction(Instruction::new([0xF0, 0x29]))
            .expect("Failed to execute");
        assert_eq!(emulator.get_index_register(), 0xF0 + key as u16 * 5);
    }
}

#[test]
fn bcd_decomposes_hundreds_tens_and_units() {
    let mut emulator = Emulator::new();
    emulator.set_index_register(0x400);
    emulator.set_register(0x3, 207);
    emulator
        .execute_instruction(Instruction::new([0xF3, 0x33]))
        .expect("Failed to execute");
    assert_eq!(emulator.memory_byte(0x400), 2);
    assert_eq!(emulator.memory_byte(0x401), 0);
    assert_eq!(emulator.memory_byte(0x402), 7);
}

#[test]
fn key_characters_map_to_the_conventional_pad() {
    assert_eq!(map_key_char('1'), Some(1));
    assert_eq!(map_key_char('4'), Some(0xC));
    assert_eq!(map_key_char('q'), Some(4));
    assert_eq!(map_key_char('r'), Some(0xD));
    assert_eq!(map_key_char('f'), Some(0xE));
    assert_eq!(map_key_char('x'), Some(0));
    assert_eq!(map_key_char('v'), Some(0xF));
    assert_eq!(map_key_char('k'), None);
}

#[test]
fn should_run_declines_on_the_first_call_and_fires_later() {
    let mut last_tick_time = None;
    assert!(!should_run(&mut last_tick_time));
    assert!(last_tick_time.is_some());

    let mut spins: u64 = 0;
    loop {
        if should_run(&mut last_tick_time) {
            break;
        }
        spins += 1;
        assert!(spins < 100_000_000_000, "the tick never became due");
    }
}

#[test]
fn tick_decrements_timers_once_due() {
    let mut emulator = Emulator::new();
    emulator.set_delay_timer(10);
    emulator.set_sound_timer(4);

    // The first call only records the current instant.
    assert!(!emulator.tick());
    assert_eq!(emulator.get_delay_timer(), 10);

    let mut spins: u64 = 0;
    loop {
        if emulator.tick() {
            break;
        }
        spins += 1;
        assert!(spins < 100_000_000_000, "the tick never became due");
    }
    assert_eq!(emulator.get_delay_timer(), 9);
    assert_eq!(emulator.get_sound_timer(), 3);
}
