use chip8_core::emulator::{font_sprites, Emulator};
use chip8_core::instruction::Instruction;
use rand::Rng;

#[test]
fn test_load_font_data() {
    let emulator = Emulator::new();
    let font = font_sprites();
    for k in 0..80 {
        assert_eq!(emulator.memory_byte(0xf0 + k), font[k]);
    }
}

#[test]
fn emulator_test_load_font_data() {
    let emulator = Emulator::new();
    let font = font_sprites();
    for k in 0..80 {
        assert_eq!(emulator.memory_byte(0xf0 + k), font[k]);
    }
}

#[test]
fn test_execute_clear_screen_instruction() {
    // Setup
    let mut emulator = Emulator::new();
    for i in 10..30 {
        emulator.set_pixel(i, true);
    }

    // Test
    emulator
        .execute_instruction(Instruction::new([0x00, 0xE0]))
        .expect("Failed to execute");

    // Assert
    assert!(emulator
        .get_display_buffer()
        .iter()
        .all(|&pixel| { pixel == false }))
}

#[test]
fn test_execute_jump() {
    let mut emulator = Emulator::new();

    emulator
        .execute_instruction(Instruction::new([0x1A, 0xBC]))
        .expect("Failed to execute");

    assert_eq!(emulator.get_program_counter(), 0xABC)
}

#[test]
fn test_execute_set_register() {
    let mut emulator = Emulator::new();

    for i in 0x0..=0xF {
        let random_data: u8 = rand::thread_rng().gen_range(0x00..0xFF);
        emulator
            .execute_instruction(Instruction::new([0x60 + i, random_data]))
            .expect("Failed to execute");
        assert_eq!(emulator.get_register(i), random_data)
    }
}

#[test]
fn test_execute_add_value_to_register() {
    let mut emulator = Emulator::new();

    emulator
        .execute_instruction(Instruction::new([0x71, 0xCC]))
        .expect("Failed to execute");
    emulator
        .execute_instruction(Instruction::new([0x75, 0xCC]))
        .expect("Failed to execute");

    assert_eq!(emulator.get_register(1), 0xCC);
    assert_eq!(emulator.get_register(5), 0xCC);

    emulator
        .execute_instruction(Instruction::new([0x75, 0xCC]))
        .expect("Failed to execute");
    assert_eq!(emulator.get_register(5), 0x98);
}

#[test]
fn test_execute_set_index_register() {
    let mut emulator = Emulator::new();

    emulator
        .execute_instruction(Instruction::new([0xAA, 0xBC]))
        .expect("Failed to execute");

    assert_eq!(emulator.get_index_register(), 0xABC);
}

#[test]
fn test_execute_draw() {
    let mut emulator = Emulator::new();
    emulator.set_index_register(0xF0);

    emulator
        .execute_instruction(Instruction::new([0xD0, 0x01]))
        .expect("Failed to execute");

    let display = emulator.get_display_buffer();
    assert_eq!(
        display[0..=5],
        [true, true, true, true, false, false]
    )
}

#[test]
fn test_execute_call() {
    let mut emulator = Emulator::new();
    emulator.set_program_counter(0x200);

    emulator
        .execute_instruction(Instruction::new([0x2A, 0xBC]))
        .expect("Failed to execute");

    assert_eq!(emulator.get_program_counter(), 0xABC);
    assert_eq!(emulator.stack_peek().unwrap(), 0x200);
}

#[test]
fn test_execute_return() {
    let mut emulator = Emulator::new();
    emulator.stack_push(0x269);

    emulator
        .execute_instruction(Instruction::new([0x00, 0xEE]))
        .expect("Failed to execute");

    assert_eq!(emulator.get_program_counter(), 0x269);
}

#[test]
fn test_execute_set() {
    let mut emulator = Emulator::new();

    emulator
        .execute_instruction(Instruction::new([0x61, 0x40]))
        .expect("Failed to execute");

    assert_eq!(emulator.get_register(1), 0x40);
}

#[test]
fn test_execute_binary_or() {
    let mut emulator = Emulator::new();
    emulator.set_register(0x1, 0x6);
    emulator.set_register(0xF, 0x9);

    emulator
        .execute_instruction(Instruction::new([0x81, 0xF1]))
        .expect("Failed to execute");

    assert_eq!(emulator.get_register(0x1), 0xF);
}

#[test]
fn test_execute_binary_and() {
    let mut emulator = Emulator::new();
    emulator.set_register(0x1, 0x6);
    emulator.set_register(0xF, 0x9);

    emulator
        .execute_instruction(Instruction::new([0x81, 0xF2]))
        .expect("Failed to execute");

    assert_eq!(emulator.get_register(0x1), 0x0);
}

#[test]
fn test_execute_logical_xor() {
    let mut emulator = Emulator::new();
    emulator.set_register(0x1, 0x7);
    emulator.set_register(0xF, 0x9);

    emulator
        .execute_instruction(Instruction::new([0x81, 0xF3]))
        .expect("Failed to execute");

    assert_eq!(emulator.get_register(0x1), 0xE);
}

#[test]
fn test_execute_logical_add() {
    let mut emulator = Emulator::new();
    emulator.set_register(0x1, 0x7);
    emulator.set_register(0xF, 0x9);

    emulator
        .execute_instruction(Instruction::new([0x81, 0xF4]))
        .expect("Failed to execute");

    assert_eq!(emulator.get_register(0x1), 0x10);
}

#[test]
fn test_execute_logical_subtract_vx() {
    let mut emulator = Emulator::new();
    emulator.set_register(0x1, 0x7);
    emulator.set_register(0xE, 0x9);

    emulator
        .execute_instruction(Instruction::new([0x81, 0xE5]))
        .expect("Failed to execute");

    assert_eq!(emulator.get_register(0x1), 0xFE);
}

#[test]
fn test_execute_logical_subtract_vy() {
    let mut emulator = Emulator::new();
    emulator.set_register(0x1, 0x7);
    emulator.set_register(0xF, 0x9);

    emulator
        .execute_instruction(Instruction::new([0x81, 0xF7]))
        .expect("Failed to execute");

    assert_eq!(emulator.get_register(0x1), 0xFA);
}

#[test]
fn test_execute_logical_shift_left() {
    let mut emulator = Emulator::new();
    emulator.set_register(0x1, 0x7);
    emulator.set_register(0x2, 0x9);

    emulator
        .execute_instruction(Instruction::new([0x81, 0x2E]))
        .expect("Failed to execute");

    assert_eq!(emulator.get_register(0x1), 0xE);
}

#[test]
fn test_execute_logical_shift_right() {
    let mut emulator = Emulator::new();
    emulator.set_register(0x1, 0x7);
    emulator.set_register(0x2, 0x9);

    emulator
        .execute_instruction(Instruction::new([0x81, 0x26]))
        .expect("Failed to execute");

    assert_eq!(emulator.get_register(0x1), 0x3);
}

#[test]
fn test_execute_jump_with_offset() {
    let mut emulator = Emulator::new();
    emulator.set_register(0x0, 0x2);

    emulator
        .execute_instruction(Instruction::new([0xBA, 0xBC]))
        .expect("Failed to execute");

    assert_eq!(emulator.get_program_counter(), 0xABE);
}

#[test]
fn test_execute_random_number() {
    let mut emulator = Emulator::new();

    emulator
        .execute_instruction(Instruction::new([0xCA, 0xBC]))
        .expect("Failed to execute");

    assert!(emulator.get_register(0xA) <= 0xBC)
}

#[test]
fn test_execute_skip_equal_vx_data() {
    let mut emulator = Emulator::new();
    emulator.set_register(0xA, 0xBC);

    emulator
        .execute_instruction(Instruction::new([0x3A, 0xBC]))
        .expect("Failed to execute");

    assert_eq!(emulator.get_program_counter(), 2);
}

#[test]
fn test_execute_skip_not_equal_vx_data() {
    let mut emulator = Emulator::new();
    emulator.set_register(0xA, 0xB1);

    emulator
        .execute_instruction(Instruction::new([0x4A, 0xBC]))
        .expect("Failed to execute");

    assert_eq!(emulator.get_program_counter(), 2);
}

#[test]
fn test_execute_skip_equal_vx_vy() {
    let mut emulator = Emulator::new();
    emulator.set_register(0xA, 0xBC);
    emulator.set_register(0xB, 0xBC);

    emulator
        .execute_instruction(Instruction::new([0x5A, 0xB0]))
        .expect("Failed to execute");

    assert_eq!(emulator.get_program_counter(), 2);
}

#[test]
fn test_execute_skip_not_equal_vx_vy() {
    let mut emulator = Emulator::new();
    emulator.set_register(0xA, 0xBD);
    emulator.set_register(0xB, 0xBC);

    emulator
        .execute_instruction(Instruction::new([0x9A, 0xB0]))
        .expect("Failed to execute");

    assert_eq!(emulator.get_program_counter(), 2);
}

#[test]
fn test_execute_set_vx_to_delay_timer() {
    let mut emulator = Emulator::new();
    emulator.set_delay_timer(0xEE);

    emulator
        .execute_instruction(Instruction::new([0xFA, 0x07]))
        .expect("Failed to execute");

    assert_eq!(emulator.get_register(0xA), 0xEE);
}

#[test]
fn test_execute_set_delay_timer() {
    let mut emulator = Emulator::new();
    emulator.set_register(0xA, 0xEE);

    emulator
        .execute_instruction(Instruction::new([0xFA, 0x15]))
        .expect("Failed to execute");

    assert_eq!(emulator.get_delay_timer(), 0xEE);
}

#[test]
fn test_execute_set_sound_timer() {
    let mut emulator = Emulator::new();
    emulator.set_register(0xA, 0xEE);

    emulator
        .execute_instruction(Instruction::new([0xFA, 0x18]))
        .expect("Failed to execute");

    assert_eq!(emulator.get_sound_timer(), 0xEE);
}

#[test]
fn test_execute_add_to_index() {
    let mut emulator = Emulator::new();
    emulator.set_register(0xA, 0xEE);

    emulator
        .execute_instruction(Instruction::new([0xFA, 0x1E]))
        .expect("Failed to execute");

    assert_eq!(emulator.get_index_register(), 0xEE);
}

#[test]
fn test_execute_get_font_character() {
    let mut emulator = Emulator::new();
    emulator.set_register(0xA, 0xEE);

    emulator
        .execute_instruction(Instruction::new([0xFA, 0x29]))
        .expect("Failed to execute");

    assert_eq!(emulator.get_index_register(), 0x136);
}

#[test]
fn test_execute_bcd_convert() {
    let mut emulator = Emulator::new();
    emulator.set_register(0xA, 0xFE);

    emulator
        .execute_instruction(Instruction::new([0xFA, 0x33]))
        .expect("Failed to execute");

    let base = emulator.get_index_register() as usize;
    assert_eq!(emulator.memory_byte(base), 2);
    assert_eq!(emulator.memory_byte(base + 1), 5);
    assert_eq!(emulator.memory_byte(base + 2), 4);
}

#[test]
fn test_execute_store_memory() {
    let mut emulator = Emulator::new();
    emulator.set_index_register(0x20);
    for i in 0..0xF {
        emulator.set_register(i, 0xF + i);
    }

    emulator
        .execute_instruction(Instruction::new([0xFF, 0x55]))
        .expect("Failed to execute");

    for i in 0..0xF {
        assert_eq!(
            emulator.memory_byte(emulator.get_index_register() as usize + i),
            (0xF + i) as u8
        );
    }
}

#[test]
fn test_execute_load_memory() {
    let mut emulator = Emulator::new();
    emulator.set_index_register(0x20);
    for i in 0..0xF {
        emulator.set_memory_byte(0x20 + i, (0xF + i) as u8);
    }

    emulator
        .execute_instruction(Instruction::new([0xFF, 0x65]))
        .expect("Failed to execute");

    for i in 0..0xF {
        assert_eq!(emulator.get_register(i), 0xF + i);
    }
}

#[test]
fn test_execute_get_key_blocking() {
    let mut emulator = Emulator::new();
    emulator.set_program_counter(0x10);

    emulator
        .execute_instruction(Instruction::new([0xFE, 0x0A]))
        .expect("Failed to execute");
    assert_eq!(emulator.get_program_counter(), 0xE);

    emulator.set_last_key_pressed(Some(0x1));
    emulator
        .execute_instruction(Instruction::new([0xFA, 0x0A]))
        .expect("Failed to execute");
    assert_eq!(emulator.get_program_counter(), 0xE);
    assert_eq!(emulator.get_register(0xA), 0x1);
}

#[test]
fn test_execute_skip_key_pressed() {
    let mut emulator = Emulator::new();
    emulator.set_program_counter(0);
    emulator.set_register(0xA, 0x1);

    emulator
        .execute_instruction(Instruction::new([0xEA, 0x9E]))
        .expect("Failed to execute");
    assert_eq!(emulator.get_program_counter(), 0);

    emulator.set_last_key_pressed(Some(0x1));
    emulator
        .execute_instruction(Instruction::new([0xEA, 0x9E]))
        .expect("Failed to execute");
    assert_eq!(emulator.get_program_counter(), 2);
}

#[test]
fn test_execute_skip_key_not_pressed() {
    let mut emulator = Emulator::new();
    emulator.set_program_counter(0);
    emulator.set_register(0xA, 0x1);

    emulator
        .execute_instruction(Instruction::new([0xEA, 0xA1]))
        .expect("Failed to execute");
    assert_eq!(emulator.get_program_counter(), 2);

    emulator.set_last_key_pressed(Some(0x1));
    emulator
        .execute_instruction(Instruction::new([0xEA, 0xA1]))
        .expect("Failed to execute");
    assert_eq!(emulator.get_program_counter(), 2);
}

#[test]
fn test_execute_set_vx_to_vy() {
    let mut emulator = Emulator::new();
    emulator.set_register(0xA, 0);
    emulator.set_register(0xB, 0xEF);

    emulator
        .execute_instruction(Instruction::new([0x8A, 0xB0]))
        .expect("Failed to execute");

    assert_eq!(emulator.get_register(0xA), 0xEF);
}

#[test]
fn test_fetch_instruction() {
    let mut emulator = Emulator::new();
    emulator.set_program_counter(0x200);
    emulator.set_memory_byte(0x200, 0x00);
    emulator.set_memory_byte(0x201, 0xEE);

    let instruction = emulator.fetch_instruction();
    match instruction {
        Ok(instruction) => {
            assert_eq!(instruction, 0x00EE);
        }
        Err(_) => {
            assert!(false, "Did not fetch");
        }
    }
}

#[test]
fn test_handle_timers() {
    let mut emulator = Emulator::new();
    emulator.set_sound_timer(10);
    emulator.set_delay_timer(12);

    emulator.handle_timers();

    assert_eq!(emulator.get_sound_timer(), 9);
    assert_eq!(emulator.get_delay_timer(), 11);
}

#[test]
fn test_handle_timers_beep() {
    // Given
    let mut emulator = Emulator::new();

    // Then
    emulator.set_sound_timer(0);
    emulator.handle_timers();
    assert_eq!(emulator.should_beep(), false);

    emulator.set_sound_timer(10);
    emulator.handle_timers();
    assert_eq!(emulator.should_beep(), true);
}
