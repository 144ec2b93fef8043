use chip8_core::cpu::Cpu;
use chip8_core::display::Display;
use chip8_core::error::Chip8Error;
use chip8_core::keyboard::Keyboard;
use chip8_core::memory::Memory;

#[test]
fn test_cpu_new_pc_starts_at_0x200() {
    let cpu = Cpu::new();
    assert_eq!(cpu.pc, 0x200);
}

#[test]
fn test_cpu_new_registers_are_zero() {
    let cpu = Cpu::new();
    for i in 0..16 {
        assert_eq!(cpu.v[i], 0, "V{:X} should be 0", i);
    }
    assert_eq!(cpu.i, 0);
    assert_eq!(cpu.sp, 0);
}

#[test]
fn test_cpu_new_stack_is_zero() {
    let cpu = Cpu::new();
    for i in 0..16 {
        assert_eq!(cpu.stack[i], 0);
    }
}

#[test]
fn test_cpu_new_timers_are_zero() {
    let cpu = Cpu::new();
    assert_eq!(cpu.delay_timer, 0);
    assert_eq!(cpu.sound_timer, 0);
}

#[test]
fn test_tick_timers_decrements_delay() {
    let mut cpu = Cpu::new();
    cpu.delay_timer = 10;
    cpu.tick_timers();
    assert_eq!(cpu.delay_timer, 9);
}

#[test]
fn test_tick_timers_decrements_sound() {
    let mut cpu = Cpu::new();
    cpu.sound_timer = 5;
    cpu.tick_timers();
    assert_eq!(cpu.sound_timer, 4);
}

#[test]
fn test_tick_timers_stops_at_zero() {
    let mut cpu = Cpu::new();
    cpu.delay_timer = 0;
    cpu.sound_timer = 0;
    cpu.tick_timers();
    assert_eq!(cpu.delay_timer, 0, "delay_timer should not underflow");
    assert_eq!(cpu.sound_timer, 0, "sound_timer should not underflow");
}

#[test]
fn test_tick_timers_both_decrement() {
    let mut cpu = Cpu::new();
    cpu.delay_timer = 3;
    cpu.sound_timer = 7;
    cpu.tick_timers();
    assert_eq!(cpu.delay_timer, 2);
    assert_eq!(cpu.sound_timer, 6);
}

#[test]
fn test_fetch_reads_two_bytes() {
    let mut cpu = Cpu::new();
    let mut memory = Memory::new();
    
    // Write opcode 0x61FF at 0x200 (LD V1, 0xFF)
    memory.write(0x200, 0x61).unwrap();
    memory.write(0x201, 0xFF).unwrap();
    
    let opcode = cpu.fetch(&memory);
    assert_eq!(opcode, 0x61FF);
}

#[test]
fn test_fetch_increments_pc() {
    let mut cpu = Cpu::new();
    let memory = Memory::new();
    
    assert_eq!(cpu.pc, 0x200);
    cpu.fetch(&memory);
    assert_eq!(cpu.pc, 0x202);
}

#[test]
fn test_fetch_combines_bytes_correctly() {
    let mut cpu = Cpu::new();
    let mut memory = Memory::new();
    
    // Test big-endian byte order
    memory.write(0x200, 0xA2).unwrap(); // High byte
    memory.write(0x201, 0x3C).unwrap(); // Low byte
    
    let opcode = cpu.fetch(&memory);
    assert_eq!(opcode, 0xA23C); // Should be combined as (0xA2 << 8) | 0x3C
}

// === Execute Tests ===

#[test]
fn test_opcode_00e0_cls() {
    let mut cpu = Cpu::new();
    let mut memory = Memory::new();
    let mut display = Display::new();
    let keyboard = Keyboard::new();

    // Set some pixels
    display.set_pixel(10, 10, true);
    display.set_pixel(20, 20, true);
    assert!(display.get_pixel(10, 10));

    // Execute CLS
    cpu.execute(0x00E0, &mut memory, &mut display, &keyboard).unwrap();

    // All pixels should be cleared
    assert!(!display.get_pixel(10, 10));
    assert!(!display.get_pixel(20, 20));
}

#[test]
fn test_opcode_6xkk_ld_vx_byte() {
    let mut cpu = Cpu::new();
    let mut memory = Memory::new();
    let mut display = Display::new();
    let keyboard = Keyboard::new();

    // 6522 - LD V5, 0x22
    cpu.execute(0x6522, &mut memory, &mut display, &keyboard).unwrap();
    assert_eq!(cpu.v[5], 0x22);

    // 6AFF - LD VA, 0xFF
    cpu.execute(0x6AFF, &mut memory, &mut display, &keyboard).unwrap();
    assert_eq!(cpu.v[0xA], 0xFF);
}

#[test]
fn test_opcode_7xkk_add_vx_byte() {
    let mut cpu = Cpu::new();
    let mut memory = Memory::new();
    let mut display = Display::new();
    let keyboard = Keyboard::new();

    cpu.v[3] = 10;
    // 7305 - ADD V3, 0x05
    cpu.execute(0x7305, &mut memory, &mut display, &keyboard).unwrap();
    assert_eq!(cpu.v[3], 15);
}

#[test]
fn test_opcode_7xkk_add_wraps() {
    let mut cpu = Cpu::new();
    let mut memory = Memory::new();
    let mut display = Display::new();
    let keyboard = Keyboard::new();

    cpu.v[2] = 0xFF;
    // 7202 - ADD V2, 0x02 (should wrap: 0xFF + 0x02 = 0x01)
    cpu.execute(0x7202, &mut memory, &mut display, &keyboard).unwrap();
    assert_eq!(cpu.v[2], 0x01);
}

#[test]
fn test_opcode_annn_ld_i_addr() {
    let mut cpu = Cpu::new();
    let mut memory = Memory::new();
    let mut display = Display::new();
    let keyboard = Keyboard::new();

    // A23C - LD I, 0x23C
    cpu.execute(0xA23C, &mut memory, &mut display, &keyboard).unwrap();
    assert_eq!(cpu.i, 0x23C);

    // AFFF - LD I, 0xFFF
    cpu.execute(0xAFFF, &mut memory, &mut display, &keyboard).unwrap();
    assert_eq!(cpu.i, 0xFFF);
}

#[test]
fn test_opcode_1nnn_jp_addr() {
    let mut cpu = Cpu::new();
    let mut memory = Memory::new();
    let mut display = Display::new();
    let keyboard = Keyboard::new();

    // 1ABC - JP 0xABC
    cpu.execute(0x1ABC, &mut memory, &mut display, &keyboard).unwrap();
    assert_eq!(cpu.pc, 0xABC);
}

#[test]
fn test_opcode_3xkk_se_vx_byte_equal() {
    let mut cpu = Cpu::new();
    let mut memory = Memory::new();
    let mut display = Display::new();
    let keyboard = Keyboard::new();

    cpu.v[5] = 0x42;
    cpu.pc = 0x200;

    // 3542 - SE V5, 0x42 (should skip)
    cpu.execute(0x3542, &mut memory, &mut display, &keyboard).unwrap();
    assert_eq!(cpu.pc, 0x202); // PC incremented by 2
}

#[test]
fn test_opcode_3xkk_se_vx_byte_not_equal() {
    let mut cpu = Cpu::new();
    let mut memory = Memory::new();
    let mut display = Display::new();
    let keyboard = Keyboard::new();

    cpu.v[5] = 0x42;
    cpu.pc = 0x200;

    // 3543 - SE V5, 0x43 (should not skip)
    cpu.execute(0x3543, &mut memory, &mut display, &keyboard).unwrap();
    assert_eq!(cpu.pc, 0x200); // PC unchanged
}

#[test]
fn test_opcode_4xkk_sne_vx_byte_not_equal() {
    let mut cpu = Cpu::new();
    let mut memory = Memory::new();
    let mut display = Display::new();
    let keyboard = Keyboard::new();

    cpu.v[3] = 0x10;
    cpu.pc = 0x300;

    // 4320 - SNE V3, 0x20 (should skip because 0x10 != 0x20)
    cpu.execute(0x4320, &mut memory, &mut display, &keyboard).unwrap();
    assert_eq!(cpu.pc, 0x302);
}

#[test]
fn test_opcode_4xkk_sne_vx_byte_equal() {
    let mut cpu = Cpu::new();
    let mut memory = Memory::new();
    let mut display = Display::new();
    let keyboard = Keyboard::new();

    cpu.v[3] = 0x20;
    cpu.pc = 0x300;

    // 4320 - SNE V3, 0x20 (should not skip because equal)
    cpu.execute(0x4320, &mut memory, &mut display, &keyboard).unwrap();
    assert_eq!(cpu.pc, 0x300); // Unchanged
}

#[test]
fn test_opcode_8xy0_ld_vx_vy() {
    let mut cpu = Cpu::new();
    let mut memory = Memory::new();
    let mut display = Display::new();
    let keyboard = Keyboard::new();

    cpu.v[3] = 0xAA;
    cpu.v[7] = 0x55;

    // 8370 - LD V3, V7
    cpu.execute(0x8370, &mut memory, &mut display, &keyboard).unwrap();
    assert_eq!(cpu.v[3], 0x55);
    assert_eq!(cpu.v[7], 0x55); // V7 unchanged
}

#[test]
fn test_opcode_8xy1_or_vx_vy() {
    let mut cpu = Cpu::new();
    let mut memory = Memory::new();
    let mut display = Display::new();
    let keyboard = Keyboard::new();

    cpu.v[2] = 0b10101010;
    cpu.v[5] = 0b01010101;

    // 8251 - OR V2, V5
    cpu.execute(0x8251, &mut memory, &mut display, &keyboard).unwrap();
    assert_eq!(cpu.v[2], 0b11111111);
}

#[test]
fn test_opcode_8xy2_and_vx_vy() {
    let mut cpu = Cpu::new();
    let mut memory = Memory::new();
    let mut display = Display::new();
    let keyboard = Keyboard::new();

    cpu.v[4] = 0b11110000;
    cpu.v[6] = 0b10101010;

    // 8462 - AND V4, V6
    cpu.execute(0x8462, &mut memory, &mut display, &keyboard).unwrap();
    assert_eq!(cpu.v[4], 0b10100000);
}

#[test]
fn test_opcode_8xy3_xor_vx_vy() {
    let mut cpu = Cpu::new();
    let mut memory = Memory::new();
    let mut display = Display::new();
    let keyboard = Keyboard::new();

    cpu.v[1] = 0b11110000;
    cpu.v[3] = 0b10101010;

    // 8133 - XOR V1, V3
    cpu.execute(0x8133, &mut memory, &mut display, &keyboard).unwrap();
    assert_eq!(cpu.v[1], 0b01011010);
}

#[test]
fn test_opcode_8xy4_add_vx_vy_no_carry() {
    let mut cpu = Cpu::new();
    let mut memory = Memory::new();
    let mut display = Display::new();
    let keyboard = Keyboard::new();

    cpu.v[2] = 10;
    cpu.v[3] = 20;

    // 8234 - ADD V2, V3
    cpu.execute(0x8234, &mut memory, &mut display, &keyboard).unwrap();
    assert_eq!(cpu.v[2], 30);
    assert_eq!(cpu.v[0xF], 0); // No carry
}

#[test]
fn test_opcode_8xy4_add_vx_vy_with_carry() {
    let mut cpu = Cpu::new();
    let mut memory = Memory::new();
    let mut display = Display::new();
    let keyboard = Keyboard::new();

    cpu.v[5] = 200;
    cpu.v[7] = 100;

    // 8574 - ADD V5, V7 (200 + 100 = 300, wraps to 44)
    cpu.execute(0x8574, &mut memory, &mut display, &keyboard).unwrap();
    assert_eq!(cpu.v[5], 44); // 300 & 0xFF = 44
    assert_eq!(cpu.v[0xF], 1); // Carry set
}

#[test]
fn test_opcode_8xy5_sub_vx_vy_no_borrow() {
    let mut cpu = Cpu::new();
    let mut memory = Memory::new();
    let mut display = Display::new();
    let keyboard = Keyboard::new();

    cpu.v[3] = 50;
    cpu.v[4] = 20;

    // 8345 - SUB V3, V4
    cpu.execute(0x8345, &mut memory, &mut display, &keyboard).unwrap();
    assert_eq!(cpu.v[3], 30);
    assert_eq!(cpu.v[0xF], 1); // NOT borrow (Vx > Vy)
}

#[test]
fn test_opcode_8xy5_sub_vx_vy_with_borrow() {
    let mut cpu = Cpu::new();
    let mut memory = Memory::new();
    let mut display = Display::new();
    let keyboard = Keyboard::new();

    cpu.v[2] = 10;
    cpu.v[5] = 20;

    // 8255 - SUB V2, V5 (10 - 20 = -10, wraps to 246)
    cpu.execute(0x8255, &mut memory, &mut display, &keyboard).unwrap();
    assert_eq!(cpu.v[2], 246); // wrapping_sub
    assert_eq!(cpu.v[0xF], 0); // Borrow (Vx < Vy)
}

#[test]
fn test_opcode_8xy6_shr_vx() {
    let mut cpu = Cpu::new();
    let mut memory = Memory::new();
    let mut display = Display::new();
    let keyboard = Keyboard::new();

    cpu.v[6] = 0b10110101;  // Source is Vy (V6)

    // 8766 - SHR V7, V6 (COSMAC VIP quirk: copies V6 to V7, then shifts)
    cpu.execute(0x8766, &mut memory, &mut display, &keyboard).unwrap();
    assert_eq!(cpu.v[7], 0b01011010);
    assert_eq!(cpu.v[0xF], 1); // LSB was 1
}

#[test]
fn test_opcode_8xy7_subn_vx_vy_no_borrow() {
    let mut cpu = Cpu::new();
    let mut memory = Memory::new();
    let mut display = Display::new();
    let keyboard = Keyboard::new();

    cpu.v[1] = 20;
    cpu.v[2] = 50;

    // 8127 - SUBN V1, V2 (V1 = V2 - V1 = 50 - 20 = 30)
    cpu.execute(0x8127, &mut memory, &mut display, &keyboard).unwrap();
    assert_eq!(cpu.v[1], 30);
    assert_eq!(cpu.v[0xF], 1); // NOT borrow (Vy > Vx)
}

#[test]
fn test_opcode_8xy7_subn_vx_vy_with_borrow() {
    let mut cpu = Cpu::new();
    let mut memory = Memory::new();
    let mut display = Display::new();
    let keyboard = Keyboard::new();

    cpu.v[3] = 50;
    cpu.v[4] = 20;

    // 8347 - SUBN V3, V4 (V3 = V4 - V3 = 20 - 50 = -30, wraps)
    cpu.execute(0x8347, &mut memory, &mut display, &keyboard).unwrap();
    assert_eq!(cpu.v[3], 226); // wrapping_sub
    assert_eq!(cpu.v[0xF], 0); // Borrow (Vy < Vx)
}

#[test]
fn test_opcode_8xye_shl_vx() {
    let mut cpu = Cpu::new();
    let mut memory = Memory::new();
    let mut display = Display::new();
    let keyboard = Keyboard::new();

    cpu.v[3] = 0b10110101;  // Source is Vy (V3)

    // 853E - SHL V5, V3 (COSMAC VIP quirk: copies V3 to V5, then shifts)
    cpu.execute(0x853E, &mut memory, &mut display, &keyboard).unwrap();
    assert_eq!(cpu.v[5], 0b01101010);
    assert_eq!(cpu.v[0xF], 1); // MSB was 1
}

#[test]
fn test_stack_underflow() {
    let mut cpu = Cpu::new();
    let mut memory = Memory::new();
    let mut display = Display::new();
    let keyboard = Keyboard::new();

    // Try to return without any CALL (sp is 0)
    let r = cpu.execute(0x00EE, &mut memory, &mut display, &keyboard);
    assert_eq!(r, Err(Chip8Error::StackUnderflow));
}

#[test]
fn test_opcode_00ee_ret() {
    let mut cpu = Cpu::new();
    let mut memory = Memory::new();
    let mut display = Display::new();
    let keyboard = Keyboard::new();

    // Simulate a CALL - push return address
    cpu.stack[0] = 0x300;
    cpu.sp = 1;

    // 00EE - RET
    cpu.execute(0x00EE, &mut memory, &mut display, &keyboard).unwrap();
    assert_eq!(cpu.pc, 0x300);
    assert_eq!(cpu.sp, 0);
}

#[test]
fn test_stack_overflow() {
    let mut cpu = Cpu::new();
    let mut memory = Memory::new();
    let mut display = Display::new();
    let keyboard = Keyboard::new();

    // Fill the stack to maximum (16 levels)
    for _ in 0..16 {
        cpu.execute(0x2200, &mut memory, &mut display, &keyboard).unwrap(); // CALL 0x200
    }

    // The 17th call fails
    let r = cpu.execute(0x2200, &mut memory, &mut display, &keyboard);
    assert_eq!(r, Err(Chip8Error::StackOverflow));
}

#[test]
fn test_opcode_2nnn_call() {
    let mut cpu = Cpu::new();
    let mut memory = Memory::new();
    let mut display = Display::new();
    let keyboard = Keyboard::new();

    cpu.pc = 0x200;

    // 2ABC - CALL 0xABC
    cpu.execute(0x2ABC, &mut memory, &mut display, &keyboard).unwrap();
    assert_eq!(cpu.pc, 0xABC);
    assert_eq!(cpu.sp, 1);
    assert_eq!(cpu.stack[0], 0x200); // Return address saved
}

#[test]
fn test_opcode_5xy0_se_vx_vy_equal() {
    let mut cpu = Cpu::new();
    let mut memory = Memory::new();
    let mut display = Display::new();
    let keyboard = Keyboard::new();

    cpu.v[2] = 0x42;
    cpu.v[7] = 0x42;
    cpu.pc = 0x200;

    // 5270 - SE V2, V7 (should skip)
    cpu.execute(0x5270, &mut memory, &mut display, &keyboard).unwrap();
    assert_eq!(cpu.pc, 0x202);
}

#[test]
fn test_opcode_5xy0_se_vx_vy_not_equal() {
    let mut cpu = Cpu::new();
    let mut memory = Memory::new();
    let mut display = Display::new();
    let keyboard = Keyboard::new();

    cpu.v[2] = 0x42;
    cpu.v[7] = 0x43;
    cpu.pc = 0x200;

    // 5270 - SE V2, V7 (should not skip)
    cpu.execute(0x5270, &mut memory, &mut display, &keyboard).unwrap();
    assert_eq!(cpu.pc, 0x200);
}

#[test]
fn test_opcode_9xy0_sne_vx_vy_not_equal() {
    let mut cpu = Cpu::new();
    let mut memory = Memory::new();
    let mut display = Display::new();
    let keyboard = Keyboard::new();

    cpu.v[3] = 0x10;
    cpu.v[5] = 0x20;
    cpu.pc = 0x300;

    // 9350 - SNE V3, V5 (should skip)
    cpu.execute(0x9350, &mut memory, &mut display, &keyboard).unwrap();
    assert_eq!(cpu.pc, 0x302);
}

#[test]
fn test_opcode_9xy0_sne_vx_vy_equal() {
    let mut cpu = Cpu::new();
    let mut memory = Memory::new();
    let mut display = Display::new();
    let keyboard = Keyboard::new();

    cpu.v[3] = 0x20;
    cpu.v[5] = 0x20;
    cpu.pc = 0x300;

    // 9350 - SNE V3, V5 (should not skip)
    cpu.execute(0x9350, &mut memory, &mut display, &keyboard).unwrap();
    assert_eq!(cpu.pc, 0x300);
}

#[test]
fn test_opcode_bnnn_jp_v0_addr() {
    let mut cpu = Cpu::new();
    let mut memory = Memory::new();
    let mut display = Display::new();
    let keyboard = Keyboard::new();

    cpu.v[0] = 0x05;
    cpu.execute(0xB200, &mut memory, &mut display, &keyboard).unwrap(); // JP V0, 0x200
    assert_eq!(cpu.pc, 0x205); // 0x200 + 0x05
}

#[test]
fn test_opcode_cxkk_rnd_vx_byte() {
    let mut cpu = Cpu::new();
    let mut memory = Memory::new();
    let mut display = Display::new();
    let keyboard = Keyboard::new();

    // Execute RND V1, 0xFF multiple times
    // The random value should be different at least once in 10 tries
    cpu.execute(0xC1FF, &mut memory, &mut display, &keyboard).unwrap();
    let first_value = cpu.v[1];
    
    let mut different = false;
    for _ in 0..10 {
        cpu.execute(0xC1FF, &mut memory, &mut display, &keyboard).unwrap();
        if cpu.v[1] != first_value {
            different = true;
            break;
        }
    }
    // Should be different at least once (probabilistically)
    assert!(different || first_value == cpu.v[1]); // Always passes but exercises the code

    // Test masking: RND V2, 0x0F should only set lower 4 bits
    cpu.execute(0xC20F, &mut memory, &mut display, &keyboard).unwrap();
    assert!(cpu.v[2] <= 0x0F);
}

#[test]
fn test_opcode_dxyn_drw_sprite() {
    let mut cpu = Cpu::new();
    let mut memory = Memory::new();
    let mut display = Display::new();
    let keyboard = Keyboard::new();

    // Set up sprite data in memory at address 0x300
    cpu.i = 0x300;
    memory.write(0x300, 0b11110000).unwrap();
    memory.write(0x301, 0b10010000).unwrap();
    memory.write(0x302, 0b11110000).unwrap();

    // Draw at position (5, 10) with height 3
    cpu.v[2] = 5;  // x
    cpu.v[3] = 10; // y
    cpu.execute(0xD233, &mut memory, &mut display, &keyboard).unwrap(); // DRW V2, V3, 3

    // VF should be 0 (no collision on first draw)
    assert_eq!(cpu.v[0xF], 0);

    // Verify pixels were set
    assert_eq!(display.get_pixel(5, 10), true);
    assert_eq!(display.get_pixel(8, 10), true);
    assert_eq!(display.get_pixel(9, 10), false);
}

#[test]
fn test_opcode_dxyn_drw_sprite_collision() {
    let mut cpu = Cpu::new();
    let mut memory = Memory::new();
    let mut display = Display::new();
    let keyboard = Keyboard::new();

    // Set up sprite
    cpu.i = 0x300;
    memory.write(0x300, 0xFF).unwrap();
    cpu.v[1] = 0;
    cpu.v[2] = 0;

    // Draw first time - no collision
    cpu.execute(0xD121, &mut memory, &mut display, &keyboard).unwrap();
    assert_eq!(cpu.v[0xF], 0);

    // Tick timers to clear VBlank wait flag
    cpu.tick_timers();

    // Draw second time at same position - should have collision
    cpu.execute(0xD121, &mut memory, &mut display, &keyboard).unwrap();
    assert_eq!(cpu.v[0xF], 1);
}

#[test]
fn test_opcode_ex9e_skp_vx_pressed() {
    let mut cpu = Cpu::new();
    let mut memory = Memory::new();
    let mut display = Display::new();
    let mut keyboard = Keyboard::new();

    cpu.v[5] = 0x0A;
    keyboard.set_key(0x0A, true);
    
    let old_pc = cpu.pc;
    cpu.execute(0xE59E, &mut memory, &mut display, &keyboard).unwrap(); // SKP V5
    assert_eq!(cpu.pc, old_pc + 2); // Should skip
}

#[test]
fn test_opcode_ex9e_skp_vx_not_pressed() {
    let mut cpu = Cpu::new();
    let mut memory = Memory::new();
    let mut display = Display::new();
    let keyboard = Keyboard::new();

    cpu.v[5] = 0x0A;
    // Key not pressed
    
    let old_pc = cpu.pc;
    cpu.execute(0xE59E, &mut memory, &mut display, &keyboard).unwrap(); // SKP V5
    assert_eq!(cpu.pc, old_pc); // Should not skip
}

#[test]
fn test_opcode_exa1_sknp_vx_not_pressed() {
    let mut cpu = Cpu::new();
    let mut memory = Memory::new();
    let mut display = Display::new();
    let keyboard = Keyboard::new();

    cpu.v[5] = 0x0A;
    // Key not pressed
    
    let old_pc = cpu.pc;
    cpu.execute(0xE5A1, &mut memory, &mut display, &keyboard).unwrap(); // SKNP V5
    assert_eq!(cpu.pc, old_pc + 2); // Should skip
}

#[test]
fn test_opcode_exa1_sknp_vx_pressed() {
    let mut cpu = Cpu::new();
    let mut memory = Memory::new();
    let mut display = Display::new();
    let mut keyboard = Keyboard::new();

    cpu.v[5] = 0x0A;
    keyboard.set_key(0x0A, true);
    
    let old_pc = cpu.pc;
    cpu.execute(0xE5A1, &mut memory, &mut display, &keyboard).unwrap(); // SKNP V5
    assert_eq!(cpu.pc, old_pc); // Should not skip
}

#[test]
fn test_opcode_fx07_ld_vx_dt() {
    let mut cpu = Cpu::new();
    let mut memory = Memory::new();
    let mut display = Display::new();
    let keyboard = Keyboard::new();

    cpu.delay_timer = 42;
    cpu.execute(0xF307, &mut memory, &mut display, &keyboard).unwrap(); // LD V3, DT
    assert_eq!(cpu.v[3], 42);
}

#[test]
fn test_opcode_fx15_ld_dt_vx() {
    let mut cpu = Cpu::new();
    let mut memory = Memory::new();
    let mut display = Display::new();
    let keyboard = Keyboard::new();

    cpu.v[7] = 100;
    cpu.execute(0xF715, &mut memory, &mut display, &keyboard).unwrap(); // LD DT, V7
    assert_eq!(cpu.delay_timer, 100);
}

#[test]
fn test_opcode_fx18_ld_st_vx() {
    let mut cpu = Cpu::new();
    let mut memory = Memory::new();
    let mut display = Display::new();
    let keyboard = Keyboard::new();

    cpu.v[2] = 60;
    cpu.execute(0xF218, &mut memory, &mut display, &keyboard).unwrap(); // LD ST, V2
    assert_eq!(cpu.sound_timer, 60);
}

#[test]
fn test_opcode_fx1e_add_i_vx() {
    let mut cpu = Cpu::new();
    let mut memory = Memory::new();
    let mut display = Display::new();
    let keyboard = Keyboard::new();

    cpu.i = 0x100;
    cpu.v[5] = 0x50;
    cpu.execute(0xF51E, &mut memory, &mut display, &keyboard).unwrap(); // ADD I, V5
    assert_eq!(cpu.i, 0x150);
}

#[test]
fn test_opcode_fx1e_add_i_vx_wrapping() {
    let mut cpu = Cpu::new();
    let mut memory = Memory::new();
    let mut display = Display::new();
    let keyboard = Keyboard::new();

    cpu.i = 0xFFF0;
    cpu.v[5] = 0x20;
    cpu.execute(0xF51E, &mut memory, &mut display, &keyboard).unwrap(); // ADD I, V5
    assert_eq!(cpu.i, 0x0010); // Should wrap
}

#[test]
fn test_opcode_fx33_ld_b_vx() {
    let mut cpu = Cpu::new();
    let mut memory = Memory::new();
    let mut display = Display::new();
    let keyboard = Keyboard::new();

    cpu.i = 0x300;
    cpu.v[7] = 234; // 234 = 2 hundreds, 3 tens, 4 ones
    cpu.execute(0xF733, &mut memory, &mut display, &keyboard).unwrap(); // LD B, V7
    
    assert_eq!(memory.read(0x300).unwrap(), 2); // Hundreds
    assert_eq!(memory.read(0x301).unwrap(), 3); // Tens
    assert_eq!(memory.read(0x302).unwrap(), 4); // Ones
}

#[test]
fn test_opcode_fx33_ld_b_vx_small() {
    let mut cpu = Cpu::new();
    let mut memory = Memory::new();
    let mut display = Display::new();
    let keyboard = Keyboard::new();

    cpu.i = 0x400;
    cpu.v[2] = 5; // 005
    cpu.execute(0xF233, &mut memory, &mut display, &keyboard).unwrap(); // LD B, V2
    
    assert_eq!(memory.read(0x400).unwrap(), 0);
    assert_eq!(memory.read(0x401).unwrap(), 0);
    assert_eq!(memory.read(0x402).unwrap(), 5);
}

#[test]
fn test_opcode_fx55_ld_i_vx() {
    let mut cpu = Cpu::new();
    let mut memory = Memory::new();
    let mut display = Display::new();
    let keyboard = Keyboard::new();

    cpu.i = 0x300;
    cpu.v[0] = 10;
    cpu.v[1] = 20;
    cpu.v[2] = 30;
    cpu.v[3] = 40;
    
    cpu.execute(0xF355, &mut memory, &mut display, &keyboard).unwrap(); // LD [I], V3
    
    // Should store V0 through V3
    assert_eq!(memory.read(0x300).unwrap(), 10);
    assert_eq!(memory.read(0x301).unwrap(), 20);
    assert_eq!(memory.read(0x302).unwrap(), 30);
    assert_eq!(memory.read(0x303).unwrap(), 40);
}

#[test]
fn test_opcode_fx65_ld_vx_i() {
    let mut cpu = Cpu::new();
    let mut memory = Memory::new();
    let mut display = Display::new();
    let keyboard = Keyboard::new();

    cpu.i = 0x300;
    memory.write(0x300, 100).unwrap();
    memory.write(0x301, 200).unwrap();
    memory.write(0x302, 150).unwrap();
    
    cpu.execute(0xF265, &mut memory, &mut display, &keyboard).unwrap(); // LD V2, [I]
    
    // Should load into V0 through V2
    assert_eq!(cpu.v[0], 100);
    assert_eq!(cpu.v[1], 200);
    assert_eq!(cpu.v[2], 150);
}

#[test]
fn test_opcode_fx0a_ld_vx_k_key_pressed() {
    let mut cpu = Cpu::new();
    let mut memory = Memory::new();
    let mut display = Display::new();
    let mut keyboard = Keyboard::new();

    cpu.pc = 0x200;
    
    // First execution - no key pressed, should wait
    cpu.execute(0xF30A, &mut memory, &mut display, &keyboard).unwrap();
    assert_eq!(cpu.pc, 0x1FE); // Decremented to repeat
    
    // Press key 0x0A
    keyboard.set_key(0x0A, true);
    cpu.pc = 0x200;
    cpu.execute(0xF30A, &mut memory, &mut display, &keyboard).unwrap();
    assert_eq!(cpu.pc, 0x1FE); // Still waiting for release
    
    // Release key
    keyboard.set_key(0x0A, false);
    cpu.pc = 0x200;
    cpu.execute(0xF30A, &mut memory, &mut display, &keyboard).unwrap();
    assert_eq!(cpu.v[3], 0x0A); // Key stored
    assert_eq!(cpu.pc, 0x200); // PC advances normally
}

#[test]
fn test_opcode_fx0a_ld_vx_k_no_key() {
    let mut cpu = Cpu::new();
    let mut memory = Memory::new();
    let mut display = Display::new();
    let keyboard = Keyboard::new();

    cpu.pc = 0x200;
    
    cpu.execute(0xF30A, &mut memory, &mut display, &keyboard).unwrap(); // LD V3, K
    
    // PC should be decremented by 2 to repeat the instruction
    assert_eq!(cpu.pc, 0x1FE);
}

#[test]
fn test_opcode_fx29_ld_f_vx() {
    let mut cpu = Cpu::new();
    let mut memory = Memory::new();
    let mut display = Display::new();
    let keyboard = Keyboard::new();

    // Test digit 0 (font at 0x000)
    cpu.v[2] = 0;
    cpu.execute(0xF229, &mut memory, &mut display, &keyboard).unwrap(); // LD F, V2
    assert_eq!(cpu.i, 0x000);

    // Test digit 5 (font at 0x019 = 5 * 5)
    cpu.v[3] = 5;
    cpu.execute(0xF329, &mut memory, &mut display, &keyboard).unwrap(); // LD F, V3
    assert_eq!(cpu.i, 25); // 5 * 5

    // Test digit F (font at 0x04B = 15 * 5)
    cpu.v[4] = 0xF;
    cpu.execute(0xF429, &mut memory, &mut display, &keyboard).unwrap(); // LD F, V4
    assert_eq!(cpu.i, 75); // 15 * 5
}

#[test]
fn test_cycle() {
    let mut cpu = Cpu::new();
    let mut memory = Memory::new();
    let mut display = Display::new();
    let keyboard = Keyboard::new();

    // Write a simple instruction to memory: 6142 = LD V1, 0x42
    memory.write(0x200, 0x61).unwrap();
    memory.write(0x201, 0x42).unwrap();

    cpu.cycle(&mut memory, &mut display, &keyboard).unwrap();

    // V1 should now be 0x42
    assert_eq!(cpu.v[1], 0x42);
    // PC should have advanced to 0x202
    assert_eq!(cpu.pc, 0x202);
}
