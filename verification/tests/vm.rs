use chipr::chip8::VM;
use chipr::font::FONT;

fn machine_running(program: &[u16]) -> VM {
    let mut rom: [u8; 4096] = [0; 4096];
    for (k, word) in program.iter().enumerate() {
        rom[512 + 2 * k] = (word >> 8) as u8;
        rom[512 + 2 * k + 1] = (word & 0xFF) as u8;
    }
    let mut vm = VM::new();
    vm.load_rom(rom);
    vm.init_font();
    vm
}

fn lit_count(vm: &VM) -> usize {
    let mut count: usize = 0;
    for x in 0..64 {
        for y in 0..32 {
            if vm.screen.pixels[x][y] {
                count += 1;
            }
        }
    }
    count
}

#[test]
fn new_machine_is_zeroed() {
    let vm = VM::new();
    assert_eq!(vm.pc, 512);
    assert_eq!(vm.i, 0);
    assert!(vm.memory.iter().all(|b| *b == 0));
    assert_eq!(vm.registers, [0u8; 16]);
    assert!(vm.stack.is_empty());
    assert_eq!(vm.delay_timer, 0);
    assert_eq!(vm.sound_timer, 0);
    assert_eq!(vm.timer_delay, 8);
    assert_eq!(vm.timer_counter, 0);
    assert!(vm.will_draw);
    assert!(vm.keys_pressed.is_empty());
    assert!(vm.custom_info.is_empty());
    assert_eq!(lit_count(&vm), 0);
}

#[test]
fn frequency_sets_the_timer_period() {
    let vm = VM::new_with_freq(600);
    assert_eq!(vm.timer_delay, 10);
    let vm = VM::new_with_freq(59);
    assert_eq!(vm.timer_delay, 0);
    let mut vm = VM::new_with_freq(100_000_000);
    assert_eq!(vm.timer_delay, 1_666_666);
    vm.set_frequency(450);
    assert_eq!(vm.timer_delay, 7);
    assert_eq!(vm.pc, 512);
}

#[test]
fn load_rom_replaces_memory() {
    let mut vm = VM::new();
    vm.memory[7] = 9;
    let mut rom: [u8; 4096] = [0; 4096];
    rom[512] = 0x60;
    rom[4095] = 0xAA;
    vm.load_rom(rom);
    assert_eq!(vm.memory[7], 0);
    assert_eq!(vm.memory[512], 0x60);
    assert_eq!(vm.memory[4095], 0xAA);
    assert_eq!(vm.pc, 512);
}

#[test]
fn init_font_installs_the_table() {
    let mut vm = VM::new();
    vm.memory[0x4F] = 0x11;
    vm.memory[0xA0] = 0x22;
    vm.init_font();
    assert_eq!(&vm.memory[0x50..0xA0], &FONT[..]);
    assert_eq!(vm.memory[0x50], 0xF0);
    assert_eq!(vm.memory[0x9F], 0x80);
    assert_eq!(vm.memory[0x4F], 0x11);
    assert_eq!(vm.memory[0xA0], 0x22);
}

#[test]
fn font_sprite_of_a_digit() {
    let mut vm = VM::new();
    vm.init_font();
    assert_eq!(vm.get_font_sprite_of_byte(0), vec![0xF0, 0x90, 0x90, 0x90, 0xF0]);
    assert_eq!(vm.get_font_sprite_of_byte(1), vec![0x20, 0x60, 0x20, 0x20, 0x70]);
    assert_eq!(vm.get_font_sprite_of_byte(0xF), vec![0xF0, 0x80, 0xF0, 0x80, 0x80]);
}

#[test]
fn font_sprite_beyond_the_table_reads_memory() {
    let mut vm = VM::new();
    vm.memory[80 + 5 * 255] = 0xAB;
    vm.memory[80 + 5 * 255 + 4] = 0xCD;
    assert_eq!(vm.get_font_sprite_of_byte(255), vec![0xAB, 0, 0, 0, 0xCD]);
}

#[test]
fn instruction_is_read_high_byte_first() {
    let mut vm = VM::new();
    vm.memory[512] = 0xA2;
    vm.memory[513] = 0xF0;
    assert_eq!(vm.get_instruction(), 0xA2F0);
    vm.pc = 4094;
    vm.memory[4094] = 0x12;
    vm.memory[4095] = 0x34;
    assert_eq!(vm.get_instruction(), 0x1234);
}

#[test]
fn stack_pops_what_was_pushed_last() {
    let mut vm = VM::new();
    vm.push_to_stack(0x300);
    vm.push_to_stack(0x400);
    assert_eq!(vm.stack, vec![0x300, 0x400]);
    assert_eq!(vm.pop_from_stack(), 0x400);
    assert_eq!(vm.pop_from_stack(), 0x300);
    assert_eq!(vm.pop_from_stack(), 0);
    assert!(vm.stack.is_empty());
}

#[test]
fn clear_screen_instruction() {
    let mut vm = VM::new();
    vm.screen.draw(0, 0, vec![0xFF]);
    assert_eq!(vm.execute_with_random(0x00E0, 0), 514);
    assert_eq!(lit_count(&vm), 0);
    assert_eq!(vm.pc, 512);
}

#[test]
fn return_resumes_after_the_call() {
    let mut vm = VM::new();
    vm.stack.push(0x300);
    vm.stack.push(0x400);
    assert_eq!(vm.execute_with_random(0x00EE, 0), 0x402);
    assert_eq!(vm.stack, vec![0x300]);
}

#[test]
fn return_with_empty_stack_goes_to_address_two() {
    let mut vm = VM::new();
    assert_eq!(vm.execute_with_random(0x00EE, 0), 2);
    assert!(vm.stack.is_empty());
}

#[test]
fn other_zero_family_words_do_nothing() {
    let mut vm = VM::new();
    assert_eq!(vm.execute_with_random(0x0000, 0), 514);
    assert_eq!(vm.execute_with_random(0x0123, 0), 514);
    assert_eq!(vm.execute_with_random(0x00E1, 0), 514);
}

#[test]
fn jump_goes_to_the_address() {
    let mut vm = VM::new();
    assert_eq!(vm.execute_with_random(0x1ABC, 0), 0xABC);
    assert!(vm.stack.is_empty());
}

#[test]
fn call_pushes_the_program_counter() {
    let mut vm = VM::new();
    vm.pc = 0x250;
    assert_eq!(vm.execute_with_random(0x2ABC, 0), 0xABC);
    assert_eq!(vm.stack, vec![0x250]);
}

#[test]
fn call_and_return_round_trip() {
    let mut vm = machine_running(&[0x2206, 0x0000, 0x0000, 0x00EE]);
    assert_eq!(vm.next(), 1);
    assert_eq!(vm.pc, 0x206);
    assert_eq!(vm.next(), 1);
    assert_eq!(vm.pc, 0x202);
    assert!(vm.stack.is_empty());
}

#[test]
fn skip_if_register_equals_immediate() {
    let mut vm = VM::new();
    vm.registers[3] = 0x42;
    assert_eq!(vm.execute_with_random(0x3342, 0), 516);
    assert_eq!(vm.execute_with_random(0x3343, 0), 514);
}

#[test]
fn skip_if_register_differs_from_immediate() {
    let mut vm = VM::new();
    vm.registers[3] = 0x42;
    assert_eq!(vm.execute_with_random(0x4342, 0), 514);
    assert_eq!(vm.execute_with_random(0x4343, 0), 516);
}

#[test]
fn skip_if_registers_are_equal() {
    let mut vm = VM::new();
    vm.registers[1] = 7;
    vm.registers[2] = 7;
    vm.registers[3] = 8;
    assert_eq!(vm.execute_with_random(0x5120, 0), 516);
    assert_eq!(vm.execute_with_random(0x5130, 0), 514);
    assert_eq!(vm.execute_with_random(0x5121, 0), 514);
}

#[test]
fn skip_if_registers_differ() {
    let mut vm = VM::new();
    vm.registers[1] = 7;
    vm.registers[2] = 7;
    vm.registers[3] = 8;
    assert_eq!(vm.execute_with_random(0x9120, 0), 514);
    assert_eq!(vm.execute_with_random(0x9130, 0), 516);
    assert_eq!(vm.execute_with_random(0x9131, 0), 514);
}

#[test]
fn load_immediate() {
    let mut vm = VM::new();
    assert_eq!(vm.execute_with_random(0x6A7F, 0), 514);
    assert_eq!(vm.registers[0xA], 0x7F);
}

#[test]
fn add_immediate_wraps_and_sets_no_flag() {
    let mut vm = VM::new();
    vm.registers[2] = 0xF0;
    vm.registers[0xF] = 9;
    assert_eq!(vm.execute_with_random(0x7220, 0), 514);
    assert_eq!(vm.registers[2], 0x10);
    assert_eq!(vm.registers[0xF], 9);
}

#[test]
fn assign_or_and_xor() {
    let mut vm = VM::new();
    vm.registers[1] = 0b1100;
    vm.registers[2] = 0b1010;
    vm.execute_with_random(0x8120, 0);
    assert_eq!(vm.registers[1], 0b1010);
    vm.registers[1] = 0b1100;
    vm.execute_with_random(0x8121, 0);
    assert_eq!(vm.registers[1], 0b1110);
    vm.registers[1] = 0b1100;
    vm.execute_with_random(0x8122, 0);
    assert_eq!(vm.registers[1], 0b1000);
    vm.registers[1] = 0b1100;
    assert_eq!(vm.execute_with_random(0x8123, 0), 514);
    assert_eq!(vm.registers[1], 0b0110);
    assert_eq!(vm.registers[2], 0b1010);
    assert_eq!(vm.registers[0xF], 0);
}

#[test]
fn add_sets_carry_for_every_pair() {
    let mut a: u16 = 0;
    while a < 256 {
        let mut b: u16 = 0;
        while b < 256 {
            let mut vm = VM::new();
            vm.registers[4] = a as u8;
            vm.registers[9] = b as u8;
            assert_eq!(vm.execute_with_random(0x8494, 0), 514);
            assert_eq!(vm.registers[4] as u16, (a + b) % 256);
            assert_eq!(vm.registers[0xF], if a + b > 255 { 1 } else { 0 });
            assert_eq!(vm.registers[9] as u16, b);
            b += 1;
        }
        a += 1;
    }
}

#[test]
fn add_with_carry_examples() {
    let mut vm = VM::new();
    vm.registers[0] = 200;
    vm.registers[1] = 100;
    vm.execute_with_random(0x8014, 0);
    assert_eq!(vm.registers[0], 44);
    assert_eq!(vm.registers[0xF], 1);
    vm.registers[0] = 200;
    vm.registers[1] = 55;
    vm.execute_with_random(0x8014, 0);
    assert_eq!(vm.registers[0], 255);
    assert_eq!(vm.registers[0xF], 0);
}

#[test]
fn add_into_the_flag_register_keeps_the_sum() {
    let mut vm = VM::new();
    vm.registers[0xF] = 200;
    vm.registers[1] = 100;
    vm.execute_with_random(0x8F14, 0);
    assert_eq!(vm.registers[0xF], 44);
}

#[test]
fn sub_clears_flag_on_borrow_for_every_pair() {
    let mut a: i32 = 0;
    while a < 256 {
        let mut b: i32 = 0;
        while b < 256 {
            let mut vm = VM::new();
            vm.registers[4] = a as u8;
            vm.registers[9] = b as u8;
            assert_eq!(vm.execute_with_random(0x8495, 0), 514);
            assert_eq!(vm.registers[4] as i32, (a - b).rem_euclid(256));
            assert_eq!(vm.registers[0xF], if a < b { 0 } else { 1 });
            b += 1;
        }
        a += 1;
    }
}

#[test]
fn sub_examples() {
    let mut vm = VM::new();
    vm.registers[0] = 5;
    vm.registers[1] = 7;
    vm.execute_with_random(0x8015, 0);
    assert_eq!(vm.registers[0], 254);
    assert_eq!(vm.registers[0xF], 0);
    vm.registers[0] = 7;
    vm.registers[1] = 7;
    vm.execute_with_random(0x8015, 0);
    assert_eq!(vm.registers[0], 0);
    assert_eq!(vm.registers[0xF], 1);
}

#[test]
fn reversed_sub_examples() {
    let mut vm = VM::new();
    vm.registers[0] = 5;
    vm.registers[1] = 7;
    vm.execute_with_random(0x8017, 0);
    assert_eq!(vm.registers[0], 2);
    assert_eq!(vm.registers[0xF], 1);
    vm.registers[0] = 7;
    vm.registers[1] = 5;
    vm.execute_with_random(0x8017, 0);
    assert_eq!(vm.registers[0], 254);
    assert_eq!(vm.registers[0xF], 0);
}

#[test]
fn shift_right_moves_low_bit_to_flag() {
    let mut vm = VM::new();
    vm.registers[3] = 0b0000_0101;
    assert_eq!(vm.execute_with_random(0x8346, 0), 514);
    assert_eq!(vm.registers[3], 0b0000_0010);
    assert_eq!(vm.registers[0xF], 1);
    vm.execute_with_random(0x8346, 0);
    assert_eq!(vm.registers[3], 0b0000_0001);
    assert_eq!(vm.registers[0xF], 0);
}

#[test]
fn shift_left_moves_high_bit_to_flag() {
    let mut vm = VM::new();
    vm.registers[3] = 0b1100_0001;
    assert_eq!(vm.execute_with_random(0x834E, 0), 514);
    assert_eq!(vm.registers[3], 0b1000_0010);
    assert_eq!(vm.registers[0xF], 1);
    vm.registers[3] = 0b0100_0001;
    vm.execute_with_random(0x834E, 0);
    assert_eq!(vm.registers[3], 0b1000_0010);
    assert_eq!(vm.registers[0xF], 0);
}

#[test]
fn shift_of_the_flag_register_shifts_the_flag() {
    let mut vm = VM::new();
    vm.registers[0xF] = 0b0000_0011;
    vm.execute_with_random(0x8F06, 0);
    assert_eq!(vm.registers[0xF], 0);
    vm.registers[0xF] = 0b1000_0001;
    vm.execute_with_random(0x8F0E, 0);
    assert_eq!(vm.registers[0xF], 2);
}

#[test]
fn unknown_alu_operation_does_nothing() {
    let mut vm = VM::new();
    vm.registers[1] = 3;
    vm.registers[2] = 4;
    assert_eq!(vm.execute_with_random(0x8128, 0), 514);
    assert_eq!(vm.execute_with_random(0x812F, 0), 514);
    assert_eq!(vm.registers[1], 3);
    assert_eq!(vm.registers[2], 4);
    assert_eq!(vm.registers[0xF], 0);
}

#[test]
fn set_index() {
    let mut vm = VM::new();
    assert_eq!(vm.execute_with_random(0xA123, 0), 514);
    assert_eq!(vm.i, 0x123);
}

#[test]
fn offset_jump_adds_register_zero() {
    let mut vm = VM::new();
    vm.registers[0] = 0x10;
    assert_eq!(vm.execute_with_random(0xB300, 0), 0x310);
    vm.registers[0] = 0xFF;
    assert_eq!(vm.execute_with_random(0xBFFF, 0), 0xFFF + 0xFF);
}

#[test]
fn random_is_masked_by_the_immediate() {
    let mut vm = VM::new();
    assert_eq!(vm.execute_with_random(0xC50F, 0xAB), 514);
    assert_eq!(vm.registers[5], 0x0B);
    vm.execute_with_random(0xC5F0, 0xAB);
    assert_eq!(vm.registers[5], 0xA0);
    vm.execute_with_random(0xC500, 0xFF);
    assert_eq!(vm.registers[5], 0);
    vm.execute_with_random(0xC5FF, 0x5A);
    assert_eq!(vm.registers[5], 0x5A);
}

#[test]
fn random_byte_is_ignored_by_other_instructions() {
    let mut a = VM::new();
    let mut b = VM::new();
    assert_eq!(a.execute_with_random(0x6005, 0x00), b.execute_with_random(0x6005, 0xFF));
    assert_eq!(a.registers, b.registers);
}

#[test]
fn drawn_random_stays_inside_the_mask() {
    let mut round: u32 = 0;
    while round < 200 {
        let mut vm = VM::new();
        vm.registers[7] = 0xFF;
        assert_eq!(vm.execute_instruction(0xC70F), 514);
        assert_eq!(vm.registers[7] & 0xF0, 0);
        round += 1;
    }
}

#[test]
fn draw_instruction_sets_flag_and_redraw() {
    let mut vm = VM::new();
    vm.will_draw = false;
    vm.i = 0x300;
    vm.memory[0x300] = 0xFF;
    vm.memory[0x301] = 0x81;
    vm.registers[1] = 60;
    vm.registers[2] = 31;
    vm.registers[0xF] = 7;
    assert_eq!(vm.execute_with_random(0xD122, 0), 514);
    assert!(vm.will_draw);
    assert_eq!(vm.registers[0xF], 0);
    assert_eq!(lit_count(&vm), 10);
    assert!(vm.screen.pixels[60][31]);
    assert!(vm.screen.pixels[3][31]);
    assert!(vm.screen.pixels[60][0]);
    assert!(vm.screen.pixels[3][0]);
    assert!(!vm.screen.pixels[61][0]);

    vm.will_draw = false;
    assert_eq!(vm.execute_with_random(0xD122, 0), 514);
    assert!(vm.will_draw);
    assert_eq!(vm.registers[0xF], 1);
    assert_eq!(lit_count(&vm), 0);
}

#[test]
fn draw_with_no_lines_touches_nothing_but_the_flag() {
    let mut vm = VM::new();
    vm.i = 0xFFFF;
    vm.registers[0xF] = 3;
    vm.will_draw = false;
    assert_eq!(vm.execute_with_random(0xD120, 0), 514);
    assert_eq!(vm.registers[0xF], 0);
    assert!(vm.will_draw);
    assert_eq!(lit_count(&vm), 0);
}

#[test]
fn draw_reads_up_to_the_end_of_memory() {
    let mut vm = VM::new();
    vm.i = 4095;
    vm.memory[4095] = 0x80;
    assert_eq!(vm.execute_with_random(0xD001, 0), 514);
    assert!(vm.screen.pixels[0][0]);
    assert_eq!(lit_count(&vm), 1);
}

#[test]
fn clear_then_zero_sprite_leaves_screen_blank() {
    let mut vm = VM::new();
    vm.screen.draw(0, 0, vec![0xFF]);
    vm.registers[0xF] = 1;
    vm.i = 0x300;
    vm.execute_with_random(0x00E0, 0);
    vm.execute_with_random(0xD125, 0);
    assert_eq!(vm.registers[0xF], 0);
    assert_eq!(lit_count(&vm), 0);
}

#[test]
fn key_skips_look_at_the_register_value() {
    let mut vm = VM::new();
    vm.registers[2] = 0xB;
    vm.keys_pressed = vec![0x1, 0xB];
    assert_eq!(vm.execute_with_random(0xE29E, 0), 516);
    assert_eq!(vm.execute_with_random(0xE2A1, 0), 514);
    vm.keys_pressed = vec![0x2];
    assert_eq!(vm.execute_with_random(0xE29E, 0), 514);
    assert_eq!(vm.execute_with_random(0xE2A1, 0), 516);
    assert_eq!(vm.keys_pressed, vec![0x2]);
}

#[test]
fn unknown_key_instruction_does_nothing() {
    let mut vm = VM::new();
    vm.keys_pressed = vec![0x0];
    assert_eq!(vm.execute_with_random(0xE000, 0), 514);
    assert_eq!(vm.keys_pressed, vec![0x0]);
}

#[test]
fn is_key_pressed_looks_through_the_key_set() {
    let mut vm = VM::new();
    assert!(!vm.is_key_pressed(0));
    vm.keys_pressed = vec![3, 7, 3];
    assert!(vm.is_key_pressed(3));
    assert!(vm.is_key_pressed(7));
    assert!(!vm.is_key_pressed(0));
}

#[test]
fn read_delay_timer() {
    let mut vm = VM::new();
    vm.delay_timer = 0x33;
    assert_eq!(vm.execute_with_random(0xF407, 0), 514);
    assert_eq!(vm.registers[4], 0x33);
}

#[test]
fn load_timers_from_register() {
    let mut vm = VM::new();
    vm.registers[4] = 0x21;
    assert_eq!(vm.execute_with_random(0xF415, 0), 514);
    assert_eq!(vm.delay_timer, 0x21);
    assert_eq!(vm.sound_timer, 0);
    vm.registers[4] = 0x22;
    assert_eq!(vm.execute_with_random(0xF418, 0), 514);
    assert_eq!(vm.delay_timer, 0x21);
    assert_eq!(vm.sound_timer, 0x22);
}

#[test]
fn add_to_index_wraps() {
    let mut vm = VM::new();
    vm.i = 0x100;
    vm.registers[1] = 0x20;
    assert_eq!(vm.execute_with_random(0xF11E, 0), 514);
    assert_eq!(vm.i, 0x120);
    vm.i = 0xFFFF;
    vm.registers[1] = 2;
    vm.execute_with_random(0xF11E, 0);
    assert_eq!(vm.i, 1);
}

#[test]
fn glyph_address_uses_the_low_nibble() {
    let mut vm = VM::new();
    vm.registers[1] = 0x0A;
    assert_eq!(vm.execute_with_random(0xF129, 0), 514);
    assert_eq!(vm.i, 80 + 5 * 10);
    vm.registers[1] = 0x00;
    vm.execute_with_random(0xF129, 0);
    assert_eq!(vm.i, 80);
    vm.registers[1] = 0x3F;
    vm.execute_with_random(0xF129, 0);
    assert_eq!(vm.i, 80 + 5 * 15);
}

#[test]
fn decimal_digits_of_234() {
    let mut vm = VM::new();
    vm.i = 0x300;
    vm.registers[6] = 234;
    assert_eq!(vm.execute_with_random(0xF633, 0), 514);
    assert_eq!(vm.memory[0x300], 2);
    assert_eq!(vm.memory[0x301], 3);
    assert_eq!(vm.memory[0x302], 4);
    assert_eq!(vm.memory[0x2FF], 0);
    assert_eq!(vm.memory[0x303], 0);
}

#[test]
fn decimal_digits_at_the_extremes() {
    let mut vm = VM::new();
    vm.i = 4093;
    vm.registers[6] = 255;
    vm.execute_with_random(0xF633, 0);
    assert_eq!(&vm.memory[4093..4096], &[2, 5, 5]);
    vm.registers[6] = 7;
    vm.execute_with_random(0xF633, 0);
    assert_eq!(&vm.memory[4093..4096], &[0, 0, 7]);
}

#[test]
fn store_registers_up_to_x() {
    let mut vm = VM::new();
    for r in 0..16 {
        vm.registers[r] = 0x10 + r as u8;
    }
    vm.i = 0x400;
    assert_eq!(vm.execute_with_random(0xF355, 0), 514);
    assert_eq!(&vm.memory[0x400..0x404], &[0x10, 0x11, 0x12, 0x13]);
    assert_eq!(vm.memory[0x404], 0);
    assert_eq!(vm.i, 0x400);
    vm.execute_with_random(0xFF55, 0);
    assert_eq!(vm.memory[0x40F], 0x1F);
}

#[test]
fn load_registers_up_to_x() {
    let mut vm = VM::new();
    for k in 0..16 {
        vm.memory[0x400 + k] = 0x20 + k as u8;
    }
    vm.registers[4] = 0x99;
    vm.i = 0x400;
    assert_eq!(vm.execute_with_random(0xF365, 0), 514);
    assert_eq!(&vm.registers[0..5], &[0x20, 0x21, 0x22, 0x23, 0x99]);
    assert_eq!(vm.i, 0x400);
    vm.execute_with_random(0xF065, 0);
    assert_eq!(vm.registers[0], 0x20);
}

#[test]
fn unknown_f_instruction_does_nothing() {
    let mut vm = VM::new();
    vm.registers[1] = 5;
    assert_eq!(vm.execute_with_random(0xF1FF, 0), 514);
    assert_eq!(vm.execute_with_random(0xF100, 0), 514);
    assert_eq!(vm.registers[1], 5);
    assert_eq!(vm.i, 0);
}

#[test]
fn execute_leaves_the_program_counter() {
    let mut vm = VM::new();
    vm.execute_with_random(0x1ABC, 0);
    assert_eq!(vm.pc, 512);
    vm.execute_with_random(0x6001, 0);
    assert_eq!(vm.pc, 512);
}

#[test]
fn key_wait_stalls_until_a_key_arrives() {
    let mut vm = machine_running(&[0xF30A, 0x6001]);
    let mut round: u32 = 0;
    while round < 25 {
        assert_eq!(vm.next(), 1);
        assert_eq!(vm.pc, 512);
        assert_eq!(vm.registers[3], 0);
        round += 1;
    }
    vm.keys_pressed.push(0x4);
    vm.keys_pressed.push(0xC);
    assert_eq!(vm.next(), 1);
    assert_eq!(vm.pc, 514);
    assert_eq!(vm.registers[3], 0xC);
    assert_eq!(vm.keys_pressed, vec![0x4]);
}

#[test]
fn key_wait_at_the_halt_bound_takes_the_key_and_halts() {
    let mut vm = VM::new();
    vm.pc = 2046;
    vm.memory[2046] = 0xF3;
    vm.memory[2047] = 0x0A;
    assert_eq!(vm.next(), 1);
    assert_eq!(vm.pc, 2046);
    vm.keys_pressed.push(0x9);
    assert_eq!(vm.next(), 0);
    assert_eq!(vm.pc, 2046);
    assert_eq!(vm.registers[3], 0x9);
    assert!(vm.keys_pressed.is_empty());
}

#[test]
fn timers_count_down_once_per_period() {
    let mut vm = VM::new_with_freq(600);
    vm.delay_timer = 5;
    vm.sound_timer = 1;
    let mut steps: u32 = 0;
    while steps < 9 {
        assert_eq!(vm.next(), 1);
        steps += 1;
    }
    assert_eq!(vm.delay_timer, 5);
    assert_eq!(vm.sound_timer, 1);
    assert_eq!(vm.next(), 1);
    assert_eq!(vm.delay_timer, 4);
    assert_eq!(vm.sound_timer, 0);
    assert_eq!(vm.timer_counter, 0);
    while steps < 19 {
        assert_eq!(vm.next(), 1);
        steps += 1;
    }
    assert_eq!(vm.delay_timer, 3);
    assert_eq!(vm.sound_timer, 0);
}

#[test]
fn timers_never_go_below_zero() {
    let mut vm = VM::new_with_freq(60);
    vm.delay_timer = 5;
    let mut steps: u32 = 0;
    while steps < 5 {
        assert_eq!(vm.next(), 1);
        steps += 1;
        assert_eq!(vm.delay_timer as u32, 5 - steps);
    }
    while steps < 100 {
        assert_eq!(vm.next(), 1);
        steps += 1;
        assert_eq!(vm.delay_timer, 0);
        assert_eq!(vm.sound_timer, 0);
    }
}

#[test]
fn timer_tick_comes_before_the_instruction() {
    let mut vm = machine_running(&[0xF107]);
    vm.set_frequency(60);
    vm.delay_timer = 9;
    assert_eq!(vm.next(), 1);
    assert_eq!(vm.registers[1], 8);
}

#[test]
fn slow_rate_never_ticks() {
    let mut vm = VM::new_with_freq(30);
    vm.delay_timer = 5;
    let mut steps: u32 = 0;
    while steps < 200 {
        assert_eq!(vm.next(), 1);
        steps += 1;
    }
    assert_eq!(vm.delay_timer, 5);
    assert_eq!(vm.timer_counter, 200);
}

#[test]
fn step_counter_wraps_at_its_width() {
    let mut vm = VM::new_with_freq(0);
    vm.delay_timer = 5;
    vm.timer_counter = u32::MAX;
    assert_eq!(vm.next(), 1);
    assert_eq!(vm.timer_counter, 0);
    assert_eq!(vm.delay_timer, 4);
}

#[test]
fn add_program_end_to_end() {
    let mut vm = machine_running(&[0x6005, 0x6103, 0x8014]);
    assert_eq!(vm.next(), 1);
    assert_eq!(vm.next(), 1);
    assert_eq!(vm.next(), 1);
    assert_eq!(vm.registers[0], 8);
    assert_eq!(vm.registers[1], 3);
    assert_eq!(vm.registers[0xF], 0);
    assert_eq!(vm.pc, 518);
    let mut steps: u32 = 3;
    while vm.next() == 1 {
        steps += 1;
    }
    assert_eq!(steps, 767);
    assert_eq!(vm.pc, 2046);
    assert_eq!(vm.registers[0], 8);
    assert_eq!(vm.registers[0xF], 0);
}

#[test]
fn machine_halts_beyond_the_bound() {
    let mut vm = machine_running(&[0x1800]);
    assert_eq!(vm.next(), 0);
    assert_eq!(vm.pc, 512);
    let mut vm = machine_running(&[0x17FF]);
    assert_eq!(vm.next(), 1);
    assert_eq!(vm.pc, 0x7FF);
}

#[test]
fn halting_step_keeps_its_side_effects() {
    let mut vm = VM::new();
    vm.pc = 2046;
    vm.memory[2046] = 0x61;
    vm.memory[2047] = 0x2A;
    assert_eq!(vm.next(), 0);
    assert_eq!(vm.registers[1], 0x2A);
    assert_eq!(vm.pc, 2046);
    assert_eq!(vm.timer_counter, 1);
}

#[test]
fn can_step_needs_an_instruction_in_memory() {
    let mut vm = VM::new();
    assert!(vm.can_step());
    vm.pc = 4094;
    assert!(vm.can_step());
    vm.pc = 4095;
    assert!(!vm.can_step());
    vm.pc = u16::MAX;
    assert!(!vm.can_step());
}

#[test]
fn can_step_needs_operands_in_memory() {
    let mut vm = machine_running(&[0xF033]);
    vm.i = 4093;
    assert!(vm.can_step());
    vm.i = 4094;
    assert!(!vm.can_step());

    let mut vm = machine_running(&[0xF355]);
    vm.i = 4092;
    assert!(vm.can_step());
    vm.i = 4093;
    assert!(!vm.can_step());

    let mut vm = machine_running(&[0xF365]);
    vm.i = 4092;
    assert!(vm.can_step());
    vm.i = 4093;
    assert!(!vm.can_step());

    let mut vm = machine_running(&[0xD005]);
    vm.i = 4091;
    assert!(vm.can_step());
    vm.i = 4092;
    assert!(!vm.can_step());

    let mut vm = machine_running(&[0xD000]);
    vm.i = u16::MAX;
    assert!(vm.can_step());
}

#[test]
fn can_step_needs_a_return_address_that_fits() {
    let mut vm = machine_running(&[0x00EE]);
    assert!(vm.can_step());
    vm.stack.push(u16::MAX - 2);
    assert!(vm.can_step());
    vm.stack.push(u16::MAX - 1);
    assert!(!vm.can_step());
}

#[test]
fn keys_are_shown_as_glyphs() {
    let mut vm = VM::new();
    vm.init_font();
    vm.keys_pressed = vec![1];
    vm.test_keys_and_screen();
    // The glyph of 1: 0x20, 0x60, 0x20, 0x20, 0x70 at (1, 1).
    assert_eq!(lit_count(&vm), 8);
    assert!(vm.screen.pixels[3][1]);
    assert!(vm.screen.pixels[2][2]);
    assert!(vm.screen.pixels[3][2]);
    assert!(vm.screen.pixels[3][3]);
    assert!(vm.screen.pixels[3][4]);
    assert!(vm.screen.pixels[2][5]);
    assert!(vm.screen.pixels[3][5]);
    assert!(vm.screen.pixels[4][5]);
    assert_eq!(vm.keys_pressed, vec![1]);

    vm.keys_pressed = vec![1, 1];
    vm.test_keys_and_screen();
    assert_eq!(lit_count(&vm), 8);
    vm.keys_pressed = Vec::new();
    vm.test_keys_and_screen();
    assert_eq!(lit_count(&vm), 8);
}

#[test]
fn any_period_of_steps_counts_down_once() {
    let mut vm = VM::new_with_freq(600);
    let mut steps: u32 = 0;
    while steps < 3 {
        assert_eq!(vm.next(), 1);
        steps += 1;
    }
    assert_eq!(vm.timer_counter, 3);
    vm.delay_timer = 5;
    while steps < 13 {
        assert_eq!(vm.next(), 1);
        steps += 1;
    }
    assert_eq!(vm.delay_timer, 4);
    assert_eq!(vm.timer_counter, 3);
}

#[test]
fn loading_the_delay_timer_restarts_the_count() {
    let mut vm = machine_running(&[0x6109, 0xF115, 0x1204]);
    vm.set_frequency(120);
    assert_eq!(vm.next(), 1);
    assert_eq!(vm.next(), 1);
    assert_eq!(vm.delay_timer, 9);
    assert_eq!(vm.next(), 1);
    assert_eq!(vm.delay_timer, 9);
    assert_eq!(vm.next(), 1);
    assert_eq!(vm.delay_timer, 8);
}
