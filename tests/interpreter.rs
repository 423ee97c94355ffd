use chip8::cpu::{Cpu, PROGRAM_START};
use chip8::keyboard::{host_key, logical_key, HostKey};
use chip8::machine::{Chip8, LoadError, Outcome};
use chip8::opcode::{Instruction, Opcode};
use chip8::stack::{Stack, StackError};
use chip8::timer::Timer;

const NO_KEYS: [bool; 16] = [false; 16];

fn machine_with(rom: &[u8]) -> Chip8 {
    let mut m = Chip8::new();
    m.load_sprites();
    assert_eq!(m.load_rom(rom.to_vec()), Ok(()));
    m
}

fn run(m: &mut Chip8, cycles: usize) {
    for _ in 0..cycles {
        assert_eq!(m.run_instruction(&NO_KEYS, 0), Ok(Outcome::Executed));
    }
}

#[test]
fn add_program_sets_sum_and_clears_flag() {
    let mut m = machine_with(&[0x60, 0x05, 0x61, 0x03, 0x80, 0x14]);
    run(&mut m, 3);
    assert_eq!(m.cpu.vx[0], 8);
    assert_eq!(m.cpu.vx[0xF], 0);
    assert_eq!(m.cpu.pc, 0x206);
}

#[test]
fn clear_turns_all_pixels_off() {
    let mut m = machine_with(&[0x00, 0xE0]);
    m.display[0] = true;
    m.display[100] = true;
    m.display[2047] = true;
    run(&mut m, 1);
    assert!(m.framebuffer().iter().all(|p| !*p));
    assert_eq!(m.framebuffer().len(), 64 * 32);
}

#[test]
fn add_immediate_twice_wraps_and_keeps_flag() {
    let mut m = machine_with(&[0x63, 0xC8, 0x73, 0x64, 0x73, 0x32]);
    m.cpu.vx[0xF] = 7;
    run(&mut m, 3);
    assert_eq!(m.cpu.vx[3], ((200u32 + 100 + 50) % 256) as u8);
    assert_eq!(m.cpu.vx[0xF], 7);
}

#[test]
fn add_registers_sets_carry() {
    let mut cpu = Cpu::new();
    cpu.vx[1] = 200;
    cpu.vx[2] = 100;
    cpu.add_registers(1, 2);
    assert_eq!(cpu.vx[1], 44);
    assert_eq!(cpu.vx[0xF], 1);
    cpu.vx[1] = 100;
    cpu.vx[2] = 155;
    cpu.add_registers(1, 2);
    assert_eq!(cpu.vx[1], 255);
    assert_eq!(cpu.vx[0xF], 0);
}

#[test]
fn add_registers_clears_stale_flag() {
    let mut m = machine_with(&[0x81, 0x24]);
    m.cpu.vx[1] = 1;
    m.cpu.vx[2] = 2;
    m.cpu.vx[0xF] = 1;
    run(&mut m, 1);
    assert_eq!(m.cpu.vx[1], 3);
    assert_eq!(m.cpu.vx[0xF], 0);
}

#[test]
fn subtract_registers_sets_no_borrow_flag() {
    let mut cpu = Cpu::new();
    cpu.vx[1] = 10;
    cpu.vx[2] = 3;
    cpu.substract_registers(1, 2, 1);
    assert_eq!(cpu.vx[1], 7);
    assert_eq!(cpu.vx[0xF], 1);
    cpu.vx[1] = 3;
    cpu.vx[2] = 10;
    cpu.substract_registers(1, 2, 1);
    assert_eq!(cpu.vx[1], 249);
    assert_eq!(cpu.vx[0xF], 0);
    cpu.vx[1] = 5;
    cpu.vx[2] = 5;
    cpu.substract_registers(1, 2, 1);
    assert_eq!(cpu.vx[1], 0);
    assert_eq!(cpu.vx[0xF], 0);
}

#[test]
fn reverse_subtract_stores_into_x() {
    let mut m = machine_with(&[0x81, 0x27]);
    m.cpu.vx[1] = 3;
    m.cpu.vx[2] = 10;
    run(&mut m, 1);
    assert_eq!(m.cpu.vx[1], 7);
    assert_eq!(m.cpu.vx[2], 10);
    assert_eq!(m.cpu.vx[0xF], 1);
}

#[test]
fn shifts_report_the_bit_shifted_out() {
    let mut cpu = Cpu::new();
    cpu.vx[4] = 0b1000_0011;
    cpu.half_register(4);
    assert_eq!(cpu.vx[4], 0b0100_0001);
    assert_eq!(cpu.vx[0xF], 1);
    cpu.vx[4] = 0b1000_0010;
    cpu.double_register(4);
    assert_eq!(cpu.vx[4], 0b0000_0100);
    assert_eq!(cpu.vx[0xF], 1);
    cpu.vx[4] = 0b0100_0010;
    cpu.double_register(4);
    assert_eq!(cpu.vx[4], 0b1000_0100);
    assert_eq!(cpu.vx[0xF], 0);
}

#[test]
fn bitwise_instructions() {
    let mut m = machine_with(&[0x81, 0x21, 0x83, 0x22, 0x85, 0x23, 0x86, 0x20]);
    m.cpu.vx[1] = 0b1100;
    m.cpu.vx[2] = 0b1010;
    m.cpu.vx[3] = 0b1100;
    m.cpu.vx[5] = 0b1100;
    run(&mut m, 4);
    assert_eq!(m.cpu.vx[1], 0b1110);
    assert_eq!(m.cpu.vx[3], 0b1000);
    assert_eq!(m.cpu.vx[5], 0b0110);
    assert_eq!(m.cpu.vx[6], 0b1010);
}

#[test]
fn drawing_twice_restores_pixels() {
    // A000: i <- 0 (font digit 0); D015 draws it at (v0, v1).
    let mut m = machine_with(&[0xA0, 0x00, 0xD0, 0x15, 0xD0, 0x15]);
    m.cpu.vx[0] = 62;
    m.cpu.vx[1] = 30;
    run(&mut m, 2);
    assert_eq!(m.cpu.vx[0xF], 0);
    // Top row of the digit 0 is 0xF0: columns 62, 63, 0, 1 of row 30.
    assert!(m.display[30 * 64 + 62]);
    assert!(m.display[30 * 64 + 63]);
    assert!(m.display[30 * 64]);
    assert!(m.display[30 * 64 + 1]);
    assert!(!m.display[30 * 64 + 2]);
    // Third row wraps to the top of the screen.
    assert!(m.display[62]);
    let lit = m.display.iter().filter(|p| **p).count();
    assert_eq!(lit, 4 + 2 + 2 + 2 + 4);
    run(&mut m, 1);
    assert!(m.display.iter().all(|p| !*p));
    assert_eq!(m.cpu.vx[0xF], 1);
}

#[test]
fn drawing_over_lit_pixels_twice_reports_no_second_collision() {
    let mut m = machine_with(&[0xA0, 0x00, 0xD0, 0x15, 0xD0, 0x15]);
    for p in m.display.iter_mut() {
        *p = true;
    }
    run(&mut m, 2);
    assert_eq!(m.cpu.vx[0xF], 1);
    run(&mut m, 1);
    assert_eq!(m.cpu.vx[0xF], 0);
    assert!(m.display.iter().all(|p| *p));
}

#[test]
fn call_then_return_resumes_after_call() {
    let mut m = machine_with(&[0x23, 0x00]);
    m.ram[0x300] = 0x00;
    m.ram[0x301] = 0xEE;
    run(&mut m, 1);
    assert_eq!(m.cpu.pc, 0x300);
    run(&mut m, 1);
    assert_eq!(m.cpu.pc, 0x202);
    assert_eq!(m.stack.size, 0);
}

#[test]
fn return_on_empty_stack_is_underflow() {
    let mut m = machine_with(&[0x00, 0xEE]);
    assert_eq!(m.run_instruction(&NO_KEYS, 0), Err(StackError::Underflow));
}

#[test]
fn call_on_full_stack_is_overflow() {
    // 2200 calls itself forever.
    let mut m = machine_with(&[0x22, 0x00]);
    run(&mut m, 16);
    assert_eq!(m.run_instruction(&NO_KEYS, 0), Err(StackError::Overflow));
    assert_eq!(m.stack.size, 16);
}

#[test]
fn stack_push_and_pop() {
    let mut s = Stack::new();
    assert_eq!(s.pop(), Err(StackError::Underflow));
    for a in 0..16u16 {
        assert_eq!(s.add(a * 2), Ok(()));
    }
    assert_eq!(s.add(99), Err(StackError::Overflow));
    assert_eq!(s.pop(), Ok(30));
    assert_eq!(s.pop(), Ok(28));
    assert_eq!(s.size, 14);
}

#[test]
fn skips_and_jumps() {
    let mut m = machine_with(&[0x30, 0x05, 0x00, 0x00, 0x40, 0x05, 0x50, 0x10, 0x00, 0x00, 0x90, 0x20]);
    m.cpu.vx[0] = 5;
    m.cpu.vx[1] = 5;
    m.cpu.vx[2] = 6;
    run(&mut m, 1);
    assert_eq!(m.cpu.pc, 0x204);
    run(&mut m, 1);
    assert_eq!(m.cpu.pc, 0x206);
    run(&mut m, 1);
    assert_eq!(m.cpu.pc, 0x20A);
    run(&mut m, 1);
    assert_eq!(m.cpu.pc, 0x20E);
}

#[test]
fn jump_with_offset_adds_v0() {
    let mut m = machine_with(&[0x13, 0x00]);
    m.ram[0x300] = 0xB4;
    m.ram[0x301] = 0x00;
    m.cpu.vx[0] = 0x10;
    run(&mut m, 2);
    assert_eq!(m.cpu.pc, 0x410);
}

#[test]
fn random_is_masked() {
    let mut m = machine_with(&[0xC3, 0x0F]);
    assert_eq!(m.run_instruction(&NO_KEYS, 0xAB), Ok(Outcome::Executed));
    assert_eq!(m.cpu.vx[3], 0x0B);
    let mut m = machine_with(&[0xC3, 0x00]);
    assert_eq!(m.step(&NO_KEYS), Ok(Outcome::Executed));
    assert_eq!(m.cpu.vx[3], 0);
}

#[test]
fn key_skips() {
    let mut keys = [false; 16];
    keys[7] = true;
    let mut m = machine_with(&[0xE1, 0x9E, 0x00, 0x00, 0xE1, 0xA1]);
    m.cpu.vx[1] = 7;
    assert_eq!(m.run_instruction(&keys, 0), Ok(Outcome::Executed));
    assert_eq!(m.cpu.pc, 0x204);
    assert_eq!(m.run_instruction(&keys, 0), Ok(Outcome::Executed));
    assert_eq!(m.cpu.pc, 0x206);
    // A code outside the keypad is never down.
    let mut m = machine_with(&[0xE1, 0xA1]);
    m.cpu.vx[1] = 0x42;
    assert_eq!(m.run_instruction(&keys, 0), Ok(Outcome::Executed));
    assert_eq!(m.cpu.pc, 0x204);
}

#[test]
fn wait_for_key_blocks_until_pressed() {
    let mut m = machine_with(&[0xF5, 0x0A]);
    run(&mut m, 3);
    assert_eq!(m.cpu.pc, 0x200);
    let mut keys = [false; 16];
    keys[0xC] = true;
    keys[0xE] = true;
    assert_eq!(m.run_instruction(&keys, 0), Ok(Outcome::Executed));
    assert_eq!(m.cpu.vx[5], 0xC);
    assert_eq!(m.cpu.pc, 0x202);
}

#[test]
fn timers_instructions() {
    let mut m = machine_with(&[0xF2, 0x15, 0xF3, 0x18, 0xF4, 0x07]);
    m.cpu.vx[2] = 30;
    m.cpu.vx[3] = 9;
    run(&mut m, 3);
    assert_eq!(m.delay_value(), 30);
    assert_eq!(m.sound_value(), 9);
    assert_eq!(m.cpu.vx[4], 30);
}

#[test]
fn index_instructions() {
    let mut m = machine_with(&[0xAF, 0xF0, 0xF1, 0x1E, 0xF2, 0x29]);
    m.cpu.vx[1] = 0x20;
    m.cpu.vx[2] = 0x0B;
    run(&mut m, 2);
    // 0xFF0 + 0x20 wraps within the 12-bit address space.
    assert_eq!(m.cpu.i, 0x010);
    run(&mut m, 1);
    assert_eq!(m.cpu.i, 0x0B * 5);
    assert_eq!(m.ram[0x0B * 5], 0xE0);
}

#[test]
fn bcd_store() {
    let mut m = machine_with(&[0xA3, 0x00, 0xF1, 0x33]);
    m.cpu.vx[1] = 254;
    run(&mut m, 2);
    assert_eq!(&m.ram[0x300..0x303], &[2, 5, 4]);
}

#[test]
fn store_and_load_registers_inclusive() {
    let mut m = machine_with(&[0xA3, 0x00, 0xF2, 0x55, 0xA4, 0x00, 0xF1, 0x65]);
    m.cpu.vx[0] = 1;
    m.cpu.vx[1] = 2;
    m.cpu.vx[2] = 3;
    m.cpu.vx[3] = 4;
    m.ram[0x400] = 9;
    m.ram[0x401] = 8;
    m.ram[0x402] = 7;
    run(&mut m, 2);
    assert_eq!(&m.ram[0x300..0x304], &[1, 2, 3, 0]);
    run(&mut m, 2);
    assert_eq!(&m.cpu.vx[0..4], &[9, 8, 3, 4]);
    assert_eq!(m.cpu.i, 0x400);
}

#[test]
fn unknown_opcode_only_advances() {
    let mut m = machine_with(&[0x51, 0x23, 0xFF, 0xFF]);
    assert_eq!(m.run_instruction(&NO_KEYS, 0), Ok(Outcome::Unrecognized(0x5123)));
    assert_eq!(m.cpu.pc, 0x202);
    assert_eq!(m.run_instruction(&NO_KEYS, 0), Ok(Outcome::Unrecognized(0xFFFF)));
    assert_eq!(m.cpu.pc, 0x204);
}

#[test]
fn program_counter_wraps_at_end_of_memory() {
    let mut m = machine_with(&[0x1F, 0xFE]);
    m.ram[0xFFE] = 0x60;
    m.ram[0xFFF] = 0x2A;
    run(&mut m, 2);
    assert_eq!(m.cpu.vx[0], 0x2A);
    assert_eq!(m.cpu.pc, 0x000);
}

#[test]
fn load_rom_limits() {
    let mut m = Chip8::new();
    assert_eq!(m.load_rom(vec![0xAB; 4096 - 0x200]), Ok(()));
    assert_eq!(m.ram[4095], 0xAB);
    let mut m = Chip8::new();
    assert_eq!(m.load_rom(vec![1; 4096 - 0x200 + 1]), Err(LoadError::RomTooLarge));
    assert!(m.ram.iter().all(|b| *b == 0));
}

#[test]
fn new_machine_and_font() {
    let m = machine_with(&[]);
    assert_eq!(m.cpu.pc, PROGRAM_START);
    assert_eq!(&m.ram[0..5], &[0xF0, 0x90, 0x90, 0x90, 0xF0]);
    assert_eq!(&m.ram[75..80], &[0xF0, 0x80, 0xF0, 0x80, 0x80]);
    assert_eq!(m.ram[80], 0);
}

#[test]
fn timer_counts_down_by_whole_ticks() {
    let mut t = Timer::new();
    t.delay = 10;
    t.sound = 2;
    // Exactly 3/60 s.
    t.delay_countdown(50_000_000);
    assert_eq!(t.delay, 7);
    assert_eq!(t.sound, 0);
    // Less than 1/60 s leaves it unchanged.
    t.delay_countdown(16_000_000);
    assert_eq!(t.delay, 7);
    // The remainder carries over to the next call.
    t.delay_countdown(1_000_000);
    assert_eq!(t.delay, 6);
    t.delay_countdown(u64::MAX);
    assert_eq!(t.delay, 0);
}

#[test]
fn machine_tick_timers() {
    let mut m = machine_with(&[]);
    m.hour.delay = 5;
    // Just past 2/60 s.
    m.tick_timers(33_333_334);
    assert_eq!(m.delay_value(), 3);
}

#[test]
fn decode_splits_nibbles() {
    let op = Opcode::decode(0xD1, 0x2F);
    assert_eq!(op, Opcode { d1: 0xD, d2: 1, d3: 2, d4: 0xF });
    assert_eq!(op.instruction(), Instruction::Draw { x: 1, y: 2, n: 0xF });
    assert_eq!(Opcode::decode(0x12, 0x34).instruction(), Instruction::Jump { nnn: 0x234 });
    assert_eq!(Opcode::decode(0x00, 0x00).instruction(), Instruction::Unknown { word: 0 });
}

#[test]
fn keymap_round_trips() {
    for k in 0..16u8 {
        assert_eq!(logical_key(host_key(k)), Some(k));
    }
    assert_eq!(logical_key(HostKey::Other), None);
    assert_eq!(host_key(0xC), HostKey::Key4);
    let m = Chip8::new();
    assert_eq!(m.match_key(HostKey::V), Some(0xF));
}
