use chip8::cpu::{Fault, Tick, CPU};
use chip8::instruction::{decode, Instruction};

fn machine(program: &[u8]) -> CPU {
    let mut cpu = CPU::new();
    cpu.load_rom(&program.to_vec());
    cpu
}

fn run(cpu: &mut CPU, cycles: usize) {
    for _ in 0..cycles {
        assert_eq!(cpu.emulate_cycle(), Ok(()));
    }
}

#[test]
fn end_to_end_add_program() {
    let mut cpu = machine(&[0x60, 0x0A, 0x61, 0x05, 0x80, 0x14]);
    run(&mut cpu, 3);
    assert_eq!(cpu.register(0), 0x0F);
    assert_eq!(cpu.register(0xF), 0);
    assert_eq!(cpu.pc(), 0x206);
}

#[test]
fn add_sets_carry_on_overflow() {
    let mut cpu = machine(&[0x60, 0xFF, 0x61, 0x02, 0x80, 0x14]);
    run(&mut cpu, 3);
    assert_eq!(cpu.register(0), 0x01);
    assert_eq!(cpu.register(0xF), 1);
}

#[test]
fn add_exactly_255_has_no_carry() {
    let mut cpu = machine(&[0x60, 0xF0, 0x61, 0x0F, 0x80, 0x14]);
    run(&mut cpu, 3);
    assert_eq!(cpu.register(0), 0xFF);
    assert_eq!(cpu.register(0xF), 0);
}

#[test]
fn sub_without_borrow_sets_flag() {
    let mut cpu = machine(&[0x60, 0x05, 0x61, 0x05, 0x80, 0x15]);
    run(&mut cpu, 3);
    assert_eq!(cpu.register(0), 0);
    assert_eq!(cpu.register(0xF), 1);
}

#[test]
fn sub_with_borrow_clears_flag() {
    let mut cpu = machine(&[0x60, 0x03, 0x61, 0x05, 0x80, 0x15]);
    run(&mut cpu, 3);
    assert_eq!(cpu.register(0), 0xFE);
    assert_eq!(cpu.register(0xF), 0);
}

#[test]
fn sub_from_reverses_operands() {
    let mut cpu = machine(&[0x60, 0x03, 0x61, 0x05, 0x80, 0x17]);
    run(&mut cpu, 3);
    assert_eq!(cpu.register(0), 0x02);
    assert_eq!(cpu.register(0xF), 1);
}

#[test]
fn shift_left_flags_high_bit() {
    let mut cpu = machine(&[0x60, 0x81, 0x80, 0x0E]);
    run(&mut cpu, 2);
    assert_eq!(cpu.register(0), 0x02);
    assert_eq!(cpu.register(0xF), 1);
}

#[test]
fn shift_right_flags_low_bit() {
    let mut cpu = machine(&[0x60, 0x81, 0x80, 0x06, 0x61, 0x02, 0x81, 0x06]);
    run(&mut cpu, 2);
    assert_eq!(cpu.register(0), 0x40);
    assert_eq!(cpu.register(0xF), 1);
    run(&mut cpu, 2);
    assert_eq!(cpu.register(1), 0x01);
    assert_eq!(cpu.register(0xF), 0);
}

#[test]
fn bitwise_ops() {
    let mut cpu = machine(&[0x60, 0x0C, 0x61, 0x0A, 0x82, 0x00, 0x82, 0x11, 0x83, 0x00, 0x83, 0x12, 0x84, 0x00, 0x84, 0x13]);
    run(&mut cpu, 8);
    assert_eq!(cpu.register(2), 0x0E);
    assert_eq!(cpu.register(3), 0x08);
    assert_eq!(cpu.register(4), 0x06);
}

#[test]
fn add_immediate_wraps_without_flag() {
    let mut cpu = machine(&[0x6F, 0x07, 0x60, 0xFE, 0x70, 0x03]);
    run(&mut cpu, 3);
    assert_eq!(cpu.register(0), 0x01);
    assert_eq!(cpu.register(0xF), 0x07);
}

#[test]
fn skips_advance_by_four() {
    let mut cpu = machine(&[0x60, 0x07, 0x30, 0x07]);
    run(&mut cpu, 2);
    assert_eq!(cpu.pc(), 0x206);
    let mut cpu = machine(&[0x60, 0x07, 0x40, 0x07]);
    run(&mut cpu, 2);
    assert_eq!(cpu.pc(), 0x204);
    let mut cpu = machine(&[0x60, 0x07, 0x61, 0x07, 0x50, 0x10]);
    run(&mut cpu, 3);
    assert_eq!(cpu.pc(), 0x208);
    let mut cpu = machine(&[0x60, 0x07, 0x61, 0x07, 0x90, 0x10]);
    run(&mut cpu, 3);
    assert_eq!(cpu.pc(), 0x206);
}

#[test]
fn call_and_return() {
    // 0x200: call 0x300; at 0x300: return
    let mut program = vec![0u8; 0x102];
    program[0] = 0x23;
    program[1] = 0x00;
    program[0x100] = 0x00;
    program[0x101] = 0xEE;
    let mut cpu = machine(&program);
    run(&mut cpu, 1);
    assert_eq!(cpu.pc(), 0x300);
    assert_eq!(cpu.sp(), 1);
    run(&mut cpu, 1);
    assert_eq!(cpu.pc(), 0x202);
    assert_eq!(cpu.sp(), 0);
}

#[test]
fn nested_calls_restore_pc() {
    // 0x200: call 0x210; 0x210: call 0x220; 0x220: call 0x230; 0x230: ret; 0x212: ret; 0x222: ret
    let mut program = vec![0u8; 0x40];
    program[0x00] = 0x22;
    program[0x01] = 0x10;
    program[0x10] = 0x22;
    program[0x11] = 0x20;
    program[0x12] = 0x00;
    program[0x13] = 0xEE;
    program[0x20] = 0x22;
    program[0x21] = 0x30;
    program[0x22] = 0x00;
    program[0x23] = 0xEE;
    program[0x30] = 0x00;
    program[0x31] = 0xEE;
    let mut cpu = machine(&program);
    run(&mut cpu, 3);
    assert_eq!(cpu.sp(), 3);
    run(&mut cpu, 3);
    assert_eq!(cpu.sp(), 0);
    assert_eq!(cpu.pc(), 0x202);
}

#[test]
fn return_on_empty_stack_faults() {
    let mut cpu = machine(&[0x00, 0xEE]);
    assert_eq!(cpu.emulate_cycle(), Err(Fault::StackUnderflow));
    assert_eq!(cpu.pc(), 0x200);
}

#[test]
fn call_on_full_stack_faults() {
    let mut cpu = machine(&[0x22, 0x00]);
    run(&mut cpu, 16);
    assert_eq!(cpu.sp(), 16);
    assert_eq!(cpu.emulate_cycle(), Err(Fault::StackOverflow));
}

#[test]
fn jump_and_jump_with_offset() {
    let mut cpu = machine(&[0x12, 0x06, 0, 0, 0, 0, 0x60, 0x04, 0xB3, 0x00]);
    run(&mut cpu, 3);
    assert_eq!(cpu.pc(), 0x304);
}

#[test]
fn unknown_opcode_is_skipped() {
    let mut cpu = machine(&[0x01, 0x23, 0x80, 0x08, 0xFF, 0xFF]);
    run(&mut cpu, 3);
    assert_eq!(cpu.pc(), 0x206);
    assert_eq!(decode(0x0123), Instruction::Unknown);
    assert_eq!(decode(0xE0A2), Instruction::Unknown);
}

#[test]
fn decode_picks_fields() {
    assert_eq!(decode(0xD12F), Instruction::Draw { x: 1, y: 2, n: 0xF });
    assert_eq!(decode(0x8AB4), Instruction::Add { x: 0xA, y: 0xB });
    assert_eq!(decode(0xA123), Instruction::LoadIndex { nnn: 0x123 });
    assert_eq!(decode(0xF565), Instruction::LoadRegs { x: 5 });
    assert_eq!(decode(0x00E0), Instruction::ClearScreen);
}

#[test]
fn bcd_digits() {
    let mut cpu = machine(&[0x60, 234, 0xA3, 0x00, 0xF0, 0x33]);
    run(&mut cpu, 3);
    assert_eq!(cpu.memory(0x300), 2);
    assert_eq!(cpu.memory(0x301), 3);
    assert_eq!(cpu.memory(0x302), 4);
}

#[test]
fn store_and_load_registers() {
    let mut cpu = machine(&[0x60, 0x11, 0x61, 0x22, 0x62, 0x33, 0xA3, 0x00, 0xF1, 0x55, 0xA3, 0x01, 0xF1, 0x65]);
    run(&mut cpu, 5);
    assert_eq!(cpu.memory(0x300), 0x11);
    assert_eq!(cpu.memory(0x301), 0x22);
    assert_eq!(cpu.memory(0x302), 0);
    run(&mut cpu, 2);
    assert_eq!(cpu.register(0), 0x22);
    assert_eq!(cpu.register(1), 0);
    assert_eq!(cpu.register(2), 0x33);
}

#[test]
fn memory_past_end_faults() {
    let mut cpu = machine(&[0xAF, 0xFF, 0xF2, 0x55]);
    run(&mut cpu, 1);
    assert_eq!(cpu.emulate_cycle(), Err(Fault::MemoryOutOfBounds));
    assert_eq!(cpu.pc(), 0x202);
}

#[test]
fn glyph_address_and_font() {
    let mut cpu = machine(&[0x60, 0x0A, 0xF0, 0x29]);
    run(&mut cpu, 2);
    assert_eq!(cpu.index(), 50);
    assert_eq!(cpu.memory(50), 0xF0);
    assert_eq!(cpu.memory(51), 0x90);
    assert_eq!(cpu.memory(0), 0xF0);
    assert_eq!(cpu.memory(79), 0x80);
    assert_eq!(cpu.memory(80), 0);
}

#[test]
fn add_index() {
    let mut cpu = machine(&[0xA1, 0x00, 0x60, 0x20, 0xF0, 0x1E]);
    run(&mut cpu, 3);
    assert_eq!(cpu.index(), 0x120);
    assert_eq!(cpu.register(0xF), 0);
}

#[test]
fn timers_load_and_count_down() {
    let mut cpu = machine(&[0x60, 0x02, 0xF0, 0x15, 0xF0, 0x18, 0xF1, 0x07]);
    run(&mut cpu, 4);
    assert_eq!(cpu.register(1), 2);
    assert_eq!(cpu.update_timers(), true);
    assert_eq!(cpu.delay_timer(), 1);
    assert_eq!(cpu.sound_timer(), 1);
    assert_eq!(cpu.update_timers(), true);
    assert_eq!(cpu.update_timers(), false);
    assert_eq!(cpu.delay_timer(), 0);
    assert_eq!(cpu.sound_timer(), 0);
}

#[test]
fn random_is_masked() {
    let mut cpu = machine(&[0xC0, 0x00, 0xC1, 0x0F]);
    run(&mut cpu, 2);
    assert_eq!(cpu.register(0), 0);
    assert!(cpu.register(1) <= 0x0F);
}

#[test]
fn random_with_given_byte() {
    let mut cpu = machine(&[0xC0, 0x3C]);
    assert_eq!(cpu.cycle_with(0xA5), Ok(()));
    assert_eq!(cpu.register(0), 0x24);
}

#[test]
fn wait_key_blocks_then_resumes() {
    let mut cpu = machine(&[0xF3, 0x0A, 0x60, 0x01]);
    for _ in 0..5 {
        run(&mut cpu, 1);
        assert_eq!(cpu.pc(), 0x200);
    }
    let mut keys = [false; 16];
    keys[7] = true;
    keys[9] = true;
    cpu.set_keys(keys);
    run(&mut cpu, 1);
    assert_eq!(cpu.register(3), 7);
    assert_eq!(cpu.pc(), 0x202);
    run(&mut cpu, 1);
    assert_eq!(cpu.pc(), 0x204);
}

#[test]
fn key_skips() {
    let mut keys = [false; 16];
    keys[5] = true;
    let mut cpu = machine(&[0x60, 0x05, 0xE0, 0x9E]);
    cpu.set_keys(keys);
    run(&mut cpu, 2);
    assert_eq!(cpu.pc(), 0x206);
    let mut cpu = machine(&[0x60, 0x05, 0xE0, 0xA1]);
    cpu.set_keys(keys);
    run(&mut cpu, 2);
    assert_eq!(cpu.pc(), 0x204);
}

#[test]
fn key_out_of_range_faults() {
    let mut cpu = machine(&[0x60, 0x20, 0xE0, 0x9E]);
    run(&mut cpu, 1);
    assert_eq!(cpu.emulate_cycle(), Err(Fault::KeyOutOfRange));
}

#[test]
fn fetch_at_end_of_memory_faults() {
    let mut cpu = machine(&[0x1F, 0xFF]);
    run(&mut cpu, 1);
    assert_eq!(cpu.emulate_cycle(), Err(Fault::AddressOutOfBounds));
}

#[test]
fn tick_halts_on_bad_pc() {
    let mut cpu = machine(&[]);
    cpu.set_pc(5000);
    assert_eq!(cpu.tick(true, false, true, [false; 16]), Tick::Fault(Fault::AddressOutOfBounds));
    assert_eq!(cpu.pc(), 5000);
}

#[test]
fn tick_halts_on_bad_sp() {
    let mut cpu = machine(&[]);
    cpu.set_sp(17);
    assert_eq!(cpu.tick(true, false, false, [false; 16]), Tick::Fault(Fault::StackOverflow));
}

#[test]
fn tick_quits_and_waits() {
    let mut cpu = machine(&[0x60, 0x01]);
    assert_eq!(cpu.tick(false, false, true, [false; 16]), Tick::Quit);
    assert_eq!(cpu.tick(true, true, true, [false; 16]), Tick::Quit);
    assert_eq!(cpu.tick(true, false, false, [false; 16]), Tick::Wait);
    assert_eq!(cpu.pc(), 0x200);
}

#[test]
fn tick_runs_a_frame() {
    // set sound timer to 3, then spin on a jump to self
    let mut cpu = machine(&[0x60, 0x03, 0xF0, 0x18, 0x12, 0x04]);
    assert_eq!(cpu.tick(true, false, true, [false; 16]), Tick::Frame { sound: true });
    assert_eq!(cpu.sound_timer(), 2);
    assert_eq!(cpu.pc(), 0x204);
}

#[test]
fn frame_with_given_bytes() {
    let mut cpu = machine(&[0x12, 0x00]);
    let rnds = vec![0u8; 12];
    assert_eq!(cpu.frame_with([false; 16], &rnds), Ok(false));
    assert_eq!(cpu.pc(), 0x200);
}

#[test]
fn oversized_rom_is_cut() {
    let mut cpu = CPU::new();
    let rom = vec![0xABu8; 5000];
    cpu.load_rom(&rom);
    assert_eq!(cpu.memory(0x200), 0xAB);
    assert_eq!(cpu.memory(4095), 0xAB);
    assert_eq!(cpu.memory(0x1FF), 0);
}

#[test]
fn clear_screen_instruction() {
    let mut cpu = machine(&[0xA0, 0x00, 0xD0, 0x05, 0x00, 0xE0]);
    run(&mut cpu, 2);
    assert!(cpu.screen().pixel(0, 0));
    run(&mut cpu, 1);
    assert!(!cpu.screen().pixel(0, 0));
    assert_eq!(cpu.pc(), 0x206);
}

#[test]
fn draw_instruction_reports_collision() {
    let mut cpu = machine(&[0xA0, 0x00, 0xD0, 0x05, 0xD0, 0x05]);
    run(&mut cpu, 2);
    assert_eq!(cpu.register(0xF), 0);
    assert!(cpu.screen().pixel(3, 0));
    assert!(!cpu.screen().pixel(4, 0));
    run(&mut cpu, 1);
    assert_eq!(cpu.register(0xF), 1);
    assert!(!cpu.screen().pixel(3, 0));
}
