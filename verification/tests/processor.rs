use emu8::framebuffer::Framebuffer;
use emu8::input::{InputReceiver, Key, KeyEvent, PhysicalKey};
use emu8::processor::{Action, Fault, Processor};
use emu8::timers::Timers;

struct Machine {
    cpu: Processor,
    fb: Framebuffer,
    timers: Timers,
    keys: InputReceiver,
}

fn machine(program: &[u8]) -> Machine {
    Machine {
        cpu: Processor::new(program),
        fb: Framebuffer::new(),
        timers: Timers::new(),
        keys: InputReceiver::new(),
    }
}

impl Machine {
    fn step(&mut self) -> Result<Action, Fault> {
        self.cpu.step(&mut self.fb, &mut self.timers, &self.keys)
    }

    fn run(&mut self, n: usize) {
        for _ in 0..n {
            assert_eq!(self.step(), Ok(Action::Next));
        }
    }
}

#[test]
fn fresh_machine_layout() {
    let m = machine(&[0x12, 0x00]);
    assert_eq!(m.cpu.program_counter, 0x200);
    assert_eq!(m.cpu.index_register, 0);
    assert_eq!(m.cpu.stack.len(), 0);
    assert!(m.cpu.registers.iter().all(|&r| r == 0));
    assert_eq!(m.cpu.memory.len(), 4096);
    assert_eq!(m.cpu.memory[0x200], 0x12);
    assert_eq!(m.cpu.memory[0x201], 0x00);
    // The font table starts with glyph 0 and ends with glyph F's last row.
    assert_eq!(m.cpu.memory[0x50], 0xF0);
    assert_eq!(m.cpu.memory[0x9F], 0x80);
}

#[test]
fn plain_instruction_advances_pc_by_two() {
    let mut m = machine(&[0x60, 0x05]);
    m.run(1);
    assert_eq!(m.cpu.program_counter, 0x202);
}

#[test]
fn taken_skip_advances_pc_by_four() {
    let mut m = machine(&[0x60, 0x05, 0x30, 0x05]);
    m.run(2);
    assert_eq!(m.cpu.program_counter, 0x206);
}

#[test]
fn untaken_skip_advances_pc_by_two() {
    let mut m = machine(&[0x30, 0x05]);
    m.run(1);
    assert_eq!(m.cpu.program_counter, 0x202);
}

#[test]
fn jump_and_call_and_return() {
    // 0x200: call 0x206; 0x206: return; then 0x202: jump 0x20A.
    let mut m = machine(&[0x22, 0x06, 0x12, 0x0A, 0x00, 0x00, 0x00, 0xEE]);
    m.run(1);
    assert_eq!(m.cpu.program_counter, 0x206);
    assert_eq!(m.cpu.stack, vec![0x202]);
    m.run(1);
    assert_eq!(m.cpu.program_counter, 0x202);
    assert_eq!(m.cpu.stack.len(), 0);
    m.run(1);
    assert_eq!(m.cpu.program_counter, 0x20A);
}

#[test]
fn register_moves_and_logic() {
    let mut m = machine(&[
        0x60, 0x0F, // V0 = 0x0F
        0x61, 0x33, // V1 = 0x33
        0x82, 0x10, // V2 = V1
        0x82, 0x01, // V2 |= V0
        0x83, 0x10, // V3 = V1
        0x83, 0x02, // V3 &= V0
        0x84, 0x10, // V4 = V1
        0x84, 0x03, // V4 ^= V0
    ]);
    m.run(8);
    assert_eq!(m.cpu.registers[2], 0x3F);
    assert_eq!(m.cpu.registers[3], 0x03);
    assert_eq!(m.cpu.registers[4], 0x3C);
}

#[test]
fn add_imm_wraps_without_touching_vf() {
    let mut m = machine(&[0x60, 0xFF, 0x70, 0x02]);
    m.run(2);
    assert_eq!(m.cpu.registers[0], 0x01);
    assert_eq!(m.cpu.registers[15], 0);
}

#[test]
fn add_reg_sets_carry_on_overflow() {
    let mut m = machine(&[0x60, 0xC8, 0x61, 0x64, 0x80, 0x14]);
    m.run(3);
    // 200 + 100 = 300: wraps to 44, carry set.
    assert_eq!(m.cpu.registers[0], 44);
    assert_eq!(m.cpu.registers[15], 1);
}

#[test]
fn add_reg_clears_carry_without_overflow() {
    let mut m = machine(&[0x60, 0x10, 0x61, 0x20, 0x80, 0x14]);
    m.run(3);
    assert_eq!(m.cpu.registers[0], 0x30);
    assert_eq!(m.cpu.registers[15], 0);
}

#[test]
fn sub_reg_flag_is_no_borrow() {
    let mut m = machine(&[0x60, 0x20, 0x61, 0x10, 0x80, 0x15]);
    m.run(3);
    assert_eq!(m.cpu.registers[0], 0x10);
    assert_eq!(m.cpu.registers[15], 1);
    let mut m2 = machine(&[0x60, 0x10, 0x61, 0x20, 0x80, 0x15]);
    m2.run(3);
    assert_eq!(m2.cpu.registers[0], 0xF0);
    assert_eq!(m2.cpu.registers[15], 0);
}

#[test]
fn sub_from_flag_is_no_borrow() {
    let mut m = machine(&[0x60, 0x10, 0x61, 0x20, 0x80, 0x17]);
    m.run(3);
    // V0 = V1 - V0 = 0x10, no borrow.
    assert_eq!(m.cpu.registers[0], 0x10);
    assert_eq!(m.cpu.registers[15], 1);
    let mut m2 = machine(&[0x60, 0x20, 0x61, 0x10, 0x80, 0x17]);
    m2.run(3);
    assert_eq!(m2.cpu.registers[0], 0xF0);
    assert_eq!(m2.cpu.registers[15], 0);
}

#[test]
fn shift_right_reports_low_bit() {
    let mut m = machine(&[0x60, 0x81, 0x80, 0x06]);
    m.run(2);
    assert_eq!(m.cpu.registers[0], 0x40);
    assert_eq!(m.cpu.registers[15], 1);
}

#[test]
fn shift_left_normalizes_the_flag_to_one() {
    let mut m = machine(&[0x60, 0x81, 0x80, 0x0E]);
    m.run(2);
    assert_eq!(m.cpu.registers[0], 0x02);
    // The pre-shift high bit was set: the flag is 1, not 0x80.
    assert_eq!(m.cpu.registers[15], 1);
}

#[test]
fn shift_left_clears_the_flag_on_a_low_value() {
    let mut m = machine(&[0x60, 0x41, 0x80, 0x0E]);
    m.run(2);
    assert_eq!(m.cpu.registers[0], 0x82);
    assert_eq!(m.cpu.registers[15], 0);
}

#[test]
fn jump_with_offset_uses_v0() {
    let mut m = machine(&[0x60, 0x04, 0xB2, 0x00]);
    m.run(2);
    assert_eq!(m.cpu.program_counter, 0x204);
}

#[test]
fn random_is_masked_by_nn() {
    let mut m = machine(&[0xC0, 0x00, 0xC1, 0x0F]);
    m.run(2);
    assert_eq!(m.cpu.registers[0], 0);
    assert!(m.cpu.registers[1] < 16);
}

#[test]
fn index_register_loads_and_adds() {
    // P9: V10 = 2, then add V10 to the index register.
    let mut m = machine(&[0x6A, 0x02, 0xFA, 0x1E]);
    m.run(2);
    assert_eq!(m.cpu.index_register, 2);
}

#[test]
fn set_index_takes_the_address() {
    let mut m = machine(&[0xA1, 0x23]);
    m.run(1);
    assert_eq!(m.cpu.index_register, 0x123);
}

#[test]
fn font_index_points_at_the_glyph() {
    let mut m = machine(&[0x60, 0x0F, 0xF0, 0x29]);
    m.run(2);
    assert_eq!(m.cpu.index_register, 0x50 + 5 * 0x0F);
    let base = m.cpu.index_register as usize;
    assert_eq!(&m.cpu.memory[base..base + 5], &[0xF0, 0x80, 0xF0, 0x80, 0x80]);
}

#[test]
fn bcd_of_157_is_1_5_7() {
    let mut m = machine(&[0x61, 0x9D, 0xA3, 0x00, 0xF1, 0x33]);
    m.run(3);
    assert_eq!(m.cpu.memory[0x300], 1);
    assert_eq!(m.cpu.memory[0x301], 5);
    assert_eq!(m.cpu.memory[0x302], 7);
}

#[test]
fn dump_then_load_restores_registers() {
    let mut m = machine(&[
        0x60, 0x11, // V0 = 0x11
        0x61, 0x22, // V1 = 0x22
        0x62, 0x33, // V2 = 0x33
        0xA4, 0x00, // I = 0x400
        0xF2, 0x55, // dump V0..=V2
        0x60, 0x00, // V0 = 0
        0x61, 0x00, // V1 = 0
        0x62, 0x00, // V2 = 0
        0xF2, 0x65, // load V0..=V2
    ]);
    m.run(9);
    assert_eq!(m.cpu.registers[0], 0x11);
    assert_eq!(m.cpu.registers[1], 0x22);
    assert_eq!(m.cpu.registers[2], 0x33);
    assert_eq!(m.cpu.memory[0x400], 0x11);
    assert_eq!(m.cpu.memory[0x401], 0x22);
    assert_eq!(m.cpu.memory[0x402], 0x33);
}

#[test]
fn dump_copies_up_to_x_inclusive() {
    let mut m = machine(&[0x60, 0x07, 0xA4, 0x00, 0xF0, 0x55]);
    m.run(3);
    assert_eq!(m.cpu.memory[0x400], 0x07);
    assert_eq!(m.cpu.memory[0x401], 0x00);
}

#[test]
fn timer_instructions_move_values_both_ways() {
    let mut m = machine(&[0x60, 0x2A, 0xF0, 0x15, 0xF0, 0x18, 0xF1, 0x07]);
    m.run(3);
    assert_eq!(m.timers.delay, 0x2A);
    assert_eq!(m.timers.sound, 0x2A);
    m.timers.tick();
    m.run(1);
    assert_eq!(m.cpu.registers[1], 0x29);
}

#[test]
fn skip_if_key_held_reads_the_mask() {
    let mut m = machine(&[0x60, 0x05, 0xE0, 0x9E, 0x00, 0x00, 0xE0, 0xA1]);
    m.keys.process_key_events(&vec![KeyEvent { key: Some(PhysicalKey::W), pressed: true }]);
    m.run(1);
    // Key 5 is held: EX9E skips over the 0000 word.
    m.run(1);
    assert_eq!(m.cpu.program_counter, 0x206);
    // Key 5 is still held: EXA1 does not skip.
    m.run(1);
    assert_eq!(m.cpu.program_counter, 0x208);
}

#[test]
fn out_of_range_key_value_never_matches() {
    let mut m = machine(&[0x60, 0xC8, 0xE0, 0x9E, 0xE0, 0xA1]);
    m.keys.key_states = 0xFFFF;
    m.run(1);
    // V0 = 200 names no key: EX9E does not skip, EXA1 does.
    m.run(1);
    assert_eq!(m.cpu.program_counter, 0x204);
    m.run(1);
    assert_eq!(m.cpu.program_counter, 0x208);
}

#[test]
fn wait_key_parks_and_store_key_completes() {
    let mut m = machine(&[0xF3, 0x0A]);
    let r = m.step();
    assert_eq!(r, Ok(Action::WaitKey { x: 3 }));
    assert_eq!(m.cpu.program_counter, 0x202);
    m.cpu.store_key(3, Key::KeyB);
    assert_eq!(m.cpu.registers[3], 0x0B);
}

#[test]
fn draw_writes_through_the_index_register() {
    // Glyph 0 at (0, 0): I = 0x50, draw 5 rows.
    let mut m = machine(&[0xA0, 0x50, 0xD0, 0x05]);
    m.run(2);
    assert_eq!(m.cpu.registers[15], 0);
    assert!(m.fb.pixel(0, 0));
    assert!(m.fb.pixel(3, 0));
    assert!(!m.fb.pixel(1, 1));
    // Drawing the same glyph again collides and erases it.
    let mut m2 = machine(&[0xA0, 0x50, 0xD0, 0x05, 0xD0, 0x05]);
    m2.run(3);
    assert_eq!(m2.cpu.registers[15], 1);
    assert!(m2.fb.snapshot().iter().all(|&b| b == 0));
}

#[test]
fn clear_screen_then_underflowing_return_halts() {
    // P8: 00E0 00EE clears the display, then faults on the empty stack.
    let mut m = machine(&[0x00, 0xE0, 0x00, 0xEE]);
    m.fb.pixels[0] = 0xFF;
    assert_eq!(m.step(), Ok(Action::Next));
    assert_eq!(m.step(), Err(Fault::StackUnderflow));
    assert!(m.fb.snapshot().iter().all(|&b| b == 0));
}

#[test]
fn unknown_opcodes_fault() {
    for program in [
        [0x50u8, 0x01],
        [0x80, 0x08],
        [0x90, 0x01],
        [0xE0, 0x00],
        [0xF0, 0x00],
        [0xFF, 0xFF],
    ] {
        let mut m = machine(&program);
        assert_eq!(m.step(), Err(Fault::UnknownOpcode));
        assert_eq!(m.cpu.program_counter, 0x202);
    }
}

#[test]
fn system_calls_fault() {
    let mut m = machine(&[0x01, 0x23]);
    assert_eq!(m.step(), Err(Fault::UnimplementedCall));
}

#[test]
fn draw_past_memory_end_faults() {
    let mut m = machine(&[0xAF, 0xFD, 0xD0, 0x05]);
    m.run(1);
    assert_eq!(m.step(), Err(Fault::MemoryOutOfBounds));
}

#[test]
fn bcd_past_memory_end_faults() {
    let mut m = machine(&[0xAF, 0xFE, 0xF0, 0x33]);
    m.run(1);
    assert_eq!(m.step(), Err(Fault::MemoryOutOfBounds));
}

#[test]
fn dump_past_memory_end_faults() {
    let mut m = machine(&[0xAF, 0xFF, 0xF1, 0x55]);
    m.run(1);
    assert_eq!(m.step(), Err(Fault::MemoryOutOfBounds));
}

#[test]
fn fetch_past_memory_end_faults() {
    let mut m = machine(&[0x1F, 0xFF]);
    m.run(1);
    assert_eq!(m.cpu.program_counter, 0xFFF);
    assert_eq!(m.step(), Err(Fault::FetchOutOfBounds));
}

#[test]
fn largest_program_loads_to_the_last_byte() {
    let mut program = vec![0u8; 4096 - 0x200];
    let last = program.len() - 1;
    program[last] = 0x77;
    let m = machine(&program);
    assert_eq!(m.cpu.memory[4095], 0x77);
    assert_eq!(m.cpu.program_counter, 0x200);
}
