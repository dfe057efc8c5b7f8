use chip8::display::{Color, Display, RenderTarget};
use chip8::engine::LoadError;
use chip8::instruction::Instruction;
use chip8::machine::{Fault, RunState, FONT};
use chip8::{Chip8, Keycode};

/// A target that counts the calls it receives.
struct Counter {
    clears: usize,
    rects: usize,
    white: usize,
    presents: usize,
}

impl RenderTarget for Counter {
    fn clear(&mut self) {
        self.clears += 1;
    }

    fn size(&self) -> (usize, usize) {
        (640, 320)
    }

    fn fill_rect(&mut self, _x: usize, _y: usize, _w: usize, _h: usize, color: Color) {
        self.rects += 1;
        if color == Color::White {
            self.white += 1;
        }
    }

    fn present(&mut self) {
        self.presents += 1;
    }
}

fn machine() -> Chip8<Counter> {
    Chip8::new(Display::new(Counter { clears: 0, rects: 0, white: 0, presents: 0 }))
}

fn set(emu: &mut Chip8<Counter>, reg: u8, value: u8) {
    emu.execute(Instruction::SetRegToByte(reg, value)).unwrap();
}

fn lit_cells(emu: &Chip8<Counter>) -> Vec<(usize, usize)> {
    let mut cells = Vec::new();
    for y in 0..32 {
        for x in 0..64 {
            if emu.display().pixel(x, y) {
                cells.push((x, y));
            }
        }
    }
    cells
}

#[test]
fn lib_fx29() {
    let mut emu = machine();
    set(&mut emu, 0x0, 213);
    emu.execute(Instruction::SetI(0x200)).unwrap();

    emu.execute(Instruction::StoreNumberFromRegToI(0x0)).unwrap();

    assert_eq!(emu.memory()[0x200], 2);
    assert_eq!(emu.memory()[0x201], 1);
    assert_eq!(emu.memory()[0x202], 3);
}

#[test]
fn main_fx29() {
    let mut emu = machine();
    set(&mut emu, 0x0, 213);
    emu.execute(Instruction::SetI(0x200)).unwrap();

    emu.execute(Instruction::StoreNumberFromRegToI(0x0)).unwrap();

    assert_eq!(emu.memory()[0x200], 2);
    assert_eq!(emu.memory()[0x201], 1);
    assert_eq!(emu.memory()[0x202], 3);
}

#[test]
fn new_machine_is_zeroed_with_font_and_start_address() {
    let emu = machine();
    assert_eq!(emu.pc(), 0x200);
    assert_eq!(emu.i(), 0);
    assert_eq!(emu.sp(), 0);
    assert_eq!(emu.delay_timer(), 0);
    assert_eq!(emu.sound_timer(), 0);
    assert_eq!(emu.registers(), &[0u8; 16]);
    assert_eq!(emu.stack(), &[0u16; 16]);
    assert_eq!(emu.run_state(), RunState::Running);
    assert!(emu.pending_keys().is_empty());
    assert_eq!(&emu.memory()[..80], &FONT[..]);
    assert_eq!(&emu.memory()[0..5], &[0xF0, 0x90, 0x90, 0x90, 0xF0]);
    assert_eq!(&emu.memory()[75..80], &[0xF0, 0x80, 0xF0, 0x80, 0x80]);
    assert!(emu.memory()[80..].iter().all(|byte| *byte == 0));
    assert!(lit_cells(&emu).is_empty());
}

#[test]
fn bcd_of_every_byte() {
    let mut emu = machine();
    emu.execute(Instruction::SetI(0x300)).unwrap();
    for v in 0..=255u8 {
        set(&mut emu, 3, v);
        emu.execute(Instruction::StoreNumberFromRegToI(3)).unwrap();
        let hundreds = v / 100;
        let tens = (v - 100 * hundreds) / 10;
        let ones = v - 100 * hundreds - 10 * tens;
        assert_eq!(&emu.memory()[0x300..0x303], &[hundreds, tens, ones]);
        assert_eq!(emu.memory()[0x2FF], 0);
        assert_eq!(emu.memory()[0x303], 0);
    }
}

#[test]
fn add_regs_sum_256_sets_carry() {
    let mut emu = machine();
    set(&mut emu, 1, 200);
    set(&mut emu, 2, 56);
    emu.execute(Instruction::AddRegs(1, 2)).unwrap();
    assert_eq!(emu.registers()[0xF], 1);
    assert_eq!(emu.registers()[1], 0);
    assert_eq!(emu.registers()[2], 56);
}

#[test]
fn add_regs_sum_255_has_no_carry() {
    let mut emu = machine();
    set(&mut emu, 1, 200);
    set(&mut emu, 2, 55);
    set(&mut emu, 0xF, 1);
    emu.execute(Instruction::AddRegs(1, 2)).unwrap();
    assert_eq!(emu.registers()[0xF], 0);
    assert_eq!(emu.registers()[1], 255);
}

#[test]
fn add_regs_into_flag_register_keeps_the_result() {
    let mut emu = machine();
    set(&mut emu, 0xF, 200);
    set(&mut emu, 2, 57);
    emu.execute(Instruction::AddRegs(0xF, 2)).unwrap();
    assert_eq!(emu.registers()[0xF], 1);
    set(&mut emu, 0xF, 200);
    set(&mut emu, 2, 56);
    emu.execute(Instruction::AddRegs(0xF, 2)).unwrap();
    assert_eq!(emu.registers()[0xF], 0);
}

#[test]
fn sub_regs_without_and_with_borrow() {
    let mut emu = machine();
    set(&mut emu, 0, 5);
    set(&mut emu, 1, 3);
    emu.execute(Instruction::SubRegs(0, 1)).unwrap();
    assert_eq!(emu.registers()[0xF], 1);
    assert_eq!(emu.registers()[0], 2);

    set(&mut emu, 0, 3);
    set(&mut emu, 1, 5);
    emu.execute(Instruction::SubRegs(0, 1)).unwrap();
    assert_eq!(emu.registers()[0xF], 0);
    assert_eq!(emu.registers()[0], 254);
}

#[test]
fn sub_regs_of_equal_operands_does_not_borrow() {
    let mut emu = machine();
    set(&mut emu, 0, 7);
    set(&mut emu, 1, 7);
    emu.execute(Instruction::SubRegs(0, 1)).unwrap();
    assert_eq!(emu.registers()[0xF], 1);
    assert_eq!(emu.registers()[0], 0);
}

#[test]
fn reverse_sub_subtracts_first_from_second() {
    let mut emu = machine();
    set(&mut emu, 0, 3);
    set(&mut emu, 1, 5);
    emu.execute(Instruction::ReverseSubRegs(0, 1)).unwrap();
    assert_eq!(emu.registers()[0xF], 1);
    assert_eq!(emu.registers()[0], 2);
    assert_eq!(emu.registers()[1], 5);

    set(&mut emu, 0, 5);
    set(&mut emu, 1, 3);
    emu.execute(Instruction::ReverseSubRegs(0, 1)).unwrap();
    assert_eq!(emu.registers()[0xF], 0);
    assert_eq!(emu.registers()[0], 254);
}

#[test]
fn shifts_report_the_bit_shifted_out() {
    let mut emu = machine();
    set(&mut emu, 4, 0b1000_0101);
    emu.execute(Instruction::ShiftRight(4)).unwrap();
    assert_eq!(emu.registers()[0xF], 1);
    assert_eq!(emu.registers()[4], 0b0100_0010);
    emu.execute(Instruction::ShiftRight(4)).unwrap();
    assert_eq!(emu.registers()[0xF], 0);
    assert_eq!(emu.registers()[4], 0b0010_0001);

    set(&mut emu, 4, 0b1000_0101);
    emu.execute(Instruction::ShiftLeft(4)).unwrap();
    assert_eq!(emu.registers()[0xF], 1);
    assert_eq!(emu.registers()[4], 0b0000_1010);
    emu.execute(Instruction::ShiftLeft(4)).unwrap();
    assert_eq!(emu.registers()[0xF], 0);
    assert_eq!(emu.registers()[4], 0b0001_0100);
}

#[test]
fn logic_and_moves() {
    let mut emu = machine();
    set(&mut emu, 1, 0b1100);
    set(&mut emu, 2, 0b1010);
    emu.execute(Instruction::OrRegs(1, 2)).unwrap();
    assert_eq!(emu.registers()[1], 0b1110);
    set(&mut emu, 1, 0b1100);
    emu.execute(Instruction::AndRegs(1, 2)).unwrap();
    assert_eq!(emu.registers()[1], 0b1000);
    set(&mut emu, 1, 0b1100);
    emu.execute(Instruction::XorRegs(1, 2)).unwrap();
    assert_eq!(emu.registers()[1], 0b0110);
    emu.execute(Instruction::MoveValue(3, 2)).unwrap();
    assert_eq!(emu.registers()[3], 0b1010);
    assert_eq!(emu.registers()[0xF], 0);
}

#[test]
fn add_byte_wraps_and_leaves_the_flag() {
    let mut emu = machine();
    set(&mut emu, 5, 250);
    set(&mut emu, 0xF, 7);
    emu.execute(Instruction::AddByteToReg(5, 10)).unwrap();
    assert_eq!(emu.registers()[5], 4);
    assert_eq!(emu.registers()[0xF], 7);
}

#[test]
fn random_is_anded_with_the_mask() {
    let mut emu = machine();
    emu.execute_with(Instruction::SetRegToRandPlusByte(1, 0x0F), 0xA5).unwrap();
    assert_eq!(emu.registers()[1], 0x05);
    emu.execute_with(Instruction::SetRegToRandPlusByte(1, 0xF0), 0xFF).unwrap();
    assert_eq!(emu.registers()[1], 0xF0);
    set(&mut emu, 2, 0xFF);
    for _ in 0..200 {
        emu.execute(Instruction::SetRegToRandPlusByte(2, 0x3C)).unwrap();
        assert_eq!(emu.registers()[2] & !0x3C, 0);
    }
    emu.execute(Instruction::SetRegToRandPlusByte(2, 0x00)).unwrap();
    assert_eq!(emu.registers()[2], 0);
}

#[test]
fn skips_compare_registers_and_bytes() {
    let mut emu = machine();
    set(&mut emu, 1, 9);
    set(&mut emu, 2, 9);
    set(&mut emu, 3, 4);
    emu.execute(Instruction::SkipRegEqByte(1, 9)).unwrap();
    assert_eq!(emu.pc(), 0x202);
    emu.execute(Instruction::SkipRegEqByte(1, 8)).unwrap();
    assert_eq!(emu.pc(), 0x202);
    emu.execute(Instruction::SkipRegNotEqByte(1, 8)).unwrap();
    assert_eq!(emu.pc(), 0x204);
    emu.execute(Instruction::SkipRegNotEqByte(1, 9)).unwrap();
    assert_eq!(emu.pc(), 0x204);
    emu.execute(Instruction::SkipRegEqReg(1, 2)).unwrap();
    assert_eq!(emu.pc(), 0x206);
    emu.execute(Instruction::SkipRegEqReg(1, 3)).unwrap();
    assert_eq!(emu.pc(), 0x206);
    emu.execute(Instruction::SkipRegNotEqReg(1, 3)).unwrap();
    assert_eq!(emu.pc(), 0x208);
    emu.execute(Instruction::SkipRegNotEqReg(1, 2)).unwrap();
    assert_eq!(emu.pc(), 0x208);
}

#[test]
fn jumps_set_the_program_counter() {
    let mut emu = machine();
    emu.execute(Instruction::Jump(0xABC)).unwrap();
    assert_eq!(emu.pc(), 0xABC);
    set(&mut emu, 0, 0xFF);
    emu.execute(Instruction::JumpV0PlusByte(0xFFF)).unwrap();
    assert_eq!(emu.pc(), 0x10FE);
}

#[test]
fn call_pushes_and_return_pops() {
    let mut emu = machine();
    emu.execute(Instruction::CallSubroutine(0x300)).unwrap();
    assert_eq!(emu.sp(), 1);
    assert_eq!(emu.stack()[1], 0x200);
    assert_eq!(emu.pc(), 0x300);
    emu.execute(Instruction::CallSubroutine(0x400)).unwrap();
    assert_eq!(emu.sp(), 2);
    assert_eq!(emu.stack()[2], 0x300);
    emu.execute(Instruction::ReturnFromSubroutine).unwrap();
    assert_eq!((emu.pc(), emu.sp()), (0x300, 1));
    emu.execute(Instruction::ReturnFromSubroutine).unwrap();
    assert_eq!((emu.pc(), emu.sp()), (0x200, 0));
}

#[test]
fn return_without_call_is_a_fault() {
    let mut emu = machine();
    emu.execute(Instruction::Jump(0x234)).unwrap();
    assert_eq!(emu.execute(Instruction::ReturnFromSubroutine), Err(Fault::StackUnderflow));
    assert_eq!((emu.pc(), emu.sp()), (0x234, 0));
}

#[test]
fn sixteenth_nested_call_is_a_fault() {
    let mut emu = machine();
    for depth in 1..=15u16 {
        emu.execute(Instruction::CallSubroutine(0x300 + depth)).unwrap();
        assert_eq!(emu.sp(), depth as usize);
    }
    let stack = *emu.stack();
    assert_eq!(emu.execute(Instruction::CallSubroutine(0x400)), Err(Fault::StackOverflow));
    assert_eq!(emu.sp(), 15);
    assert_eq!(emu.pc(), 0x30F);
    assert_eq!(emu.stack(), &stack);
}

#[test]
fn index_register_instructions() {
    let mut emu = machine();
    emu.execute(Instruction::SetI(0xFFF)).unwrap();
    assert_eq!(emu.i(), 0xFFF);
    set(&mut emu, 1, 0xFF);
    emu.execute(Instruction::AddRegToI(1)).unwrap();
    assert_eq!(emu.i(), 0x10FE);
    set(&mut emu, 2, 0xA);
    emu.execute(Instruction::SetIToDigitSpriteLoc(2)).unwrap();
    assert_eq!(emu.i(), 50);
    set(&mut emu, 2, 255);
    emu.execute(Instruction::SetIToDigitSpriteLoc(2)).unwrap();
    assert_eq!(emu.i(), 1275);
}

#[test]
fn index_register_wraps_at_sixteen_bits() {
    let mut emu = machine();
    set(&mut emu, 1, 0xFF);
    emu.execute(Instruction::SetI(0xFFF)).unwrap();
    for _ in 0..241 {
        emu.execute(Instruction::AddRegToI(1)).unwrap();
    }
    assert_eq!(emu.i(), ((0xFFFu32 + 241 * 255) % 0x1_0000) as u16);
}

#[test]
fn timers_are_set_and_read() {
    let mut emu = machine();
    set(&mut emu, 1, 42);
    emu.execute(Instruction::SetDelayToReg(1)).unwrap();
    set(&mut emu, 1, 17);
    emu.execute(Instruction::SetSoundToReg(1)).unwrap();
    assert_eq!((emu.delay_timer(), emu.sound_timer()), (42, 17));
    emu.execute(Instruction::LoadDelayToReg(7)).unwrap();
    assert_eq!(emu.registers()[7], 42);
}

#[test]
fn timers_decay_by_one_when_due_and_stop_at_zero() {
    let mut emu = machine();
    set(&mut emu, 1, 2);
    emu.execute(Instruction::SetDelayToReg(1)).unwrap();
    set(&mut emu, 1, 1);
    emu.execute(Instruction::SetSoundToReg(1)).unwrap();

    assert!(!emu.update_timers(0));
    assert!(!emu.update_timers(16_000_000));
    assert_eq!((emu.delay_timer(), emu.sound_timer()), (2, 1));

    assert!(emu.update_timers(16_000_001));
    assert_eq!((emu.delay_timer(), emu.sound_timer()), (1, 0));
    assert!(emu.update_timers(5_000_000_000));
    assert_eq!((emu.delay_timer(), emu.sound_timer()), (0, 0));
    assert!(emu.update_timers(u128::MAX));
    assert_eq!((emu.delay_timer(), emu.sound_timer()), (0, 0));
}

#[test]
fn store_and_load_registers() {
    let mut emu = machine();
    for reg in 0..16u8 {
        set(&mut emu, reg, 0x10 + reg);
    }
    emu.execute(Instruction::SetI(0x400)).unwrap();
    emu.execute(Instruction::StoreRegsToMem(3)).unwrap();
    assert_eq!(&emu.memory()[0x400..0x405], &[0x10, 0x11, 0x12, 0x13, 0]);
    assert_eq!(emu.i(), 0x400);

    emu.execute(Instruction::SetI(0x000)).unwrap();
    emu.execute(Instruction::LoadRegsFromMem(2)).unwrap();
    assert_eq!(&emu.registers()[..4], &[0xF0, 0x90, 0x90, 0x13]);
    emu.execute(Instruction::StoreRegsToMem(0xF)).unwrap();
    assert_eq!(&emu.memory()[0..16], &emu.registers()[..]);
}

#[test]
fn memory_access_beyond_the_end_is_a_fault() {
    let mut emu = machine();
    set(&mut emu, 0, 123);
    emu.execute(Instruction::SetI(0xFFD)).unwrap();
    emu.execute(Instruction::StoreNumberFromRegToI(0)).unwrap();
    assert_eq!(&emu.memory()[0xFFD..], &[1, 2, 3]);

    emu.execute(Instruction::SetI(0xFFE)).unwrap();
    let memory = *emu.memory();
    let registers = *emu.registers();
    assert_eq!(
        emu.execute(Instruction::StoreNumberFromRegToI(0)),
        Err(Fault::AddressOutOfRange)
    );
    assert_eq!(emu.execute(Instruction::StoreRegsToMem(2)), Err(Fault::AddressOutOfRange));
    assert_eq!(emu.execute(Instruction::LoadRegsFromMem(2)), Err(Fault::AddressOutOfRange));
    assert_eq!(emu.execute(Instruction::DrawSprite(0, 0, 3)), Err(Fault::AddressOutOfRange));
    assert_eq!(emu.memory(), &memory);
    assert_eq!(emu.registers(), &registers);
    assert!(lit_cells(&emu).is_empty());
    assert_eq!(emu.execute(Instruction::StoreRegsToMem(1)), Ok(()));
    assert_eq!(emu.execute(Instruction::LoadRegsFromMem(1)), Ok(()));
    assert_eq!(emu.execute(Instruction::DrawSprite(0, 0, 2)), Ok(()));
}

#[test]
fn draw_sprite_sets_pixels_and_collision_flag() {
    let mut emu = machine();
    set(&mut emu, 0, 1);
    emu.execute(Instruction::SetIToDigitSpriteLoc(0)).unwrap();
    set(&mut emu, 1, 8);
    set(&mut emu, 2, 4);
    set(&mut emu, 0xF, 9);
    emu.execute(Instruction::DrawSprite(1, 2, 5)).unwrap();
    assert_eq!(emu.registers()[0xF], 0);
    // The glyph "1": 0x20, 0x60, 0x20, 0x20, 0x70.
    assert_eq!(
        lit_cells(&emu),
        vec![(10, 4), (9, 5), (10, 5), (10, 6), (10, 7), (9, 8), (10, 8), (11, 8)]
    );
    emu.execute(Instruction::DrawSprite(1, 2, 5)).unwrap();
    assert_eq!(emu.registers()[0xF], 1);
    assert!(lit_cells(&emu).is_empty());

    emu.execute(Instruction::DrawSprite(1, 2, 0)).unwrap();
    assert_eq!(emu.registers()[0xF], 0);
    emu.execute(Instruction::DrawSprite(1, 2, 1)).unwrap();
    emu.execute(Instruction::ClearDisplay).unwrap();
    assert!(lit_cells(&emu).is_empty());
}

#[test]
fn loaded_image_reads_back() {
    let mut emu = machine();
    let image: Vec<u8> = (0..=255u8).rev().collect();
    assert_eq!(emu.load(&image), Ok(()));
    assert_eq!(&emu.memory()[0x200..0x200 + image.len()], &image[..]);
    assert_eq!(&emu.memory()[..80], &FONT[..]);
    assert!(emu.memory()[80..0x200].iter().all(|byte| *byte == 0));
    assert!(emu.memory()[0x300..].iter().all(|byte| *byte == 0));
    assert_eq!(emu.pc(), 0x200);
}

#[test]
fn largest_image_fits_and_one_more_byte_is_refused() {
    let mut emu = machine();
    let image = vec![0xAB; 4096 - 0x200];
    assert_eq!(emu.load(&image), Ok(()));
    assert!(emu.memory()[0x200..].iter().all(|byte| *byte == 0xAB));

    let before = *emu.memory();
    let too_large = vec![0xCD; 4096 - 0x200 + 1];
    assert_eq!(emu.load(&too_large), Err(LoadError::Overflow));
    assert_eq!(emu.memory(), &before);
    assert_eq!(emu.load(&[]), Ok(()));
    assert_eq!(emu.memory(), &before);
}

#[test]
fn push_key_queues_the_key_index() {
    let mut emu = machine();
    emu.push_key(&Keycode::Num1);
    emu.push_key(&Keycode::Num0);
    emu.push_key(&Keycode::F);
    assert_eq!(emu.pending_keys(), &[0, 9, 15]);
}

#[test]
fn skip_if_key_on_empty_queue_does_nothing_repeatedly() {
    let mut emu = machine();
    set(&mut emu, 1, 3);
    for _ in 0..5 {
        emu.execute(Instruction::SkipIfKey(1)).unwrap();
        assert_eq!(emu.pc(), 0x200);
        assert!(emu.pending_keys().is_empty());
        emu.execute(Instruction::SkipIfNotKey(1)).unwrap();
        assert_eq!(emu.pc(), 0x200);
        assert!(emu.pending_keys().is_empty());
    }
}

#[test]
fn key_skips_consume_the_most_recent_key() {
    let mut emu = machine();
    set(&mut emu, 1, 3);
    emu.push_key(&Keycode::Num4);
    emu.push_key(&Keycode::A);
    emu.execute(Instruction::SkipIfKey(1)).unwrap();
    assert_eq!(emu.pc(), 0x200);
    assert_eq!(emu.pending_keys(), &[3]);
    emu.execute(Instruction::SkipIfKey(1)).unwrap();
    assert_eq!(emu.pc(), 0x202);
    assert!(emu.pending_keys().is_empty());

    emu.push_key(&Keycode::Num4);
    emu.push_key(&Keycode::A);
    emu.execute(Instruction::SkipIfNotKey(1)).unwrap();
    assert_eq!(emu.pc(), 0x204);
    emu.execute(Instruction::SkipIfNotKey(1)).unwrap();
    assert_eq!(emu.pc(), 0x204);
    assert!(emu.pending_keys().is_empty());
}

#[test]
fn key_skip_with_register_beyond_the_pad_never_matches() {
    let mut emu = machine();
    set(&mut emu, 1, 16);
    emu.push_key(&Keycode::F);
    emu.push_key(&Keycode::F);
    emu.execute(Instruction::SkipIfKey(1)).unwrap();
    assert_eq!(emu.pc(), 0x200);
    emu.execute(Instruction::SkipIfNotKey(1)).unwrap();
    assert_eq!(emu.pc(), 0x202);
}

#[test]
fn load_key_takes_a_queued_key_at_once() {
    let mut emu = machine();
    emu.push_key(&Keycode::B);
    emu.push_key(&Keycode::C);
    emu.execute(Instruction::LoadKeyToReg(5)).unwrap();
    assert_eq!(emu.registers()[5], 12);
    assert_eq!(emu.pending_keys(), &[11]);
    assert_eq!(emu.run_state(), RunState::Running);
}

#[test]
fn load_key_waits_without_blocking() {
    let mut emu = machine();
    // F30A: wait for a key into V3; 6407: V4 = 7.
    emu.load(&[0xF3, 0x0A, 0x64, 0x07]).unwrap();
    assert_eq!(emu.tick(), Ok(RunState::AwaitingKey(3)));
    assert_eq!(emu.pc(), 0x202);
    for _ in 0..3 {
        assert_eq!(emu.tick(), Ok(RunState::AwaitingKey(3)));
        assert_eq!(emu.pc(), 0x202);
        assert_eq!(emu.registers()[4], 0);
    }
    assert_eq!(emu.display().target().presents, 4);

    emu.push_key(&Keycode::D);
    assert_eq!(emu.tick(), Ok(RunState::Running));
    assert_eq!(emu.registers()[3], 13);
    assert_eq!(emu.pc(), 0x202);
    assert!(emu.pending_keys().is_empty());
    assert_eq!(emu.tick(), Ok(RunState::Running));
    assert_eq!(emu.registers()[4], 7);
    assert_eq!(emu.pc(), 0x204);
}

#[test]
fn end_to_end_add_program() {
    let mut emu = machine();
    emu.load(&[0x60, 0x0A, 0x61, 0x05, 0x80, 0x14]).unwrap();
    assert_eq!(emu.tick(), Ok(RunState::Running));
    assert_eq!(emu.tick(), Ok(RunState::Running));
    assert_eq!(emu.tick(), Ok(RunState::Running));
    assert_eq!(emu.registers()[0], 15);
    assert_eq!(emu.registers()[1], 5);
    assert_eq!(emu.registers()[0xF], 0);
    assert_eq!(emu.pc(), 0x206);
}

#[test]
fn tick_renders_one_frame_per_call() {
    let mut emu = machine();
    // A000: I = 0; D005: draw glyph "0" at (V0, V0); 00E0: clear.
    emu.load(&[0xA0, 0x00, 0xD0, 0x05, 0x00, 0xE0]).unwrap();
    emu.tick().unwrap();
    assert_eq!(emu.display().target().clears, 1);
    assert_eq!(emu.display().target().rects, 2048);
    assert_eq!(emu.display().target().white, 0);
    assert_eq!(emu.display().target().presents, 1);
    emu.tick().unwrap();
    assert_eq!(emu.display().target().rects, 2 * 2048);
    assert_eq!(emu.display().target().white, 14);
    emu.tick().unwrap();
    assert_eq!(emu.display().target().white, 14);
    assert_eq!(emu.display().target().presents, 3);
}

#[test]
fn undecodable_word_only_advances_the_program_counter() {
    let mut emu = machine();
    emu.load(&[0x51, 0x23, 0x61, 0x05]).unwrap();
    let registers = *emu.registers();
    assert_eq!(emu.tick(), Ok(RunState::Running));
    assert_eq!(emu.pc(), 0x202);
    assert_eq!(emu.registers(), &registers);
    assert_eq!(emu.display().target().presents, 1);
    assert_eq!(emu.tick(), Ok(RunState::Running));
    assert_eq!(emu.registers()[1], 5);
}

#[test]
fn fault_in_tick_changes_nothing_and_draws_nothing() {
    let mut emu = machine();
    // 00EE: return with an empty stack.
    emu.load(&[0x00, 0xEE]).unwrap();
    assert_eq!(emu.tick(), Err(Fault::StackUnderflow));
    assert_eq!(emu.pc(), 0x200);
    assert_eq!(emu.display().target().clears, 0);
    assert_eq!(emu.tick(), Err(Fault::StackUnderflow));
    assert_eq!(emu.pc(), 0x200);
}

#[test]
fn fetch_beyond_memory_is_a_fault() {
    let mut emu = machine();
    emu.execute(Instruction::Jump(0xFFF)).unwrap();
    assert_eq!(emu.step(), Err(Fault::AddressOutOfRange));
    assert_eq!(emu.pc(), 0xFFF);
    emu.execute(Instruction::Jump(0xFFE)).unwrap();
    assert_eq!(emu.step(), Ok(()));
    assert_eq!(emu.pc(), 0x1000);
    assert_eq!(emu.tick(), Err(Fault::AddressOutOfRange));
}

#[test]
fn step_with_hands_the_random_byte_to_the_mask_instruction() {
    let mut emu = machine();
    // C10F: V1 = random & 0x0F; 1200: jump to 0x200.
    emu.load(&[0xC1, 0x0F, 0x12, 0x00]).unwrap();
    emu.step_with(0xA7).unwrap();
    assert_eq!(emu.registers()[1], 0x07);
    emu.step_with(0xFF).unwrap();
    assert_eq!(emu.pc(), 0x200);
    for _ in 0..50 {
        emu.tick().unwrap();
        assert!(emu.registers()[1] <= 0x0F);
    }
}

#[test]
fn timers_count_down_with_wall_clock_time() {
    let mut emu = machine();
    // 6003: V0 = 3; F015: delay = V0; 1204: jump to itself.
    emu.load(&[0x60, 0x03, 0xF0, 0x15, 0x12, 0x04]).unwrap();
    emu.tick().unwrap();
    emu.tick().unwrap();
    let start = emu.delay_timer();
    assert!(start == 3 || start == 2);
    let waiting = std::time::Instant::now();
    while waiting.elapsed() < std::time::Duration::from_millis(40) {}
    emu.tick().unwrap();
    assert_eq!(emu.delay_timer(), start - 1);
    assert_eq!(emu.sound_timer(), 0);
}
