use chip8_core::{decode, Emulator, Fault, Instruction, SCREEN_HEIGHT, SCREEN_WIDTH};

fn program(words: &[u16]) -> Vec<u8> {
    let mut bytes = Vec::new();
    for w in words {
        bytes.push((w >> 8) as u8);
        bytes.push((w & 0xFF) as u8);
    }
    bytes
}

fn run(words: &[u16]) -> Emulator {
    let mut emu = Emulator::new();
    emu.load(&program(words));
    for _ in 0..words.len() {
        emu.tick().unwrap();
    }
    emu
}

fn same_state(a: &Emulator, b: &Emulator) -> bool {
    a.pc == b.pc
        && a.ram == b.ram
        && a.screen == b.screen
        && a.v_reg == b.v_reg
        && a.i_reg == b.i_reg
        && a.sp == b.sp
        && a.stack == b.stack
        && a.keys == b.keys
        && a.dt == b.dt
        && a.st == b.st
}

#[test]
fn new_seeds_font_and_counter() {
    let emu = Emulator::new();
    assert_eq!(emu.pc, 0x200);
    assert_eq!(&emu.ram[0..5], &[0xF0, 0x90, 0x90, 0x90, 0xF0]);
    assert_eq!(&emu.ram[75..80], &[0xF0, 0x80, 0xF0, 0x80, 0x80]);
    assert!(emu.ram[80..].iter().all(|b| *b == 0));
    assert_eq!(emu.sp, 0);
    assert_eq!(emu.get_display().len(), SCREEN_WIDTH * SCREEN_HEIGHT);
    assert!(emu.get_display().iter().all(|p| !*p));
}

#[test]
fn load_then_reset_restores_initial() {
    let mut emu = run(&[0x6005, 0xA123, 0x2208]);
    emu.keypress(3, true);
    emu.screen[10] = true;
    emu.dt = 9;
    emu.st = 4;
    assert!(!same_state(&emu, &Emulator::new()));
    emu.reset();
    assert!(same_state(&emu, &Emulator::new()));
}

#[test]
fn load_copies_program_at_start_address() {
    let mut emu = Emulator::new();
    emu.load(&[1, 2, 3]);
    assert_eq!(&emu.ram[0x1FF..0x204], &[0, 1, 2, 3, 0]);
    let full = vec![7u8; 4096 - 512];
    emu.load(&full);
    assert_eq!(emu.ram[4095], 7);
}

#[test]
fn add_byte_wraps() {
    let emu = run(&[0x6AF0, 0x7A20]);
    assert_eq!(emu.v_reg[0xA], 0x10);
    assert_eq!(emu.v_reg[0xF], 0);
}

#[test]
fn add_registers_sets_carry() {
    let emu = run(&[0x6005, 0x6103, 0x8014]);
    assert_eq!(emu.v_reg[0], 8);
    assert_eq!(emu.v_reg[0xF], 0);
    let emu = run(&[0x60FF, 0x6102, 0x8014]);
    assert_eq!(emu.v_reg[0], 1);
    assert_eq!(emu.v_reg[0xF], 1);
}

#[test]
fn sub_sets_flag_when_no_borrow() {
    let emu = run(&[0x6009, 0x6104, 0x8015]);
    assert_eq!(emu.v_reg[0], 5);
    assert_eq!(emu.v_reg[0xF], 1);
    let emu = run(&[0x6004, 0x6109, 0x8015]);
    assert_eq!(emu.v_reg[0], 251);
    assert_eq!(emu.v_reg[0xF], 0);
}

#[test]
fn reverse_sub_sets_flag_when_borrow() {
    let emu = run(&[0x6009, 0x6104, 0x8017]);
    assert_eq!(emu.v_reg[0], 251);
    assert_eq!(emu.v_reg[0xF], 1);
    let emu = run(&[0x6004, 0x6109, 0x8017]);
    assert_eq!(emu.v_reg[0], 5);
    assert_eq!(emu.v_reg[0xF], 0);
}

#[test]
fn flag_wins_when_x_is_f() {
    let emu = run(&[0x6FFF, 0x6102, 0x8F14]);
    assert_eq!(emu.v_reg[0xF], 1);
}

#[test]
fn shifts_report_dropped_bit() {
    let emu = run(&[0x6305, 0x8306]);
    assert_eq!(emu.v_reg[3], 2);
    assert_eq!(emu.v_reg[0xF], 1);
    let emu = run(&[0x6381, 0x830E]);
    assert_eq!(emu.v_reg[3], 2);
    assert_eq!(emu.v_reg[0xF], 1);
    let emu = run(&[0x6340, 0x830E]);
    assert_eq!(emu.v_reg[3], 0x80);
    assert_eq!(emu.v_reg[0xF], 0);
}

#[test]
fn logic_ops_read_second_register() {
    let emu = run(&[0x600C, 0x610A, 0x8011]);
    assert_eq!(emu.v_reg[0], 0x0E);
    let emu = run(&[0x600C, 0x610A, 0x8012]);
    assert_eq!(emu.v_reg[0], 0x08);
    let emu = run(&[0x600C, 0x610A, 0x8013]);
    assert_eq!(emu.v_reg[0], 0x06);
    let emu = run(&[0x610A, 0x8010]);
    assert_eq!(emu.v_reg[0], 0x0A);
}

#[test]
fn skips_compare_registers_and_bytes() {
    let emu = run(&[0x6007, 0x3007]);
    assert_eq!(emu.pc, 0x206);
    let emu = run(&[0x6007, 0x4007]);
    assert_eq!(emu.pc, 0x204);
    let emu = run(&[0x6007, 0x6107, 0x5010]);
    assert_eq!(emu.pc, 0x208);
    let emu = run(&[0x6007, 0x6108, 0x9010]);
    assert_eq!(emu.pc, 0x208);
    let emu = run(&[0x6007, 0x6107, 0x9010]);
    assert_eq!(emu.pc, 0x206);
}

#[test]
fn call_and_return() {
    let mut emu = Emulator::new();
    emu.load(&program(&[0x2206, 0x0000, 0x0000, 0x00EE]));
    emu.tick().unwrap();
    assert_eq!(emu.pc, 0x206);
    assert_eq!(emu.sp, 1);
    assert_eq!(emu.stack[0], 0x202);
    emu.tick().unwrap();
    assert_eq!(emu.pc, 0x202);
    assert_eq!(emu.sp, 0);
}

#[test]
fn jumps_set_counter() {
    let emu = run(&[0x1345]);
    assert_eq!(emu.pc, 0x345);
    let emu = run(&[0x6010, 0xB300]);
    assert_eq!(emu.pc, 0x310);
}

#[test]
fn index_instructions() {
    let emu = run(&[0xA123]);
    assert_eq!(emu.i_reg, 0x123);
    let emu = run(&[0x600A, 0xF029]);
    assert_eq!(emu.i_reg, 50);
    let mut emu = Emulator::new();
    emu.i_reg = 0xFFFF;
    emu.v_reg[2] = 3;
    emu.execute(0xF21E, 0).unwrap();
    assert_eq!(emu.i_reg, 2);
}

#[test]
fn bcd_writes_three_digits() {
    let emu = run(&[0x64FE, 0xA300, 0xF433]);
    assert_eq!(&emu.ram[0x300..0x303], &[2, 5, 4]);
    let emu = run(&[0x6407, 0xA300, 0xF433]);
    assert_eq!(&emu.ram[0x300..0x303], &[0, 0, 7]);
}

#[test]
fn store_and_load_registers() {
    let emu = run(&[0x6011, 0x6122, 0x6233, 0xA300, 0xF155]);
    assert_eq!(&emu.ram[0x300..0x303], &[0x11, 0x22, 0]);
    let emu = run(&[0xA000, 0xF265]);
    assert_eq!(&emu.v_reg[0..4], &[0xF0, 0x90, 0x90, 0]);
}

#[test]
fn random_is_masked() {
    let mut emu = Emulator::new();
    emu.execute(0xC30F, 0xAB).unwrap();
    assert_eq!(emu.v_reg[3], 0x0B);
    let emu = run(&[0xC500]);
    assert_eq!(emu.v_reg[5], 0);
}

#[test]
fn timers_count_down_to_zero() {
    let mut emu = run(&[0x6002, 0xF015, 0x6101, 0xF118, 0xF207]);
    assert_eq!(emu.v_reg[2], 2);
    assert!(emu.tick_timers());
    assert_eq!(emu.dt, 1);
    assert_eq!(emu.st, 0);
    assert!(!emu.tick_timers());
    assert!(!emu.tick_timers());
    assert_eq!(emu.dt, 0);
    assert_eq!(emu.st, 0);
}

#[test]
fn keys_drive_skips() {
    let mut emu = Emulator::new();
    emu.load(&program(&[0x6004, 0xE09E, 0x0000, 0xE0A1]));
    emu.keypress(4, true);
    emu.tick().unwrap();
    emu.tick().unwrap();
    assert_eq!(emu.pc, 0x206);
    emu.tick().unwrap();
    assert_eq!(emu.pc, 0x208);
}

#[test]
fn draw_twice_erases_and_collides() {
    let mut emu = Emulator::new();
    emu.load(&program(&[0x6008, 0x6104, 0xA000, 0xD015, 0xD015]));
    for _ in 0..4 {
        emu.tick().unwrap();
    }
    assert_eq!(emu.v_reg[0xF], 0);
    assert!(emu.get_display()[8 + 64 * 4]);
    assert!(emu.get_display()[11 + 64 * 8]);
    assert!(!emu.get_display()[9 + 64 * 5]);
    emu.tick().unwrap();
    assert_eq!(emu.v_reg[0xF], 1);
    assert!(emu.get_display().iter().all(|p| !*p));
}

#[test]
fn draw_wraps_at_corner() {
    let mut emu = Emulator::new();
    emu.ram[0x300] = 0xFF;
    emu.load(&program(&[0x603F, 0x611F, 0xA300, 0xD011]));
    for _ in 0..4 {
        emu.tick().unwrap();
    }
    let d = emu.get_display();
    assert!(d[63 + 64 * 31]);
    for x in 0..7 {
        assert!(d[x + 64 * 31]);
    }
    assert!(!d[7 + 64 * 31]);
    assert_eq!(d.iter().filter(|p| **p).count(), 8);
    assert_eq!(emu.v_reg[0xF], 0);
}

#[test]
fn draw_wraps_vertically() {
    let mut emu = Emulator::new();
    emu.load(&program(&[0x6000, 0x611F, 0xA000, 0xD012]));
    for _ in 0..4 {
        emu.tick().unwrap();
    }
    let d = emu.get_display();
    assert!(d[64 * 31]);
    assert!(d[0] && d[3]);
    assert!(!d[1]);
}

#[test]
fn wait_key_blocks_until_pressed() {
    let mut emu = Emulator::new();
    emu.load(&program(&[0xF30A]));
    for _ in 0..3 {
        emu.tick().unwrap();
        assert_eq!(emu.pc, 0x200);
    }
    emu.keypress(9, true);
    emu.keypress(5, true);
    emu.tick().unwrap();
    assert_eq!(emu.v_reg[3], 5);
    assert_eq!(emu.pc, 0x202);
}

#[test]
fn clear_screen_blanks_display() {
    let mut emu = Emulator::new();
    emu.load(&program(&[0xA000, 0xD005, 0x00E0]));
    emu.tick().unwrap();
    emu.tick().unwrap();
    assert!(emu.get_display().iter().any(|p| *p));
    emu.tick().unwrap();
    assert!(emu.get_display().iter().all(|p| !*p));
}

#[test]
fn unknown_opcode_faults_with_word() {
    let mut emu = Emulator::new();
    emu.load(&program(&[0xF0FF]));
    assert_eq!(emu.tick(), Err(Fault::UnknownOpcode { op: 0xF0FF }));
    assert_eq!(emu.execute(0x5121, 0), Err(Fault::UnknownOpcode { op: 0x5121 }));
    assert_eq!(emu.execute(0x0123, 0), Err(Fault::UnknownOpcode { op: 0x0123 }));
}

#[test]
fn stack_faults() {
    let mut emu = Emulator::new();
    assert_eq!(emu.execute(0x00EE, 0), Err(Fault::StackUnderflow));
    assert_eq!(emu.pop(), Err(Fault::StackUnderflow));
    for k in 0..16u16 {
        assert_eq!(emu.push(k), Ok(()));
    }
    assert_eq!(emu.push(99), Err(Fault::StackOverflow));
    assert_eq!(emu.execute(0x2300, 0), Err(Fault::StackOverflow));
    assert_eq!(emu.sp, 16);
    assert_eq!(emu.pop(), Ok(15));
}

#[test]
fn memory_faults() {
    let mut emu = Emulator::new();
    emu.i_reg = 0xFFF;
    assert_eq!(emu.execute(0xF155, 0), Err(Fault::MemoryOutOfBounds));
    assert_eq!(emu.execute(0xF165, 0), Err(Fault::MemoryOutOfBounds));
    assert_eq!(emu.execute(0xF033, 0), Err(Fault::MemoryOutOfBounds));
    assert_eq!(emu.execute(0xD012, 0), Err(Fault::MemoryOutOfBounds));
    assert_eq!(emu.execute(0xF055, 0), Ok(()));
    emu.pc = 0xFFF;
    assert_eq!(emu.tick(), Err(Fault::MemoryOutOfBounds));
    assert_eq!(emu.pc, 0xFFF);
}

#[test]
fn key_instruction_with_bad_register_faults() {
    let mut emu = Emulator::new();
    emu.v_reg[1] = 16;
    assert_eq!(emu.execute(0xE19E, 0), Err(Fault::InvalidKey { key: 16 }));
    assert_eq!(emu.execute(0xE1A1, 0), Err(Fault::InvalidKey { key: 16 }));
}

#[test]
fn decode_names_instructions() {
    assert_eq!(decode(0x00E0), Instruction::ClearScreen);
    assert_eq!(decode(0xD123), Instruction::Draw { x: 1, y: 2, n: 3 });
    assert_eq!(decode(0x8AB7), Instruction::SubRev { x: 0xA, y: 0xB });
    assert_eq!(decode(0xFC65), Instruction::LoadRegs { x: 0xC });
    assert_eq!(decode(0x8AB8), Instruction::Unknown { op: 0x8AB8 });
}

#[test]
fn decode_covers_every_word() {
    let mut unknown = 0u32;
    for op in 0..=u16::MAX {
        if let Instruction::Unknown { op: w } = decode(op) {
            assert_eq!(w, op);
            unknown += 1;
        }
    }
    assert!(unknown > 0 && unknown < 65536);
    assert_eq!(decode(0x0000), Instruction::Nop);
    assert_eq!(decode(0x00EE), Instruction::Return);
}
