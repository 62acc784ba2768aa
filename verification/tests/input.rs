use chip8::emu::Emu;
use chip8::machine::SideEffects;
use chip8::opcode::Opcode;
use chip8::register::Register;

const QUIET: SideEffects = SideEffects {
    display_changed: false,
    pc_changed: false,
    awaiting_key: false,
};

const JUMPED: SideEffects = SideEffects {
    display_changed: false,
    pc_changed: true,
    awaiting_key: false,
};

const WAITING: SideEffects = SideEffects {
    display_changed: false,
    pc_changed: false,
    awaiting_key: true,
};

fn set(emu: &mut Emu, reg: Register, value: u8) {
    emu.execute(&Opcode::LdVal(reg, value), 0).unwrap();
}

#[test]
fn timers_count_down_to_zero_and_stay() {
    let mut emu = Emu::new();
    set(&mut emu, Register::V0, 2);
    set(&mut emu, Register::V1, 1);
    assert_eq!(emu.execute(&Opcode::LdDtVx(Register::V0), 0), Ok(QUIET));
    assert_eq!(emu.execute(&Opcode::LdSt(Register::V1), 0), Ok(QUIET));
    assert_eq!(emu.register(Register::Delay), 2);
    assert_eq!(emu.register(Register::Sound), 1);
    emu.tick_timers();
    assert_eq!(emu.register(Register::Delay), 1);
    assert_eq!(emu.register(Register::Sound), 0);
    emu.tick_timers();
    assert_eq!(emu.register(Register::Delay), 0);
    assert_eq!(emu.register(Register::Sound), 0);
    emu.tick_timers();
    assert_eq!(emu.register(Register::Delay), 0);
    assert_eq!(emu.register(Register::Sound), 0);
    assert_eq!(emu.register(Register::V0), 2);
    assert_eq!(emu.register(Register::Pc), 0x200);
}

#[test]
fn instructions_do_not_count_the_timers_down() {
    let mut emu = Emu::new();
    set(&mut emu, Register::V0, 200);
    emu.execute(&Opcode::LdDtVx(Register::V0), 0).unwrap();
    emu.execute(&Opcode::LdSt(Register::V0), 0).unwrap();
    for _ in 0..10 {
        emu.execute(&Opcode::AddVal(Register::V1, 1), 0).unwrap();
    }
    assert_eq!(emu.execute(&Opcode::LdVxDt(Register::V2), 0), Ok(QUIET));
    assert_eq!(emu.register(Register::V2), 200);
    assert_eq!(emu.register(Register::Sound), 200);
    emu.tick_timers();
    emu.execute(&Opcode::LdVxDt(Register::V2), 0).unwrap();
    assert_eq!(emu.register(Register::V2), 199);
}

#[test]
fn key_skips_follow_the_keypad() {
    let mut emu = Emu::new();
    set(&mut emu, Register::V0, 0xB);
    assert_eq!(emu.execute(&Opcode::Skp(Register::V0), 0), Ok(QUIET));
    assert_eq!(emu.execute(&Opcode::SkNp(Register::V0), 0), Ok(JUMPED));
    assert_eq!(emu.register(Register::Pc), 0x202);
    emu.set_key(0xB, true);
    assert!(emu.key(0xB));
    assert!(!emu.key(0xA));
    assert_eq!(emu.execute(&Opcode::Skp(Register::V0), 0), Ok(JUMPED));
    assert_eq!(emu.register(Register::Pc), 0x204);
    assert_eq!(emu.execute(&Opcode::SkNp(Register::V0), 0), Ok(QUIET));
    emu.set_key(0xB, false);
    assert!(!emu.key(0xB));
    assert_eq!(emu.execute(&Opcode::Skp(Register::V0), 0), Ok(QUIET));
    assert_eq!(emu.register(Register::Pc), 0x204);
}

#[test]
fn key_numbers_past_the_keypad_name_no_key() {
    let mut emu = Emu::new();
    emu.set_key(16, true);
    emu.set_key(0x1B, true);
    emu.set_key(255, true);
    for key in 0..=255u8 {
        assert!(!emu.key(key));
    }
    emu.set_key(0xB, true);
    set(&mut emu, Register::V0, 0x1B);
    assert_eq!(emu.execute(&Opcode::Skp(Register::V0), 0), Ok(QUIET));
    assert_eq!(emu.execute(&Opcode::SkNp(Register::V0), 0), Ok(JUMPED));
}

#[test]
fn wait_for_key_suspends_until_a_key_goes_down() {
    let mut emu = Emu::new();
    set(&mut emu, Register::V3, 0x55);
    assert!(!emu.awaiting_key());
    assert_eq!(emu.execute(&Opcode::LdK(Register::V3), 0), Ok(WAITING));
    assert!(emu.awaiting_key());
    assert_eq!(emu.register(Register::V3), 0x55);
    assert_eq!(emu.register(Register::Pc), 0x200);
    assert_eq!(emu.execute(&Opcode::LdK(Register::V3), 0), Ok(WAITING));
    assert!(emu.awaiting_key());
    emu.set_key(0x7, true);
    assert!(emu.awaiting_key());
    assert_eq!(emu.execute(&Opcode::LdK(Register::V3), 0), Ok(QUIET));
    assert!(!emu.awaiting_key());
    assert_eq!(emu.register(Register::V3), 0x7);
    assert_eq!(emu.register(Register::Pc), 0x200);
}

#[test]
fn wait_for_key_takes_only_a_key_that_goes_down_during_the_wait() {
    let mut emu = Emu::new();
    emu.set_key(0x2, true);
    assert_eq!(emu.execute(&Opcode::LdK(Register::V0), 0), Ok(WAITING));
    emu.set_key(0x2, true);
    assert_eq!(emu.execute(&Opcode::LdK(Register::V0), 0), Ok(WAITING));
    emu.set_key(0x2, false);
    assert_eq!(emu.execute(&Opcode::LdK(Register::V0), 0), Ok(WAITING));
    emu.set_key(0x2, true);
    assert_eq!(emu.execute(&Opcode::LdK(Register::V0), 0), Ok(QUIET));
    assert_eq!(emu.register(Register::V0), 0x2);
}

#[test]
fn wait_for_key_takes_the_first_key_that_went_down() {
    let mut emu = Emu::new();
    assert_eq!(emu.execute(&Opcode::LdK(Register::V0), 0), Ok(WAITING));
    emu.set_key(0x10, true);
    emu.set_key(0xC, true);
    emu.set_key(0x1, true);
    emu.set_key(0xC, false);
    assert_eq!(emu.execute(&Opcode::LdK(Register::V0), 0), Ok(QUIET));
    assert_eq!(emu.register(Register::V0), 0xC);
    assert!(emu.key(0x1));
    assert!(!emu.key(0xC));
    assert_eq!(emu.execute(&Opcode::LdK(Register::V1), 0), Ok(WAITING));
    emu.set_key(0x1, true);
    assert_eq!(emu.execute(&Opcode::LdK(Register::V1), 0), Ok(WAITING));
    emu.set_key(0x0, true);
    assert_eq!(emu.execute(&Opcode::LdK(Register::V1), 0), Ok(QUIET));
    assert_eq!(emu.register(Register::V1), 0x0);
}

#[test]
fn a_key_pressed_before_the_wait_is_not_kept() {
    let mut emu = Emu::new();
    emu.set_key(0x4, true);
    emu.set_key(0x4, false);
    assert_eq!(emu.execute(&Opcode::LdK(Register::V0), 0), Ok(WAITING));
    assert_eq!(emu.execute(&Opcode::LdK(Register::V0), 0), Ok(WAITING));
}
