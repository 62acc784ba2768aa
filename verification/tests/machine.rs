use chip8::emu::Emu;
use chip8::machine::{ExecutionError, SideEffects};
use chip8::opcode::Opcode;
use chip8::register::Register;

const QUIET: SideEffects = SideEffects {
    display_changed: false,
    pc_changed: false,
    awaiting_key: false,
};

const JUMPED: SideEffects = SideEffects {
    display_changed: false,
    pc_changed: true,
    awaiting_key: false,
};

fn run(emu: &mut Emu, op: Opcode) -> SideEffects {
    emu.execute(&op, 0).unwrap()
}

fn set(emu: &mut Emu, reg: Register, value: u8) {
    assert_eq!(emu.execute(&Opcode::LdVal(reg, value), 0), Ok(QUIET));
}

fn lit_pixels(emu: &Emu) -> Vec<usize> {
    let mut lit = Vec::new();
    for (p, cell) in emu.display().iter().enumerate() {
        assert!(*cell <= 1);
        if *cell == 1 {
            lit.push(p);
        }
    }
    lit
}

#[test]
fn new_machine_is_zeroed_and_starts_at_the_program_area() {
    let emu = Emu::new();
    assert_eq!(emu.register(Register::Pc), 0x200);
    assert_eq!(emu.register(Register::I), 0);
    assert_eq!(emu.register(Register::Sp), 0);
    assert_eq!(emu.register(Register::Delay), 0);
    assert_eq!(emu.register(Register::Sound), 0);
    for i in 0..16u8 {
        assert_eq!(emu.register(Register::from(i)), 0);
        assert!(!emu.key(i));
    }
    assert_eq!(emu.display().len(), 64 * 32);
    assert!(lit_pixels(&emu).is_empty());
    assert_eq!(emu.read(0), Ok(0));
    assert_eq!(emu.read(0x0FFF), Ok(0));
    assert_eq!(emu.read(0x1000), Err(ExecutionError::MemoryOutOfBounds));
    assert!(!emu.awaiting_key());
}

#[test]
fn add_reg_truncates_and_sets_the_carry() {
    let mut emu = Emu::new();
    set(&mut emu, Register::V0, 250);
    set(&mut emu, Register::V1, 10);
    assert_eq!(
        emu.execute(&Opcode::AddReg(Register::V0, Register::V1), 0),
        Ok(QUIET)
    );
    assert_eq!(emu.register(Register::V0), 4);
    assert_eq!(emu.register(Register::V1), 10);
    assert_eq!(emu.register(Register::Vf), 1);
}

#[test]
fn add_reg_without_carry_clears_the_flag() {
    let mut emu = Emu::new();
    set(&mut emu, Register::Vf, 1);
    set(&mut emu, Register::V2, 3);
    set(&mut emu, Register::V3, 7);
    run(&mut emu, Opcode::AddReg(Register::V2, Register::V3));
    assert_eq!(emu.register(Register::V2), 10);
    assert_eq!(emu.register(Register::Vf), 0);
}

#[test]
fn add_reg_at_the_edge_of_the_carry() {
    let mut emu = Emu::new();
    set(&mut emu, Register::V0, 200);
    set(&mut emu, Register::V1, 55);
    run(&mut emu, Opcode::AddReg(Register::V0, Register::V1));
    assert_eq!(emu.register(Register::V0), 255);
    assert_eq!(emu.register(Register::Vf), 0);
    set(&mut emu, Register::V1, 1);
    run(&mut emu, Opcode::AddReg(Register::V0, Register::V1));
    assert_eq!(emu.register(Register::V0), 0);
    assert_eq!(emu.register(Register::Vf), 1);
}

#[test]
fn add_reg_into_the_flag_register_keeps_the_sum() {
    let mut emu = Emu::new();
    set(&mut emu, Register::Vf, 250);
    set(&mut emu, Register::V1, 10);
    run(&mut emu, Opcode::AddReg(Register::Vf, Register::V1));
    assert_eq!(emu.register(Register::Vf), 4);
    set(&mut emu, Register::Vf, 7);
    set(&mut emu, Register::V1, 200);
    run(&mut emu, Opcode::AddReg(Register::V1, Register::Vf));
    assert_eq!(emu.register(Register::V1), 207);
    assert_eq!(emu.register(Register::Vf), 0);
}

#[test]
fn sub_sets_the_flag_when_nothing_is_borrowed() {
    let mut emu = Emu::new();
    set(&mut emu, Register::V0, 5);
    set(&mut emu, Register::V1, 3);
    run(&mut emu, Opcode::Sub(Register::V0, Register::V1));
    assert_eq!(emu.register(Register::V0), 2);
    assert_eq!(emu.register(Register::Vf), 1);
}

#[test]
fn sub_wraps_and_clears_the_flag_on_borrow() {
    let mut emu = Emu::new();
    set(&mut emu, Register::V0, 3);
    set(&mut emu, Register::V1, 5);
    run(&mut emu, Opcode::Sub(Register::V0, Register::V1));
    assert_eq!(emu.register(Register::V0), 254);
    assert_eq!(emu.register(Register::Vf), 0);
}

#[test]
fn sub_of_equal_values_borrows_nothing() {
    let mut emu = Emu::new();
    set(&mut emu, Register::V0, 9);
    set(&mut emu, Register::V1, 9);
    run(&mut emu, Opcode::Sub(Register::V0, Register::V1));
    assert_eq!(emu.register(Register::V0), 0);
    assert_eq!(emu.register(Register::Vf), 1);
    run(&mut emu, Opcode::Subn(Register::V0, Register::V0));
    assert_eq!(emu.register(Register::V0), 0);
    assert_eq!(emu.register(Register::Vf), 1);
}

#[test]
fn subn_subtracts_the_other_way_round() {
    let mut emu = Emu::new();
    set(&mut emu, Register::V0, 3);
    set(&mut emu, Register::V1, 5);
    run(&mut emu, Opcode::Subn(Register::V0, Register::V1));
    assert_eq!(emu.register(Register::V0), 2);
    assert_eq!(emu.register(Register::V1), 5);
    assert_eq!(emu.register(Register::Vf), 1);
    set(&mut emu, Register::V0, 5);
    set(&mut emu, Register::V1, 3);
    run(&mut emu, Opcode::Subn(Register::V0, Register::V1));
    assert_eq!(emu.register(Register::V0), 254);
    assert_eq!(emu.register(Register::Vf), 0);
}

#[test]
fn shifts_move_the_lost_bit_into_the_flag() {
    let mut emu = Emu::new();
    set(&mut emu, Register::V4, 0b1000_0101);
    run(&mut emu, Opcode::Shr(Register::V4));
    assert_eq!(emu.register(Register::V4), 0b0100_0010);
    assert_eq!(emu.register(Register::Vf), 1);
    run(&mut emu, Opcode::Shr(Register::V4));
    assert_eq!(emu.register(Register::V4), 0b0010_0001);
    assert_eq!(emu.register(Register::Vf), 0);
    set(&mut emu, Register::V4, 0b1000_0101);
    run(&mut emu, Opcode::Shl(Register::V4));
    assert_eq!(emu.register(Register::V4), 0b0000_1010);
    assert_eq!(emu.register(Register::Vf), 1);
    run(&mut emu, Opcode::Shl(Register::V4));
    assert_eq!(emu.register(Register::V4), 0b0001_0100);
    assert_eq!(emu.register(Register::Vf), 0);
}

#[test]
fn shift_of_the_flag_register_keeps_the_shifted_value() {
    let mut emu = Emu::new();
    set(&mut emu, Register::Vf, 0b0000_0111);
    run(&mut emu, Opcode::Shr(Register::Vf));
    assert_eq!(emu.register(Register::Vf), 0b0000_0011);
    set(&mut emu, Register::Vf, 0b1100_0000);
    run(&mut emu, Opcode::Shl(Register::Vf));
    assert_eq!(emu.register(Register::Vf), 0b1000_0000);
}

#[test]
fn loads_and_logic() {
    let mut emu = Emu::new();
    set(&mut emu, Register::V1, 0b1100);
    set(&mut emu, Register::V2, 0b1010);
    run(&mut emu, Opcode::LdReg(Register::V3, Register::V1));
    assert_eq!(emu.register(Register::V3), 0b1100);
    run(&mut emu, Opcode::Or(Register::V3, Register::V2));
    assert_eq!(emu.register(Register::V3), 0b1110);
    run(&mut emu, Opcode::LdReg(Register::V4, Register::V1));
    run(&mut emu, Opcode::And(Register::V4, Register::V2));
    assert_eq!(emu.register(Register::V4), 0b1000);
    run(&mut emu, Opcode::LdReg(Register::V5, Register::V1));
    run(&mut emu, Opcode::Xor(Register::V5, Register::V2));
    assert_eq!(emu.register(Register::V5), 0b0110);
    assert_eq!(emu.register(Register::Vf), 0);
    assert_eq!(emu.register(Register::V1), 0b1100);
    assert_eq!(emu.register(Register::V2), 0b1010);
}

#[test]
fn add_val_wraps_and_leaves_the_flag() {
    let mut emu = Emu::new();
    set(&mut emu, Register::Vf, 1);
    set(&mut emu, Register::V0, 250);
    run(&mut emu, Opcode::AddVal(Register::V0, 10));
    assert_eq!(emu.register(Register::V0), 4);
    assert_eq!(emu.register(Register::Vf), 1);
    run(&mut emu, Opcode::AddVal(Register::V0, 10));
    assert_eq!(emu.register(Register::V0), 14);
}

#[test]
fn rnd_masks_the_random_byte() {
    let mut emu = Emu::new();
    assert_eq!(
        emu.execute(&Opcode::Rnd(Register::V6, 0x0F), 0xAB),
        Ok(QUIET)
    );
    assert_eq!(emu.register(Register::V6), 0x0B);
    emu.execute(&Opcode::Rnd(Register::V6, 0xF0), 0xAB).unwrap();
    assert_eq!(emu.register(Register::V6), 0xA0);
    emu.execute(&Opcode::Rnd(Register::V6, 0xFF), 0x5C).unwrap();
    assert_eq!(emu.register(Register::V6), 0x5C);
    emu.execute(&Opcode::Rnd(Register::V6, 0x00), 0x5C).unwrap();
    assert_eq!(emu.register(Register::V6), 0);
}

#[test]
fn jump_sets_the_program_counter() {
    let mut emu = Emu::new();
    assert_eq!(emu.execute(&Opcode::Jp(0x345), 0), Ok(JUMPED));
    assert_eq!(emu.register(Register::Pc), 0x345);
    assert_eq!(emu.execute(&Opcode::Jp(0x345), 0), Ok(QUIET));
    assert_eq!(emu.register(Register::Pc), 0x345);
}

#[test]
fn jump_with_offset_adds_v0() {
    let mut emu = Emu::new();
    set(&mut emu, Register::V0, 0x10);
    assert_eq!(emu.execute(&Opcode::JpV0(0x300), 0), Ok(JUMPED));
    assert_eq!(emu.register(Register::Pc), 0x310);
    set(&mut emu, Register::V0, 0xFF);
    run(&mut emu, Opcode::JpV0(0xF00));
    assert_eq!(emu.register(Register::Pc), 0xFFF);
    assert_eq!(
        emu.execute(&Opcode::JpV0(0xF01), 0),
        Err(ExecutionError::MemoryOutOfBounds)
    );
    assert_eq!(
        emu.execute(&Opcode::JpV0(0xFFF), 0),
        Err(ExecutionError::MemoryOutOfBounds)
    );
    assert_eq!(
        emu.execute(&Opcode::JpV0(0xFFFF), 0),
        Err(ExecutionError::MemoryOutOfBounds)
    );
    assert_eq!(emu.register(Register::Pc), 0xFFF);
}

#[test]
fn addresses_outside_memory_are_out_of_bounds() {
    let mut emu = Emu::new();
    assert_eq!(emu.execute(&Opcode::Jp(0x0FFF), 0), Ok(JUMPED));
    assert_eq!(
        emu.execute(&Opcode::Jp(0x1000), 0),
        Err(ExecutionError::MemoryOutOfBounds)
    );
    assert_eq!(
        emu.execute(&Opcode::Call(0x1000), 0),
        Err(ExecutionError::MemoryOutOfBounds)
    );
    assert_eq!(
        emu.execute(&Opcode::LdI(0x1000), 0),
        Err(ExecutionError::MemoryOutOfBounds)
    );
    assert_eq!(
        emu.execute(&Opcode::LdI(0xFFFF), 0),
        Err(ExecutionError::MemoryOutOfBounds)
    );
    assert_eq!(emu.register(Register::Pc), 0x0FFF);
    assert_eq!(emu.register(Register::I), 0);
    assert_eq!(emu.register(Register::Sp), 0);
    assert_eq!(emu.execute(&Opcode::LdI(0x0FFF), 0), Ok(QUIET));
    assert_eq!(emu.execute(&Opcode::Call(0x0FFF), 0), Ok(QUIET));
    assert_eq!(emu.register(Register::Sp), 1);
}

#[test]
fn call_outside_memory_on_a_full_stack_is_out_of_bounds() {
    let mut emu = Emu::new();
    for _ in 0..16 {
        run(&mut emu, Opcode::Call(0x300));
    }
    assert_eq!(
        emu.execute(&Opcode::Call(0x1000), 0),
        Err(ExecutionError::MemoryOutOfBounds)
    );
    assert_eq!(
        emu.execute(&Opcode::Call(0x0FFF), 0),
        Err(ExecutionError::StackOverflow)
    );
}

#[test]
fn call_then_ret_restores_the_program_counter() {
    let mut emu = Emu::new();
    let resume = emu.register(Register::Pc);
    assert_eq!(emu.execute(&Opcode::Call(0x300), 0), Ok(JUMPED));
    assert_eq!(emu.register(Register::Pc), 0x300);
    assert_eq!(emu.register(Register::Sp), 1);
    assert_eq!(emu.execute(&Opcode::Ret, 0), Ok(JUMPED));
    assert_eq!(emu.register(Register::Pc), resume);
    assert_eq!(emu.register(Register::Sp), 0);
}

#[test]
fn call_after_a_fetch_returns_to_the_next_instruction() {
    let mut emu = Emu::new();
    emu.load(0x200, &[0x23, 0x00, 0x61, 0x07]).unwrap();
    emu.load(0x300, &[0x00, 0xEE]).unwrap();
    let call = Opcode::decode(emu.fetch().unwrap()).unwrap();
    assert_eq!(call, Opcode::Call(0x300));
    run(&mut emu, call);
    assert_eq!(emu.register(Register::Pc), 0x300);
    let ret = Opcode::decode(emu.fetch().unwrap()).unwrap();
    assert_eq!(ret, Opcode::Ret);
    run(&mut emu, ret);
    assert_eq!(emu.register(Register::Pc), 0x202);
    let next = Opcode::decode(emu.fetch().unwrap()).unwrap();
    assert_eq!(next, Opcode::LdVal(Register::V1, 7));
}

#[test]
fn nested_calls_return_in_reverse_order() {
    let mut emu = Emu::new();
    run(&mut emu, Opcode::Call(0x300));
    run(&mut emu, Opcode::Call(0x400));
    run(&mut emu, Opcode::Call(0x500));
    assert_eq!(emu.register(Register::Sp), 3);
    run(&mut emu, Opcode::Ret);
    assert_eq!(emu.register(Register::Pc), 0x400);
    run(&mut emu, Opcode::Ret);
    assert_eq!(emu.register(Register::Pc), 0x300);
    run(&mut emu, Opcode::Ret);
    assert_eq!(emu.register(Register::Pc), 0x200);
}

#[test]
fn seventeenth_call_overflows_the_stack() {
    let mut emu = Emu::new();
    for depth in 0..16u16 {
        assert_eq!(emu.register(Register::Sp), depth);
        assert_eq!(emu.execute(&Opcode::Call(0x300 + depth), 0), Ok(JUMPED));
    }
    assert_eq!(emu.register(Register::Sp), 16);
    assert_eq!(emu.register(Register::Pc), 0x30F);
    assert_eq!(
        emu.execute(&Opcode::Call(0x400), 0),
        Err(ExecutionError::StackOverflow)
    );
    assert_eq!(emu.register(Register::Sp), 16);
    assert_eq!(emu.register(Register::Pc), 0x30F);
    run(&mut emu, Opcode::Ret);
    assert_eq!(emu.register(Register::Pc), 0x30E);
    assert_eq!(emu.execute(&Opcode::Call(0x400), 0), Ok(JUMPED));
}

#[test]
fn ret_on_an_empty_stack_underflows() {
    let mut emu = Emu::new();
    assert_eq!(
        emu.execute(&Opcode::Ret, 0),
        Err(ExecutionError::StackUnderflow)
    );
    assert_eq!(emu.register(Register::Pc), 0x200);
    assert_eq!(emu.register(Register::Sp), 0);
    run(&mut emu, Opcode::Call(0x300));
    run(&mut emu, Opcode::Ret);
    assert_eq!(
        emu.execute(&Opcode::Ret, 0),
        Err(ExecutionError::StackUnderflow)
    );
}

#[test]
fn sys_is_unsupported() {
    let mut emu = Emu::new();
    assert_eq!(
        emu.execute(&Opcode::Sys(0x123), 0),
        Err(ExecutionError::UnsupportedInstruction)
    );
    assert_eq!(emu.register(Register::Pc), 0x200);
}

#[test]
fn operands_that_are_no_general_registers_are_unsupported() {
    let mut emu = Emu::new();
    assert_eq!(
        emu.execute(&Opcode::LdVal(Register::I, 1), 0),
        Err(ExecutionError::UnsupportedInstruction)
    );
    assert_eq!(
        emu.execute(&Opcode::AddReg(Register::V0, Register::Pc), 0),
        Err(ExecutionError::UnsupportedInstruction)
    );
    assert_eq!(
        emu.execute(&Opcode::Drw(Register::Sp, Register::V0, 1), 0),
        Err(ExecutionError::UnsupportedInstruction)
    );
    assert_eq!(emu.register(Register::I), 0);
    assert_eq!(emu.register(Register::Pc), 0x200);
}

#[test]
fn skips_move_the_program_counter_by_one_instruction() {
    let mut emu = Emu::new();
    set(&mut emu, Register::V1, 0x12);
    set(&mut emu, Register::V2, 0x12);
    set(&mut emu, Register::V3, 0x34);
    assert_eq!(
        emu.execute(&Opcode::SeVal(Register::V1, 0x12), 0),
        Ok(JUMPED)
    );
    assert_eq!(emu.register(Register::Pc), 0x202);
    assert_eq!(
        emu.execute(&Opcode::SeVal(Register::V1, 0x13), 0),
        Ok(QUIET)
    );
    assert_eq!(emu.register(Register::Pc), 0x202);
    assert_eq!(
        emu.execute(&Opcode::SneVal(Register::V1, 0x13), 0),
        Ok(JUMPED)
    );
    assert_eq!(emu.register(Register::Pc), 0x204);
    assert_eq!(
        emu.execute(&Opcode::SneVal(Register::V1, 0x12), 0),
        Ok(QUIET)
    );
    assert_eq!(
        emu.execute(&Opcode::SeReg(Register::V1, Register::V2), 0),
        Ok(JUMPED)
    );
    assert_eq!(emu.register(Register::Pc), 0x206);
    assert_eq!(
        emu.execute(&Opcode::SeReg(Register::V1, Register::V3), 0),
        Ok(QUIET)
    );
    assert_eq!(
        emu.execute(&Opcode::SneReg(Register::V1, Register::V3), 0),
        Ok(JUMPED)
    );
    assert_eq!(emu.register(Register::Pc), 0x208);
    assert_eq!(
        emu.execute(&Opcode::SneReg(Register::V1, Register::V2), 0),
        Ok(QUIET)
    );
    assert_eq!(emu.register(Register::Pc), 0x208);
}

#[test]
fn skip_after_a_fetch_lands_two_instructions_on() {
    let mut emu = Emu::new();
    emu.load(0x200, &[0x30, 0x00]).unwrap();
    let op = Opcode::decode(emu.fetch().unwrap()).unwrap();
    run(&mut emu, op);
    assert_eq!(emu.register(Register::Pc), 0x204);
}

#[test]
fn skip_past_the_last_address_is_out_of_bounds() {
    let mut emu = Emu::new();
    run(&mut emu, Opcode::Jp(0x0FFE));
    while emu.register(Register::Pc) < 0xFFFE {
        assert_eq!(emu.execute(&Opcode::SeVal(Register::V0, 0), 0), Ok(JUMPED));
    }
    assert_eq!(emu.register(Register::Pc), 0xFFFE);
    assert_eq!(
        emu.execute(&Opcode::SeVal(Register::V0, 0), 0),
        Err(ExecutionError::MemoryOutOfBounds)
    );
    assert_eq!(emu.register(Register::Pc), 0xFFFE);
    assert_eq!(emu.execute(&Opcode::SeVal(Register::V0, 1), 0), Ok(QUIET));
    run(&mut emu, Opcode::Jp(0x0FFF));
    while emu.register(Register::Pc) < 0xFFFD {
        assert_eq!(emu.execute(&Opcode::SneVal(Register::V0, 1), 0), Ok(JUMPED));
    }
    assert_eq!(emu.execute(&Opcode::SeVal(Register::V0, 0), 0), Ok(JUMPED));
    assert_eq!(emu.register(Register::Pc), 0xFFFF);
    assert_eq!(
        emu.execute(&Opcode::SneVal(Register::V0, 1), 0),
        Err(ExecutionError::MemoryOutOfBounds)
    );
}

#[test]
fn address_register_load_and_add() {
    let mut emu = Emu::new();
    assert_eq!(emu.execute(&Opcode::LdI(0x123), 0), Ok(QUIET));
    assert_eq!(emu.register(Register::I), 0x123);
    set(&mut emu, Register::V7, 0x10);
    assert_eq!(emu.execute(&Opcode::AddI(Register::V7), 0), Ok(QUIET));
    assert_eq!(emu.register(Register::I), 0x133);
    assert_eq!(emu.register(Register::Vf), 0);
    run(&mut emu, Opcode::LdI(0x0FFF));
    run(&mut emu, Opcode::AddI(Register::V7));
    assert_eq!(emu.register(Register::I), 0x100F);
}

#[test]
fn address_register_does_not_wrap() {
    let mut emu = Emu::new();
    run(&mut emu, Opcode::LdI(0x0FFF));
    set(&mut emu, Register::V7, 0xFF);
    let mut added = 0;
    while emu.execute(&Opcode::AddI(Register::V7), 0) == Ok(QUIET) {
        added += 1;
    }
    assert_eq!(added, 240);
    assert_eq!(emu.register(Register::I), 0x0FFF + 240 * 0xFF);
    assert_eq!(
        emu.execute(&Opcode::AddI(Register::V7), 0),
        Err(ExecutionError::MemoryOutOfBounds)
    );
    set(&mut emu, Register::V7, 0xF0);
    assert_eq!(emu.execute(&Opcode::AddI(Register::V7), 0), Ok(QUIET));
    assert_eq!(emu.register(Register::I), 0xFFFF);
    set(&mut emu, Register::V7, 0);
    assert_eq!(emu.execute(&Opcode::AddI(Register::V7), 0), Ok(QUIET));
    set(&mut emu, Register::V7, 1);
    assert_eq!(
        emu.execute(&Opcode::AddI(Register::V7), 0),
        Err(ExecutionError::MemoryOutOfBounds)
    );
    assert_eq!(emu.register(Register::I), 0xFFFF);
}
