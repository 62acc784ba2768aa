use chip8::opcode::Opcode;
use chip8::register::Register;

#[test]
fn test_decode_se_val() {
    assert_eq!(
        Opcode::decode(0x3012),
        Some(Opcode::SeVal(Register::V0, 0x12))
    )
}

#[test]
fn test_decode_sne() {
    assert_eq!(
        Opcode::decode(0x4112),
        Some(Opcode::SneVal(Register::V1, 0x12))
    )
}

#[test]
fn test_decode_se_reg() {
    assert_eq!(
        Opcode::decode(0x5230),
        Some(Opcode::SeReg(Register::V2, Register::V3))
    )
}

#[test]
fn decode_takes_the_register_from_the_second_nibble() {
    assert_eq!(
        Opcode::decode(0x3A12),
        Some(Opcode::SeVal(Register::Va, 0x12))
    );
    assert_eq!(
        Opcode::decode(0x8AB4),
        Some(Opcode::AddReg(Register::Va, Register::Vb))
    );
    assert_eq!(
        Opcode::decode(0xD125),
        Some(Opcode::Drw(Register::V1, Register::V2, 5))
    );
    assert_eq!(Opcode::decode(0xFE65), Some(Opcode::ReadRegs(Register::Ve)));
}

#[test]
fn decode_family_zero() {
    assert_eq!(Opcode::decode(0x00E0), Some(Opcode::Cls));
    assert_eq!(Opcode::decode(0x00EE), Some(Opcode::Ret));
    assert_eq!(Opcode::decode(0x0000), Some(Opcode::Sys(0x000)));
    assert_eq!(Opcode::decode(0x0123), Some(Opcode::Sys(0x123)));
    assert_eq!(Opcode::decode(0x01E0), Some(Opcode::Sys(0x1E0)));
    assert_eq!(Opcode::decode(0x00E1), Some(Opcode::Sys(0x0E1)));
    assert_eq!(Opcode::decode(0x0FEE), Some(Opcode::Sys(0xFEE)));
}

#[test]
fn decode_address_families() {
    assert_eq!(Opcode::decode(0x1ABC), Some(Opcode::Jp(0xABC)));
    assert_eq!(Opcode::decode(0x2300), Some(Opcode::Call(0x300)));
    assert_eq!(Opcode::decode(0xAFFF), Some(Opcode::LdI(0xFFF)));
    assert_eq!(Opcode::decode(0xB002), Some(Opcode::JpV0(0x002)));
}

#[test]
fn decode_immediate_families() {
    assert_eq!(
        Opcode::decode(0x37FF),
        Some(Opcode::SeVal(Register::V7, 0xFF))
    );
    assert_eq!(
        Opcode::decode(0x4F00),
        Some(Opcode::SneVal(Register::Vf, 0x00))
    );
    assert_eq!(
        Opcode::decode(0x6C2A),
        Some(Opcode::LdVal(Register::Vc, 0x2A))
    );
    assert_eq!(
        Opcode::decode(0x7D01),
        Some(Opcode::AddVal(Register::Vd, 0x01))
    );
    assert_eq!(
        Opcode::decode(0xC90F),
        Some(Opcode::Rnd(Register::V9, 0x0F))
    );
}

#[test]
fn decode_family_eight() {
    let x = Register::V4;
    let y = Register::V8;
    assert_eq!(Opcode::decode(0x8480), Some(Opcode::LdReg(x, y)));
    assert_eq!(Opcode::decode(0x8481), Some(Opcode::Or(x, y)));
    assert_eq!(Opcode::decode(0x8482), Some(Opcode::And(x, y)));
    assert_eq!(Opcode::decode(0x8483), Some(Opcode::Xor(x, y)));
    assert_eq!(Opcode::decode(0x8484), Some(Opcode::AddReg(x, y)));
    assert_eq!(Opcode::decode(0x8485), Some(Opcode::Sub(x, y)));
    assert_eq!(Opcode::decode(0x8486), Some(Opcode::Shr(x)));
    assert_eq!(Opcode::decode(0x8487), Some(Opcode::Subn(x, y)));
    assert_eq!(Opcode::decode(0x848E), Some(Opcode::Shl(x)));
    assert_eq!(Opcode::decode(0x8406), Some(Opcode::Shr(x)));
}

#[test]
fn decode_register_comparisons() {
    assert_eq!(
        Opcode::decode(0x5AB0),
        Some(Opcode::SeReg(Register::Va, Register::Vb))
    );
    assert_eq!(
        Opcode::decode(0x9010),
        Some(Opcode::SneReg(Register::V0, Register::V1))
    );
}

#[test]
fn decode_key_family() {
    assert_eq!(Opcode::decode(0xE39E), Some(Opcode::Skp(Register::V3)));
    assert_eq!(Opcode::decode(0xE3A1), Some(Opcode::SkNp(Register::V3)));
}

#[test]
fn decode_family_f() {
    let x = Register::V5;
    assert_eq!(Opcode::decode(0xF507), Some(Opcode::LdVxDt(x)));
    assert_eq!(Opcode::decode(0xF50A), Some(Opcode::LdK(x)));
    assert_eq!(Opcode::decode(0xF515), Some(Opcode::LdDtVx(x)));
    assert_eq!(Opcode::decode(0xF518), Some(Opcode::LdSt(x)));
    assert_eq!(Opcode::decode(0xF51E), Some(Opcode::AddI(x)));
    assert_eq!(Opcode::decode(0xF529), Some(Opcode::LdF(x)));
    assert_eq!(Opcode::decode(0xF533), Some(Opcode::LdB(x)));
    assert_eq!(Opcode::decode(0xF555), Some(Opcode::StoreRegs(x)));
    assert_eq!(Opcode::decode(0xF565), Some(Opcode::ReadRegs(x)));
}

#[test]
fn decode_fails_on_words_of_no_family() {
    assert_eq!(Opcode::decode(0xFFFF), None);
    assert_eq!(Opcode::decode(0x5231), None);
    assert_eq!(Opcode::decode(0x523F), None);
    assert_eq!(Opcode::decode(0x8AB8), None);
    assert_eq!(Opcode::decode(0x8ABF), None);
    assert_eq!(Opcode::decode(0x9AB1), None);
    assert_eq!(Opcode::decode(0xE000), None);
    assert_eq!(Opcode::decode(0xE19F), None);
    assert_eq!(Opcode::decode(0xE1A0), None);
    assert_eq!(Opcode::decode(0xF000), None);
    assert_eq!(Opcode::decode(0xF166), None);
    assert_eq!(Opcode::decode(0xF1FF), None);
}

#[test]
fn decode_is_total() {
    let mut failures: u32 = 0;
    let mut word: u32 = 0;
    while word <= 0xFFFF {
        if Opcode::decode(word as u16).is_none() {
            failures += 1;
        }
        word += 1;
    }
    // Families 5 and 9 keep one low nibble of sixteen, family 8 nine of
    // sixteen, family E two low bytes, family F nine.
    assert_eq!(failures, 3840 + 3840 + 1792 + 4064 + 3952);
}

#[test]
fn decoded_instructions_name_general_registers() {
    let mut word: u32 = 0;
    while word <= 0xFFFF {
        if let Some(op) = Opcode::decode(word as u16) {
            assert!(op.names_general_registers());
        }
        word += 1;
    }
}

#[test]
fn register_from_and_to_usize_are_inverse() {
    let mut i: u8 = 0;
    while i < 16 {
        let r = Register::from(i);
        assert!(r.is_general());
        assert_eq!(r.to_usize(), i as usize);
        i += 1;
    }
    assert_eq!(Register::from(0x0), Register::V0);
    assert_eq!(Register::from(0xA), Register::Va);
    assert_eq!(Register::from(0xF), Register::Vf);
    assert_eq!(Register::Vf.to_usize(), 15);
}

#[test]
fn only_v_registers_are_general() {
    assert!(Register::V0.is_general());
    assert!(Register::Vf.is_general());
    assert!(!Register::I.is_general());
    assert!(!Register::Delay.is_general());
    assert!(!Register::Sound.is_general());
    assert!(!Register::Pc.is_general());
    assert!(!Register::Sp.is_general());
    assert!(!Opcode::LdVal(Register::I, 1).names_general_registers());
    assert!(!Opcode::Drw(Register::V0, Register::Pc, 1).names_general_registers());
    assert!(Opcode::Jp(0x200).names_general_registers());
}
