use vstd::prelude::*;

verus! {

/// The named registers of the machine.
///
/// `V0` to `Vf` are the sixteen general-purpose 8-bit registers, the only
/// ones an instruction operand can name. `Vf` doubles as the flag register.
/// The others are the address register, the two timers, the program counter
/// and the stack pointer.
#[derive(PartialEq, Eq, Debug, Copy, Clone, Structural)]
pub enum Register {
    V0,
    V1,
    V2,
    V3,
    V4,
    V5,
    V6,
    V7,
    V8,
    V9,
    Va,
    Vb,
    Vc,
    Vd,
    Ve,
    Vf,
    I,
    Delay,
    Sound,
    Pc,
    Sp,
}

impl Register {
    /// True for `V0` to `Vf`.
    pub open spec fn spec_is_general(&self) -> bool {
        !(self is I || self is Delay || self is Sound || self is Pc || self is Sp)
    }

    /// True for `V0` to `Vf`.
    #[verifier::when_used_as_spec(spec_is_general)]
    pub fn is_general(&self) -> (b: bool)
        ensures
            b == self.spec_is_general(),
    {
        match self {
            Register::I | Register::Delay | Register::Sound | Register::Pc | Register::Sp => false,
            _ => true,
        }
    }

    /// The position of a general-purpose register in the register file.
    /// The other registers have no place in it and are all sent to 16.
    pub open spec fn index(self) -> int {
        match self {
            Register::V0 => 0,
            Register::V1 => 1,
            Register::V2 => 2,
            Register::V3 => 3,
            Register::V4 => 4,
            Register::V5 => 5,
            Register::V6 => 6,
            Register::V7 => 7,
            Register::V8 => 8,
            Register::V9 => 9,
            Register::Va => 10,
            Register::Vb => 11,
            Register::Vc => 12,
            Register::Vd => 13,
            Register::Ve => 14,
            Register::Vf => 15,
            _ => 16,
        }
    }

    /// The general-purpose register at position `i` of the register file.
    pub open spec fn general(i: int) -> Register {
        if i == 0 {
            Register::V0
        } else if i == 1 {
            Register::V1
        } else if i == 2 {
            Register::V2
        } else if i == 3 {
            Register::V3
        } else if i == 4 {
            Register::V4
        } else if i == 5 {
            Register::V5
        } else if i == 6 {
            Register::V6
        } else if i == 7 {
            Register::V7
        } else if i == 8 {
            Register::V8
        } else if i == 9 {
            Register::V9
        } else if i == 10 {
            Register::Va
        } else if i == 11 {
            Register::Vb
        } else if i == 12 {
            Register::Vc
        } else if i == 13 {
            Register::Vd
        } else if i == 14 {
            Register::Ve
        } else {
            Register::Vf
        }
    }

    /// The general-purpose register that a 4-bit operand field names.
    pub fn from(i: u8) -> (r: Register)
        requires
            i <= 0xf,
        ensures
            r == Register::general(i as int),
            r.is_general(),
            r.index() == i,
    {
        match i {
            0x0 => Register::V0,
            0x1 => Register::V1,
            0x2 => Register::V2,
            0x3 => Register::V3,
            0x4 => Register::V4,
            0x5 => Register::V5,
            0x6 => Register::V6,
            0x7 => Register::V7,
            0x8 => Register::V8,
            0x9 => Register::V9,
            0xa => Register::Va,
            0xb => Register::Vb,
            0xc => Register::Vc,
            0xd => Register::Vd,
            0xe => Register::Ve,
            _ => Register::Vf,
        }
    }

    /// The position of a general-purpose register in the register file.
    pub fn to_usize(&self) -> (n: usize)
        requires
            self.is_general(),
        ensures
            n == self.index(),
            n < 16,
    {
        match self {
            Register::V0 => 0,
            Register::V1 => 1,
            Register::V2 => 2,
            Register::V3 => 3,
            Register::V4 => 4,
            Register::V5 => 5,
            Register::V6 => 6,
            Register::V7 => 7,
            Register::V8 => 8,
            Register::V9 => 9,
            Register::Va => 10,
            Register::Vb => 11,
            Register::Vc => 12,
            Register::Vd => 13,
            Register::Ve => 14,
            _ => 15,
        }
    }

}

/// A general-purpose register has a position in the register file, and only
/// the flag register has the last one.
pub proof fn lemma_register_index_bounds(r: Register)
    requires
        r.is_general(),
    ensures
        0 <= r.index() < 16,
        r.index() == 15 <==> r == Register::Vf,
{
}

/// A general-purpose register is the one found at its own position, and the
/// register found at a position of the file has that position.
pub proof fn lemma_register_index_round_trip(r: Register, i: int)
    ensures
        r.is_general() ==> 0 <= r.index() < 16 && Register::general(r.index()) == r,
        0 <= i < 16 ==> Register::general(i).is_general() && Register::general(i).index() == i,
{
}

} // verus!
