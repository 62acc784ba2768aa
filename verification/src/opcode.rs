use vstd::prelude::*;
use crate::register::{lemma_register_index_round_trip, Register};

verus! {

/// One decoded instruction, with the operands that its encoding carries:
/// register names, a 12-bit address, an immediate byte or a row count.
#[derive(PartialEq, Eq, Debug, Copy, Clone, Structural)]
pub enum Opcode {
    /// `0nnn`: call of a native routine. No machine here supports it.
    Sys(u16),
    /// `00E0`: clear the display.
    Cls,
    /// `00EE`: return from a subroutine.
    Ret,
    /// `1nnn`: jump to `nnn`.
    Jp(u16),
    /// `2nnn`: call the subroutine at `nnn`.
    Call(u16),
    /// `3xkk`: skip the next instruction if `Vx == kk`.
    SeVal(Register, u8),
    /// `4xkk`: skip the next instruction if `Vx != kk`.
    SneVal(Register, u8),
    /// `5xy0`: skip the next instruction if `Vx == Vy`.
    SeReg(Register, Register),
    /// `6xkk`: `Vx = kk`.
    LdVal(Register, u8),
    /// `7xkk`: `Vx = Vx + kk`, wrapping, flag untouched.
    AddVal(Register, u8),
    /// `8xy0`: `Vx = Vy`.
    LdReg(Register, Register),
    /// `8xy1`: `Vx = Vx | Vy`.
    Or(Register, Register),
    /// `8xy2`: `Vx = Vx & Vy`.
    And(Register, Register),
    /// `8xy3`: `Vx = Vx ^ Vy`.
    Xor(Register, Register),
    /// `8xy4`: `Vx = Vx + Vy`, flag set on carry.
    AddReg(Register, Register),
    /// `8xy5`: `Vx = Vx - Vy`, flag set when nothing is borrowed.
    Sub(Register, Register),
    /// `8xy6`: `Vx = Vx >> 1`, flag set to the bit shifted out.
    Shr(Register),
    /// `8xy7`: `Vx = Vy - Vx`, flag set when nothing is borrowed.
    Subn(Register, Register),
    /// `8xyE`: `Vx = Vx << 1`, flag set to the bit shifted out.
    Shl(Register),
    /// `9xy0`: skip the next instruction if `Vx != Vy`.
    SneReg(Register, Register),
    /// `Annn`: `I = nnn`.
    LdI(u16),
    /// `Bnnn`: jump to `nnn + V0`.
    JpV0(u16),
    /// `Cxkk`: `Vx = random byte & kk`.
    Rnd(Register, u8),
    /// `Dxyn`: draw the `n`-row sprite at `I` at position `(Vx, Vy)`.
    Drw(Register, Register, u8),
    /// `Ex9E`: skip the next instruction if the key `Vx` is down.
    Skp(Register),
    /// `ExA1`: skip the next instruction if the key `Vx` is up.
    SkNp(Register),
    /// `Fx07`: `Vx = delay timer`.
    LdVxDt(Register),
    /// `Fx0A`: wait for a key press and store the key in `Vx`.
    LdK(Register),
    /// `Fx15`: `delay timer = Vx`.
    LdDtVx(Register),
    /// `Fx18`: `sound timer = Vx`.
    LdSt(Register),
    /// `Fx1E`: `I = I + Vx`.
    AddI(Register),
    /// `Fx29`: `I = address of the glyph for the digit in Vx`.
    LdF(Register),
    /// `Fx33`: store the three decimal digits of `Vx` at `I`, `I+1`, `I+2`.
    LdB(Register),
    /// `Fx55`: store `V0..=Vx` in memory from `I` on.
    StoreRegs(Register),
    /// `Fx65`: read `V0..=Vx` from memory from `I` on.
    ReadRegs(Register),
}

/// The four nibbles of an instruction word, most significant first.
pub open spec fn nibbles(word: u16) -> (int, int, int, int) {
    (word as int / 0x1000, (word as int / 0x100) % 0x10, (word as int / 0x10) % 0x10, word as int % 0x10)
}

/// The word with the four given nibbles, most significant first.
pub open spec fn word_xyn(op: int, x: int, y: int, n: int) -> int {
    0x1000 * op + 0x100 * x + 0x10 * y + n
}

/// The word with the two given high nibbles and the given low byte.
pub open spec fn word_xkk(op: int, x: int, kk: int) -> int {
    0x1000 * op + 0x100 * x + kk
}

/// The word with the given top nibble and the given 12-bit address.
pub open spec fn word_nnn(op: int, nnn: int) -> int {
    0x1000 * op + nnn
}

impl Opcode {
    /// The instruction that the word with the nibbles `op`, `x`, `y`, `n`
    /// encodes, or `None` where that word belongs to no instruction.
    ///
    /// The top nibble selects the family. `x` and `y` name registers, the
    /// three low nibbles together are an address, the two low nibbles
    /// together an immediate byte. Families `0`, `5`, `8`, `9`, `E` and `F`
    /// are narrowed by their low nibbles; a word of such a family whose low
    /// nibbles match no member encodes nothing. Within family `0` only the
    /// words `00E0` and `00EE` are set apart, all others are `Sys`.
    pub open spec fn of_nibbles(op: int, x: int, y: int, n: int) -> Option<Opcode> {
        let rx = Register::general(x);
        let ry = Register::general(y);
        let nnn = (0x100 * x + 0x10 * y + n) as u16;
        let kk = (0x10 * y + n) as u8;
        if op == 0x0 {
            if x == 0x0 && y == 0xe && n == 0x0 {
                Some(Opcode::Cls)
            } else if x == 0x0 && y == 0xe && n == 0xe {
                Some(Opcode::Ret)
            } else {
                Some(Opcode::Sys(nnn))
            }
        } else if op == 0x1 {
            Some(Opcode::Jp(nnn))
        } else if op == 0x2 {
            Some(Opcode::Call(nnn))
        } else if op == 0x3 {
            Some(Opcode::SeVal(rx, kk))
        } else if op == 0x4 {
            Some(Opcode::SneVal(rx, kk))
        } else if op == 0x5 {
            if n == 0x0 {
                Some(Opcode::SeReg(rx, ry))
            } else {
                None
            }
        } else if op == 0x6 {
            Some(Opcode::LdVal(rx, kk))
        } else if op == 0x7 {
            Some(Opcode::AddVal(rx, kk))
        } else if op == 0x8 {
            if n == 0x0 {
                Some(Opcode::LdReg(rx, ry))
            } else if n == 0x1 {
                Some(Opcode::Or(rx, ry))
            } else if n == 0x2 {
                Some(Opcode::And(rx, ry))
            } else if n == 0x3 {
                Some(Opcode::Xor(rx, ry))
            } else if n == 0x4 {
                Some(Opcode::AddReg(rx, ry))
            } else if n == 0x5 {
                Some(Opcode::Sub(rx, ry))
            } else if n == 0x6 {
                Some(Opcode::Shr(rx))
            } else if n == 0x7 {
                Some(Opcode::Subn(rx, ry))
            } else if n == 0xe {
                Some(Opcode::Shl(rx))
            } else {
                None
            }
        } else if op == 0x9 {
            if n == 0x0 {
                Some(Opcode::SneReg(rx, ry))
            } else {
                None
            }
        } else if op == 0xa {
            Some(Opcode::LdI(nnn))
        } else if op == 0xb {
            Some(Opcode::JpV0(nnn))
        } else if op == 0xc {
            Some(Opcode::Rnd(rx, kk))
        } else if op == 0xd {
            Some(Opcode::Drw(rx, ry, n as u8))
        } else if op == 0xe {
            if y == 0x9 && n == 0xe {
                Some(Opcode::Skp(rx))
            } else if y == 0xa && n == 0x1 {
                Some(Opcode::SkNp(rx))
            } else {
                None
            }
        } else {
            if y == 0x0 && n == 0x7 {
                Some(Opcode::LdVxDt(rx))
            } else if y == 0x0 && n == 0xa {
                Some(Opcode::LdK(rx))
            } else if y == 0x1 && n == 0x5 {
                Some(Opcode::LdDtVx(rx))
            } else if y == 0x1 && n == 0x8 {
                Some(Opcode::LdSt(rx))
            } else if y == 0x1 && n == 0xe {
                Some(Opcode::AddI(rx))
            } else if y == 0x2 && n == 0x9 {
                Some(Opcode::LdF(rx))
            } else if y == 0x3 && n == 0x3 {
                Some(Opcode::LdB(rx))
            } else if y == 0x5 && n == 0x5 {
                Some(Opcode::StoreRegs(rx))
            } else if y == 0x6 && n == 0x5 {
                Some(Opcode::ReadRegs(rx))
            } else {
                None
            }
        }
    }

    /// The instruction that a word encodes, or `None` where the word belongs
    /// to no instruction.
    pub open spec fn decoded(word: u16) -> Option<Opcode> {
        let (op, x, y, n) = nibbles(word);
        Self::of_nibbles(op, x, y, n)
    }

    /// True when every register operand is a general-purpose register, the
    /// only kind that an instruction word can name.
    pub open spec fn spec_names_general_registers(&self) -> bool {
        match self {
            Opcode::SeVal(x, _) | Opcode::SneVal(x, _) | Opcode::LdVal(x, _) | Opcode::AddVal(x, _)
            | Opcode::Rnd(x, _) | Opcode::Shr(x) | Opcode::Shl(x) | Opcode::Skp(x) | Opcode::SkNp(x)
            | Opcode::LdVxDt(x) | Opcode::LdK(x) | Opcode::LdDtVx(x) | Opcode::LdSt(x)
            | Opcode::AddI(x) | Opcode::LdF(x) | Opcode::LdB(x) | Opcode::StoreRegs(x)
            | Opcode::ReadRegs(x) => x.is_general(),
            Opcode::SeReg(x, y) | Opcode::LdReg(x, y) | Opcode::Or(x, y) | Opcode::And(x, y)
            | Opcode::Xor(x, y) | Opcode::AddReg(x, y) | Opcode::Sub(x, y) | Opcode::Subn(x, y)
            | Opcode::SneReg(x, y) | Opcode::Drw(x, y, _) => x.is_general() && y.is_general(),
            _ => true,
        }
    }

    /// True when every register operand is a general-purpose register.
    #[verifier::when_used_as_spec(spec_names_general_registers)]
    pub fn names_general_registers(&self) -> (b: bool)
        ensures
            b == self.spec_names_general_registers(),
    {
        match self {
            Opcode::SeVal(x, _) | Opcode::SneVal(x, _) | Opcode::LdVal(x, _) | Opcode::AddVal(x, _)
            | Opcode::Rnd(x, _) | Opcode::Shr(x) | Opcode::Shl(x) | Opcode::Skp(x) | Opcode::SkNp(x)
            | Opcode::LdVxDt(x) | Opcode::LdK(x) | Opcode::LdDtVx(x) | Opcode::LdSt(x)
            | Opcode::AddI(x) | Opcode::LdF(x) | Opcode::LdB(x) | Opcode::StoreRegs(x)
            | Opcode::ReadRegs(x) => x.is_general(),
            Opcode::SeReg(x, y) | Opcode::LdReg(x, y) | Opcode::Or(x, y) | Opcode::And(x, y)
            | Opcode::Xor(x, y) | Opcode::AddReg(x, y) | Opcode::Sub(x, y) | Opcode::Subn(x, y)
            | Opcode::SneReg(x, y) | Opcode::Drw(x, y, _) => x.is_general() && y.is_general(),
            _ => true,
        }
    }

    /// True when the instruction has an encoding: its registers are
    /// general-purpose, its address fits 12 bits, its row count fits 4 bits.
    /// `Sys(0x0e0)` and `Sys(0x0ee)` have none: their words are `Cls` and `Ret`.
    pub open spec fn well_formed(self) -> bool {
        &&& self.names_general_registers()
        &&& match self {
            Opcode::Sys(nnn) => nnn <= 0x0fff && nnn != 0x00e0 && nnn != 0x00ee,
            Opcode::Jp(nnn) | Opcode::Call(nnn) | Opcode::LdI(nnn) | Opcode::JpV0(nnn) => nnn
                <= 0x0fff,
            Opcode::Drw(_, _, n) => n <= 0xf,
            _ => true,
        }
    }

    /// The word that encodes a well-formed instruction. The two shifts leave
    /// the second register field of their word unused; it is 0 here.
    pub open spec fn encoding(self) -> int {
        match self {
            Opcode::Sys(nnn) => word_nnn(0x0, nnn as int),
            Opcode::Cls => word_nnn(0x0, 0x0e0),
            Opcode::Ret => word_nnn(0x0, 0x0ee),
            Opcode::Jp(nnn) => word_nnn(0x1, nnn as int),
            Opcode::Call(nnn) => word_nnn(0x2, nnn as int),
            Opcode::SeVal(x, kk) => word_xkk(0x3, x.index(), kk as int),
            Opcode::SneVal(x, kk) => word_xkk(0x4, x.index(), kk as int),
            Opcode::SeReg(x, y) => word_xyn(0x5, x.index(), y.index(), 0x0),
            Opcode::LdVal(x, kk) => word_xkk(0x6, x.index(), kk as int),
            Opcode::AddVal(x, kk) => word_xkk(0x7, x.index(), kk as int),
            Opcode::LdReg(x, y) => word_xyn(0x8, x.index(), y.index(), 0x0),
            Opcode::Or(x, y) => word_xyn(0x8, x.index(), y.index(), 0x1),
            Opcode::And(x, y) => word_xyn(0x8, x.index(), y.index(), 0x2),
            Opcode::Xor(x, y) => word_xyn(0x8, x.index(), y.index(), 0x3),
            Opcode::AddReg(x, y) => word_xyn(0x8, x.index(), y.index(), 0x4),
            Opcode::Sub(x, y) => word_xyn(0x8, x.index(), y.index(), 0x5),
            Opcode::Shr(x) => word_xyn(0x8, x.index(), 0x0, 0x6),
            Opcode::Subn(x, y) => word_xyn(0x8, x.index(), y.index(), 0x7),
            Opcode::Shl(x) => word_xyn(0x8, x.index(), 0x0, 0xe),
            Opcode::SneReg(x, y) => word_xyn(0x9, x.index(), y.index(), 0x0),
            Opcode::LdI(nnn) => word_nnn(0xa, nnn as int),
            Opcode::JpV0(nnn) => word_nnn(0xb, nnn as int),
            Opcode::Rnd(x, kk) => word_xkk(0xc, x.index(), kk as int),
            Opcode::Drw(x, y, n) => word_xyn(0xd, x.index(), y.index(), n as int),
            Opcode::Skp(x) => word_xkk(0xe, x.index(), 0x9e),
            Opcode::SkNp(x) => word_xkk(0xe, x.index(), 0xa1),
            Opcode::LdVxDt(x) => word_xkk(0xf, x.index(), 0x07),
            Opcode::LdK(x) => word_xkk(0xf, x.index(), 0x0a),
            Opcode::LdDtVx(x) => word_xkk(0xf, x.index(), 0x15),
            Opcode::LdSt(x) => word_xkk(0xf, x.index(), 0x18),
            Opcode::AddI(x) => word_xkk(0xf, x.index(), 0x1e),
            Opcode::LdF(x) => word_xkk(0xf, x.index(), 0x29),
            Opcode::LdB(x) => word_xkk(0xf, x.index(), 0x33),
            Opcode::StoreRegs(x) => word_xkk(0xf, x.index(), 0x55),
            Opcode::ReadRegs(x) => word_xkk(0xf, x.index(), 0x65),
        }
    }

    /// Decodes one instruction word. A word that encodes no instruction gives
    /// `None`.
    pub fn decode(hex: u16) -> (r: Option<Opcode>)
        ensures
            r == Opcode::decoded(hex),
    {
        let nnn: u16 = hex & 0x0fff;
        let n: u8 = (hex & 0x000f) as u8;
        let kk: u8 = (hex & 0x00ff) as u8;
        let x: u8 = ((hex >> 8) & 0x000f) as u8;
        let y: u8 = ((hex >> 4) & 0x000f) as u8;
        let op: u8 = (hex >> 12) as u8;
        proof {
            lemma_fields_by_shift_and_mask(hex);
        }
        match (op, x, y, n) {
            (0x0, 0x0, 0xe, 0x0) => Some(Opcode::Cls),
            (0x0, 0x0, 0xe, 0xe) => Some(Opcode::Ret),
            (0x0, _, _, _) => Some(Opcode::Sys(nnn)),
            (0x1, _, _, _) => Some(Opcode::Jp(nnn)),
            (0x2, _, _, _) => Some(Opcode::Call(nnn)),
            (0x3, _, _, _) => Some(Opcode::SeVal(Register::from(x), kk)),
            (0x4, _, _, _) => Some(Opcode::SneVal(Register::from(x), kk)),
            (0x5, _, _, 0x0) => Some(Opcode::SeReg(Register::from(x), Register::from(y))),
            (0x6, _, _, _) => Some(Opcode::LdVal(Register::from(x), kk)),
            (0x7, _, _, _) => Some(Opcode::AddVal(Register::from(x), kk)),
            (0x8, _, _, 0x0) => Some(Opcode::LdReg(Register::from(x), Register::from(y))),
            (0x8, _, _, 0x1) => Some(Opcode::Or(Register::from(x), Register::from(y))),
            (0x8, _, _, 0x2) => Some(Opcode::And(Register::from(x), Register::from(y))),
            (0x8, _, _, 0x3) => Some(Opcode::Xor(Register::from(x), Register::from(y))),
            (0x8, _, _, 0x4) => Some(Opcode::AddReg(Register::from(x), Register::from(y))),
            (0x8, _, _, 0x5) => Some(Opcode::Sub(Register::from(x), Register::from(y))),
            (0x8, _, _, 0x6) => Some(Opcode::Shr(Register::from(x))),
            (0x8, _, _, 0x7) => Some(Opcode::Subn(Register::from(x), Register::from(y))),
            (0x8, _, _, 0xe) => Some(Opcode::Shl(Register::from(x))),
            (0x9, _, _, 0x0) => Some(Opcode::SneReg(Register::from(x), Register::from(y))),
            (0xa, _, _, _) => Some(Opcode::LdI(nnn)),
            (0xb, _, _, _) => Some(Opcode::JpV0(nnn)),
            (0xc, _, _, _) => Some(Opcode::Rnd(Register::from(x), kk)),
            (0xd, _, _, _) => Some(Opcode::Drw(Register::from(x), Register::from(y), n)),
            (0xe, _, 0x9, 0xe) => Some(Opcode::Skp(Register::from(x))),
            (0xe, _, 0xa, 0x1) => Some(Opcode::SkNp(Register::from(x))),
            (0xf, _, 0x0, 0x7) => Some(Opcode::LdVxDt(Register::from(x))),
            (0xf, _, 0x0, 0xa) => Some(Opcode::LdK(Register::from(x))),
            (0xf, _, 0x1, 0x5) => Some(Opcode::LdDtVx(Register::from(x))),
            (0xf, _, 0x1, 0x8) => Some(Opcode::LdSt(Register::from(x))),
            (0xf, _, 0x1, 0xe) => Some(Opcode::AddI(Register::from(x))),
            (0xf, _, 0x2, 0x9) => Some(Opcode::LdF(Register::from(x))),
            (0xf, _, 0x3, 0x3) => Some(Opcode::LdB(Register::from(x))),
            (0xf, _, 0x5, 0x5) => Some(Opcode::StoreRegs(Register::from(x))),
            (0xf, _, 0x6, 0x5) => Some(Opcode::ReadRegs(Register::from(x))),
            _ => None,
        }
    }
}

/// Whether `f` holds the nibbles of the word that encodes `op`: four nibbles
/// that make the encoding, and that decode to the instruction.
spec fn encodes(f: (int, int, int, int), op: Opcode) -> bool {
    &&& 0 <= f.0 < 0x10
    &&& 0 <= f.1 < 0x10
    &&& 0 <= f.2 < 0x10
    &&& 0 <= f.3 < 0x10
    &&& op.encoding() == word_xyn(f.0, f.1, f.2, f.3)
    &&& Opcode::of_nibbles(f.0, f.1, f.2, f.3) == Some(op)
}

/// Shifting and masking an instruction word yields its nibbles, and its low
/// bits are the address and the byte that its low nibbles make.
proof fn lemma_fields_by_shift_and_mask(hex: u16)
    ensures
        (hex >> 12) as int == nibbles(hex).0,
        ((hex >> 8) & 0x000f) as int == nibbles(hex).1,
        ((hex >> 4) & 0x000f) as int == nibbles(hex).2,
        (hex & 0x000f) as int == nibbles(hex).3,
        (hex & 0x0fff) as int == 0x100 * nibbles(hex).1 + 0x10 * nibbles(hex).2 + nibbles(hex).3,
        (hex & 0x00ff) as int == 0x10 * nibbles(hex).2 + nibbles(hex).3,
        nibbles(hex).0 < 0x10,
{
    assert(hex >> 12 == hex / 0x1000) by (bit_vector);
    assert((hex >> 8) & 0x000f == (hex / 0x100) % 0x10) by (bit_vector);
    assert((hex >> 4) & 0x000f == (hex / 0x10) % 0x10) by (bit_vector);
    assert(hex & 0x000f == hex % 0x10) by (bit_vector);
    assert(hex & 0x0fff == 0x100 * ((hex / 0x100) % 0x10) + 0x10 * ((hex / 0x10) % 0x10) + hex
        % 0x10) by (bit_vector);
    assert(hex & 0x00ff == 0x10 * ((hex / 0x10) % 0x10) + hex % 0x10) by (bit_vector);
    assert(hex / 0x1000 < 0x10) by (bit_vector);
}

/// A word is the sum of its nibbles, each weighted by its place.
proof fn lemma_word_from_nibbles(word: u16)
    ensures
        word as int == word_xyn(nibbles(word).0, nibbles(word).1, nibbles(word).2, nibbles(word).3),
        0 <= nibbles(word).0 < 0x10,
        0 <= nibbles(word).1 < 0x10,
        0 <= nibbles(word).2 < 0x10,
        0 <= nibbles(word).3 < 0x10,
{
    assert(word == 0x1000 * (word / 0x1000) + 0x100 * ((word / 0x100) % 0x10) + 0x10 * ((word
        / 0x10) % 0x10) + word % 0x10) by (bit_vector);
    assert(word / 0x1000 < 0x10) by (bit_vector);
}

/// Four nibbles weighted by their places make a word that has them as its
/// nibbles.
proof fn lemma_nibbles_of_word(op: int, x: int, y: int, n: int)
    requires
        0 <= op < 0x10,
        0 <= x < 0x10,
        0 <= y < 0x10,
        0 <= n < 0x10,
    ensures
        0 <= word_xyn(op, x, y, n) <= 0xffff,
        nibbles(word_xyn(op, x, y, n) as u16) == (op, x, y, n),
{
    let w = word_xyn(op, x, y, n) as u16;
    let a = op as u16;
    let b = x as u16;
    let c = y as u16;
    let d = n as u16;
    assert(w == 0x1000 * a + 0x100 * b + 0x10 * c + d);
    assert(w / 0x1000 == a && (w / 0x100) % 0x10 == b && (w / 0x10) % 0x10 == c && w % 0x10 == d)
        by (bit_vector)
        requires
            a < 0x10,
            b < 0x10,
            c < 0x10,
            d < 0x10,
            w == 0x1000 * a + 0x100 * b + 0x10 * c + d,
    ;
}

/// The nibbles of the word that encodes a well-formed instruction,
/// on the instructions that carry an address or nothing.
proof fn lemma_control_nibbles(op: Opcode) -> (f: (int, int, int, int))
    requires
        op.well_formed(),
        op is Sys || op is Cls || op is Ret || op is Jp || op is Call || op is LdI || op is JpV0,
    ensures
        encodes(f, op),
{
    match op {
        Opcode::Sys(nnn) => lemma_address_nibbles(0x0, nnn),
        Opcode::Jp(nnn) => lemma_address_nibbles(0x1, nnn),
        Opcode::Call(nnn) => lemma_address_nibbles(0x2, nnn),
        Opcode::LdI(nnn) => lemma_address_nibbles(0xa, nnn),
        Opcode::JpV0(nnn) => lemma_address_nibbles(0xb, nnn),
        Opcode::Cls => (0x0, 0x0, 0xe, 0x0),
        _ => (0x0, 0x0, 0xe, 0xe),
    }
}

/// The nibbles of the word that encodes a well-formed instruction,
/// on the instructions that carry a register and a byte.
proof fn lemma_immediate_nibbles(op: Opcode) -> (f: (int, int, int, int))
    requires
        op.well_formed(),
        op is SeVal || op is SneVal || op is LdVal || op is AddVal || op is Rnd,
    ensures
        encodes(f, op),
{
    match op {
        Opcode::SeVal(x, kk) => lemma_byte_nibbles(0x3, x, kk),
        Opcode::SneVal(x, kk) => lemma_byte_nibbles(0x4, x, kk),
        Opcode::LdVal(x, kk) => lemma_byte_nibbles(0x6, x, kk),
        Opcode::AddVal(x, kk) => lemma_byte_nibbles(0x7, x, kk),
        Opcode::Rnd(x, kk) => lemma_byte_nibbles(0xc, x, kk),
        _ => (0, 0, 0, 0),
    }
}

/// The nibbles of the word that encodes a well-formed instruction,
/// on the register-to-register arithmetic and logic instructions.
proof fn lemma_arithmetic_nibbles(op: Opcode) -> (f: (int, int, int, int))
    requires
        op.well_formed(),
        op is LdReg || op is Or || op is And || op is Xor || op is AddReg || op is Sub || op is Shr || op is Subn || op is Shl,
    ensures
        encodes(f, op),
{
    match op {
        Opcode::LdReg(x, y) => lemma_register_nibbles(0x8, x, y, 0x0),
        Opcode::Or(x, y) => lemma_register_nibbles(0x8, x, y, 0x1),
        Opcode::And(x, y) => lemma_register_nibbles(0x8, x, y, 0x2),
        Opcode::Xor(x, y) => lemma_register_nibbles(0x8, x, y, 0x3),
        Opcode::AddReg(x, y) => lemma_register_nibbles(0x8, x, y, 0x4),
        Opcode::Sub(x, y) => lemma_register_nibbles(0x8, x, y, 0x5),
        Opcode::Shr(x) => lemma_register_nibbles(0x8, x, Register::V0, 0x6),
        Opcode::Subn(x, y) => lemma_register_nibbles(0x8, x, y, 0x7),
        Opcode::Shl(x) => lemma_register_nibbles(0x8, x, Register::V0, 0xe),
        _ => (0, 0, 0, 0),
    }
}

/// The nibbles of the word that encodes a well-formed instruction,
/// on the register comparisons, the draw instruction and the key skips.
proof fn lemma_comparison_nibbles(op: Opcode) -> (f: (int, int, int, int))
    requires
        op.well_formed(),
        op is SeReg || op is SneReg || op is Drw || op is Skp || op is SkNp,
    ensures
        encodes(f, op),
{
    match op {
        Opcode::SeReg(x, y) => lemma_register_nibbles(0x5, x, y, 0x0),
        Opcode::SneReg(x, y) => lemma_register_nibbles(0x9, x, y, 0x0),
        Opcode::Drw(x, y, n) => lemma_register_nibbles(0xd, x, y, n as int),
        Opcode::Skp(x) => lemma_register_nibbles(0xe, x, Register::V9, 0xe),
        Opcode::SkNp(x) => lemma_register_nibbles(0xe, x, Register::Va, 0x1),
        _ => (0, 0, 0, 0),
    }
}

/// The nibbles of the word that encodes a well-formed instruction,
/// on the timer and key instructions of the last family.
proof fn lemma_timer_nibbles(op: Opcode) -> (f: (int, int, int, int))
    requires
        op.well_formed(),
        op is LdVxDt || op is LdK || op is LdDtVx || op is LdSt,
    ensures
        encodes(f, op),
{
    match op {
        Opcode::LdVxDt(x) => lemma_register_nibbles(0xf, x, Register::V0, 0x7),
        Opcode::LdK(x) => lemma_register_nibbles(0xf, x, Register::V0, 0xa),
        Opcode::LdDtVx(x) => lemma_register_nibbles(0xf, x, Register::V1, 0x5),
        Opcode::LdSt(x) => lemma_register_nibbles(0xf, x, Register::V1, 0x8),
        _ => (0, 0, 0, 0),
    }
}

/// The nibbles of the word that encodes a well-formed instruction,
/// on the address register and memory instructions of the last family.
proof fn lemma_memory_nibbles(op: Opcode) -> (f: (int, int, int, int))
    requires
        op.well_formed(),
        op is AddI || op is LdF || op is LdB || op is StoreRegs || op is ReadRegs,
    ensures
        encodes(f, op),
{
    match op {
        Opcode::AddI(x) => lemma_register_nibbles(0xf, x, Register::V1, 0xe),
        Opcode::LdF(x) => lemma_register_nibbles(0xf, x, Register::V2, 0x9),
        Opcode::LdB(x) => lemma_register_nibbles(0xf, x, Register::V3, 0x3),
        Opcode::StoreRegs(x) => lemma_register_nibbles(0xf, x, Register::V5, 0x5),
        Opcode::ReadRegs(x) => lemma_register_nibbles(0xf, x, Register::V6, 0x5),
        _ => (0, 0, 0, 0),
    }
}

/// The nibbles of the word that encodes a well-formed instruction.
proof fn lemma_encoding_nibbles(op: Opcode) -> (f: (int, int, int, int))
    requires
        op.well_formed(),
    ensures
        encodes(f, op),
{
    if op is Sys || op is Cls || op is Ret || op is Jp || op is Call || op is LdI || op is JpV0 {
        lemma_control_nibbles(op)
    } else if op is SeVal || op is SneVal || op is LdVal || op is AddVal || op is Rnd {
        lemma_immediate_nibbles(op)
    } else if op is LdReg || op is Or || op is And || op is Xor || op is AddReg || op is Sub || op is Shr || op is Subn || op is Shl {
        lemma_arithmetic_nibbles(op)
    } else if op is SeReg || op is SneReg || op is Drw || op is Skp || op is SkNp {
        lemma_comparison_nibbles(op)
    } else if op is LdVxDt || op is LdK || op is LdDtVx || op is LdSt {
        lemma_timer_nibbles(op)
    } else {
        lemma_memory_nibbles(op)
    }
}

/// The nibbles of a word made of a family and an address.
proof fn lemma_address_nibbles(family: int, nnn: u16) -> (f: (int, int, int, int))
    requires
        0 <= family < 0x10,
        nnn <= 0x0fff,
    ensures
        f.0 == family,
        0 <= f.1 < 0x10,
        0 <= f.2 < 0x10,
        0 <= f.3 < 0x10,
        word_nnn(family, nnn as int) == word_xyn(f.0, f.1, f.2, f.3),
        nnn as int == 0x100 * f.1 + 0x10 * f.2 + f.3,
{
    lemma_word_from_nibbles(nnn);
    (family, nibbles(nnn).1, nibbles(nnn).2, nibbles(nnn).3)
}

/// The nibbles of a word made of a family, a register and a byte.
proof fn lemma_byte_nibbles(family: int, x: Register, kk: u8) -> (f: (
    int,
    int,
    int,
    int,
))
    requires
        0 <= family < 0x10,
        x.is_general(),
    ensures
        f.0 == family,
        f.1 == x.index(),
        0 <= f.1 < 0x10,
        0 <= f.2 < 0x10,
        0 <= f.3 < 0x10,
        word_xkk(family, x.index(), kk as int) == word_xyn(f.0, f.1, f.2, f.3),
        kk as int == 0x10 * f.2 + f.3,
        Register::general(f.1) == x,
{
    lemma_register_index_round_trip(x, 0);
    (family, x.index(), kk as int / 0x10, kk as int % 0x10)
}

/// The nibbles of a word made of a family, two registers and a low nibble.
proof fn lemma_register_nibbles(family: int, x: Register, y: Register, n: int) -> (f: (
    int,
    int,
    int,
    int,
))
    requires
        0 <= family < 0x10,
        x.is_general(),
        y.is_general(),
        0 <= n < 0x10,
    ensures
        f == (family, x.index(), y.index(), n),
        0 <= f.1 < 0x10,
        0 <= f.2 < 0x10,
        word_xkk(family, x.index(), 0x10 * y.index() + n) == word_xyn(f.0, f.1, f.2, f.3),
        Register::general(f.1) == x,
        Register::general(f.2) == y,
{
    lemma_register_index_round_trip(x, 0);
    lemma_register_index_round_trip(y, 0);
    (family, x.index(), y.index(), n)
}

/// Decoding is a left inverse of encoding: the word of a well-formed
/// instruction decodes to that instruction.
pub proof fn lemma_decode_inverts_encoding(op: Opcode)
    requires
        op.well_formed(),
    ensures
        0 <= op.encoding() <= 0xffff,
        Opcode::decoded(op.encoding() as u16) == Some(op),
{
    let f = lemma_encoding_nibbles(op);
    lemma_nibbles_of_word(f.0, f.1, f.2, f.3);
}

/// Whatever a word decodes to is well formed, and the word is its encoding,
/// but for the second register field of a shift, which decoding drops.
pub proof fn lemma_decoded_is_well_formed(word: u16)
    ensures
        Opcode::decoded(word) matches Some(op) ==> {
            &&& op.well_formed()
            &&& op.encoding() == if op is Shr || op is Shl {
                word - 0x10 * nibbles(word).2
            } else {
                word as int
            }
        },
{
    lemma_word_from_nibbles(word);
    let f = nibbles(word);
    lemma_of_nibbles_is_well_formed(f.0, f.1, f.2, f.3);
}

/// Whatever four nibbles decode to is well formed, and its encoding is the
/// word that they make, but for the second register field of a shift.
proof fn lemma_of_nibbles_is_well_formed(op: int, x: int, y: int, n: int)
    requires
        0 <= op < 0x10,
        0 <= x < 0x10,
        0 <= y < 0x10,
        0 <= n < 0x10,
    ensures
        Opcode::of_nibbles(op, x, y, n) matches Some(i) ==> {
            &&& i.well_formed()
            &&& i.encoding() == if i is Shr || i is Shl {
                word_xyn(op, x, 0, n)
            } else {
                word_xyn(op, x, y, n)
            }
        },
{
    lemma_register_index_round_trip(Register::V0, x);
    lemma_register_index_round_trip(Register::V0, y);
}

/// A word that decodes to nothing is the encoding of no well-formed
/// instruction.
pub proof fn lemma_undecodable_encodes_nothing(word: u16, op: Opcode)
    requires
        Opcode::decoded(word) is None,
        op.well_formed(),
    ensures
        op.encoding() != word,
{
    lemma_decode_inverts_encoding(op);
}

} // verus!
