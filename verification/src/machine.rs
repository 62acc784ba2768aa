//! The mathematical model of the machine: its state as plain sequences and
//! integers, and the effect of every instruction as a function from state to
//! state.

use vstd::prelude::*;
use crate::opcode::Opcode;
use crate::register::Register;

verus! {

/// Number of bytes of memory.
pub const MEMORY_SIZE: usize = 4096;

/// Address at which a program starts, and the program counter of a new machine.
pub const PROGRAM_START: u16 = 0x200;

/// Number of return addresses that the call stack holds.
pub const STACK_CAPACITY: usize = 16;

/// Number of pixels in a display row.
pub const DISPLAY_WIDTH: usize = 64;

/// Number of display rows.
pub const DISPLAY_HEIGHT: usize = 32;

/// Number of pixels of the display, which is stored row by row.
pub const DISPLAY_SIZE: usize = 2048;

/// Number of keys of the keypad.
pub const KEY_COUNT: usize = 16;

/// Address of the glyph for the digit 0. The glyphs of the sixteen
/// hexadecimal digits follow one another from here.
pub const FONT_START: u16 = 0x000;

/// Number of bytes, one per row, of a digit's glyph.
pub const GLYPH_SIZE: u16 = 5;

/// Width of an instruction in bytes.
pub const INSTRUCTION_SIZE: u16 = 2;

/// Why an instruction could not be carried out. The machine is left as it
/// was.
#[derive(PartialEq, Eq, Debug, Copy, Clone, Structural)]
pub enum ExecutionError {
    /// A call with the stack full.
    StackOverflow,
    /// A return with the stack empty.
    StackUnderflow,
    /// `Sys`, or an instruction with an operand that names no
    /// general-purpose register.
    UnsupportedInstruction,
    /// An address operand, a jump target or an access outside memory, or an
    /// address beyond 16 bits.
    MemoryOutOfBounds,
}

/// What an instruction did that the world outside the machine may want to
/// act on.
#[derive(PartialEq, Eq, Debug, Copy, Clone, Structural)]
pub struct SideEffects {
    /// Some pixel of the display changed.
    pub display_changed: bool,
    /// The program counter changed.
    pub pc_changed: bool,
    /// The machine waits for a key press: the same instruction is to be
    /// executed again, with no fetch in between, once a key went down.
    pub awaiting_key: bool,
}

/// The state of the machine.
#[verifier::ext_equal]
pub struct MachineState {
    /// The sixteen general-purpose registers, `V0` first.
    pub registers: Seq<u8>,
    /// The address register.
    pub i: u16,
    /// The program counter.
    pub pc: u16,
    /// The return addresses on the call stack, the oldest first.
    pub stack: Seq<u16>,
    /// The memory.
    pub memory: Seq<u8>,
    /// The pixels, row by row, each on or off.
    pub display: Seq<bool>,
    /// The delay timer.
    pub delay_timer: u8,
    /// The sound timer.
    pub sound_timer: u8,
    /// For each key, whether it is down.
    pub keys: Seq<bool>,
    /// Whether a wait-for-key instruction is suspended.
    pub awaiting_key: bool,
    /// The first key that went down since the machine began to wait.
    pub pressed_key: Option<u8>,
}

/// Whether pixel `col` of a sprite row is set. Pixel 0 is the leftmost and
/// the most significant bit.
pub open spec fn sprite_bit(row: u8, col: int) -> bool {
    row & (0x80u8 >> (col as u8)) != 0
}

/// The flag value for a condition.
pub open spec fn flag(b: bool) -> u8 {
    if b {
        1
    } else {
        0
    }
}

/// How a machine stands after it tried an instruction that leads to
/// `expected`: in the state that the instruction leads to, or, where the
/// instruction fails, unchanged and with the instruction's error.
pub open spec fn carried_out<T>(
    before: MachineState,
    expected: Result<MachineState, ExecutionError>,
    result: Result<T, ExecutionError>,
    after: MachineState,
) -> bool {
    match expected {
        Ok(state) => result is Ok && after == state,
        Err(e) => result == Err::<T, ExecutionError>(e) && after == before,
    }
}

impl MachineState {
    /// The display with every pixel off.
    pub open spec fn blank() -> Seq<bool> {
        Seq::new(DISPLAY_SIZE as nat, |p: int| false)
    }

    /// The state of a new machine: everything zero, the stack empty, no key
    /// down, the program counter at the start of the program area.
    pub open spec fn initial() -> MachineState {
        MachineState {
            registers: Seq::new(16, |k: int| 0u8),
            i: 0,
            pc: PROGRAM_START,
            stack: Seq::empty(),
            memory: Seq::new(MEMORY_SIZE as nat, |a: int| 0u8),
            display: Self::blank(),
            delay_timer: 0,
            sound_timer: 0,
            keys: Seq::new(KEY_COUNT as nat, |k: int| false),
            awaiting_key: false,
            pressed_key: None,
        }
    }

    /// The shape that every state of a machine has.
    pub open spec fn wf(self) -> bool {
        &&& self.registers.len() == 16
        &&& self.stack.len() <= STACK_CAPACITY
        &&& self.memory.len() == MEMORY_SIZE
        &&& self.display.len() == DISPLAY_SIZE
        &&& self.keys.len() == KEY_COUNT
        &&& (self.pressed_key matches Some(k) ==> k < KEY_COUNT && self.awaiting_key)
    }

    /// The value of a general-purpose register.
    pub open spec fn v(self, r: Register) -> u8 {
        self.registers[r.index()]
    }

    /// The value of any register. `Sp` is the number of return addresses on
    /// the stack.
    pub open spec fn value_of(self, r: Register) -> int {
        match r {
            Register::I => self.i as int,
            Register::Delay => self.delay_timer as int,
            Register::Sound => self.sound_timer as int,
            Register::Pc => self.pc as int,
            Register::Sp => self.stack.len() as int,
            _ => self.v(r) as int,
        }
    }

    /// The state with a general-purpose register set.
    pub open spec fn set_v(self, r: Register, value: u8) -> MachineState {
        MachineState { registers: self.registers.update(r.index(), value), ..self }
    }

    /// The state after an arithmetic instruction: the flag is written first
    /// and the result second, so that the result stays where the destination
    /// is the flag register itself.
    pub open spec fn set_flag_then_v(self, carry: bool, r: Register, value: u8) -> MachineState {
        MachineState {
            registers: self.registers.update(0xf, flag(carry)).update(r.index(), value),
            ..self
        }
    }

    /// The state with every pixel off.
    pub open spec fn clear(self) -> MachineState {
        MachineState { display: Self::blank(), ..self }
    }

    /// The state with the program counter at `target`. A target outside
    /// memory is out of bounds.
    pub open spec fn jump(self, target: int) -> Result<MachineState, ExecutionError> {
        if target >= MEMORY_SIZE {
            Err(ExecutionError::MemoryOutOfBounds)
        } else {
            Ok(MachineState { pc: target as u16, ..self })
        }
    }

    /// The state after a skip instruction: where the condition holds, the
    /// program counter moves on by one instruction. An address beyond 16 bits
    /// is out of bounds.
    pub open spec fn skip_if(self, condition: bool) -> Result<MachineState, ExecutionError> {
        if !condition {
            Ok(self)
        } else if self.pc + INSTRUCTION_SIZE > u16::MAX {
            Err(ExecutionError::MemoryOutOfBounds)
        } else {
            Ok(MachineState { pc: (self.pc + INSTRUCTION_SIZE) as u16, ..self })
        }
    }

    /// The state after a call: the program counter, which is the address to
    /// resume at, goes on the stack. A target outside memory is out of
    /// bounds, whatever the stack holds.
    pub open spec fn call(self, target: u16) -> Result<MachineState, ExecutionError> {
        if target >= MEMORY_SIZE {
            Err(ExecutionError::MemoryOutOfBounds)
        } else if self.stack.len() >= STACK_CAPACITY {
            Err(ExecutionError::StackOverflow)
        } else {
            Ok(MachineState { pc: target, stack: self.stack.push(self.pc), ..self })
        }
    }

    /// The state after a return: the newest return address leaves the stack
    /// for the program counter.
    pub open spec fn ret(self) -> Result<MachineState, ExecutionError> {
        if self.stack.len() == 0 {
            Err(ExecutionError::StackUnderflow)
        } else {
            Ok(MachineState { pc: self.stack.last(), stack: self.stack.drop_last(), ..self })
        }
    }

    /// Whether the key with the given number is down. Numbers past the keypad
    /// name no key.
    pub open spec fn key_down(self, key: u8) -> bool {
        key < KEY_COUNT && self.keys[key as int]
    }

    /// The state with the address register at `address`. An address outside
    /// memory is out of bounds.
    pub open spec fn point_at(self, address: u16) -> Result<MachineState, ExecutionError> {
        if address >= MEMORY_SIZE {
            Err(ExecutionError::MemoryOutOfBounds)
        } else {
            Ok(MachineState { i: address, ..self })
        }
    }

    /// The state with the address register moved on by `offset`. It may come
    /// to lie past the end of memory, where nothing can be read or written;
    /// an address beyond 16 bits is out of bounds.
    pub open spec fn advance_i(self, offset: u8) -> Result<MachineState, ExecutionError> {
        if self.i + offset > u16::MAX {
            Err(ExecutionError::MemoryOutOfBounds)
        } else {
            Ok(MachineState { i: (self.i + offset) as u16, ..self })
        }
    }

    /// The address of the glyph for the lowest hexadecimal digit of `value`.
    pub open spec fn glyph_address(value: u8) -> u16 {
        (FONT_START + GLYPH_SIZE * (value % 16)) as u16
    }

    /// The state with `bytes` written to memory from `start` on. It is out of
    /// bounds unless all of them fit.
    pub open spec fn write(self, start: int, bytes: Seq<u8>) -> Result<
        MachineState,
        ExecutionError,
    > {
        if start + bytes.len() > MEMORY_SIZE {
            Err(ExecutionError::MemoryOutOfBounds)
        } else {
            Ok(
                MachineState {
                    memory: Seq::new(
                        MEMORY_SIZE as nat,
                        |a: int|
                            if start <= a < start + bytes.len() {
                                bytes[a - start]
                            } else {
                                self.memory[a]
                            },
                    ),
                    ..self
                },
            )
        }
    }

    /// The state with the registers `V0` to `last` read from memory at the
    /// address register. The address register stays.
    pub open spec fn read_registers(self, last: Register) -> Result<MachineState, ExecutionError> {
        if self.i + last.index() + 1 > MEMORY_SIZE {
            Err(ExecutionError::MemoryOutOfBounds)
        } else {
            Ok(
                MachineState {
                    registers: Seq::new(
                        16,
                        |k: int|
                            if k <= last.index() {
                                self.memory[self.i + k]
                            } else {
                                self.registers[k]
                            },
                    ),
                    ..self
                },
            )
        }
    }

    /// The three decimal digits of a byte, hundreds first.
    pub open spec fn decimal_digits(value: u8) -> Seq<u8> {
        seq![value / 100, (value / 10) % 10, value % 10]
    }

    /// Whether the sprite of `n` rows at the address register, drawn at
    /// `(vx, vy)`, has a set bit on pixel `p` of the display.
    ///
    /// The sprite starts at column `vx mod 64` of row `vy mod 32`. Its rows
    /// wrap round the right edge. Rows below the bottom edge are left out.
    pub open spec fn sprite_covers(self, vx: u8, vy: u8, n: u8, p: int) -> bool {
        let row = p / (DISPLAY_WIDTH as int) - vy % (DISPLAY_HEIGHT as u8);
        let col = (p % (DISPLAY_WIDTH as int) - vx % (DISPLAY_WIDTH as u8)) % (DISPLAY_WIDTH as int);
        0 <= row < n && col < 8 && sprite_bit(self.memory[self.i + row], col)
    }

    /// Whether drawing the sprite turns pixel `p` off.
    pub open spec fn sprite_erases(self, vx: u8, vy: u8, n: u8, p: int) -> bool {
        0 <= p < DISPLAY_SIZE && self.display[p] && self.sprite_covers(vx, vy, n, p)
    }

    /// Whether drawing the sprite turns any pixel off.
    pub open spec fn sprite_collides(self, vx: u8, vy: u8, n: u8) -> bool {
        exists|p: int| #[trigger] self.sprite_erases(vx, vy, n, p)
    }

    /// The state after a draw: every pixel under a set bit of the sprite is
    /// flipped, and the flag register tells whether one was turned off. It is
    /// out of bounds unless all `n` rows of the sprite lie in memory.
    pub open spec fn draw(self, vx: u8, vy: u8, n: u8) -> Result<MachineState, ExecutionError> {
        if self.i + n > MEMORY_SIZE {
            Err(ExecutionError::MemoryOutOfBounds)
        } else {
            Ok(
                MachineState {
                    display: Seq::new(
                        DISPLAY_SIZE as nat,
                        |p: int| self.display[p] != self.sprite_covers(vx, vy, n, p),
                    ),
                    registers: self.registers.update(0xf, flag(self.sprite_collides(vx, vy, n))),
                    ..self
                },
            )
        }
    }

    /// The state after a wait-for-key instruction. Where a key went down
    /// since the wait began, the register gets its number and the wait is
    /// over. Otherwise the machine waits, and nothing else changes.
    pub open spec fn wait_key(self, r: Register) -> MachineState {
        match self.pressed_key {
            Some(key) => MachineState {
                awaiting_key: false,
                pressed_key: None,
                ..self.set_v(r, key)
            },
            None => MachineState { awaiting_key: true, ..self },
        }
    }

    /// The state after one instruction, or the reason why the instruction
    /// cannot be carried out. `random` is the byte that the random
    /// instruction uses; no other instruction looks at it.
    pub open spec fn step(self, op: Opcode, random: u8) -> Result<MachineState, ExecutionError> {
        if !op.names_general_registers() {
            Err(ExecutionError::UnsupportedInstruction)
        } else {
            match op {
                Opcode::Sys(_) => Err(ExecutionError::UnsupportedInstruction),
                Opcode::Cls => Ok(self.clear()),
                Opcode::Ret => self.ret(),
                Opcode::Jp(nnn) => self.jump(nnn as int),
                Opcode::Call(nnn) => self.call(nnn),
                Opcode::SeVal(x, kk) => self.skip_if(self.v(x) == kk),
                Opcode::SneVal(x, kk) => self.skip_if(self.v(x) != kk),
                Opcode::SeReg(x, y) => self.skip_if(self.v(x) == self.v(y)),
                Opcode::LdVal(x, kk) => Ok(self.set_v(x, kk)),
                Opcode::AddVal(x, kk) => Ok(self.set_v(x, ((self.v(x) + kk) % 256) as u8)),
                Opcode::LdReg(x, y) => Ok(self.set_v(x, self.v(y))),
                Opcode::Or(x, y) => Ok(self.set_v(x, self.v(x) | self.v(y))),
                Opcode::And(x, y) => Ok(self.set_v(x, self.v(x) & self.v(y))),
                Opcode::Xor(x, y) => Ok(self.set_v(x, self.v(x) ^ self.v(y))),
                Opcode::AddReg(x, y) => Ok(
                    self.set_flag_then_v(
                        self.v(x) + self.v(y) > 255,
                        x,
                        ((self.v(x) + self.v(y)) % 256) as u8,
                    ),
                ),
                Opcode::Sub(x, y) => Ok(
                    self.set_flag_then_v(
                        self.v(x) >= self.v(y),
                        x,
                        ((self.v(x) - self.v(y)) % 256) as u8,
                    ),
                ),
                Opcode::Shr(x) => Ok(
                    self.set_flag_then_v(self.v(x) % 2 == 1, x, self.v(x) / 2),
                ),
                Opcode::Subn(x, y) => Ok(
                    self.set_flag_then_v(
                        self.v(y) >= self.v(x),
                        x,
                        ((self.v(y) - self.v(x)) % 256) as u8,
                    ),
                ),
                Opcode::Shl(x) => Ok(
                    self.set_flag_then_v(self.v(x) >= 128, x, ((2 * self.v(x)) % 256) as u8),
                ),
                Opcode::SneReg(x, y) => self.skip_if(self.v(x) != self.v(y)),
                Opcode::LdI(nnn) => self.point_at(nnn),
                Opcode::JpV0(nnn) => self.jump(nnn + self.v(Register::V0)),
                Opcode::Rnd(x, kk) => Ok(self.set_v(x, random & kk)),
                Opcode::Drw(x, y, n) => self.draw(self.v(x), self.v(y), n),
                Opcode::Skp(x) => self.skip_if(self.key_down(self.v(x))),
                Opcode::SkNp(x) => self.skip_if(!self.key_down(self.v(x))),
                Opcode::LdVxDt(x) => Ok(self.set_v(x, self.delay_timer)),
                Opcode::LdK(x) => Ok(self.wait_key(x)),
                Opcode::LdDtVx(x) => Ok(MachineState { delay_timer: self.v(x), ..self }),
                Opcode::LdSt(x) => Ok(MachineState { sound_timer: self.v(x), ..self }),
                Opcode::AddI(x) => self.advance_i(self.v(x)),
                Opcode::LdF(x) => Ok(MachineState { i: Self::glyph_address(self.v(x)), ..self }),
                Opcode::LdB(x) => self.write(self.i as int, Self::decimal_digits(self.v(x))),
                Opcode::StoreRegs(x) => self.write(
                    self.i as int,
                    self.registers.subrange(0, x.index() + 1),
                ),
                Opcode::ReadRegs(x) => self.read_registers(x),
            }
        }
    }

    /// What the passage from `self` to `after` shows to the outside.
    pub open spec fn effects(self, after: MachineState) -> SideEffects {
        SideEffects {
            display_changed: after.display != self.display,
            pc_changed: after.pc != self.pc,
            awaiting_key: after.awaiting_key,
        }
    }

    /// The state after one tick of the timers: each timer that is not zero
    /// goes down by one.
    pub open spec fn tick(self) -> MachineState {
        MachineState {
            delay_timer: if self.delay_timer > 0 {
                (self.delay_timer - 1) as u8
            } else {
                0
            },
            sound_timer: if self.sound_timer > 0 {
                (self.sound_timer - 1) as u8
            } else {
                0
            },
            ..self
        }
    }

    /// The state after the keypad reported a key as down or up. While the
    /// machine waits for a key, the first key that goes down is kept for the
    /// waiting instruction.
    pub open spec fn key_event(self, key: u8, down: bool) -> MachineState {
        MachineState {
            keys: self.keys.update(key as int, down),
            pressed_key: if self.awaiting_key && self.pressed_key is None && down
                && !self.keys[key as int] {
                Some(key)
            } else {
                self.pressed_key
            },
            ..self
        }
    }

    /// The instruction word at the program counter, high byte first, and the
    /// state with the program counter moved past it. It is out of bounds
    /// unless both bytes lie in memory.
    pub open spec fn fetch(self) -> Result<(u16, MachineState), ExecutionError> {
        if self.pc + 1 >= MEMORY_SIZE {
            Err(ExecutionError::MemoryOutOfBounds)
        } else {
            Ok(
                (
                    (256 * self.memory[self.pc as int] + self.memory[self.pc + 1]) as u16,
                    MachineState { pc: (self.pc + INSTRUCTION_SIZE) as u16, ..self },
                ),
            )
        }
    }
}

} // verus!
