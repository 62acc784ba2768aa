//! The machine: it owns all state and carries out decoded instructions.

use vstd::prelude::*;
use crate::machine::{
    carried_out, flag, ExecutionError, MachineState, SideEffects, DISPLAY_HEIGHT, DISPLAY_SIZE,
    DISPLAY_WIDTH, FONT_START, GLYPH_SIZE, INSTRUCTION_SIZE, KEY_COUNT, MEMORY_SIZE, PROGRAM_START,
    STACK_CAPACITY,
};
use crate::opcode::Opcode;
use crate::register::Register;
use crate::sprite::{
    drawn, erased, lemma_draw_column, lemma_draw_done, lemma_draw_row, lemma_draw_start, touched,
};

verus! {

/// The pixels that a buffer of display cells shows: a cell is on unless it
/// holds 0.
spec fn pixels(cells: Seq<u8>) -> Seq<bool> {
    Seq::new(cells.len(), |p: int| cells[p] != 0)
}

/// The machine. Its state is read through its view, a [`MachineState`].
pub struct Emu {
    registers: [u8; 16],
    i: u16,
    pc: u16,
    sp: usize,
    stack: [u16; 16],
    memory: [u8; 4096],
    display: Vec<u8>,
    delay_timer: u8,
    sound_timer: u8,
    keys: [bool; 16],
    awaiting_key: bool,
    pressed_key: Option<u8>,
}

impl View for Emu {
    type V = MachineState;

    closed spec fn view(&self) -> MachineState {
        MachineState {
            registers: self.registers@,
            i: self.i,
            pc: self.pc,
            stack: self.stack@.subrange(0, self.sp as int),
            memory: self.memory@,
            display: pixels(self.display@),
            delay_timer: self.delay_timer,
            sound_timer: self.sound_timer,
            keys: self.keys@,
            awaiting_key: self.awaiting_key,
            pressed_key: self.pressed_key,
        }
    }
}

impl Emu {
    /// The invariant of the machine: the stack pointer is within the stack,
    /// the display buffer has one cell per pixel and each cell holds 0 or 1,
    /// and a key is kept only for an instruction that waits for one.
    pub closed spec fn wf(&self) -> bool {
        &&& self.sp <= STACK_CAPACITY
        &&& self.display@.len() == DISPLAY_SIZE
        &&& forall|p: int| 0 <= p < DISPLAY_SIZE ==> #[trigger] self.display@[p] <= 1
        &&& (self.pressed_key matches Some(k) ==> k < KEY_COUNT && self.awaiting_key)
    }

    /// The state of a machine that meets its invariant has the shape of a
    /// machine state.
    pub proof fn lemma_wf_view(&self)
        requires
            self.wf(),
        ensures
            self@.wf(),
    {
    }

    /// A machine in its initial state.
    pub fn new() -> (emu: Emu)
        ensures
            emu.wf(),
            emu@ == MachineState::initial(),
    {
        let emu = Emu {
            registers: [0; 16],
            i: 0,
            pc: PROGRAM_START,
            sp: 0,
            stack: [0; 16],
            memory: [0; 4096],
            display: vec![0; DISPLAY_SIZE],
            delay_timer: 0,
            sound_timer: 0,
            keys: [false; 16],
            awaiting_key: false,
            pressed_key: None,
        };
        assert(emu@ =~= MachineState::initial());
        emu
    }

    /// Carries out one instruction. `random` is a fresh random byte, which
    /// only `Rnd` uses.
    ///
    /// On success the machine is in the state that the instruction leads to,
    /// and the result tells what changed. On failure the machine is as it
    /// was.
    pub fn execute(&mut self, opcode: &Opcode, random: u8) -> (r: Result<
        SideEffects,
        ExecutionError,
    >)
        requires
            old(self).wf(),
        ensures
            final(self).wf(),
            carried_out(old(self)@, old(self)@.step(*opcode, random), r, final(self)@),
            r matches Ok(effects) ==> effects == old(self)@.effects(final(self)@),
    {
        let pc: u16 = self.pc;
        match self.dispatch(*opcode, random) {
            Ok(display_changed) => Ok(
                SideEffects {
                    display_changed,
                    pc_changed: self.pc != pc,
                    awaiting_key: self.awaiting_key,
                },
            ),
            Err(e) => Err(e),
        }
    }

    /// Hands an instruction to the function that carries it out, and tells
    /// whether the display changed.
    fn dispatch(&mut self, opcode: Opcode, random: u8) -> (r: Result<bool, ExecutionError>)
        requires
            old(self).wf(),
        ensures
            final(self).wf(),
            carried_out(old(self)@, old(self)@.step(opcode, random), r, final(self)@),
            r matches Ok(changed) ==> changed == (final(self)@.display != old(self)@.display),
    {
        if !opcode.names_general_registers() {
            return Err(ExecutionError::UnsupportedInstruction);
        }
        match opcode {
            Opcode::Sys(_) => {
                return Err(ExecutionError::UnsupportedInstruction);
            },
            Opcode::Cls => {
                let changed: bool = self.cls();
                return Ok(changed);
            },
            Opcode::Ret => {
                return Self::unchanged_display(self.ret());
            },
            Opcode::Jp(addr) => {
                return Self::unchanged_display(self.jp(addr));
            },
            Opcode::Call(addr) => {
                return Self::unchanged_display(self.call(addr));
            },
            Opcode::SeVal(reg, byte) => {
                return Self::unchanged_display(self.se_val(reg, byte));
            },
            Opcode::SneVal(reg, byte) => {
                return Self::unchanged_display(self.sne_val(reg, byte));
            },
            Opcode::SeReg(reg_x, reg_y) => {
                return Self::unchanged_display(self.se_reg(reg_x, reg_y));
            },
            Opcode::LdVal(reg, byte) => {
                self.ld_val(reg, byte);
                return Ok(false);
            },
            Opcode::AddVal(reg, byte) => {
                self.add_val(reg, byte);
                return Ok(false);
            },
            Opcode::LdReg(reg_x, reg_y) => {
                self.ld_reg(reg_x, reg_y);
                return Ok(false);
            },
            Opcode::Or(reg_x, reg_y) => {
                self.or(reg_x, reg_y);
                return Ok(false);
            },
            Opcode::And(reg_x, reg_y) => {
                self.and(reg_x, reg_y);
                return Ok(false);
            },
            Opcode::Xor(reg_x, reg_y) => {
                self.xor(reg_x, reg_y);
                return Ok(false);
            },
            Opcode::AddReg(reg_x, reg_y) => {
                self.add_reg(reg_x, reg_y);
                return Ok(false);
            },
            Opcode::Sub(reg_x, reg_y) => {
                self.sub(reg_x, reg_y);
                return Ok(false);
            },
            Opcode::Shr(reg) => {
                self.shr(reg);
                return Ok(false);
            },
            Opcode::Subn(reg_x, reg_y) => {
                self.subn(reg_x, reg_y);
                return Ok(false);
            },
            Opcode::Shl(reg) => {
                self.shl(reg);
                return Ok(false);
            },
            Opcode::SneReg(reg_x, reg_y) => {
                return Self::unchanged_display(self.sne_reg(reg_x, reg_y));
            },
            Opcode::LdI(addr) => {
                return Self::unchanged_display(self.ld_i(addr));
            },
            Opcode::JpV0(addr) => {
                return Self::unchanged_display(self.jp_v0(addr));
            },
            Opcode::Rnd(reg, byte) => {
                self.rnd(reg, byte, random);
                return Ok(false);
            },
            Opcode::Drw(reg_x, reg_y, rows) => {
                return self.drw(reg_x, reg_y, rows);
            },
            Opcode::Skp(reg) => {
                return Self::unchanged_display(self.skp(reg));
            },
            Opcode::SkNp(reg) => {
                return Self::unchanged_display(self.sknp(reg));
            },
            Opcode::LdVxDt(reg) => {
                self.ld_vx_dt(reg);
                return Ok(false);
            },
            Opcode::LdK(reg) => {
                self.ld_k(reg);
                return Ok(false);
            },
            Opcode::LdDtVx(reg) => {
                self.ld_dt_vx(reg);
                return Ok(false);
            },
            Opcode::LdSt(reg) => {
                self.ld_st(reg);
                return Ok(false);
            },
            Opcode::AddI(reg) => {
                return Self::unchanged_display(self.add_i(reg));
            },
            Opcode::LdF(reg) => {
                self.ld_f(reg);
                return Ok(false);
            },
            Opcode::LdB(reg) => {
                return Self::unchanged_display(self.ld_b(reg));
            },
            Opcode::StoreRegs(reg) => {
                return Self::unchanged_display(self.store_regs(reg));
            },
            Opcode::ReadRegs(reg) => {
                return Self::unchanged_display(self.read_regs(reg));
            },
        }
    }

    /// The outcome of an instruction that leaves the display alone.
    fn unchanged_display(outcome: Result<(), ExecutionError>) -> (r: Result<bool, ExecutionError>)
        ensures
            r == match outcome {
                Ok(()) => Ok::<bool, ExecutionError>(false),
                Err(e) => Err::<bool, ExecutionError>(e),
            },
    {
        match outcome {
            Ok(()) => Ok(false),
            Err(e) => Err(e),
        }
    }

    /// Reads the instruction word at the program counter, high byte first,
    /// and moves the program counter past it. The word must lie in memory.
    pub fn fetch(&mut self) -> (r: Result<u16, ExecutionError>)
        requires
            old(self).wf(),
        ensures
            final(self).wf(),
            match old(self)@.fetch() {
                Ok((word, state)) => r == Ok::<u16, ExecutionError>(word) && final(self)@ == state,
                Err(e) => r == Err::<u16, ExecutionError>(e) && final(self)@ == old(self)@,
            },
    {
        let at: usize = self.pc as usize;
        if at >= MEMORY_SIZE - 1 {
            return Err(ExecutionError::MemoryOutOfBounds);
        }
        let high: u16 = self.memory[at] as u16;
        let low: u16 = self.memory[at + 1] as u16;
        self.pc += INSTRUCTION_SIZE;
        Ok(256 * high + low)
    }

    /// Writes `bytes` to memory from address `start` on, as a program loader
    /// does before the first instruction runs. All of them must fit.
    pub fn load(&mut self, start: u16, bytes: &[u8]) -> (r: Result<(), ExecutionError>)
        requires
            old(self).wf(),
        ensures
            final(self).wf(),
            carried_out(old(self)@, old(self)@.write(start as int, bytes@), r, final(self)@),
    {
        let first: usize = start as usize;
        if first > MEMORY_SIZE || bytes.len() > MEMORY_SIZE - first {
            return Err(ExecutionError::MemoryOutOfBounds);
        }
        let ghost before = self@;
        let mut k: usize = 0;
        while k < bytes.len()
            invariant
                self.wf(),
                before.wf(),
                self@ == (MachineState { memory: self@.memory, ..before }),
                k <= bytes@.len(),
                first + bytes@.len() <= MEMORY_SIZE,
                forall|a: int|
                    0 <= a < MEMORY_SIZE ==> #[trigger] self@.memory[a] == if first <= a < first
                        + k {
                        bytes@[a - first]
                    } else {
                        before.memory[a]
                    },
            decreases bytes@.len() - k,
        {
            self.memory[first + k] = bytes[k];
            k += 1;
        }
        proof {
            let expected = before.write(start as int, bytes@)->Ok_0;
            assert(self@.memory =~= expected.memory);
        }
        Ok(())
    }

    /// Counts both timers down by one, each unless it is zero. The pacing
    /// loop calls this at the timers' rate.
    pub fn tick_timers(&mut self)
        requires
            old(self).wf(),
        ensures
            final(self).wf(),
            final(self)@ == old(self)@.tick(),
    {
        if self.delay_timer > 0 {
            self.delay_timer -= 1;
        }
        if self.sound_timer > 0 {
            self.sound_timer -= 1;
        }
    }

    /// Records that the keypad reports `key` as down or up. A key number
    /// outside the keypad is ignored.
    pub fn set_key(&mut self, key: u8, down: bool)
        requires
            old(self).wf(),
        ensures
            final(self).wf(),
            final(self)@ == if key < KEY_COUNT {
                old(self)@.key_event(key, down)
            } else {
                old(self)@
            },
    {
        let k: usize = key as usize;
        if k < KEY_COUNT {
            if self.awaiting_key && self.pressed_key.is_none() && down && !self.keys[k] {
                self.pressed_key = Some(key);
            }
            self.keys[k] = down;
        }
    }

    /// The value of a register. `Sp` is the number of return addresses on the
    /// stack.
    pub fn register(&self, reg: Register) -> (value: u16)
        requires
            self.wf(),
        ensures
            value == self@.value_of(reg),
    {
        match reg {
            Register::I => self.i,
            Register::Delay => self.delay_timer as u16,
            Register::Sound => self.sound_timer as u16,
            Register::Pc => self.pc,
            Register::Sp => self.sp as u16,
            _ => self.registers[reg.to_usize()] as u16,
        }
    }

    /// The byte of memory at `addr`.
    pub fn read(&self, addr: u16) -> (r: Result<u8, ExecutionError>)
        requires
            self.wf(),
        ensures
            r == if addr < MEMORY_SIZE {
                Ok::<u8, ExecutionError>(self@.memory[addr as int])
            } else {
                Err::<u8, ExecutionError>(ExecutionError::MemoryOutOfBounds)
            },
    {
        let at: usize = addr as usize;
        if at < MEMORY_SIZE {
            Ok(self.memory[at])
        } else {
            Err(ExecutionError::MemoryOutOfBounds)
        }
    }

    /// The display buffer, row by row, one cell per pixel: 1 for a pixel that
    /// is on, 0 for one that is off.
    pub fn display(&self) -> (cells: &Vec<u8>)
        requires
            self.wf(),
        ensures
            cells@.len() == DISPLAY_SIZE,
            forall|p: int| 0 <= p < DISPLAY_SIZE ==> cells@[p] == flag(#[trigger] self@.display[p]),
    {
        &self.display
    }

    /// Whether the key with the given number is down.
    pub fn key(&self, key: u8) -> (down: bool)
        requires
            self.wf(),
        ensures
            down == self@.key_down(key),
    {
        let k: usize = key as usize;
        k < KEY_COUNT && self.keys[k]
    }

    /// Whether a wait-for-key instruction is suspended. While it is, the
    /// driving loop executes that instruction again in place of a fetch.
    pub fn awaiting_key(&self) -> (waiting: bool)
        ensures
            waiting == self@.awaiting_key,
    {
        self.awaiting_key
    }

    fn cls(&mut self) -> (changed: bool)
        requires
            old(self).wf(),
        ensures
            final(self).wf(),
            final(self)@ == old(self)@.clear(),
            changed == (final(self)@.display != old(self)@.display),
    {
        let mut changed: bool = false;
        let mut p: usize = 0;
        while p < self.display.len()
            invariant
                p <= self.display@.len() == DISPLAY_SIZE,
                changed == (exists|q: int| 0 <= q < p && self.display@[q] != 0),
            decreases self.display@.len() - p,
        {
            if self.display[p] != 0 {
                changed = true;
            }
            p += 1;
        }
        let ghost before = self@;
        let ghost cells = self.display@;
        self.display = vec![0; DISPLAY_SIZE];
        proof {
            assert(self@.display =~= MachineState::blank());
            assert(self@ =~= before.clear());
            if changed {
                let q = choose|q: int| 0 <= q < DISPLAY_SIZE && cells[q] != 0;
                assert(before.display[q] != self@.display[q]);
            } else {
                assert(before.display =~= self@.display);
            }
        }
        changed
    }

    fn ret(&mut self) -> (r: Result<(), ExecutionError>)
        requires
            old(self).wf(),
        ensures
            final(self).wf(),
            carried_out(old(self)@, old(self)@.ret(), r, final(self)@),
    {
        if self.sp == 0 {
            return Err(ExecutionError::StackUnderflow);
        }
        let ghost before = self@;
        self.pc = self.stack[self.sp - 1];
        self.sp -= 1;
        proof {
            assert(self@.stack =~= before.stack.drop_last());
        }
        Ok(())
    }

    fn jp(&mut self, addr: u16) -> (r: Result<(), ExecutionError>)
        requires
            old(self).wf(),
        ensures
            final(self).wf(),
            carried_out(old(self)@, old(self)@.jump(addr as int), r, final(self)@),
    {
        if addr as usize >= MEMORY_SIZE {
            return Err(ExecutionError::MemoryOutOfBounds);
        }
        self.pc = addr;
        Ok(())
    }

    fn call(&mut self, addr: u16) -> (r: Result<(), ExecutionError>)
        requires
            old(self).wf(),
        ensures
            final(self).wf(),
            carried_out(old(self)@, old(self)@.call(addr), r, final(self)@),
    {
        if addr as usize >= MEMORY_SIZE {
            return Err(ExecutionError::MemoryOutOfBounds);
        }
        if self.sp >= STACK_CAPACITY {
            return Err(ExecutionError::StackOverflow);
        }
        let ghost before = self@;
        self.stack[self.sp] = self.pc;
        self.sp += 1;
        self.pc = addr;
        proof {
            assert(self@.stack =~= before.stack.push(before.pc));
        }
        Ok(())
    }

    /// Moves the program counter past the next instruction where `condition`
    /// holds.
    fn skip_if(&mut self, condition: bool) -> (r: Result<(), ExecutionError>)
        requires
            old(self).wf(),
        ensures
            final(self).wf(),
            carried_out(old(self)@, old(self)@.skip_if(condition), r, final(self)@),
    {
        if condition {
            if self.pc > u16::MAX - INSTRUCTION_SIZE {
                return Err(ExecutionError::MemoryOutOfBounds);
            }
            self.pc += INSTRUCTION_SIZE;
        }
        Ok(())
    }

    fn se_val(&mut self, reg: Register, byte: u8) -> (r: Result<(), ExecutionError>)
        requires
            old(self).wf(),
            reg.is_general(),
        ensures
            final(self).wf(),
            carried_out(
                old(self)@,
                old(self)@.skip_if(old(self)@.v(reg) == byte),
                r,
                final(self)@,
            ),
    {
        let equal: bool = self.registers[reg.to_usize()] == byte;
        self.skip_if(equal)
    }

    fn sne_val(&mut self, reg: Register, byte: u8) -> (r: Result<(), ExecutionError>)
        requires
            old(self).wf(),
            reg.is_general(),
        ensures
            final(self).wf(),
            carried_out(
                old(self)@,
                old(self)@.skip_if(old(self)@.v(reg) != byte),
                r,
                final(self)@,
            ),
    {
        let differ: bool = self.registers[reg.to_usize()] != byte;
        self.skip_if(differ)
    }

    fn se_reg(&mut self, reg_x: Register, reg_y: Register) -> (r: Result<(), ExecutionError>)
        requires
            old(self).wf(),
            reg_x.is_general(),
            reg_y.is_general(),
        ensures
            final(self).wf(),
            carried_out(
                old(self)@,
                old(self)@.skip_if(old(self)@.v(reg_x) == old(self)@.v(reg_y)),
                r,
                final(self)@,
            ),
    {
        let equal: bool = self.registers[reg_x.to_usize()] == self.registers[reg_y.to_usize()];
        self.skip_if(equal)
    }

    fn sne_reg(&mut self, reg_x: Register, reg_y: Register) -> (r: Result<(), ExecutionError>)
        requires
            old(self).wf(),
            reg_x.is_general(),
            reg_y.is_general(),
        ensures
            final(self).wf(),
            carried_out(
                old(self)@,
                old(self)@.skip_if(old(self)@.v(reg_x) != old(self)@.v(reg_y)),
                r,
                final(self)@,
            ),
    {
        let differ: bool = self.registers[reg_x.to_usize()] != self.registers[reg_y.to_usize()];
        self.skip_if(differ)
    }

    fn ld_val(&mut self, reg: Register, byte: u8)
        requires
            old(self).wf(),
            reg.is_general(),
        ensures
            final(self).wf(),
            final(self)@ == old(self)@.set_v(reg, byte),
    {
        self.registers[reg.to_usize()] = byte;
    }

    fn add_val(&mut self, reg: Register, byte: u8)
        requires
            old(self).wf(),
            reg.is_general(),
        ensures
            final(self).wf(),
            final(self)@ == old(self)@.set_v(reg, ((old(self)@.v(reg) + byte) % 256) as u8),
    {
        let x: usize = reg.to_usize();
        self.registers[x] = self.registers[x].wrapping_add(byte);
    }

    fn ld_reg(&mut self, reg_x: Register, reg_y: Register)
        requires
            old(self).wf(),
            reg_x.is_general(),
            reg_y.is_general(),
        ensures
            final(self).wf(),
            final(self)@ == old(self)@.set_v(reg_x, old(self)@.v(reg_y)),
    {
        self.registers[reg_x.to_usize()] = self.registers[reg_y.to_usize()];
    }

    fn or(&mut self, reg_x: Register, reg_y: Register)
        requires
            old(self).wf(),
            reg_x.is_general(),
            reg_y.is_general(),
        ensures
            final(self).wf(),
            final(self)@ == old(self)@.set_v(reg_x, old(self)@.v(reg_x) | old(self)@.v(reg_y)),
    {
        let x: usize = reg_x.to_usize();
        self.registers[x] = self.registers[x] | self.registers[reg_y.to_usize()];
    }

    fn and(&mut self, reg_x: Register, reg_y: Register)
        requires
            old(self).wf(),
            reg_x.is_general(),
            reg_y.is_general(),
        ensures
            final(self).wf(),
            final(self)@ == old(self)@.set_v(reg_x, old(self)@.v(reg_x) & old(self)@.v(reg_y)),
    {
        let x: usize = reg_x.to_usize();
        self.registers[x] = self.registers[x] & self.registers[reg_y.to_usize()];
    }

    fn xor(&mut self, reg_x: Register, reg_y: Register)
        requires
            old(self).wf(),
            reg_x.is_general(),
            reg_y.is_general(),
        ensures
            final(self).wf(),
            final(self)@ == old(self)@.set_v(reg_x, old(self)@.v(reg_x) ^ old(self)@.v(reg_y)),
    {
        let x: usize = reg_x.to_usize();
        self.registers[x] = self.registers[x] ^ self.registers[reg_y.to_usize()];
    }

    fn add_reg(&mut self, reg_x: Register, reg_y: Register)
        requires
            old(self).wf(),
            reg_x.is_general(),
            reg_y.is_general(),
        ensures
            final(self).wf(),
            final(self)@ == old(self)@.set_flag_then_v(
                old(self)@.v(reg_x) + old(self)@.v(reg_y) > 255,
                reg_x,
                ((old(self)@.v(reg_x) + old(self)@.v(reg_y)) % 256) as u8,
            ),
    {
        let vx: u8 = self.registers[reg_x.to_usize()];
        let vy: u8 = self.registers[reg_y.to_usize()];
        self.registers[Register::Vf.to_usize()] = if vx > u8::MAX - vy {
            1
        } else {
            0
        };
        self.registers[reg_x.to_usize()] = vx.wrapping_add(vy);
    }

    fn sub(&mut self, reg_x: Register, reg_y: Register)
        requires
            old(self).wf(),
            reg_x.is_general(),
            reg_y.is_general(),
        ensures
            final(self).wf(),
            final(self)@ == old(self)@.set_flag_then_v(
                old(self)@.v(reg_x) >= old(self)@.v(reg_y),
                reg_x,
                ((old(self)@.v(reg_x) - old(self)@.v(reg_y)) % 256) as u8,
            ),
    {
        let vx: u8 = self.registers[reg_x.to_usize()];
        let vy: u8 = self.registers[reg_y.to_usize()];
        self.registers[Register::Vf.to_usize()] = if vx >= vy {
            1
        } else {
            0
        };
        self.registers[reg_x.to_usize()] = vx.wrapping_sub(vy);
    }

    fn shr(&mut self, reg: Register)
        requires
            old(self).wf(),
            reg.is_general(),
        ensures
            final(self).wf(),
            final(self)@ == old(self)@.set_flag_then_v(
                old(self)@.v(reg) % 2 == 1,
                reg,
                old(self)@.v(reg) / 2,
            ),
    {
        let vx: u8 = self.registers[reg.to_usize()];
        assert(vx & 1 == vx % 2) by (bit_vector);
        assert(vx >> 1 == vx / 2) by (bit_vector);
        self.registers[Register::Vf.to_usize()] = vx & 1;
        self.registers[reg.to_usize()] = vx >> 1;
    }

    fn subn(&mut self, reg_x: Register, reg_y: Register)
        requires
            old(self).wf(),
            reg_x.is_general(),
            reg_y.is_general(),
        ensures
            final(self).wf(),
            final(self)@ == old(self)@.set_flag_then_v(
                old(self)@.v(reg_y) >= old(self)@.v(reg_x),
                reg_x,
                ((old(self)@.v(reg_y) - old(self)@.v(reg_x)) % 256) as u8,
            ),
    {
        let vx: u8 = self.registers[reg_x.to_usize()];
        let vy: u8 = self.registers[reg_y.to_usize()];
        self.registers[Register::Vf.to_usize()] = if vy >= vx {
            1
        } else {
            0
        };
        self.registers[reg_x.to_usize()] = vy.wrapping_sub(vx);
    }

    fn shl(&mut self, reg: Register)
        requires
            old(self).wf(),
            reg.is_general(),
        ensures
            final(self).wf(),
            final(self)@ == old(self)@.set_flag_then_v(
                old(self)@.v(reg) >= 128,
                reg,
                ((2 * old(self)@.v(reg)) % 256) as u8,
            ),
    {
        let vx: u8 = self.registers[reg.to_usize()];
        assert(vx >> 7 == (if vx >= 128 { 1u8 } else { 0u8 })) by (bit_vector);
        assert((vx & 0x7f) << 1 == (2 * vx) % 256) by (bit_vector);
        self.registers[Register::Vf.to_usize()] = vx >> 7;
        self.registers[reg.to_usize()] = (vx & 0x7f) << 1;
    }

    fn ld_i(&mut self, addr: u16) -> (r: Result<(), ExecutionError>)
        requires
            old(self).wf(),
        ensures
            final(self).wf(),
            carried_out(old(self)@, old(self)@.point_at(addr), r, final(self)@),
    {
        if addr as usize >= MEMORY_SIZE {
            return Err(ExecutionError::MemoryOutOfBounds);
        }
        self.i = addr;
        Ok(())
    }

    fn jp_v0(&mut self, addr: u16) -> (r: Result<(), ExecutionError>)
        requires
            old(self).wf(),
        ensures
            final(self).wf(),
            carried_out(
                old(self)@,
                old(self)@.jump(addr + old(self)@.v(Register::V0)),
                r,
                final(self)@,
            ),
    {
        let offset: usize = self.registers[Register::V0.to_usize()] as usize;
        if addr as usize >= MEMORY_SIZE - offset {
            return Err(ExecutionError::MemoryOutOfBounds);
        }
        self.pc = addr + offset as u16;
        Ok(())
    }

    fn rnd(&mut self, reg: Register, byte: u8, random: u8)
        requires
            old(self).wf(),
            reg.is_general(),
        ensures
            final(self).wf(),
            final(self)@ == old(self)@.set_v(reg, random & byte),
    {
        self.registers[reg.to_usize()] = random & byte;
    }

    /// Whether the key whose number is in `reg` is down.
    fn key_down(&self, reg: Register) -> (down: bool)
        requires
            self.wf(),
            reg.is_general(),
        ensures
            down == self@.key_down(self@.v(reg)),
    {
        let key: usize = self.registers[reg.to_usize()] as usize;
        key < KEY_COUNT && self.keys[key]
    }

    fn skp(&mut self, reg: Register) -> (r: Result<(), ExecutionError>)
        requires
            old(self).wf(),
            reg.is_general(),
        ensures
            final(self).wf(),
            carried_out(
                old(self)@,
                old(self)@.skip_if(old(self)@.key_down(old(self)@.v(reg))),
                r,
                final(self)@,
            ),
    {
        let down: bool = self.key_down(reg);
        self.skip_if(down)
    }

    fn sknp(&mut self, reg: Register) -> (r: Result<(), ExecutionError>)
        requires
            old(self).wf(),
            reg.is_general(),
        ensures
            final(self).wf(),
            carried_out(
                old(self)@,
                old(self)@.skip_if(!old(self)@.key_down(old(self)@.v(reg))),
                r,
                final(self)@,
            ),
    {
        let down: bool = self.key_down(reg);
        self.skip_if(!down)
    }

    fn ld_vx_dt(&mut self, reg: Register)
        requires
            old(self).wf(),
            reg.is_general(),
        ensures
            final(self).wf(),
            final(self)@ == old(self)@.set_v(reg, old(self)@.delay_timer),
    {
        self.registers[reg.to_usize()] = self.delay_timer;
    }

    fn ld_k(&mut self, reg: Register)
        requires
            old(self).wf(),
            reg.is_general(),
        ensures
            final(self).wf(),
            final(self)@ == old(self)@.wait_key(reg),
    {
        match self.pressed_key {
            Some(key) => {
                self.registers[reg.to_usize()] = key;
                self.pressed_key = None;
                self.awaiting_key = false;
            },
            None => {
                self.awaiting_key = true;
            },
        }
    }

    fn ld_dt_vx(&mut self, reg: Register)
        requires
            old(self).wf(),
            reg.is_general(),
        ensures
            final(self).wf(),
            final(self)@ == (MachineState { delay_timer: old(self)@.v(reg), ..old(self)@ }),
    {
        self.delay_timer = self.registers[reg.to_usize()];
    }

    fn ld_st(&mut self, reg: Register)
        requires
            old(self).wf(),
            reg.is_general(),
        ensures
            final(self).wf(),
            final(self)@ == (MachineState { sound_timer: old(self)@.v(reg), ..old(self)@ }),
    {
        self.sound_timer = self.registers[reg.to_usize()];
    }

    fn add_i(&mut self, reg: Register) -> (r: Result<(), ExecutionError>)
        requires
            old(self).wf(),
            reg.is_general(),
        ensures
            final(self).wf(),
            carried_out(old(self)@, old(self)@.advance_i(old(self)@.v(reg)), r, final(self)@),
    {
        let offset: u16 = self.registers[reg.to_usize()] as u16;
        if self.i > u16::MAX - offset {
            return Err(ExecutionError::MemoryOutOfBounds);
        }
        self.i += offset;
        Ok(())
    }

    fn ld_f(&mut self, reg: Register)
        requires
            old(self).wf(),
            reg.is_general(),
        ensures
            final(self).wf(),
            final(self)@ == (MachineState {
                i: MachineState::glyph_address(old(self)@.v(reg)),
                ..old(self)@
            }),
    {
        let digit: u16 = (self.registers[reg.to_usize()] % 16) as u16;
        self.i = FONT_START + GLYPH_SIZE * digit;
    }

    fn ld_b(&mut self, reg: Register) -> (r: Result<(), ExecutionError>)
        requires
            old(self).wf(),
            reg.is_general(),
        ensures
            final(self).wf(),
            carried_out(
                old(self)@,
                old(self)@.write(
                    old(self)@.i as int,
                    MachineState::decimal_digits(old(self)@.v(reg)),
                ),
                r,
                final(self)@,
            ),
    {
        let start: usize = self.i as usize;
        if start > MEMORY_SIZE - 3 {
            return Err(ExecutionError::MemoryOutOfBounds);
        }
        let value: u8 = self.registers[reg.to_usize()];
        let ghost before = self@;
        self.memory[start] = value / 100;
        self.memory[start + 1] = (value / 10) % 10;
        self.memory[start + 2] = value % 10;
        proof {
            let expected = before.write(before.i as int, MachineState::decimal_digits(value));
            assert(self@.memory =~= expected->Ok_0.memory);
        }
        Ok(())
    }

    fn drw(&mut self, reg_x: Register, reg_y: Register, rows: u8) -> (r: Result<
        bool,
        ExecutionError,
    >)
        requires
            old(self).wf(),
            reg_x.is_general(),
            reg_y.is_general(),
        ensures
            final(self).wf(),
            carried_out(
                old(self)@,
                old(self)@.draw(old(self)@.v(reg_x), old(self)@.v(reg_y), rows),
                r,
                final(self)@,
            ),
            r matches Ok(changed) ==> changed == (final(self)@.display != old(self)@.display),
    {
        let start: usize = self.i as usize;
        if start > MEMORY_SIZE - rows as usize {
            return Err(ExecutionError::MemoryOutOfBounds);
        }
        let vx: u8 = self.registers[reg_x.to_usize()];
        let vy: u8 = self.registers[reg_y.to_usize()];
        let left: usize = (vx % 64) as usize;
        let top: usize = (vy % 32) as usize;
        let ghost before = self@;
        let mut collision: bool = false;
        let mut changed: bool = false;
        let mut row: usize = 0;
        proof {
            lemma_draw_start(before, vx, vy, rows);
        }
        while row < rows as usize && top + row < DISPLAY_HEIGHT
            invariant
                self.wf(),
                before.wf(),
                self@ == (MachineState { display: self@.display, ..before }),
                start == before.i,
                start + rows <= MEMORY_SIZE,
                left == vx % 64,
                top == vy % 32,
                row <= rows,
                top + row <= DISPLAY_HEIGHT,
                self@.display == drawn(before, vx, vy, rows, row as int, 0),
                collision == erased(before, vx, vy, rows, row as int, 0),
                changed == touched(before, vx, vy, rows, row as int, 0),
            decreases rows - row,
        {
            let bits: u8 = self.memory[start + row];
            let mut col: u8 = 0;
            while col < 8
                invariant
                    self.wf(),
                    before.wf(),
                    self@ == (MachineState { display: self@.display, ..before }),
                    start == before.i,
                    left == vx % 64,
                    top == vy % 32,
                    row < rows,
                    top + row < DISPLAY_HEIGHT,
                    col <= 8,
                    bits == before.memory[start + row],
                    self@.display == drawn(before, vx, vy, rows, row as int, col as int),
                    collision == erased(before, vx, vy, rows, row as int, col as int),
                    changed == touched(before, vx, vy, rows, row as int, col as int),
                decreases 8 - col,
            {
                let at: usize = (top + row) * DISPLAY_WIDTH + (left + col as usize) % DISPLAY_WIDTH;
                proof {
                    lemma_draw_column(before, vx, vy, rows, row as int, col as int);
                }
                if bits & (0x80u8 >> col) != 0 {
                    if self.display[at] != 0 {
                        self.display[at] = 0;
                        collision = true;
                    } else {
                        self.display[at] = 1;
                    }
                    changed = true;
                }
                assert(self@.display =~= drawn(before, vx, vy, rows, row as int, col + 1));
                col += 1;
            }
            proof {
                lemma_draw_row(before, vx, vy, rows, row as int);
            }
            row += 1;
        }
        self.registers[Register::Vf.to_usize()] = if collision {
            1
        } else {
            0
        };
        proof {
            lemma_draw_done(before, vx, vy, rows, row as int);
        }
        Ok(changed)
    }

    fn store_regs(&mut self, reg: Register) -> (r: Result<(), ExecutionError>)
        requires
            old(self).wf(),
            reg.is_general(),
        ensures
            final(self).wf(),
            carried_out(
                old(self)@,
                old(self)@.write(
                    old(self)@.i as int,
                    old(self)@.registers.subrange(0, reg.index() + 1),
                ),
                r,
                final(self)@,
            ),
    {
        let count: usize = reg.to_usize() + 1;
        let start: usize = self.i as usize;
        if start > MEMORY_SIZE - count {
            return Err(ExecutionError::MemoryOutOfBounds);
        }
        let ghost before = self@;
        let mut k: usize = 0;
        while k < count
            invariant
                self.wf(),
                before.wf(),
                self@ == (MachineState { memory: self@.memory, ..before }),
                k <= count <= 16,
                start + count <= MEMORY_SIZE,
                forall|a: int|
                    0 <= a < MEMORY_SIZE ==> #[trigger] self@.memory[a] == if start <= a < start
                        + k {
                        before.registers[a - start]
                    } else {
                        before.memory[a]
                    },
            decreases count - k,
        {
            self.memory[start + k] = self.registers[k];
            k += 1;
        }
        proof {
            let expected = before.write(
                before.i as int,
                before.registers.subrange(0, reg.index() + 1),
            )->Ok_0;
            assert(self@.memory =~= expected.memory);
        }
        Ok(())
    }

    fn read_regs(&mut self, reg: Register) -> (r: Result<(), ExecutionError>)
        requires
            old(self).wf(),
            reg.is_general(),
        ensures
            final(self).wf(),
            carried_out(old(self)@, old(self)@.read_registers(reg), r, final(self)@),
    {
        let count: usize = reg.to_usize() + 1;
        let start: usize = self.i as usize;
        if start > MEMORY_SIZE - count {
            return Err(ExecutionError::MemoryOutOfBounds);
        }
        let ghost before = self@;
        let mut k: usize = 0;
        while k < count
            invariant
                self.wf(),
                before.wf(),
                self@ == (MachineState { registers: self@.registers, ..before }),
                k <= count <= 16,
                start == before.i,
                start + count <= MEMORY_SIZE,
                forall|j: int|
                    0 <= j < 16 ==> #[trigger] self@.registers[j] == if j < k {
                        before.memory[start + j]
                    } else {
                        before.registers[j]
                    },
            decreases count - k,
        {
            self.registers[k] = self.memory[start + k];
            k += 1;
        }
        proof {
            let expected = before.read_registers(reg)->Ok_0;
            assert(self@.registers =~= expected.registers);
        }
        Ok(())
    }
}

} // verus!
