//! Laws of the machine: what holds of every state across one or more
//! instructions.

use vstd::prelude::*;
use crate::machine::{
    flag, ExecutionError, MachineState, DISPLAY_SIZE, KEY_COUNT, MEMORY_SIZE, STACK_CAPACITY,
};
use crate::opcode::Opcode;
use crate::register::{lemma_register_index_bounds, Register};

verus! {

/// The state after a run of calls, one to each of `targets` in turn, or the
/// error of the first of them that fails.
pub open spec fn after_calls(s: MachineState, targets: Seq<u16>) -> Result<
    MachineState,
    ExecutionError,
>
    decreases targets.len(),
{
    if targets.len() == 0 {
        Ok(s)
    } else {
        match after_calls(s, targets.drop_last()) {
            Ok(t) => t.step(Opcode::Call(targets.last()), 0),
            Err(e) => Err(e),
        }
    }
}

/// A general-purpose register that is set holds the value it was set to,
/// and the state keeps its shape.
pub proof fn lemma_set_v(s: MachineState, r: Register, value: u8)
    requires
        s.wf(),
        r.is_general(),
    ensures
        s.set_v(r, value).wf(),
        s.set_v(r, value).v(r) == value,
{
    lemma_register_index_bounds(r);
}

/// After an arithmetic instruction the destination holds the result, and the
/// flag register holds the flag unless it is the destination.
pub proof fn lemma_set_flag_then_v(s: MachineState, carry: bool, r: Register, value: u8)
    requires
        s.wf(),
        r.is_general(),
    ensures
        s.set_flag_then_v(carry, r, value).wf(),
        s.set_flag_then_v(carry, r, value).v(r) == value,
        r != Register::Vf ==> s.set_flag_then_v(carry, r, value).v(Register::Vf) == flag(carry),
{
    lemma_register_index_bounds(r);
}

/// Each way in which an instruction changes a machine state keeps the
/// state's shape.
proof fn lemma_changes_preserve_wf(s: MachineState)
    requires
        s.wf(),
    ensures
        s.clear().wf(),
        s.ret() matches Ok(t) ==> t.wf(),
        forall|r: Register, value: u8| r.is_general() ==> (#[trigger] s.set_v(r, value)).wf(),
        forall|carry: bool, r: Register, value: u8|
            r.is_general() ==> (#[trigger] s.set_flag_then_v(carry, r, value)).wf(),
        forall|target: int| #[trigger] s.jump(target) matches Ok(t) ==> t.wf(),
        forall|condition: bool| #[trigger] s.skip_if(condition) matches Ok(t) ==> t.wf(),
        forall|target: u16| #[trigger] s.call(target) matches Ok(t) ==> t.wf(),
        forall|address: u16| #[trigger] s.point_at(address) matches Ok(t) ==> t.wf(),
        forall|offset: u8| #[trigger] s.advance_i(offset) matches Ok(t) ==> t.wf(),
        forall|start: int, bytes: Seq<u8>| #[trigger] s.write(start, bytes) matches Ok(t) ==> t.wf(),
        forall|last: Register| #[trigger] s.read_registers(last) matches Ok(t) ==> t.wf(),
        forall|vx: u8, vy: u8, n: u8| #[trigger] s.draw(vx, vy, n) matches Ok(t) ==> t.wf(),
        forall|r: Register| r.is_general() ==> (#[trigger] s.wait_key(r)).wf(),
{
    assert forall|r: Register, value: u8| r.is_general() implies (#[trigger] s.set_v(
        r,
        value,
    )).wf() by {
        lemma_set_v(s, r, value);
    }
    assert forall|carry: bool, r: Register, value: u8| r.is_general() implies (
    #[trigger] s.set_flag_then_v(carry, r, value)).wf() by {
        lemma_set_flag_then_v(s, carry, r, value);
    }
    assert forall|r: Register| r.is_general() implies (#[trigger] s.wait_key(r)).wf() by {
        if s.pressed_key is Some {
            lemma_set_v(s, r, s.pressed_key->Some_0);
        }
    }
}

/// An instruction that succeeds leaves a machine state in the shape of a
/// machine state.
pub proof fn lemma_step_preserves_wf(s: MachineState, op: Opcode, random: u8)
    requires
        s.wf(),
    ensures
        s.step(op, random) matches Ok(t) ==> t.wf(),
{
    lemma_changes_preserve_wf(s);
}

/// The sum of two bytes is its low byte and a carry of 256.
proof fn lemma_sum_with_carry(a: u8, b: u8)
    ensures
        ((a + b) % 256) + 256 * flag(a + b > 255) == a + b,
        0 <= (a + b) % 256 < 256,
{
}

/// The difference of two bytes is its low byte less a borrow of 256.
proof fn lemma_difference_with_borrow(a: u8, b: u8)
    ensures
        ((a - b) % 256) - 256 * (1 - flag(a >= b)) == a - b,
        0 <= (a - b) % 256 < 256,
{
}

/// A byte is twice its upper seven bits and its lowest bit; twice a byte is
/// its low byte and 256 for the highest bit.
proof fn lemma_halves_and_doubles(v: u8)
    ensures
        2 * (v / 2) + flag(v % 2 == 1) == v,
        ((2 * v) % 256) + 256 * flag(v >= 128) == 2 * v,
        0 <= (2 * v) % 256 < 256,
{
}

/// A register-to-register add leaves the sum in the destination and the
/// carry in the flag register: together they hold the exact sum. Where the
/// destination is the flag register itself, the sum stays in it.
pub proof fn lemma_add_reg_carries(s: MachineState, x: Register, y: Register)
    requires
        s.wf(),
        x.is_general(),
        y.is_general(),
    ensures
        s.step(Opcode::AddReg(x, y), 0) matches Ok(t) && {
            &&& t.v(x) == (s.v(x) + s.v(y)) % 256
            &&& x != Register::Vf ==> t.v(Register::Vf) == flag(s.v(x) + s.v(y) > 255)
            &&& x != Register::Vf ==> t.v(x) + 256 * t.v(Register::Vf) == s.v(x) + s.v(y)
        },
{
    let sum = s.v(x) + s.v(y);
    lemma_sum_with_carry(s.v(x), s.v(y));
    lemma_set_flag_then_v(s, sum > 255, x, (sum % 256) as u8);
}

/// A subtraction, in either order of operands, leaves the difference in the
/// destination and 1 in the flag register, or borrows 256 and leaves 0 in the
/// flag register.
pub proof fn lemma_sub_borrows(s: MachineState, x: Register, y: Register)
    requires
        s.wf(),
        x.is_general(),
        y.is_general(),
        x != Register::Vf,
    ensures
        s.step(Opcode::Sub(x, y), 0) matches Ok(t) && {
            &&& t.v(x) - 256 * (1 - t.v(Register::Vf)) == s.v(x) - s.v(y)
            &&& t.v(Register::Vf) == flag(s.v(x) >= s.v(y))
        },
        s.step(Opcode::Subn(x, y), 0) matches Ok(t) && {
            &&& t.v(x) - 256 * (1 - t.v(Register::Vf)) == s.v(y) - s.v(x)
            &&& t.v(Register::Vf) == flag(s.v(y) >= s.v(x))
        },
{
    let a = s.v(x);
    let b = s.v(y);
    lemma_difference_with_borrow(a, b);
    lemma_set_flag_then_v(s, a >= b, x, ((a - b) % 256) as u8);
    lemma_difference_with_borrow(b, a);
    lemma_set_flag_then_v(s, b >= a, x, ((b - a) % 256) as u8);
}

/// A shift moves the bit that leaves the register into the flag register:
/// flag and result together hold the value that was shifted.
pub proof fn lemma_shift_keeps_bit(s: MachineState, x: Register)
    requires
        s.wf(),
        x.is_general(),
        x != Register::Vf,
    ensures
        s.step(Opcode::Shr(x), 0) matches Ok(t) && 2 * t.v(x) + t.v(Register::Vf) == s.v(x),
        s.step(Opcode::Shl(x), 0) matches Ok(t) && t.v(x) + 256 * t.v(Register::Vf) == 2 * s.v(x),
{
    let v = s.v(x);
    lemma_halves_and_doubles(v);
    lemma_set_flag_then_v(s, v % 2 == 1, x, v / 2);
    lemma_set_flag_then_v(s, v >= 128, x, ((2 * v) % 256) as u8);
}

/// A skip that is taken moves the program counter by one instruction, so
/// that the instruction after the one that follows the skip is fetched next;
/// a skip that is not taken changes nothing.
pub proof fn lemma_skip_moves_one_instruction(s: MachineState, x: Register, kk: u8)
    requires
        s.wf(),
        x.is_general(),
        s.pc + 2 <= u16::MAX,
    ensures
        s.step(Opcode::SeVal(x, kk), 0) == Ok::<MachineState, ExecutionError>(
            if s.v(x) == kk {
                MachineState { pc: (s.pc + 2) as u16, ..s }
            } else {
                s
            },
        ),
        s.step(Opcode::SneVal(x, kk), 0) == Ok::<MachineState, ExecutionError>(
            if s.v(x) != kk {
                MachineState { pc: (s.pc + 2) as u16, ..s }
            } else {
                s
            },
        ),
{
}

/// A call followed at once by a return leaves the machine as it was before
/// the call: the program counter is back at the instruction after the call.
pub proof fn lemma_call_then_ret(s: MachineState, target: u16)
    requires
        s.wf(),
        s.stack.len() < STACK_CAPACITY,
        target < MEMORY_SIZE,
    ensures
        s.step(Opcode::Call(target), 0) matches Ok(t) && {
            &&& t.pc == target
            &&& t.step(Opcode::Ret, 0) == Ok::<MachineState, ExecutionError>(s)
        },
{
    let t = s.step(Opcode::Call(target), 0)->Ok_0;
    assert(t.stack.drop_last() =~= s.stack);
}

/// A call succeeds exactly when the stack is not full, and then the stack
/// is one deeper. A call with the stack full is a stack overflow, a return
/// with the stack empty a stack underflow.
pub proof fn lemma_stack_bounds(s: MachineState, target: u16)
    requires
        s.wf(),
        target < MEMORY_SIZE,
    ensures
        s.stack.len() < STACK_CAPACITY ==> (s.step(Opcode::Call(target), 0) matches Ok(t)
            && t.stack.len() == s.stack.len() + 1),
        s.stack.len() == STACK_CAPACITY ==> s.step(Opcode::Call(target), 0) == Err::<
            MachineState,
            ExecutionError,
        >(ExecutionError::StackOverflow),
        s.stack.len() > 0 ==> (s.step(Opcode::Ret, 0) matches Ok(t) && t.stack.len()
            == s.stack.len() - 1),
        s.stack.len() == 0 ==> s.step(Opcode::Ret, 0) == Err::<MachineState, ExecutionError>(
            ExecutionError::StackUnderflow,
        ),
{
}

/// A run of calls with no return in between succeeds as long as the stack
/// has room for all of them, and leaves the stack deeper by their number.
/// With one call more than there is room for, the run ends in a stack
/// overflow: from an empty stack, at the seventeenth call.
pub proof fn lemma_calls_exhaust_stack(s: MachineState, targets: Seq<u16>)
    requires
        s.wf(),
        forall|k: int| 0 <= k < targets.len() ==> targets[k] < MEMORY_SIZE,
    ensures
        s.stack.len() + targets.len() <= STACK_CAPACITY ==> (after_calls(s, targets) matches Ok(t)
            && t.wf() && t.stack.len() == s.stack.len() + targets.len()),
        s.stack.len() + targets.len() > STACK_CAPACITY ==> after_calls(s, targets) == Err::<
            MachineState,
            ExecutionError,
        >(ExecutionError::StackOverflow),
    decreases targets.len(),
{
    if targets.len() > 0 {
        lemma_calls_exhaust_stack(s, targets.drop_last());
    }
}

/// The first draw of a sprite reports whether it turned a pixel off. A second
/// draw of the same sprite at the same place restores the display, and
/// reports 1 exactly when the first draw turned a pixel on.
///
/// The coordinates are not taken from the flag register: the first draw
/// writes it.
pub proof fn lemma_draw_twice_restores(s: MachineState, x: Register, y: Register, n: u8)
    requires
        s.wf(),
        x.is_general(),
        y.is_general(),
        x != Register::Vf,
        y != Register::Vf,
        s.i + n <= MEMORY_SIZE,
    ensures
        s.step(Opcode::Drw(x, y, n), 0) matches Ok(t) && {
            &&& t.v(Register::Vf) == flag(s.sprite_collides(s.v(x), s.v(y), n))
            &&& t.step(Opcode::Drw(x, y, n), 0) matches Ok(u) && {
                &&& u.display == s.display
                &&& u.v(Register::Vf) == flag(
                    exists|p: int|
                        0 <= p < DISPLAY_SIZE && !s.display[p] && #[trigger] s.sprite_covers(
                            s.v(x),
                            s.v(y),
                            n,
                            p,
                        ),
                )
            }
        },
{
    let vx = s.v(x);
    let vy = s.v(y);
    let t = s.step(Opcode::Drw(x, y, n), 0)->Ok_0;
    assert(t.v(x) == vx && t.v(y) == vy);
    let u = t.step(Opcode::Drw(x, y, n), 0)->Ok_0;
    assert forall|p: int| 0 <= p < DISPLAY_SIZE implies #[trigger] t.sprite_covers(vx, vy, n, p)
        == s.sprite_covers(vx, vy, n, p) by {}
    assert(u.display =~= s.display);
    let lit = exists|p: int|
        0 <= p < DISPLAY_SIZE && !s.display[p] && #[trigger] s.sprite_covers(vx, vy, n, p);
    if lit {
        let p = choose|p: int|
            0 <= p < DISPLAY_SIZE && !s.display[p] && #[trigger] s.sprite_covers(vx, vy, n, p);
        assert(t.sprite_covers(vx, vy, n, p));
        assert(t.sprite_erases(vx, vy, n, p));
    }
    if t.sprite_collides(vx, vy, n) {
        let p = choose|p: int| #[trigger] t.sprite_erases(vx, vy, n, p);
        assert(s.sprite_covers(vx, vy, n, p));
    }
}

/// Registers stored with a bulk store come back with a bulk read, whatever
/// happened to the registers in between, as long as the memory and the
/// address register are as the store left them. Neither instruction changes
/// the address register.
pub proof fn lemma_store_then_read(s: MachineState, between: MachineState, x: Register)
    requires
        s.wf(),
        between.wf(),
        x.is_general(),
        s.i + x.index() + 1 <= MEMORY_SIZE,
        s.step(Opcode::StoreRegs(x), 0) matches Ok(t) ==> between.memory == t.memory && between.i
            == t.i,
    ensures
        s.step(Opcode::StoreRegs(x), 0) matches Ok(t) && {
            &&& t.i == s.i
            &&& t.registers == s.registers
            &&& between.step(Opcode::ReadRegs(x), 0) matches Ok(u) && {
                &&& u.i == s.i
                &&& u.memory == between.memory
                &&& forall|k: int| 0 <= k <= x.index() ==> u.registers[k] == s.registers[k]
                &&& forall|k: int| x.index() < k < 16 ==> u.registers[k] == between.registers[k]
            }
        },
{
}

/// A wait for a key goes on, with nothing else changed, for as long as no key
/// goes down, however often the instruction is executed again. It ends with
/// the next execution after a key went down: the register then holds the
/// first key that did, and the machine waits no longer.
pub proof fn lemma_wait_for_key(s: MachineState, x: Register, key: u8)
    requires
        s.wf(),
        x.is_general(),
        !s.awaiting_key,
        key < KEY_COUNT,
        !s.keys[key as int],
    ensures
        s.step(Opcode::LdK(x), 0) matches Ok(waiting) && {
            &&& waiting == (MachineState { awaiting_key: true, ..s })
            &&& waiting.step(Opcode::LdK(x), 0) == Ok::<MachineState, ExecutionError>(waiting)
            &&& waiting.key_event(key, true).step(Opcode::LdK(x), 0) matches Ok(done) && {
                &&& done.v(x) == key
                &&& !done.awaiting_key
                &&& done.key_down(key)
                &&& done.pc == s.pc
            }
        },
{
    let waiting = MachineState { awaiting_key: true, ..s };
    lemma_set_v(waiting.key_event(key, true), x, key);
}

} // verus!
