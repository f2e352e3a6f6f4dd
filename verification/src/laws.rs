use vstd::prelude::*;

use crate::cpu::{first_key, first_key_from, same_cpu, step_ok, Instr, CPU};
use crate::keypad::{key_down, lemma_single_key};

verus! {

/// A mask with no key down scans to no first key from any start.
proof fn lemma_first_key_from_none(keys: u16, k: int)
    requires
        forall|j: u16| j < 16 ==> !key_down(keys, j),
        0 <= k <= 16,
    ensures
        first_key_from(keys, k) is None,
    decreases 16 - k,
{
    if k < 16 {
        lemma_first_key_from_none(keys, k + 1);
    }
}

/// In the mask `1 << k` the scan from any point at or before `k` finds `k`.
proof fn lemma_first_key_from_single(k: u16, j: int)
    requires
        k < 16,
        0 <= j <= k,
    ensures
        first_key_from(1u16 << k, j) == Some(k as u8),
    decreases k - j,
{
    lemma_single_key(k);
    if j < k {
        lemma_first_key_from_single(k, j + 1);
    }
}

/// Loading kk into Vx and then adding kk2 leaves Vx holding the wrapped sum
/// (kk + kk2) mod 256; every other register, so in particular the flag
/// register when it is not itself the destination, is untouched.  (With
/// x = 15 the sum lands in VF, which is then not preserved.)
pub proof fn lemma_load_then_add(
    s0: CPU,
    s1: CPU,
    s2: CPU,
    x: usize,
    kk: u8,
    kk2: u8,
    r1: u8,
    r2: u8,
)
    requires
        x < 16,
        step_ok(s0, s1, Instr::LoadImm(x, kk), r1),
        step_ok(s1, s2, Instr::AddImm(x, kk2), r2),
    ensures
        s2.v@[x as int] == (kk + kk2) % 256,
        x != 15 ==> s2.v@[15] == s0.v@[15],
        forall|j: int| 0 <= j < 16 && j != x ==> s2.v@[j] == s0.v@[j],
{
}

/// The addition opcode's flag: VF is 1 exactly when the unsigned sum of the
/// two source registers exceeds 255, and otherwise 0, with Vx holding the
/// sum's low byte.  The flag register itself cannot be the destination
/// here, for then the low byte overwrites the flag.
pub proof fn lemma_add_carry(s0: CPU, s1: CPU, x: usize, y: usize, rnd: u8)
    requires
        x < 16,
        y < 16,
        x != 15,
        step_ok(s0, s1, Instr::Add(x, y), rnd),
    ensures
        s1.v@[15] == (if s0.v@[x as int] + s0.v@[y as int] > 255 {
            1u8
        } else {
            0u8
        }),
        s1.v@[x as int] == (s0.v@[x as int] + s0.v@[y as int]) % 256,
{
}

/// The subtraction opcode's flag encodes "no borrow occurred": for distinct
/// operand values VF is 1 exactly when the minuend Vx is at least the
/// subtrahend Vy.  (With equal operands the opcode clears the flag, and
/// with x = 15 the difference overwrites it.)
pub proof fn lemma_sub_no_borrow(s0: CPU, s1: CPU, x: usize, y: usize, rnd: u8)
    requires
        x < 16,
        y < 16,
        x != 15,
        s0.v@[x as int] != s0.v@[y as int],
        step_ok(s0, s1, Instr::Sub(x, y), rnd),
    ensures
        s1.v@[15] == (if s0.v@[x as int] >= s0.v@[y as int] {
            1u8
        } else {
            0u8
        }),
{
}

/// The reverse subtraction opcode's flag encodes "no borrow occurred" the
/// same way: for distinct operand values VF is 1 exactly when the minuend,
/// here Vy, is at least the subtrahend Vx — independent of which register
/// is the destination of the difference.
pub proof fn lemma_subn_no_borrow(s0: CPU, s1: CPU, x: usize, y: usize, rnd: u8)
    requires
        x < 16,
        y < 16,
        x != 15,
        s0.v@[x as int] != s0.v@[y as int],
        step_ok(s0, s1, Instr::SubN(x, y), rnd),
    ensures
        s1.v@[15] == (if s0.v@[y as int] >= s0.v@[x as int] {
            1u8
        } else {
            0u8
        }),
{
}

/// Call/return round trip: after "call nnn" and then "return", the stack
/// pointer is back at its pre-call value, the program counter sits exactly
/// at the instruction following the original call — the return address the
/// call pushed — and registers, memory, timers, display and keypad are
/// untouched.  The slot just above the restored pointer still holds the
/// pushed return address.
pub proof fn lemma_call_ret_round_trip(
    s0: CPU,
    s1: CPU,
    s2: CPU,
    nnn: usize,
    r1: u8,
    r2: u8,
)
    requires
        nnn < 4096,
        s0.wf(),
        step_ok(s0, s1, Instr::Call(nnn), r1),
        step_ok(s1, s2, Instr::Ret, r2),
    ensures
        s2.sp == s0.sp,
        s2.pc == s0.pc + 2,
        s2.v@ == s0.v@,
        s2.memory@ == s0.memory@,
        s2.i == s0.i,
        s2.delay_timer == s0.delay_timer,
        s2.sound_timer == s0.sound_timer,
        s2.screen.buffer@ == s0.screen.buffer@,
        s2.keypad.keys == s0.keypad.keys,
        s2.stack@ == s0.stack@.update(s0.sp as int, (s0.pc + 2) as usize),
{
}

/// With no key pressed, the wait-for-key opcode leaves the whole machine,
/// the program counter included, exactly as it was: cycling keeps
/// re-dispatching the same instruction.
pub proof fn lemma_wait_key_blocks(s0: CPU, s1: CPU, x: usize, rnd: u8)
    requires
        x < 16,
        forall|j: u16| j < 16 ==> !key_down(s0.keypad.keys, j),
        step_ok(s0, s1, Instr::WaitKey(x), rnd),
    ensures
        same_cpu(s0, s1),
{
    lemma_first_key_from_none(s0.keypad.keys, 0);
}

/// Once key `k` is marked pressed — the keypad holds a single pressed key —
/// the wait-for-key opcode stores `k` in the destination register and
/// advances the program counter past the instruction.
pub proof fn lemma_wait_key_advances(s0: CPU, s1: CPU, x: usize, k: u8, rnd: u8)
    requires
        x < 16,
        k < 16,
        s0.keypad.keys == 1u16 << (k as u16),
        step_ok(s0, s1, Instr::WaitKey(x), rnd),
    ensures
        s1.pc == s0.pc + 2,
        s1.v@[x as int] == k,
        forall|j: int| 0 <= j < 16 && j != x ==> s1.v@[j] == s0.v@[j],
{
    lemma_first_key_from_single(k as u16, 0);
    assert(first_key(s0.keypad.keys) == Some(k));
}

} // verus!
