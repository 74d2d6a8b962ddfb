use vstd::prelude::*;

use crate::cpu::{cycle, fetch_spec, next, run_cycles, CpuState, Fault, FLAG, RAM_SIZE, STACK_SIZE};
use crate::instruction::{decode_spec, Instruction};

verus! {

/// Adding register `y` into register `x` (not the flag register) leaves the
/// sum modulo 256 in `x` and sets the flag to 1 exactly when the sum
/// exceeds 255.
pub proof fn lemma_add_carry(s: CpuState, x: u8, y: u8, rnd: u8)
    requires
        s.wf(),
        s.pc < RAM_SIZE,
        x < FLAG,
        y < 16,
    ensures
        next(s, Instruction::Add { x, y }, rnd) matches Ok(t) && {
            &&& t.v[x as int] as int == (s.v[x as int] + s.v[y as int]) % 256
            &&& t.v[FLAG as int] == (if s.v[x as int] + s.v[y as int] > 255 { 1u8 } else { 0u8 })
            &&& t.pc == s.pc + 2
        },
{
}

/// Subtracting register `y` from register `x` (not the flag register) leaves
/// the difference modulo 256 in `x` and sets the flag to 1 exactly when no
/// borrow occurs; subtracting `x` from `y` into `x` does the same the other
/// way round.
pub proof fn lemma_sub_borrow(s: CpuState, x: u8, y: u8, rnd: u8)
    requires
        s.wf(),
        s.pc < RAM_SIZE,
        x < FLAG,
        y < 16,
    ensures
        next(s, Instruction::Sub { x, y }, rnd) matches Ok(t) && {
            &&& t.v[x as int] as int == (s.v[x as int] - s.v[y as int]) % 256
            &&& t.v[FLAG as int] == (if s.v[x as int] >= s.v[y as int] { 1u8 } else { 0u8 })
            &&& t.pc == s.pc + 2
        },
        next(s, Instruction::SubFrom { x, y }, rnd) matches Ok(t) && {
            &&& t.v[x as int] as int == (s.v[y as int] - s.v[x as int]) % 256
            &&& t.v[FLAG as int] == (if s.v[y as int] >= s.v[x as int] { 1u8 } else { 0u8 })
            &&& t.pc == s.pc + 2
        },
{
}

/// A shift of register `x` (not the flag register) sets the flag to the bit
/// shifted out, read before the shift: the high bit for a left shift, the
/// low bit for a right shift.
pub proof fn lemma_shift_flag(s: CpuState, x: u8, rnd: u8)
    requires
        s.wf(),
        s.pc < RAM_SIZE,
        x < FLAG,
    ensures
        next(s, Instruction::ShiftLeft { x }, rnd) matches Ok(t) && {
            &&& t.v[FLAG as int] == s.v[x as int] / 128
            &&& t.v[x as int] as int == (s.v[x as int] * 2) % 256
        },
        next(s, Instruction::ShiftRight { x }, rnd) matches Ok(t) && {
            &&& t.v[FLAG as int] == s.v[x as int] % 2
            &&& t.v[x as int] == s.v[x as int] / 2
        },
{
}

/// Executes the instructions `ins` one after another (none of the ones
/// this is used with draws a random byte; zero stands for it).
pub open spec fn run(s: CpuState, ins: Seq<Instruction>) -> Result<CpuState, Fault>
    decreases ins.len(),
{
    if ins.len() == 0 {
        Ok(s)
    } else {
        match run(s, ins.drop_last()) {
            Ok(t) => next(t, ins.last(), 0),
            Err(e) => Err(e),
        }
    }
}

/// Running `a` and then `b` is running `a + b`.
pub proof fn lemma_run_append(s: CpuState, a: Seq<Instruction>, b: Seq<Instruction>)
    ensures
        run(s, a + b) == (match run(s, a) {
            Ok(t) => run(t, b),
            Err(e) => Err(e),
        }),
    decreases b.len(),
{
    if b.len() == 0 {
        assert(a + b =~= a);
    } else {
        assert((a + b).drop_last() =~= a + b.drop_last());
        lemma_run_append(s, a, b.drop_last());
    }
}

/// Calls to the addresses `ts`, each nested in the one before, followed by
/// as many returns.
pub open spec fn nested_calls(ts: Seq<u16>) -> Seq<Instruction>
    decreases ts.len(),
{
    if ts.len() == 0 {
        seq![]
    } else {
        seq![Instruction::Call { nnn: ts[0] }] + nested_calls(ts.drop_first()) + seq![Instruction::Return]
    }
}

/// A call pushes the address of the call instruction and a return resumes
/// two bytes after it: `n` nested calls followed by `n` returns, with room
/// on the stack, resume right after the outermost call, with the stack
/// pointer and everything but the program counter and the stack slots above
/// it restored.
pub proof fn lemma_nested_calls(s: CpuState, ts: Seq<u16>)
    requires
        s.wf(),
        s.pc < RAM_SIZE,
        s.sp + ts.len() <= STACK_SIZE,
        forall|j: int| 0 <= j < ts.len() ==> #[trigger] ts[j] < RAM_SIZE,
    ensures
        run(s, nested_calls(ts)) matches Ok(t) && {
            &&& t == (CpuState { pc: t.pc, stack: t.stack, ..s })
            &&& t.wf()
            &&& t.pc == (if ts.len() == 0 { s.pc as int } else { s.pc + 2 })
            &&& forall|j: int| 0 <= j < s.sp ==> #[trigger] t.stack[j] == s.stack[j]
        },
    decreases ts.len(),
{
    if ts.len() > 0 {
        reveal_with_fuel(run, 2);
        let call = seq![Instruction::Call { nnn: ts[0] }];
        let rest = ts.drop_first();
        let ret = seq![Instruction::Return];
        assert(run(s, call) == next(s, call[0], 0)) by {
            assert(call.drop_last() =~= Seq::<Instruction>::empty());
        };
        let s1 = CpuState { stack: s.stack.update(s.sp as int, s.pc), sp: (s.sp + 1) as usize, pc: ts[0] as usize, ..s };
        assert(run(s, call) == Ok::<CpuState, Fault>(s1));
        assert forall|j: int| 0 <= j < rest.len() implies #[trigger] rest[j] < RAM_SIZE by {
            assert(rest[j] == ts[j + 1]);
        };
        lemma_nested_calls(s1, rest);
        let t1 = run(s1, nested_calls(rest))->Ok_0;
        assert(t1.stack[s.sp as int] == s.pc);
        assert(run(t1, ret) == next(t1, ret[0], 0)) by {
            assert(ret.drop_last() =~= Seq::<Instruction>::empty());
        };
        lemma_run_append(s, call, nested_calls(rest));
        lemma_run_append(s, call + nested_calls(rest), ret);
        assert(nested_calls(ts) == call + nested_calls(rest) + ret);
    }
}

/// The instruction at the program counter of `s` waits for a key.
pub open spec fn waits_for_key(s: CpuState, x: u8) -> bool {
    s.pc + 1 < RAM_SIZE && decode_spec(fetch_spec(s)) == (Instruction::WaitKey { x })
}

/// With no key held, a machine at a key wait stays as it is, however many
/// cycles run.
pub proof fn lemma_wait_key_blocks(s: CpuState, x: u8, rnds: Seq<u8>)
    requires
        s.wf(),
        waits_for_key(s, x),
        !s.any_key(),
    ensures
        run_cycles(s, rnds) == Ok::<CpuState, Fault>(s),
    decreases rnds.len(),
{
    reveal(cycle);
    if rnds.len() > 0 {
        lemma_wait_key_blocks(s, x, rnds.drop_last());
    }
}

/// Once a key is held, a key wait completes in one cycle: it stores the
/// lowest held key in register `x` and moves past the instruction.
pub proof fn lemma_wait_key_resumes(s: CpuState, x: u8, rnd: u8)
    requires
        s.wf(),
        waits_for_key(s, x),
        s.any_key(),
    ensures
        cycle(s, rnd) matches Ok(t) && {
            &&& t.v[x as int] as int == s.first_key()
            &&& t.v == s.v.update(x as int, s.first_key() as u8)
            &&& t.pc == s.pc + 2
            &&& t == (CpuState { v: t.v, pc: t.pc, ..s })
        },
{
    reveal(cycle);
    let k = choose|k: int| 0 <= k < 16 && #[trigger] s.keypad[k];
    lemma_first_key(s, k);
}

/// The lowest held key exists, is held, and no key below it is.
proof fn lemma_first_key(s: CpuState, k: int)
    requires
        s.wf(),
        0 <= k < 16,
        s.keypad[k],
    ensures
        0 <= s.first_key() < 16,
        s.keypad[s.first_key()],
        forall|j: int| 0 <= j < s.first_key() ==> !#[trigger] s.keypad[j],
    decreases k,
{
    if exists|j: int| 0 <= j < k && #[trigger] s.keypad[j] {
        let j = choose|j: int| 0 <= j < k && #[trigger] s.keypad[j];
        lemma_first_key(s, j);
    } else {
        assert(s.keypad[k] && forall|j: int| 0 <= j < k ==> !#[trigger] s.keypad[j]);
    }
}

} // verus!
