//! What holds of short instruction sequences, proved over the machine's
//! one-step semantics.
use vstd::prelude::*;

use crate::machine::{
    conversion, execute, find_last, float_op, integer_binary, integer_unary, lemma_find_last,
    lemma_step_balance, step_model, zeros, Frame, MachineModel, NativeRegistry, RuntimeError, Step,
};
use crate::parse::Instruction;

verus! {

/// The state after `n` steps, whatever each step returned.
pub open spec fn run_steps(m: MachineModel, natives: NativeRegistry, n: nat) -> MachineModel
    decreases n,
{
    if n == 0 {
        m
    } else {
        step_model(run_steps(m, natives, (n - 1) as nat), natives).0
    }
}

/// The current frame's next three instructions are `a`, `b` and `c`.
pub open spec fn next_three(m: MachineModel, a: Instruction, b: Instruction, c: Instruction) -> bool {
    let f = m.frame();
    let code = m.program[f.procedure as int].code;
    &&& m.frames.len() > 0
    &&& f.pc + 3 <= code.len()
    &&& code[f.pc as int] == a
    &&& code[f.pc + 1] == b
    &&& code[f.pc + 2] == c
}

/// `PCHNIJ x; PCHNIJ y; MNRÓW.C` leaves 1 on the stack when `x <= y` as
/// signed integers, and 0 when `x > y`.
pub proof fn lemma_less_equal(m: MachineModel, natives: NativeRegistry, x: i64, y: i64)
    requires
        m.wf(),
        m.fits(),
        next_three(m, Instruction::Pchnij(x as u64), Instruction::Pchnij(y as u64), Instruction::MNrowC),
    ensures
        ({
            let (m1, s1) = step_model(m, natives);
            let (m2, s2) = step_model(m1, natives);
            let (m3, s3) = step_model(m2, natives);
            &&& s1 == Step::Continue
            &&& s2 == Step::Continue
            &&& s3 == Step::Continue
            &&& m3.stack == m.stack.push(if x <= y { 1 } else { 0 })
        }),
{
    assert(m.frames[m.frames.len() - 1].procedure < m.program.len());
    assert(((x as u64) as i64) == x) by (bit_vector);
    assert(((y as u64) as i64) == y) by (bit_vector);
    let (m1, s1) = step_model(m, natives);
    let (m2, s2) = step_model(m1, natives);
    let (m3, s3) = step_model(m2, natives);
    assert(m2.stack == m.stack.push(x as u64).push(y as u64));
    assert(m3.stack =~= m.stack.push(if x <= y { 1 } else { 0 }));
}

/// `NAT 10` (Alloc) with `n` on top of the stack, then `PCHNIJ i` and
/// `NAT 12` (Read) with `i < n`: the read finds 0 in the new block. The one
/// exception is a size past what a `usize` counts, which Alloc refuses.
pub proof fn lemma_alloc_then_read(m: MachineModel, natives: NativeRegistry, i: u64)
    requires
        m.wf(),
        m.fits(),
        natives.registered(0x10),
        natives.registered(0x12),
        m.stack.len() >= 1,
        i < m.peek(0),
        next_three(m, Instruction::Nat(0x10), Instruction::Pchnij(i), Instruction::Nat(0x12)),
    ensures
        ({
            let (m1, s1) = step_model(m, natives);
            let (m2, s2) = step_model(m1, natives);
            let (m3, s3) = step_model(m2, natives);
            if m.peek(0) <= usize::MAX {
                &&& s1 == Step::Continue
                &&& s2 == Step::Continue
                &&& s3 == Step::Continue
                &&& m3.heap == m.heap.push(zeros(m.peek(0) as nat))
                &&& m3.stack == m.stack.push(m.heap.len() as u64).push(i).push(0)
            } else {
                s1 == Step::Fault(RuntimeError::AllocationTooLarge)
            }
        }),
{
    assert(m.frames[m.frames.len() - 1].procedure < m.program.len());
    if m.peek(0) <= usize::MAX {
        let (m1, s1) = step_model(m, natives);
        let (m2, s2) = step_model(m1, natives);
        let a = m.heap.len();
        assert(m1.heap == m.heap.push(zeros(m.peek(0) as nat)));
        assert(m1.stack == m.stack.push(a as u64));
        assert(m2.stack == m.stack.push(a as u64).push(i));
        assert(m2.peek(1) == a as u64);
        assert(m2.peek(0) == i);
        assert(m2.heap[a as int] == zeros(m.peek(0) as nat));
        assert(m2.heap[a as int][i as int] == 0);
    }
}

/// The callee's code begins with `ZMIENNA.K 0` to `ZMIENNA.K k-1`: after
/// `j <= k` of them the stack holds, above what it held, the first `j`
/// values of the frame's window, in order.
pub proof fn lemma_loads(m: MachineModel, natives: NativeRegistry, k: u64, j: nat)
    requires
        m.frames.len() > 0,
        m.frame().procedure < m.program.len(),
        m.frame().pc == 0,
        m.program[m.frame().procedure as int].code.len() <= usize::MAX,
        k <= m.program[m.frame().procedure as int].code.len(),
        forall|i: int|
            0 <= i < k ==> #[trigger] m.program[m.frame().procedure as int].code[i]
                == Instruction::ZmiennaK(i as u64),
        m.frame().bottom + k <= m.stack.len(),
        j <= k,
    ensures
        ({
            let mj = run_steps(m, natives, j);
            &&& mj.stack == m.stack + m.stack.subrange(
                m.frame().bottom as int,
                m.frame().bottom + j,
            )
            &&& mj.program == m.program
            &&& mj.frames.len() == m.frames.len()
            &&& mj.frame() == Frame { pc: j as u64, ..m.frame() }
        }),
    decreases j,
{
    let b = m.frame().bottom as int;
    if j == 0 {
        assert(m.stack + m.stack.subrange(b, b) =~= m.stack);
    } else {
        lemma_loads(m, natives, k, (j - 1) as nat);
        let mp = run_steps(m, natives, (j - 1) as nat);
        let code = m.program[m.frame().procedure as int].code;
        assert(code[j - 1] == Instruction::ZmiennaK((j - 1) as u64));
        let m1 = mp.with_pc(j as u64);
        assert(m1.frame() == Frame { pc: j as u64, ..m.frame() });
        assert(m1.stack[b + j - 1] == m.stack[b + j - 1]);
        assert(m.stack + m.stack.subrange(b, b + j) =~= (m.stack + m.stack.subrange(
            b,
            b + j - 1,
        )).push(m.stack[b + j - 1]));
    }
}

/// A call of a procedure with `parameter_count` k: the callee starts at
/// its first instruction with its locals at the caller's last k values, and
/// `ZMIENNA.K i` there, for each `i < k`, pushes the caller's `i`-th of them.
pub proof fn lemma_call_parameters(m: MachineModel, natives: NativeRegistry, index: u64, i: u64)
    requires
        m.wf(),
        m.fits(),
        m.frames.len() > 0,
        m.frame().pc < m.program[m.frame().procedure as int].code.len(),
        m.program[m.frame().procedure as int].code[m.frame().pc as int] == Instruction::Wywolaj(index),
        find_last(m.program, index, m.program.len() as int) matches Some(p) && m.program[p].code.len() > 0
            && i < m.program[p].parameter_count <= m.stack.len(),
    ensures
        ({
            let p = find_last(m.program, index, m.program.len() as int)->0;
            let k = m.program[p].parameter_count;
            let (m1, s1) = step_model(m, natives);
            &&& s1 == Step::Continue
            &&& m1.frames.len() == m.frames.len() + 1
            &&& m1.frame() == Frame { procedure: p as usize, pc: 0, bottom: (m.stack.len() - k) as usize }
            &&& m1.stack == m.stack
            &&& execute(m1, Instruction::ZmiennaK(i), natives) == (
                m1.push(m.stack[m.stack.len() - k + i]),
                Step::Continue,
            )
        }),
{
    assert(m.frames[m.frames.len() - 1].procedure < m.program.len());
    lemma_find_last(m.program, index, m.program.len() as int);
}

/// A call of a procedure with `parameter_count` k whose code begins with
/// `ZMIENNA.K 0` to `ZMIENNA.K k-1`: after the call and those k loads the
/// stack is the caller's stack followed by its last k values, in push order.
pub proof fn lemma_call_window(m: MachineModel, natives: NativeRegistry, index: u64)
    requires
        m.wf(),
        m.fits(),
        m.frames.len() > 0,
        m.frame().pc < m.program[m.frame().procedure as int].code.len(),
        m.program[m.frame().procedure as int].code[m.frame().pc as int] == Instruction::Wywolaj(index),
        find_last(m.program, index, m.program.len() as int) matches Some(p)
            && 0 < m.program[p].parameter_count <= m.stack.len()
            && m.program[p].parameter_count <= m.program[p].code.len()
            && forall|i: int|
            0 <= i < m.program[p].parameter_count ==> #[trigger] m.program[p].code[i]
                == Instruction::ZmiennaK(i as u64),
    ensures
        ({
            let p = find_last(m.program, index, m.program.len() as int)->0;
            let k = m.program[p].parameter_count;
            let n = m.stack.len();
            let m1 = step_model(m, natives).0;
            &&& m1.frame().bottom == n - k
            &&& run_steps(m1, natives, k as nat).stack == m.stack + m.stack.subrange(n - k, n as int)
        }),
{
    assert(m.frames[m.frames.len() - 1].procedure < m.program.len());
    lemma_find_last(m.program, index, m.program.len() as int);
    let p = find_last(m.program, index, m.program.len() as int)->0;
    let k = m.program[p].parameter_count;
    let m1 = step_model(m, natives).0;
    assert(m.program[p].code.len() <= usize::MAX);
    assert(m1.frame().procedure == p);
    lemma_loads(m1, natives, k, k as nat);
}

/// How much running `instr` in state `m` changes the depth of the stack,
/// when it does not fault: +1 for a literal, a copied local and the Alloc
/// and Read natives; -1 for a removal, a store into a local, a conditional
/// jump and a binary integer operation; 0 for a unary one, a jump, a call
/// and the other natives; on return, minus the values the cleanup drops.
/// A float operation pops 2 and a conversion 1; the host then pushes their
/// result, as it pushes the value that `GetC`, `GetZ` or `GetU` reads.
pub open spec fn stack_effect(m: MachineModel, instr: Instruction) -> int {
    let len = m.stack.len();
    let f = m.frame();
    if integer_binary(instr, 0, 0) is Some {
        -1
    } else if integer_unary(instr, 0) is Some {
        0
    } else if float_op(instr) is Some {
        -2
    } else if conversion(instr) is Some {
        -1
    } else {
        match instr {
            Instruction::Pchnij(_) | Instruction::ZmiennaK(_) => 1,
            Instruction::Usun | Instruction::ZmiennaU(_) | Instruction::IdzDoZe(_)
            | Instruction::IdzDoNz(_) => -1,
            Instruction::Wroc | Instruction::Stop => if m.program[f.procedure as int].index != 0
                && len > f.bottom + 1 {
                f.bottom + 1 - len
            } else {
                0
            },
            Instruction::Nat(id) => if id == 0x10 || id == 0x12 {
                1
            } else {
                0
            },
            _ => 0,
        }
    }
}

/// The depth change of the next step: that of the instruction it runs.
pub open spec fn step_effect(m: MachineModel) -> int {
    if m.frames.len() == 0 || m.frame().pc >= m.program[m.frame().procedure as int].code.len() {
        0
    } else {
        stack_effect(m, m.program[m.frame().procedure as int].code[m.frame().pc as int])
    }
}

/// The depth changes of the first `n` steps, added up.
pub open spec fn run_effect(m: MachineModel, natives: NativeRegistry, n: nat) -> int
    decreases n,
{
    if n == 0 {
        0
    } else {
        run_effect(m, natives, (n - 1) as nat) + step_effect(run_steps(m, natives, (n - 1) as nat))
    }
}

/// A step that does not fault changes the depth of the stack by exactly the
/// effect of the instruction it runs.
pub proof fn lemma_stack_effect(m: MachineModel, natives: NativeRegistry)
    requires
        m.wf(),
    ensures
        !(step_model(m, natives).1 is Fault) ==> step_model(m, natives).0.stack.len()
            == m.stack.len() + step_effect(m),
{
    if m.frames.len() > 0 {
        assert(m.frames[m.frames.len() - 1].procedure < m.program.len());
    }
}

/// Over a run whose steps neither fault nor wait for the host, the depth of
/// the stack changes by the sum of the effects of the instructions run.
pub proof fn lemma_run_depth(m: MachineModel, natives: NativeRegistry, n: nat)
    requires
        m.wf(),
        forall|i: nat|
            i < n ==> (#[trigger] step_model(run_steps(m, natives, i), natives)).1 is Continue
                || step_model(run_steps(m, natives, i), natives).1 is Finished,
    ensures
        run_steps(m, natives, n).wf(),
        run_steps(m, natives, n).stack.len() == m.stack.len() + run_effect(m, natives, n),
    decreases n,
{
    if n > 0 {
        let k = (n - 1) as nat;
        lemma_run_depth(m, natives, k);
        let mk = run_steps(m, natives, k);
        assert(step_model(mk, natives).1 is Continue || step_model(mk, natives).1 is Finished);
        lemma_step_balance(mk, natives);
        lemma_stack_effect(mk, natives);
    }
}

} // verus!
