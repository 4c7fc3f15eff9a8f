//! The virtual machine: a value stack of 64-bit words, a table of heap
//! blocks, and an explicit stack of call frames. Execution is a sequence of
//! steps; a step that needs floating point or input/output hands that work
//! to the host as a [`Step`] and the host feeds any result back with
//! [`Machine::push`].
use vstd::prelude::*;
use std::collections::VecDeque;

use crate::parse::{Instruction, Procedure, ProcedureModel};
use crate::text::{parse_radix, radix_value, trim, trimmed};

verus! {

/// A failure that ends execution.
#[derive(Clone, Copy, Debug, PartialEq, Eq, Structural)]
pub enum RuntimeError {
    /// No procedure has index 0.
    NoEntryProcedure,
    /// `WYWOŁAJ` named an index that no procedure has.
    UnknownProcedure(u64),
    /// `NAT` named a native procedure that is not registered.
    UnknownNative(u64),
    /// An instruction needed more values than the stack holds.
    StackUnderflow,
    /// `ZMIENNA.K` or `ZMIENNA.U` named a slot past the top of the stack.
    LocalOutOfRange(u64),
    /// A heap address or an index into a block is out of range.
    HeapOutOfRange,
    /// A block larger than the machine can address was asked for.
    AllocationTooLarge,
    /// The program counter left the procedure's code.
    ProgramCounterOutOfRange,
    /// Integer division or remainder by zero.
    DivisionByZero,
    /// A line that did not decode reached execution.
    UndecodedInstruction,
}

/// A floating-point operation on two words read as IEEE-754 binary64.
#[derive(Clone, Copy, Debug, PartialEq, Eq, Structural)]
pub enum FloatOp {
    Add,
    Sub,
    Mul,
    Div,
    Rem,
    /// Pushes 1 or 0.
    Equal,
    /// Pushes 1 or 0.
    Less,
    /// Pushes 1 or 0.
    LessEqual,
}

/// A conversion between the integer and the float reading of a word.
#[derive(Clone, Copy, Debug, PartialEq, Eq, Structural)]
pub enum Conversion {
    /// A signed integer to the nearest float.
    IntToFloat,
    /// A float to its floor, as an unsigned integer.
    FloatToInt,
}

/// A native procedure that needs the host.
#[derive(Clone, Copy, Debug, PartialEq, Eq, Structural)]
pub enum HostCall {
    /// Print the word as an unsigned decimal integer.
    PutC(u64),
    /// Print the word read as a float.
    PutZ(u64),
    /// Print the word as a Unicode scalar value.
    PutU(u64),
    /// Read a line, parse an unsigned integer and push it.
    GetC,
    /// Read a line, parse a float and push its bits.
    GetZ,
    /// Read a line and push the code of its first character.
    GetU,
    /// Print the text held in the heap block at this address.
    Print(usize),
}

/// What one step did, or what it leaves to the host.
#[derive(Clone, Copy, Debug, PartialEq, Eq, Structural)]
pub enum Step {
    /// An instruction ran; there is more to run.
    Continue,
    /// The entry procedure returned.
    Finished,
    /// Two operands were popped (`x` deeper); the host pushes the result.
    Float(FloatOp, u64, u64),
    /// One operand was popped; the host pushes the result.
    Convert(Conversion, u64),
    /// A native procedure for the host to carry out.
    Host(HostCall),
    /// Execution failed.
    Fault(RuntimeError),
}

/// An activation: which procedure, where in its code, and where its
/// locals start on the stack.
#[derive(Clone, Copy, Debug, PartialEq, Eq, Structural)]
pub struct Frame {
    pub procedure: usize,
    pub pc: u64,
    pub bottom: usize,
}

/// The identifiers of the input/output native procedures.
pub open spec fn io_native(id: u64) -> bool {
    id <= 5
}

/// The identifiers of the heap native procedures.
pub open spec fn memory_native(id: u64) -> bool {
    0x10 <= id <= 0x13
}

/// The identifier of the string native procedure.
pub open spec fn string_native(id: u64) -> bool {
    id == 0x20
}

/// Which groups of reserved native procedures are registered.
pub struct NativeRegistry {
    io: bool,
    memory: bool,
    strings: bool,
}

impl NativeRegistry {
    pub closed spec fn registered(self, id: u64) -> bool {
        (self.io && io_native(id)) || (self.memory && memory_native(id)) || (self.strings
            && string_native(id))
    }

    /// A registry with nothing in it.
    pub fn new() -> (r: NativeRegistry)
        ensures
            forall|id: u64| !#[trigger] r.registered(id),
    {
        NativeRegistry { io: false, memory: false, strings: false }
    }

    /// Whether the native procedure `id` is registered.
    pub fn contains(&self, id: u64) -> (r: bool)
        ensures
            r == self.registered(id),
    {
        (self.io && id <= 5) || (self.memory && 0x10 <= id && id <= 0x13) || (self.strings && id
            == 0x20)
    }
}

/// Registers the input/output natives: `PutC`, `PutZ`, `PutU`, `GetC`,
/// `GetZ` and `GetU`, identifiers 0 to 5.
pub fn register_natproc_io(native_procedures: &mut NativeRegistry)
    ensures
        forall|id: u64|
            #[trigger] final(native_procedures).registered(id) == (old(
                native_procedures,
            ).registered(id) || io_native(id)),
{
    native_procedures.io = true;
}

/// Registers the heap natives: `Alloc`, `Free`, `Read` and `Write`,
/// identifiers 0x10 to 0x13.
pub fn register_natproc_memory(native_procedures: &mut NativeRegistry)
    ensures
        forall|id: u64|
            #[trigger] final(native_procedures).registered(id) == (old(
                native_procedures,
            ).registered(id) || memory_native(id)),
{
    native_procedures.memory = true;
}

/// Registers the string native `Print`, identifier 0x20.
pub fn register_natproc_strings(native_procedures: &mut NativeRegistry)
    ensures
        forall|id: u64|
            #[trigger] final(native_procedures).registered(id) == (old(
                native_procedures,
            ).registered(id) || string_native(id)),
{
    native_procedures.strings = true;
}

/// The machine as a value.
pub struct MachineModel {
    pub program: Seq<ProcedureModel>,
    pub stack: Seq<u64>,
    pub heap: Seq<Seq<u64>>,
    pub frames: Seq<Frame>,
    /// How many values have been pushed onto the stack so far.
    pub pushed: nat,
    /// How many values have been popped from the stack so far.
    pub popped: nat,
}

impl MachineModel {
    /// Every frame names a procedure of the program, and the stack holds
    /// exactly what was pushed and not popped.
    pub open spec fn wf(self) -> bool {
        &&& forall|i: int|
            0 <= i < self.frames.len() ==> (#[trigger] self.frames[i]).procedure
                < self.program.len()
        &&& self.stack.len() + self.popped == self.pushed
    }

    /// Every length fits in a `usize`, as it does for values held in memory.
    pub open spec fn fits(self) -> bool {
        &&& self.program.len() <= usize::MAX
        &&& forall|i: int|
            0 <= i < self.program.len() ==> (#[trigger] self.program[i]).code.len() <= usize::MAX
        &&& self.stack.len() <= usize::MAX
        &&& self.heap.len() <= usize::MAX
    }

    pub open spec fn push(self, v: u64) -> MachineModel {
        MachineModel { stack: self.stack.push(v), pushed: self.pushed + 1, ..self }
    }

    /// Pops `n` values.
    pub open spec fn pop(self, n: nat) -> MachineModel {
        MachineModel {
            stack: self.stack.take(self.stack.len() - n),
            popped: self.popped + n,
            ..self
        }
    }

    /// The value `k` places below the top of the stack.
    pub open spec fn peek(self, k: int) -> u64 {
        self.stack[self.stack.len() - 1 - k]
    }

    /// The current frame.
    pub open spec fn frame(self) -> Frame {
        self.frames.last()
    }

    pub open spec fn with_pc(self, pc: u64) -> MachineModel {
        MachineModel {
            frames: self.frames.update(self.frames.len() - 1, Frame { pc, ..self.frame() }),
            ..self
        }
    }

    pub open spec fn with_heap(self, heap: Seq<Seq<u64>>) -> MachineModel {
        MachineModel { heap, ..self }
    }

    pub open spec fn fault(self, e: RuntimeError) -> (MachineModel, Step) {
        (self, Step::Fault(e))
    }
}

/// A logical shift left; 0 once every bit is shifted out.
pub open spec fn shift_left(x: u64, y: u64) -> u64 {
    if y < 64 {
        x << y
    } else {
        0
    }
}

/// A logical shift right; 0 once every bit is shifted out.
pub open spec fn shift_right(x: u64, y: u64) -> u64 {
    if y < 64 {
        x >> y
    } else {
        0
    }
}

pub open spec fn flag(b: bool) -> u64 {
    if b {
        1
    } else {
        0
    }
}

/// Signed division truncating toward zero; the one overflowing case,
/// `i64::MIN / -1`, wraps to `i64::MIN`.
pub open spec fn signed_div(x: u64, y: u64) -> u64 {
    match (x as i64).checked_div(y as i64) {
        Some(q) => q as u64,
        None => x,
    }
}

/// The signed remainder, with the sign of the dividend; `i64::MIN % -1` is 0.
pub open spec fn signed_rem(x: u64, y: u64) -> u64 {
    match (x as i64).checked_rem(y as i64) {
        Some(r) => r as u64,
        None => 0,
    }
}

/// The result of an instruction that pops two integers `x` (deeper) and
/// `y` and pushes one; `None` for other instructions.
pub open spec fn integer_binary(instr: Instruction, x: u64, y: u64) -> Option<u64> {
    match instr {
        Instruction::DodajC => Some(x.wrapping_add(y)),
        Instruction::OdejmC => Some(x.wrapping_sub(y)),
        Instruction::MnozC => Some(x.wrapping_mul(y)),
        Instruction::DzielC => Some(signed_div(x, y)),
        Instruction::ResztaC => Some(signed_rem(x, y)),
        Instruction::Rowne => Some(flag(x == y)),
        Instruction::MniejC => Some(flag((x as i64) < (y as i64))),
        Instruction::MNrowC => Some(flag((x as i64) <= (y as i64))),
        Instruction::I => Some(x & y),
        Instruction::Lub => Some(x | y),
        Instruction::XLub => Some(x ^ y),
        Instruction::PrzesunL => Some(shift_left(x, y)),
        Instruction::PrzesunR => Some(shift_right(x, y)),
        _ => None,
    }
}

/// The result of an instruction that pops one integer and pushes one.
pub open spec fn integer_unary(instr: Instruction, x: u64) -> Option<u64> {
    match instr {
        Instruction::NieL => Some(flag(x == 0)),
        Instruction::NieB => Some(!x),
        _ => None,
    }
}

pub open spec fn divides(instr: Instruction) -> bool {
    instr == Instruction::DzielC || instr == Instruction::ResztaC
}

/// The float operation of an instruction, if it has one.
pub open spec fn float_op(instr: Instruction) -> Option<FloatOp> {
    match instr {
        Instruction::DodajZ => Some(FloatOp::Add),
        Instruction::OdejmZ => Some(FloatOp::Sub),
        Instruction::MnozZ => Some(FloatOp::Mul),
        Instruction::DzielZ => Some(FloatOp::Div),
        Instruction::ResztaZ => Some(FloatOp::Rem),
        Instruction::RowneZ => Some(FloatOp::Equal),
        Instruction::MniejZ => Some(FloatOp::Less),
        Instruction::MNrowZ => Some(FloatOp::LessEqual),
        _ => None,
    }
}

/// The conversion of an instruction, if it is one.
pub open spec fn conversion(instr: Instruction) -> Option<Conversion> {
    match instr {
        Instruction::JakoCZ => Some(Conversion::IntToFloat),
        Instruction::JakoZC => Some(Conversion::FloatToInt),
        _ => None,
    }
}

/// The position of the last procedure among the first `n` whose index is `index`.
pub open spec fn find_last(program: Seq<ProcedureModel>, index: u64, n: int) -> Option<int>
    decreases n,
{
    if n <= 0 {
        None
    } else if program[n - 1].index == index {
        Some(n - 1)
    } else {
        find_last(program, index, n - 1)
    }
}

/// The last procedure with a given index among the first `n` is one of them.
pub proof fn lemma_find_last(program: Seq<ProcedureModel>, index: u64, n: int)
    requires
        n <= program.len(),
    ensures
        find_last(program, index, n) matches Some(p) ==> 0 <= p < n && program[p].index == index,
    decreases n,
{
    if n > 0 {
        lemma_find_last(program, index, n - 1);
    }
}

/// The position of the first procedure with index 0 from position `i` on.
pub open spec fn find_entry(program: Seq<ProcedureModel>, i: int) -> Option<int>
    decreases program.len() - i,
{
    if i < 0 || i >= program.len() {
        None
    } else if program[i].index == 0 {
        Some(i)
    } else {
        find_entry(program, i + 1)
    }
}

/// A block of `n` zero cells.
pub open spec fn zeros(n: nat) -> Seq<u64> {
    Seq::new(n, |j: int| 0u64)
}

/// A native procedure that is registered. Arguments are peeked, not popped.
pub open spec fn native(m: MachineModel, id: u64) -> (MachineModel, Step) {
    let len = m.stack.len();
    let needs = if id <= 2 || id == 0x10 || id == 0x11 || id == 0x20 {
        1nat
    } else if id == 0x12 {
        2nat
    } else if id == 0x13 {
        3nat
    } else {
        0nat
    };
    if len < needs {
        m.fault(RuntimeError::StackUnderflow)
    } else if id == 0 {
        (m, Step::Host(HostCall::PutC(m.peek(0))))
    } else if id == 1 {
        (m, Step::Host(HostCall::PutZ(m.peek(0))))
    } else if id == 2 {
        (m, Step::Host(HostCall::PutU(m.peek(0))))
    } else if id == 3 {
        (m, Step::Host(HostCall::GetC))
    } else if id == 4 {
        (m, Step::Host(HostCall::GetZ))
    } else if id == 5 {
        (m, Step::Host(HostCall::GetU))
    } else if id == 0x10 {
        let n = m.peek(0);
        if n > usize::MAX {
            m.fault(RuntimeError::AllocationTooLarge)
        } else {
            (m.with_heap(m.heap.push(zeros(n as nat))).push(m.heap.len() as u64), Step::Continue)
        }
    } else if id == 0x11 {
        let a = m.peek(0);
        if a < m.heap.len() {
            (m.with_heap(m.heap.remove(a as int)), Step::Continue)
        } else {
            m.fault(RuntimeError::HeapOutOfRange)
        }
    } else if id == 0x12 {
        let i = m.peek(0);
        let a = m.peek(1);
        if a < m.heap.len() && i < m.heap[a as int].len() {
            (m.push(m.heap[a as int][i as int]), Step::Continue)
        } else {
            m.fault(RuntimeError::HeapOutOfRange)
        }
    } else if id == 0x13 {
        let v = m.peek(0);
        let i = m.peek(1);
        let a = m.peek(2);
        if a < m.heap.len() && i < m.heap[a as int].len() {
            (
                m.with_heap(m.heap.update(a as int, m.heap[a as int].update(i as int, v))),
                Step::Continue,
            )
        } else {
            m.fault(RuntimeError::HeapOutOfRange)
        }
    } else if id == 0x20 {
        let a = m.peek(0);
        if a < m.heap.len() {
            (m, Step::Host(HostCall::Print(a as usize)))
        } else {
            m.fault(RuntimeError::HeapOutOfRange)
        }
    } else {
        m.fault(RuntimeError::UnknownNative(id))
    }
}

/// Leaves the current activation. Unless the procedure's index is 0, the
/// stack is cut back to the frame's bottom plus one return value: the value
/// on top moves into the frame's first slot and everything above it goes.
pub open spec fn return_from(m: MachineModel) -> (MachineModel, Step) {
    let f = m.frame();
    let keep = f.bottom + 1;
    let m1 = if m.program[f.procedure as int].index != 0 && m.stack.len() > keep {
        let m0 = m.pop((m.stack.len() - keep) as nat);
        MachineModel { stack: m0.stack.update(f.bottom as int, m.peek(0)), ..m0 }
    } else {
        m
    };
    let rest = m.frames.drop_last();
    (
        MachineModel { frames: rest, ..m1 },
        if rest.len() == 0 {
            Step::Finished
        } else {
            Step::Continue
        },
    )
}

/// Calls the procedure with index `index`: the last one with that index.
/// The callee's locals start `parameter_count` values below the top.
pub open spec fn call(m: MachineModel, index: u64) -> (MachineModel, Step) {
    match find_last(m.program, index, m.program.len() as int) {
        None => m.fault(RuntimeError::UnknownProcedure(index)),
        Some(p) => {
            let k = m.program[p].parameter_count;
            if m.program[p].code.len() == 0 {
                (m, Step::Continue)
            } else if k > m.stack.len() {
                m.fault(RuntimeError::StackUnderflow)
            } else {
                (
                    MachineModel {
                        frames: m.frames.push(
                            Frame { procedure: p as usize, pc: 0, bottom: (m.stack.len() - k) as usize },
                        ),
                        ..m
                    },
                    Step::Continue,
                )
            }
        },
    }
}

/// Runs one instruction in the current frame, whose counter has already
/// moved past it.
pub open spec fn execute(m: MachineModel, instr: Instruction, natives: NativeRegistry) -> (
    MachineModel,
    Step,
) {
    let len = m.stack.len();
    let bottom = m.frame().bottom;
    if integer_binary(instr, 0, 0) is Some {
        if len < 2 {
            m.fault(RuntimeError::StackUnderflow)
        } else if divides(instr) && m.peek(0) == 0 {
            m.fault(RuntimeError::DivisionByZero)
        } else {
            (m.pop(2).push(integer_binary(instr, m.peek(1), m.peek(0))->0), Step::Continue)
        }
    } else if integer_unary(instr, 0) is Some {
        if len < 1 {
            m.fault(RuntimeError::StackUnderflow)
        } else {
            (m.pop(1).push(integer_unary(instr, m.peek(0))->0), Step::Continue)
        }
    } else if float_op(instr) is Some {
        if len < 2 {
            m.fault(RuntimeError::StackUnderflow)
        } else {
            (m.pop(2), Step::Float(float_op(instr)->0, m.peek(1), m.peek(0)))
        }
    } else if conversion(instr) is Some {
        if len < 1 {
            m.fault(RuntimeError::StackUnderflow)
        } else {
            (m.pop(1), Step::Convert(conversion(instr)->0, m.peek(0)))
        }
    } else {
        match instr {
            Instruction::Pchnij(v) => (m.push(v), Step::Continue),
            Instruction::Usun => if len < 1 {
                m.fault(RuntimeError::StackUnderflow)
            } else {
                (m.pop(1), Step::Continue)
            },
            Instruction::ZmiennaK(i) => if bottom + i < len {
                (m.push(m.stack[bottom + i]), Step::Continue)
            } else {
                m.fault(RuntimeError::LocalOutOfRange(i))
            },
            Instruction::ZmiennaU(i) => if len < 1 {
                m.fault(RuntimeError::StackUnderflow)
            } else if bottom + i < len - 1 {
                let m1 = m.pop(1);
                (MachineModel { stack: m1.stack.update(bottom + i, m.peek(0)), ..m1 }, Step::Continue)
            } else {
                m.fault(RuntimeError::LocalOutOfRange(i))
            },
            Instruction::IdzDo(a) => (m.with_pc(a), Step::Continue),
            Instruction::IdzDoZe(a) => if len < 1 {
                m.fault(RuntimeError::StackUnderflow)
            } else if m.peek(0) == 0 {
                (m.pop(1).with_pc(a), Step::Continue)
            } else {
                (m.pop(1), Step::Continue)
            },
            Instruction::IdzDoNz(a) => if len < 1 {
                m.fault(RuntimeError::StackUnderflow)
            } else if m.peek(0) != 0 {
                (m.pop(1).with_pc(a), Step::Continue)
            } else {
                (m.pop(1), Step::Continue)
            },
            Instruction::Wywolaj(index) => call(m, index),
            Instruction::Wroc | Instruction::Stop => return_from(m),
            Instruction::Nat(id) => if natives.registered(id) {
                native(m, id)
            } else {
                m.fault(RuntimeError::UnknownNative(id))
            },
            _ => m.fault(RuntimeError::UndecodedInstruction),
        }
    }
}

/// One step: fetch the instruction at the current frame's counter, move
/// the counter past it, and run it.
pub open spec fn step_model(m: MachineModel, natives: NativeRegistry) -> (MachineModel, Step) {
    if m.frames.len() == 0 {
        (m, Step::Finished)
    } else {
        let f = m.frame();
        let code = m.program[f.procedure as int].code;
        if f.pc >= code.len() {
            m.fault(RuntimeError::ProgramCounterOutOfRange)
        } else {
            execute(m.with_pc((f.pc + 1) as u64), code[f.pc as int], natives)
        }
    }
}

/// The number that `GetC` pushes for an already trimmed input line: its
/// decimal value, `None` when it is not a decimal number that fits in 64 bits.
pub fn parse_decimal(s: &str) -> (r: Option<u64>)
    ensures
        r == radix_value(s@, 10),
{
    parse_radix(s, 10)
}

/// The number that `GetC` pushes for an input line: the line without its
/// surrounding whitespace, read in decimal.
pub fn input_number(line: &str) -> (r: Option<u64>)
    ensures
        r == radix_value(trimmed(line@), 10),
{
    parse_decimal(trim(line))
}

/// The value that `GetU` pushes for an input line: the code of its first
/// character, `None` for an empty line.
pub fn input_char(line: &str) -> (r: Option<u64>)
    ensures
        r == (if line@.len() > 0 {
            Some(line@[0] as u64)
        } else {
            None::<u64>
        }),
{
    if line.is_empty() {
        None
    } else {
        Some(line.get_char(0) as u64)
    }
}

/// The value `n` places below the top of the stack.
pub fn peek(stack: &Vec<u64>, n: usize) -> (r: u64)
    requires
        n < stack@.len(),
    ensures
        r == stack@[stack@.len() - 1 - n],
{
    stack[stack.len() - 1 - n]
}

fn integer_binary_of(instr: Instruction, x: u64, y: u64) -> (r: Option<u64>)
    requires
        divides(instr) ==> y != 0,
    ensures
        r == integer_binary(instr, x, y),
        r is Some <==> integer_binary(instr, 0, 0) is Some,
{
    match instr {
        Instruction::DodajC => Some(x.wrapping_add(y)),
        Instruction::OdejmC => Some(x.wrapping_sub(y)),
        Instruction::MnozC => Some(x.wrapping_mul(y)),
        Instruction::DzielC => Some(
            match (x as i64).checked_div(y as i64) {
                Some(q) => q as u64,
                None => x,
            },
        ),
        Instruction::ResztaC => Some(
            match (x as i64).checked_rem(y as i64) {
                Some(q) => q as u64,
                None => 0,
            },
        ),
        Instruction::Rowne => Some(if x == y { 1 } else { 0 }),
        Instruction::MniejC => Some(if (x as i64) < (y as i64) { 1 } else { 0 }),
        Instruction::MNrowC => Some(if (x as i64) <= (y as i64) { 1 } else { 0 }),
        Instruction::I => Some(x & y),
        Instruction::Lub => Some(x | y),
        Instruction::XLub => Some(x ^ y),
        Instruction::PrzesunL => Some(if y < 64 { x << y } else { 0 }),
        Instruction::PrzesunR => Some(if y < 64 { x >> y } else { 0 }),
        _ => None,
    }
}

fn integer_unary_of(instr: Instruction, x: u64) -> (r: Option<u64>)
    ensures
        r == integer_unary(instr, x),
        r is Some <==> integer_unary(instr, 0) is Some,
{
    match instr {
        Instruction::NieL => Some(if x == 0 { 1 } else { 0 }),
        Instruction::NieB => Some(!x),
        _ => None,
    }
}

fn is_division(instr: Instruction) -> (r: bool)
    ensures
        r == divides(instr),
{
    match instr {
        Instruction::DzielC | Instruction::ResztaC => true,
        _ => false,
    }
}

fn float_op_of(instr: Instruction) -> (r: Option<FloatOp>)
    ensures
        r == float_op(instr),
{
    match instr {
        Instruction::DodajZ => Some(FloatOp::Add),
        Instruction::OdejmZ => Some(FloatOp::Sub),
        Instruction::MnozZ => Some(FloatOp::Mul),
        Instruction::DzielZ => Some(FloatOp::Div),
        Instruction::ResztaZ => Some(FloatOp::Rem),
        Instruction::RowneZ => Some(FloatOp::Equal),
        Instruction::MniejZ => Some(FloatOp::Less),
        Instruction::MNrowZ => Some(FloatOp::LessEqual),
        _ => None,
    }
}

fn conversion_of(instr: Instruction) -> (r: Option<Conversion>)
    ensures
        r == conversion(instr),
{
    match instr {
        Instruction::JakoCZ => Some(Conversion::IntToFloat),
        Instruction::JakoZC => Some(Conversion::FloatToInt),
        _ => None,
    }
}

/// The machine's state, without the invariant that [`Machine`] keeps.
struct Core {
    program: VecDeque<Procedure>,
    stack: Vec<u64>,
    heap: Vec<Vec<u64>>,
    frames: Vec<Frame>,
    pushed: Ghost<nat>,
    popped: Ghost<nat>,
}

impl View for Core {
    type V = MachineModel;

    closed spec fn view(&self) -> MachineModel {
        MachineModel {
            program: self.program@.map_values(|p: Procedure| p@),
            stack: self.stack@,
            heap: self.heap@.map_values(|b: Vec<u64>| b@),
            frames: self.frames@,
            pushed: self.pushed@,
            popped: self.popped@,
        }
    }
}

impl Core {
    proof fn lemma_fits(&self)
        ensures
            self@.fits(),
    {
        assert forall|i: int| 0 <= i < self@.program.len() implies (
        #[trigger] self@.program[i]).code.len() <= usize::MAX by {
            let l = self.program@[i].code.len();
        }
        let a = self.program.len();
        let b = self.stack.len();
        let c = self.heap.len();
    }

    fn push(&mut self, v: u64)
        ensures
            final(self)@ == old(self)@.push(v),
    {
        self.stack.push(v);
        self.pushed = Ghost(self.pushed@ + 1);
    }

    fn pop(&mut self, n: usize)
        requires
            n <= old(self)@.stack.len(),
        ensures
            final(self)@ == old(self)@.pop(n as nat),
    {
        let len = self.stack.len();
        self.stack.truncate(len - n);
        self.popped = Ghost(self.popped@ + n as nat);
    }

    fn set_pc(&mut self, pc: u64)
        requires
            old(self)@.frames.len() > 0,
        ensures
            final(self)@ == old(self)@.with_pc(pc),
    {
        let n = self.frames.len();
        self.frames[n - 1].pc = pc;
        assert(self.frames@ =~= old(self)@.with_pc(pc).frames);
    }

    fn native(&mut self, id: u64) -> (r: Step)
        ensures
            (final(self)@, r) == native(old(self)@, id),
    {
        let len = self.stack.len();
        let needs: usize = if id <= 2 || id == 0x10 || id == 0x11 || id == 0x20 {
            1
        } else if id == 0x12 {
            2
        } else if id == 0x13 {
            3
        } else {
            0
        };
        if len < needs {
            return Step::Fault(RuntimeError::StackUnderflow);
        }
        if id == 0 {
            Step::Host(HostCall::PutC(peek(&self.stack, 0)))
        } else if id == 1 {
            Step::Host(HostCall::PutZ(peek(&self.stack, 0)))
        } else if id == 2 {
            Step::Host(HostCall::PutU(peek(&self.stack, 0)))
        } else if id == 3 {
            Step::Host(HostCall::GetC)
        } else if id == 4 {
            Step::Host(HostCall::GetZ)
        } else if id == 5 {
            Step::Host(HostCall::GetU)
        } else if id == 0x10 {
            let n = peek(&self.stack, 0);
            if n > usize::MAX as u64 {
                return Step::Fault(RuntimeError::AllocationTooLarge);
            }
            let mut block: Vec<u64> = Vec::new();
            let mut k: usize = 0;
            while k < n as usize
                invariant
                    k <= n,
                    n <= usize::MAX,
                    block@ == zeros(k as nat),
                decreases n - k,
            {
                block.push(0);
                k = k + 1;
                assert(block@ =~= zeros(k as nat));
            }
            let address = self.heap.len() as u64;
            let ghost heap0 = self.heap@;
            self.heap.push(block);
            assert(self.heap@.map_values(|b: Vec<u64>| b@) =~= heap0.map_values(|b: Vec<u64>| b@).push(
                zeros(n as nat),
            ));
            self.push(address);
            Step::Continue
        } else if id == 0x11 {
            let a = peek(&self.stack, 0);
            if a >= self.heap.len() as u64 {
                return Step::Fault(RuntimeError::HeapOutOfRange);
            }
            let ghost heap0 = self.heap@;
            self.heap.remove(a as usize);
            assert(self.heap@.map_values(|b: Vec<u64>| b@) =~= heap0.map_values(|b: Vec<u64>| b@).remove(
                a as int,
            ));
            Step::Continue
        } else if id == 0x12 {
            let i = peek(&self.stack, 0);
            let a = peek(&self.stack, 1);
            if a >= self.heap.len() as u64 || i >= self.heap[a as usize].len() as u64 {
                return Step::Fault(RuntimeError::HeapOutOfRange);
            }
            let v = self.heap[a as usize][i as usize];
            self.push(v);
            Step::Continue
        } else if id == 0x13 {
            let v = peek(&self.stack, 0);
            let i = peek(&self.stack, 1);
            let a = peek(&self.stack, 2);
            if a >= self.heap.len() as u64 || i >= self.heap[a as usize].len() as u64 {
                return Step::Fault(RuntimeError::HeapOutOfRange);
            }
            let ghost heap0 = self.heap@;
            self.heap[a as usize][i as usize] = v;
            assert(self.heap@.map_values(|b: Vec<u64>| b@) =~= heap0.map_values(|b: Vec<u64>| b@).update(
                a as int,
                heap0[a as int]@.update(i as int, v),
            ));
            Step::Continue
        } else if id == 0x20 {
            let a = peek(&self.stack, 0);
            if a >= self.heap.len() as u64 {
                return Step::Fault(RuntimeError::HeapOutOfRange);
            }
            Step::Host(HostCall::Print(a as usize))
        } else {
            Step::Fault(RuntimeError::UnknownNative(id))
        }
    }

    fn find_procedure(&self, index: u64) -> (r: Option<usize>)
        ensures
            match r {
                Some(p) => find_last(self@.program, index, self@.program.len() as int) == Some(
                    p as int,
                ),
                None => find_last(self@.program, index, self@.program.len() as int) is None,
            },
    {
        let mut n = self.program.len();
        while n > 0
            invariant
                n <= self@.program.len(),
                find_last(self@.program, index, self@.program.len() as int) == find_last(
                    self@.program,
                    index,
                    n as int,
                ),
            decreases n,
        {
            if self.program[n - 1].index == index {
                return Some(n - 1);
            }
            n = n - 1;
        }
        None
    }

    fn call(&mut self, index: u64) -> (r: Step)
        ensures
            (final(self)@, r) == call(old(self)@, index),
    {
        match self.find_procedure(index) {
            None => Step::Fault(RuntimeError::UnknownProcedure(index)),
            Some(p) => {
                proof {
                    lemma_find_last(self@.program, index, self@.program.len() as int);
                }
                let k = self.program[p].parameter_count;
                if self.program[p].code.len() == 0 {
                    return Step::Continue;
                }
                let len = self.stack.len();
                if k > len as u64 {
                    return Step::Fault(RuntimeError::StackUnderflow);
                }
                self.frames.push(Frame { procedure: p, pc: 0, bottom: len - k as usize });
                Step::Continue
            },
        }
    }

    fn return_from(&mut self) -> (r: Step)
        requires
            old(self)@.frames.len() > 0,
            old(self)@.wf(),
        ensures
            (final(self)@, r) == return_from(old(self)@),
    {
        let n = self.frames.len();
        let f = self.frames[n - 1];
        assert(old(self)@.frames[n - 1].procedure < old(self)@.program.len());
        let len = self.stack.len();
        if self.program[f.procedure].index != 0 && len > 0 && len - 1 > f.bottom {
            let top = peek(&self.stack, 0);
            self.pop(len - (f.bottom + 1));
            self.stack.set(f.bottom, top);
        }
        self.frames.pop();
        if self.frames.len() == 0 {
            Step::Finished
        } else {
            Step::Continue
        }
    }

    fn execute(&mut self, instr: Instruction, natives: &NativeRegistry) -> (r: Step)
        requires
            old(self)@.frames.len() > 0,
            old(self)@.wf(),
        ensures
            (final(self)@, r) == execute(old(self)@, instr, *natives),
    {
        let len = self.stack.len();
        let bottom = self.frames[self.frames.len() - 1].bottom;
        if integer_binary_of(instr, 0, 1).is_some() {
            if len < 2 {
                return Step::Fault(RuntimeError::StackUnderflow);
            }
            let y = peek(&self.stack, 0);
            let x = peek(&self.stack, 1);
            if is_division(instr) && y == 0 {
                return Step::Fault(RuntimeError::DivisionByZero);
            }
            let v = integer_binary_of(instr, x, y).unwrap();
            self.pop(2);
            self.push(v);
            return Step::Continue;
        }
        if integer_unary_of(instr, 0).is_some() {
            if len < 1 {
                return Step::Fault(RuntimeError::StackUnderflow);
            }
            let x = peek(&self.stack, 0);
            let v = integer_unary_of(instr, x).unwrap();
            self.pop(1);
            self.push(v);
            return Step::Continue;
        }
        if let Some(op) = float_op_of(instr) {
            if len < 2 {
                return Step::Fault(RuntimeError::StackUnderflow);
            }
            let y = peek(&self.stack, 0);
            let x = peek(&self.stack, 1);
            self.pop(2);
            return Step::Float(op, x, y);
        }
        if let Some(c) = conversion_of(instr) {
            if len < 1 {
                return Step::Fault(RuntimeError::StackUnderflow);
            }
            let x = peek(&self.stack, 0);
            self.pop(1);
            return Step::Convert(c, x);
        }
        match instr {
            Instruction::Pchnij(v) => {
                self.push(v);
                Step::Continue
            },
            Instruction::Usun => {
                if len < 1 {
                    return Step::Fault(RuntimeError::StackUnderflow);
                }
                self.pop(1);
                Step::Continue
            },
            Instruction::ZmiennaK(i) => {
                if bottom >= len || i >= (len - bottom) as u64 {
                    return Step::Fault(RuntimeError::LocalOutOfRange(i));
                }
                let v = self.stack[bottom + i as usize];
                self.push(v);
                Step::Continue
            },
            Instruction::ZmiennaU(i) => {
                if len < 1 {
                    return Step::Fault(RuntimeError::StackUnderflow);
                }
                if bottom >= len - 1 || i >= (len - 1 - bottom) as u64 {
                    return Step::Fault(RuntimeError::LocalOutOfRange(i));
                }
                let x = peek(&self.stack, 0);
                self.pop(1);
                self.stack.set(bottom + i as usize, x);
                Step::Continue
            },
            Instruction::IdzDo(a) => {
                self.set_pc(a);
                Step::Continue
            },
            Instruction::IdzDoZe(a) => {
                if len < 1 {
                    return Step::Fault(RuntimeError::StackUnderflow);
                }
                let x = peek(&self.stack, 0);
                self.pop(1);
                if x == 0 {
                    self.set_pc(a);
                }
                Step::Continue
            },
            Instruction::IdzDoNz(a) => {
                if len < 1 {
                    return Step::Fault(RuntimeError::StackUnderflow);
                }
                let x = peek(&self.stack, 0);
                self.pop(1);
                if x != 0 {
                    self.set_pc(a);
                }
                Step::Continue
            },
            Instruction::Wywolaj(index) => self.call(index),
            Instruction::Wroc | Instruction::Stop => self.return_from(),
            Instruction::Nat(id) => {
                if natives.contains(id) {
                    self.native(id)
                } else {
                    Step::Fault(RuntimeError::UnknownNative(id))
                }
            },
            _ => Step::Fault(RuntimeError::UndecodedInstruction),
        }
    }

    fn step(&mut self, natives: &NativeRegistry) -> (r: Step)
        requires
            old(self)@.wf(),
        ensures
            (final(self)@, r) == step_model(old(self)@, *natives),
            final(self)@.wf(),
    {
        proof {
            lemma_step_balance(self@, *natives);
        }
        let n = self.frames.len();
        if n == 0 {
            return Step::Finished;
        }
        let f = self.frames[n - 1];
        assert(self@.frames[n - 1].procedure < self@.program.len());
        let code_len = self.program[f.procedure].code.len();
        if f.pc >= code_len as u64 {
            return Step::Fault(RuntimeError::ProgramCounterOutOfRange);
        }
        let instr = self.program[f.procedure].code[f.pc as usize];
        self.set_pc(f.pc + 1);
        self.execute(instr, natives)
    }
}

/// Each step keeps the machine well formed: every frame names a procedure
/// of the program, and the depth of the stack stays equal to the number of
/// values pushed (literals, copies, results, natives, the host) less the
/// number popped (by instructions, natives and the cleanup on return).
pub proof fn lemma_step_balance(m: MachineModel, natives: NativeRegistry)
    requires
        m.wf(),
    ensures
        step_model(m, natives).0.wf(),
        step_model(m, natives).0.stack.len() == step_model(m, natives).0.pushed - step_model(
            m,
            natives,
        ).0.popped,
{
    if m.frames.len() > 0 {
        let f = m.frame();
        assert(m.frames[m.frames.len() - 1].procedure < m.program.len());
        let code = m.program[f.procedure as int].code;
        if f.pc < code.len() {
            let m1 = m.with_pc((f.pc + 1) as u64);
            assert(m1.wf()) by {
                assert forall|i: int| 0 <= i < m1.frames.len() implies (#[trigger] m1.frames[i]).procedure
                    < m1.program.len() by {
                    assert(m.frames[i].procedure < m.program.len());
                }
            }
            match code[f.pc as int] {
                Instruction::Wywolaj(index) => {
                    lemma_find_last(m1.program, index, m1.program.len() as int);
                    let (m2, _) = call(m1, index);
                    assert forall|i: int| 0 <= i < m2.frames.len() implies (#[trigger] m2.frames[i]).procedure
                        < m2.program.len() by {
                        if i < m1.frames.len() {
                            assert(m1.frames[i].procedure < m1.program.len());
                        }
                    }
                },
                Instruction::Wroc | Instruction::Stop => {
                    let (m2, _) = return_from(m1);
                    assert forall|i: int| 0 <= i < m2.frames.len() implies (#[trigger] m2.frames[i]).procedure
                        < m2.program.len() by {
                        assert(m1.frames[i].procedure < m1.program.len());
                    }
                },
                _ => {},
            }
        }
    }
}

/// The interpreter: a program and the state of its execution.
pub struct Machine {
    core: Core,
}

impl View for Machine {
    type V = MachineModel;

    closed spec fn view(&self) -> MachineModel {
        self.core@
    }
}

/// The initial state for a program whose entry procedure stands at `entry`.
pub open spec fn initial_machine(program: Seq<ProcedureModel>, entry: int) -> MachineModel {
    MachineModel {
        program,
        stack: seq![],
        heap: seq![],
        frames: seq![Frame { procedure: entry as usize, pc: 0, bottom: 0 }],
        pushed: 0,
        popped: 0,
    }
}

impl Machine {
    #[verifier::type_invariant]
    spec fn inv(&self) -> bool {
        self.core@.wf()
    }

    /// Prepares to run the first procedure with index 0, on an empty stack
    /// and an empty heap.
    pub fn start(procedures: VecDeque<Procedure>) -> (r: Result<Machine, RuntimeError>)
        ensures
            match find_entry(procedures@.map_values(|p: Procedure| p@), 0) {
                None => r == Err::<Machine, RuntimeError>(RuntimeError::NoEntryProcedure),
                Some(e) => r matches Ok(m) && m@ == initial_machine(
                    procedures@.map_values(|p: Procedure| p@),
                    e,
                ) && m@.fits(),
            },
    {
        let ghost program = procedures@.map_values(|p: Procedure| p@);
        let n = procedures.len();
        let mut i: usize = 0;
        while i < n
            invariant
                n == program.len(),
                i <= n,
                program == procedures@.map_values(|p: Procedure| p@),
                find_entry(program, 0) == find_entry(program, i as int),
            decreases n - i,
        {
            if procedures[i].index == 0 {
                let core = Core {
                    program: procedures,
                    stack: Vec::new(),
                    heap: Vec::new(),
                    frames: vec![Frame { procedure: i, pc: 0, bottom: 0 }],
                    pushed: Ghost(0),
                    popped: Ghost(0),
                };
                assert(core@.heap =~= Seq::<Seq<u64>>::empty());
                assert(core@.stack =~= Seq::<u64>::empty());
                assert(core@.frames =~= seq![Frame { procedure: i, pc: 0, bottom: 0 }]);
                assert(core@ == initial_machine(program, i as int));
                proof {
                    core.lemma_fits();
                }
                return Ok(Machine { core });
            }
            i = i + 1;
        }
        Err(RuntimeError::NoEntryProcedure)
    }

    /// Runs one step; see [`step_model`]. The machine stays well formed, so
    /// its stack holds exactly the values pushed and not yet popped.
    pub fn step(&mut self, natives: &NativeRegistry) -> (r: Step)
        ensures
            (final(self)@, r) == step_model(old(self)@, *natives),
            old(self)@.wf(),
            old(self)@.fits(),
            final(self)@.wf(),
            final(self)@.fits(),
            final(self)@.stack.len() == final(self)@.pushed - final(self)@.popped,
    {
        proof {
            use_type_invariant(&*self);
            self.core.lemma_fits();
        }
        let mut core = Core {
            program: VecDeque::new(),
            stack: Vec::new(),
            heap: Vec::new(),
            frames: Vec::new(),
            pushed: Ghost(0),
            popped: Ghost(0),
        };
        std::mem::swap(&mut core, &mut self.core);
        let r = core.step(natives);
        self.core = core;
        proof {
            self.core.lemma_fits();
        }
        r
    }

    /// Pushes a value that the host computed or read.
    pub fn push(&mut self, v: u64)
        ensures
            final(self)@ == old(self)@.push(v),
            final(self)@.wf(),
            final(self)@.fits(),
    {
        proof {
            use_type_invariant(&*self);
        }
        let mut core = Core {
            program: VecDeque::new(),
            stack: Vec::new(),
            heap: Vec::new(),
            frames: Vec::new(),
            pushed: Ghost(0),
            popped: Ghost(0),
        };
        std::mem::swap(&mut core, &mut self.core);
        core.push(v);
        self.core = core;
        proof {
            self.core.lemma_fits();
        }
    }

    /// The value stack, bottom first.
    pub fn stack(&self) -> (r: &Vec<u64>)
        ensures
            r@ == self@.stack,
    {
        &self.core.stack
    }

    /// The heap blocks, by address.
    pub fn heap(&self) -> (r: &Vec<Vec<u64>>)
        ensures
            r@.map_values(|b: Vec<u64>| b@) == self@.heap,
    {
        &self.core.heap
    }

    /// The text that `Print` shows for the block at `address`: see [`text_bytes`].
    pub fn text_at(&self, address: usize) -> (r: Vec<u8>)
        requires
            address < self@.heap.len(),
        ensures
            r@ == text_of(self@.heap[address as int]),
    {
        text_bytes(&self.core.heap[address])
    }
}

/// Byte `k` of a cell, 0 being the least significant.
pub open spec fn cell_byte(x: u64, k: u64) -> u8 {
    ((x >> (8 * k)) & 0xff) as u8
}

/// The cells of a block as bytes, each cell little-endian.
pub open spec fn block_bytes(block: Seq<u64>) -> Seq<u8> {
    Seq::new(block.len() * 8, |j: int| cell_byte(block[j / 8], (j % 8) as u64))
}

/// Whether `t` is the bytes of the block up to, not including, the first NUL.
pub open spec fn is_text_of(block: Seq<u64>, t: Seq<u8>) -> bool {
    let b = block_bytes(block);
    &&& t.len() <= b.len()
    &&& t == b.take(t.len() as int)
    &&& forall|j: int| 0 <= j < t.len() ==> t[j] != 0
    &&& t.len() == b.len() || b[t.len() as int] == 0
}

/// The bytes of the block up to the first NUL.
pub open spec fn text_of(block: Seq<u64>) -> Seq<u8> {
    choose|t: Seq<u8>| is_text_of(block, t)
}

proof fn lemma_text_unique(block: Seq<u64>, t: Seq<u8>)
    requires
        is_text_of(block, t),
    ensures
        text_of(block) == t,
{
    let b = block_bytes(block);
    let u = text_of(block);
    assert(is_text_of(block, u));
    if u.len() < t.len() {
        assert(t[u.len() as int] == b[u.len() as int]);
    } else if t.len() < u.len() {
        assert(u[t.len() as int] == b[t.len() as int]);
    }
    assert(u =~= t);
}

/// The bytes that `Print` decodes as UTF-8: the block's cells, each as eight
/// little-endian bytes, up to the first NUL.
pub fn text_bytes(block: &Vec<u64>) -> (r: Vec<u8>)
    ensures
        r@ == text_of(block@),
{
    let ghost b = block_bytes(block@);
    let mut out: Vec<u8> = Vec::new();
    let n = block.len();
    let mut c: usize = 0;
    while c < n
        invariant
            n == block@.len(),
            c <= n,
            out@ == b.take(c * 8),
            b == block_bytes(block@),
            forall|j: int| 0 <= j < out@.len() ==> out@[j] != 0,
        decreases n - c,
    {
        let x = block[c];
        let mut k: u64 = 0;
        while k < 8
            invariant
                c < n,
                n == block@.len(),
                x == block@[c as int],
                k <= 8,
                out@ == b.take(c * 8 + k),
                b == block_bytes(block@),
                forall|j: int| 0 <= j < out@.len() ==> out@[j] != 0,
            decreases 8 - k,
        {
            let byte = ((x >> (8 * k)) & 0xff) as u8;
            assert(b[c * 8 + k] == byte) by {
                assert((c * 8 + k) / 8 == c) by (nonlinear_arith)
                    requires
                        k < 8,
                ;
                assert((c * 8 + k) % 8 == k) by (nonlinear_arith)
                    requires
                        k < 8,
                ;
            }
            if byte == 0 {
                proof {
                    lemma_text_unique(block@, out@);
                }
                return out;
            }
            out.push(byte);
            assert(out@ =~= b.take(c * 8 + k + 1));
            k = k + 1;
        }
        c = c + 1;
    }
    assert(out@ =~= b);
    proof {
        lemma_text_unique(block@, out@);
    }
    out
}

} // verus!
