use libkrem::machine::{
    input_char, input_number, parse_decimal, peek, register_natproc_io, register_natproc_memory, register_natproc_strings, text_bytes,
    Conversion, FloatOp, HostCall, Machine, NativeRegistry, RuntimeError, Step,
};
use libkrem::parse::{read_from_string, Instruction, Procedure};
use std::collections::VecDeque;

fn all_natives() -> NativeRegistry {
    let mut r = NativeRegistry::new();
    register_natproc_io(&mut r);
    register_natproc_memory(&mut r);
    register_natproc_strings(&mut r);
    r
}

struct Outcome {
    out: String,
    stack: Vec<u64>,
    heap: Vec<Vec<u64>>,
}

fn drive(mut m: Machine, natives: &NativeRegistry, input: &[&str]) -> Result<Outcome, RuntimeError> {
    let mut out = String::new();
    let mut lines = input.iter();
    for _ in 0..100_000 {
        match m.step(natives) {
            Step::Continue => {}
            Step::Finished => {
                return Ok(Outcome { out, stack: m.stack().clone(), heap: m.heap().clone() });
            }
            Step::Float(op, x, y) => {
                let (a, b) = (f64::from_bits(x), f64::from_bits(y));
                let r = match op {
                    FloatOp::Add => (a + b).to_bits(),
                    FloatOp::Sub => (a - b).to_bits(),
                    FloatOp::Mul => (a * b).to_bits(),
                    FloatOp::Div => (a / b).to_bits(),
                    FloatOp::Rem => (a % b).to_bits(),
                    FloatOp::Equal => (a == b) as u64,
                    FloatOp::Less => (a < b) as u64,
                    FloatOp::LessEqual => (a <= b) as u64,
                };
                m.push(r);
            }
            Step::Convert(c, x) => {
                let r = match c {
                    Conversion::IntToFloat => (x as i64 as f64).to_bits(),
                    Conversion::FloatToInt => f64::from_bits(x).floor() as u64,
                };
                m.push(r);
            }
            Step::Host(h) => match h {
                HostCall::PutC(v) => out.push_str(&v.to_string()),
                HostCall::PutZ(v) => out.push_str(&f64::from_bits(v).to_string()),
                HostCall::PutU(v) => out.push(char::from_u32(v as u32).unwrap()),
                HostCall::GetC => m.push(input_number(lines.next().unwrap()).unwrap()),
                HostCall::GetZ => m.push(lines.next().unwrap().trim().parse::<f64>().unwrap().to_bits()),
                HostCall::GetU => m.push(input_char(lines.next().unwrap()).unwrap()),
                HostCall::Print(a) => out.push_str(std::str::from_utf8(&m.text_at(a)).unwrap()),
            },
            Step::Fault(e) => return Err(e),
        }
    }
    panic!("program did not finish");
}

fn run_with(src: &str, input: &[&str]) -> Result<Outcome, RuntimeError> {
    let file = read_from_string(src);
    assert!(file.errors.is_empty(), "{:?}", file.errors);
    let m = Machine::start(file.procedures)?;
    drive(m, &all_natives(), input)
}

fn run(src: &str) -> Result<Outcome, RuntimeError> {
    run_with(src, &[])
}

fn main_of(body: &str) -> String {
    format!("@CVMA 1\n@Procedura 0 \"main\" 0\n{}\nWRÓĆ\n", body)
}

#[test]
fn arithmetic_prints_sum() {
    let r = run(&main_of("PCHNIJ 2\nPCHNIJ 3\nDODAJ.C\nNAT 0\nUSUŃ\nSTOP")).unwrap();
    assert_eq!(r.out, "5");
    assert!(r.stack.is_empty());
}

#[test]
fn conditional_jump_skips_print() {
    let r = run(&main_of("PCHNIJ 0\nIDŹDO.ZE 5\nPCHNIJ 1\nNAT 0\nUSUŃ")).unwrap();
    assert_eq!(r.out, "");
    assert!(r.stack.is_empty());
}

#[test]
fn conditional_jump_falls_through() {
    let r = run(&main_of("PCHNIJ 1\nIDŹDO.ZE 5\nPCHNIJ 1\nNAT 0\nUSUŃ")).unwrap();
    assert_eq!(r.out, "1");
    let r = run(&main_of("PCHNIJ 1\nIDŹDO.NZ 5\nPCHNIJ 1\nNAT 0\nUSUŃ")).unwrap();
    assert_eq!(r.out, "");
}

#[test]
fn call_returns_callee_result() {
    let src = "@Procedura 1 \"add\" 2\nZMIENNA.K 0\nZMIENNA.K 1\nDODAJ.C\nWRÓĆ\n\
               @Procedura 0 \"main\" 0\nPCHNIJ 7\nPCHNIJ 8\nWYWOŁAJ 1\nNAT 0\nUSUŃ\nWRÓĆ\n";
    let r = run(src).unwrap();
    assert_eq!(r.out, "15");
    assert!(r.stack.is_empty());
}

#[test]
fn return_value_replaces_the_window() {
    let src = "@Procedura 1 \"p\" 1\nPCHNIJ 4\nPCHNIJ 5\nWRÓĆ\n\
               @Procedura 0 \"m\" 0\nPCHNIJ 9\nPCHNIJ 3\nWYWOŁAJ 1\nWRÓĆ\n";
    let r = run(src).unwrap();
    assert_eq!(r.stack, vec![9, 5]);
}

#[test]
fn heap_round_trip() {
    let body = "PCHNIJ 4\nNAT 10\nUSUŃ\nUSUŃ\nPCHNIJ 0\nPCHNIJ 2\nPCHNIJ d42\nNAT 13\nUSUŃ\nUSUŃ\nUSUŃ\n\
                PCHNIJ 0\nPCHNIJ 2\nNAT 12\nNAT 0";
    let r = run(&main_of(body)).unwrap();
    assert_eq!(r.out, "42");
    assert_eq!(r.heap, vec![vec![0, 0, 42, 0]]);
}

#[test]
fn hex_is_the_default_for_push() {
    let body = "PCHNIJ 4\nNAT 10\nUSUŃ\nUSUŃ\nPCHNIJ 0\nPCHNIJ 2\nPCHNIJ 42\nNAT 13\nUSUŃ\nUSUŃ\nUSUŃ\n\
                PCHNIJ 0\nPCHNIJ 2\nNAT 12\nNAT 0";
    let r = run(&main_of(body)).unwrap();
    assert_eq!(r.out, "66");
}

#[test]
fn missing_entry_procedure() {
    let file = read_from_string("@Procedura x1 \"p\" 0\nWRÓĆ\n");
    assert!(file.errors.is_empty());
    assert_eq!(Machine::start(file.procedures).err(), Some(RuntimeError::NoEntryProcedure));
}

#[test]
fn only_the_first_entry_runs() {
    let src = "@Procedura 0 \"a\" 0\nPCHNIJ 1\nNAT 0\nWRÓĆ\n@Procedura 0 \"b\" 0\nPCHNIJ 2\nNAT 0\nWRÓĆ\n";
    assert_eq!(run(src).unwrap().out, "1");
}

#[test]
fn call_picks_last_procedure_with_index() {
    let src = "@Procedura 1 \"a\" 0\nPCHNIJ 1\nNAT 0\nWRÓĆ\n@Procedura 1 \"b\" 0\nPCHNIJ 2\nNAT 0\nWRÓĆ\n\
               @Procedura 0 \"m\" 0\nWYWOŁAJ 1\nWRÓĆ\n";
    assert_eq!(run(src).unwrap().out, "2");
}

#[test]
fn stack_depth_counts_pushes_and_pops() {
    let body = "NAT 3\nPCHNIJ 1\nPCHNIJ 2\nPCHNIJ 3\nDODAJ.C\nNIE.L\nPCHNIJ 4\nUSUŃ\nZMIENNA.K 0";
    let r = run_with(&main_of(body), &["9"]).unwrap();
    // pushes: 1 input + 3 literals + 1 sum + 1 negation + 1 literal + 1 copy = 8
    // pops: 2 by the sum + 1 by the negation + 1 removal = 4
    assert_eq!(r.stack.len(), 8 - 4);
    assert_eq!(r.stack, vec![9, 1, 0, 9]);
}

#[test]
fn alloc_then_read_is_zero() {
    for n in 1..6u64 {
        for i in 0..n {
            let body = format!("PCHNIJ {:x}\nNAT 10\nPCHNIJ {:x}\nNAT 12", n, i);
            let r = run(&main_of(&body)).unwrap();
            assert_eq!(r.stack, vec![n, 0, i, 0]);
            assert_eq!(r.heap, vec![vec![0; n as usize]]);
        }
    }
}

#[test]
fn float_conversion_round_trip_is_lossy() {
    let r = run(&main_of("PCHNIJ 5\nJAKO.CZ\nJAKO.ZC")).unwrap();
    assert_eq!(r.stack, vec![5]);
    let r = run(&main_of("PCHNIJ 20000000000001\nJAKO.CZ\nJAKO.ZC")).unwrap();
    assert_ne!(r.stack, vec![0x20000000000001]);
    assert_eq!(r.stack, vec![0x20000000000000]);
    let r = run(&main_of("PCHNIJ ffffffffffffffff\nJAKO.CZ\nJAKO.ZC")).unwrap();
    assert_eq!(r.stack, vec![0]);
}

#[test]
fn signed_less_equal() {
    let cases: [(i64, i64, u64); 5] = [(1, 2, 1), (2, 2, 1), (3, 2, 0), (-1, 1, 1), (1, -1, 0)];
    for (x, y, want) in cases.iter() {
        let body = format!("PCHNIJ {:x}\nPCHNIJ {:x}\nMNRÓW.C", *x as u64, *y as u64);
        let r = run(&main_of(&body)).unwrap();
        assert_eq!(r.stack, vec![*want], "{} <= {}", x, y);
    }
}

#[test]
fn callee_sees_parameters_in_order() {
    let src = "@Procedura 2 \"p\" 3\nZMIENNA.K 0\nZMIENNA.K 1\nZMIENNA.K 2\nNAT 0\nUSUŃ\nNAT 0\nUSUŃ\nNAT 0\nUSUŃ\nWRÓĆ\n\
               @Procedura 0 \"m\" 0\nPCHNIJ 9\nPCHNIJ 1\nPCHNIJ 2\nPCHNIJ 3\nWYWOŁAJ 2\nWRÓĆ\n";
    let r = run(src).unwrap();
    assert_eq!(r.out, "321");
    assert_eq!(r.stack, vec![9, 3]);
}

#[test]
fn integer_arithmetic() {
    let check = |body: &str, want: u64| {
        let r = run(&main_of(body)).unwrap();
        assert_eq!(r.stack, vec![want], "{}", body);
    };
    check("PCHNIJ 7\nPCHNIJ 9\nODEJM.C", (-2i64) as u64);
    check("PCHNIJ 7\nPCHNIJ 9\nMNÓŻ.C", 63);
    check("PCHNIJ fffffffffffffff9\nPCHNIJ 2\nDZIEL.C", (-3i64) as u64);
    check("PCHNIJ fffffffffffffff9\nPCHNIJ 2\nRESZTA.C", (-1i64) as u64);
    check("PCHNIJ 8000000000000000\nPCHNIJ ffffffffffffffff\nDZIEL.C", 0x8000000000000000);
    check("PCHNIJ 8000000000000000\nPCHNIJ ffffffffffffffff\nRESZTA.C", 0);
    check("PCHNIJ ffffffffffffffff\nPCHNIJ 1\nDODAJ.C", 0);
    check("PCHNIJ 5\nPCHNIJ 5\nRÓWNE", 1);
    check("PCHNIJ 5\nPCHNIJ 6\nRÓWNE", 0);
    check("PCHNIJ ffffffffffffffff\nPCHNIJ 0\nMNIEJ.C", 1);
    check("PCHNIJ 0\nNIE.L", 1);
    check("PCHNIJ 3\nNIE.L", 0);
    check("PCHNIJ 0\nNIE.B", u64::MAX);
    check("PCHNIJ c\nPCHNIJ a\nI", 8);
    check("PCHNIJ c\nPCHNIJ a\nLUB", 14);
    check("PCHNIJ c\nPCHNIJ a\nXLUB", 6);
    check("PCHNIJ 1\nPCHNIJ 4\nPRZESUŃ.L", 16);
    check("PCHNIJ 10\nPCHNIJ 4\nPRZESUŃ.R", 1);
    check("PCHNIJ 1\nPCHNIJ 40\nPRZESUŃ.L", 0);
    check("PCHNIJ 8\nPCHNIJ 2\nZMIENNA.U 0\nUSUŃ\nPCHNIJ 2", 2);
}

#[test]
fn float_arithmetic_goes_to_host() {
    let two = 2.0f64.to_bits();
    let three = 3.0f64.to_bits();
    let body = format!("PCHNIJ {:x}\nPCHNIJ {:x}\nDODAJ.Z", two, three);
    let r = run(&main_of(&body)).unwrap();
    assert_eq!(r.stack, vec![5.0f64.to_bits()]);
    let body = format!("PCHNIJ {:x}\nPCHNIJ {:x}\nMNIEJ.Z", three, two);
    assert_eq!(run(&main_of(&body)).unwrap().stack, vec![0]);
    let neg = (-1.0f64).to_bits();
    let body = format!("PCHNIJ {:x}\nPCHNIJ {:x}\nMNIEJ.Z", neg, two);
    assert_eq!(run(&main_of(&body)).unwrap().stack, vec![1]);
}

#[test]
fn step_hands_float_operands() {
    let file = read_from_string(&main_of("PCHNIJ 7\nPCHNIJ 9\nDZIEL.Z"));
    let mut m = Machine::start(file.procedures).unwrap();
    let natives = all_natives();
    assert_eq!(m.step(&natives), Step::Continue);
    assert_eq!(m.step(&natives), Step::Continue);
    assert_eq!(m.step(&natives), Step::Float(FloatOp::Div, 7, 9));
    assert!(m.stack().is_empty());
}

#[test]
fn io_natives() {
    let r = run_with(&main_of("NAT 3\nNAT 0\nNAT 5\nNAT 2"), &["12", "xyz"]).unwrap();
    assert_eq!(r.out, "12x");
    assert_eq!(r.stack, vec![12, 'x' as u64]);
    let r = run_with(&main_of("NAT 4\nNAT 1"), &["2.5"]).unwrap();
    assert_eq!(r.out, "2.5");
}

#[test]
fn print_native_stops_at_nul() {
    let word = u64::from_le_bytes(*b"hello, w");
    let tail = u64::from_le_bytes(*b"orld\0zzz");
    let body = format!(
        "PCHNIJ 3\nNAT 10\nUSUŃ\nUSUŃ\nPCHNIJ 0\nPCHNIJ 0\nPCHNIJ {:x}\nNAT 13\nUSUŃ\nUSUŃ\nPCHNIJ 1\nPCHNIJ {:x}\nNAT 13\nUSUŃ\nUSUŃ\nNAT 20",
        word, tail
    );
    let r = run(&main_of(&body)).unwrap();
    assert_eq!(r.out, "hello, world");
}

#[test]
fn text_bytes_are_little_endian() {
    assert_eq!(text_bytes(&vec![0x6968]), b"hi".to_vec());
    assert_eq!(text_bytes(&vec![]), Vec::<u8>::new());
    assert_eq!(text_bytes(&vec![0x4847464544434241, 0x49]), b"ABCDEFGHI".to_vec());
}

#[test]
fn free_shifts_later_blocks() {
    let body = "PCHNIJ 1\nNAT 10\nUSUŃ\nPCHNIJ 2\nNAT 10\nUSUŃ\nUSUŃ\nPCHNIJ 0\nNAT 11";
    let r = run(&main_of(body)).unwrap();
    assert_eq!(r.heap, vec![vec![0, 0]]);
}

#[test]
fn peek_reads_below_top() {
    let s = vec![1, 2, 3];
    assert_eq!(peek(&s, 0), 3);
    assert_eq!(peek(&s, 2), 1);
}

#[test]
fn runtime_errors() {
    let e = |body: &str| run(&main_of(body)).err();
    assert_eq!(e("WYWOŁAJ 7"), Some(RuntimeError::UnknownProcedure(7)));
    assert_eq!(e("NAT 7"), Some(RuntimeError::UnknownNative(7)));
    assert_eq!(e("USUŃ"), Some(RuntimeError::StackUnderflow));
    assert_eq!(e("PCHNIJ 1\nDODAJ.C"), Some(RuntimeError::StackUnderflow));
    assert_eq!(e("NAT 0"), Some(RuntimeError::StackUnderflow));
    assert_eq!(e("ZMIENNA.K 0"), Some(RuntimeError::LocalOutOfRange(0)));
    assert_eq!(e("PCHNIJ 1\nZMIENNA.U 0"), Some(RuntimeError::LocalOutOfRange(0)));
    assert_eq!(e("PCHNIJ 0\nNAT 12"), Some(RuntimeError::StackUnderflow));
    assert_eq!(e("PCHNIJ 0\nPCHNIJ 0\nNAT 12"), Some(RuntimeError::HeapOutOfRange));
    assert_eq!(e("PCHNIJ 0\nNAT 11"), Some(RuntimeError::HeapOutOfRange));
    assert_eq!(e("PCHNIJ 0\nNAT 20"), Some(RuntimeError::HeapOutOfRange));
    assert_eq!(e("PCHNIJ 1\nNAT 10\nPCHNIJ 1\nNAT 12"), Some(RuntimeError::HeapOutOfRange));
    assert_eq!(e("IDŹDO 100"), Some(RuntimeError::ProgramCounterOutOfRange));
    assert_eq!(e("PCHNIJ 1\nPCHNIJ 0\nDZIEL.C"), Some(RuntimeError::DivisionByZero));
    assert_eq!(e("PCHNIJ 1\nPCHNIJ 0\nRESZTA.C"), Some(RuntimeError::DivisionByZero));
}

#[test]
fn call_with_too_few_values() {
    let src = "@Procedura 1 \"p\" 2\nWRÓĆ\n@Procedura 0 \"m\" 0\nPCHNIJ 1\nWYWOŁAJ 1\nWRÓĆ\n";
    assert_eq!(run(src).err(), Some(RuntimeError::StackUnderflow));
}

#[test]
fn undecoded_instruction_faults() {
    let mut code = VecDeque::new();
    code.push_back(Instruction::BrakOperacji);
    let mut procs = VecDeque::new();
    procs.push_back(Procedure { index: 0, name: "m".to_string(), parameter_count: 0, code });
    let m = Machine::start(procs).unwrap();
    assert_eq!(drive(m, &all_natives(), &[]).err(), Some(RuntimeError::UndecodedInstruction));
}

#[test]
fn unregistered_groups_fault() {
    let file = read_from_string(&main_of("PCHNIJ 1\nNAT 10"));
    let m = Machine::start(file.procedures).unwrap();
    let mut natives = NativeRegistry::new();
    register_natproc_io(&mut natives);
    assert_eq!(drive(m, &natives, &[]).err(), Some(RuntimeError::UnknownNative(0x10)));
    assert!(natives.contains(0) && natives.contains(5) && !natives.contains(6));
    assert!(!natives.contains(0x10) && !natives.contains(0x20));
}

#[test]
fn entry_procedure_keeps_its_stack() {
    let r = run(&main_of("PCHNIJ 1\nPCHNIJ 2\nPCHNIJ 3")).unwrap();
    assert_eq!(r.stack, vec![1, 2, 3]);
}

#[test]
fn stop_in_callee_returns_to_caller() {
    let src = "@Procedura 1 \"p\" 0\nPCHNIJ 4\nPCHNIJ 5\nSTOP\nPCHNIJ 6\nWRÓĆ\n\
               @Procedura 0 \"m\" 0\nPCHNIJ 1\nWYWOŁAJ 1\nPCHNIJ 2\nWRÓĆ\n";
    let r = run(src).unwrap();
    assert_eq!(r.stack, vec![1, 5, 2]);
}

#[test]
fn input_lines() {
    assert_eq!(input_number(" 42\n"), Some(42));
    assert_eq!(input_number("\t7 "), Some(7));
    assert_eq!(input_number("\u{3000}12\u{a0}\u{2003}"), Some(12));
    assert_eq!(input_number("1 2"), None);
    assert_eq!(input_number("x"), None);
    assert_eq!(input_number(""), None);
    assert_eq!(input_number("18446744073709551616"), None);
    assert_eq!(parse_decimal("18446744073709551615"), Some(u64::MAX));
    assert_eq!(parse_decimal(" 1"), None);
    assert_eq!(input_char("żaba\n"), Some('ż' as u64));
    assert_eq!(input_char(""), None);
}

#[test]
fn call_window_after_loads() {
    let src = "@Procedura 4 \"p\" 2\nZMIENNA.K 0\nZMIENNA.K 1\nSTOP\nWRÓĆ\n\
               @Procedura 0 \"m\" 0\nPCHNIJ 5\nPCHNIJ 6\nPCHNIJ 7\nWYWOŁAJ 4\nWRÓĆ\n";
    let file = read_from_string(src);
    let mut m = Machine::start(file.procedures).unwrap();
    let natives = all_natives();
    for _ in 0..6 {
        assert_eq!(m.step(&natives), Step::Continue);
    }
    assert_eq!(m.stack(), &vec![5, 6, 7, 6, 7]);
}
