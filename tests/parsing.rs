use libkrem::error::{Info, Position};
use libkrem::error_print::{generate_spaces, get_count_of_digits};
use libkrem::parse::{
    get_directive_from_strings, get_instruction_from_strings, get_number_from_string,
    procedure_from_fields, read_from_string, Directive, Instruction, ParseErrorKind, Scanner,
};
use std::collections::VecDeque;

fn kinds(src: &str) -> Vec<ParseErrorKind> {
    read_from_string(src).errors.iter().map(|e| e.kind).collect()
}

#[test]
fn parses_one_procedure() {
    let f = read_from_string("@CVMA 2\n@Procedura 0 \"main\" 0\nPCHNIJ 2\nPCHNIJ 3\nDODAJ.C\nNAT 0\nUSUŃ\nSTOP\nWRÓĆ\n");
    assert!(f.errors.is_empty());
    assert_eq!(f.language_version, 2);
    assert_eq!(f.procedures.len(), 1);
    let p = &f.procedures[0];
    assert_eq!(p.index, 0);
    assert_eq!(p.name, "main");
    assert_eq!(p.parameter_count, 0);
    let code: Vec<Instruction> = p.code.iter().copied().collect();
    assert_eq!(
        code,
        vec![
            Instruction::Pchnij(2),
            Instruction::Pchnij(3),
            Instruction::DodajC,
            Instruction::Nat(0),
            Instruction::Usun,
            Instruction::Stop,
            Instruction::Wroc
        ]
    );
}

#[test]
fn every_mnemonic_decodes() {
    let pairs = [
        ("USUŃ", Instruction::Usun),
        ("DODAJ.C", Instruction::DodajC),
        ("DODAJ.Z", Instruction::DodajZ),
        ("ODEJM.C", Instruction::OdejmC),
        ("ODEJM.Z", Instruction::OdejmZ),
        ("MNÓŻ.C", Instruction::MnozC),
        ("MNÓŻ.Z", Instruction::MnozZ),
        ("DZIEL.C", Instruction::DzielC),
        ("DZIEL.Z", Instruction::DzielZ),
        ("RESZTA.C", Instruction::ResztaC),
        ("RESZTA.Z", Instruction::ResztaZ),
        ("JAKO.CZ", Instruction::JakoCZ),
        ("JAKO.ZC", Instruction::JakoZC),
        ("NIE.L", Instruction::NieL),
        ("RÓWNE", Instruction::Rowne),
        ("RÓWNE.Z", Instruction::RowneZ),
        ("MNIEJ.C", Instruction::MniejC),
        ("MNIEJ.Z", Instruction::MniejZ),
        ("MNRÓW.C", Instruction::MNrowC),
        ("MNRÓW.Z", Instruction::MNrowZ),
        ("NIE.B", Instruction::NieB),
        ("I", Instruction::I),
        ("LUB", Instruction::Lub),
        ("XLUB", Instruction::XLub),
        ("PRZESUŃ.L", Instruction::PrzesunL),
        ("PRZESUŃ.R", Instruction::PrzesunR),
        ("STOP", Instruction::Stop),
        ("WRÓĆ", Instruction::Wroc),
        ("PCHNIJ 1a", Instruction::Pchnij(0x1a)),
        ("ZMIENNA.K 12", Instruction::ZmiennaK(12)),
        ("ZMIENNA.U 12", Instruction::ZmiennaU(12)),
        ("IDŹDO 10", Instruction::IdzDo(0x10)),
        ("IDŹDO.ZE 10", Instruction::IdzDoZe(0x10)),
        ("IDŹDO.NZ 10", Instruction::IdzDoNz(0x10)),
        ("WYWOŁAJ 10", Instruction::Wywolaj(0x10)),
        ("NAT 20", Instruction::Nat(0x20)),
    ];
    for (line, want) in pairs.iter() {
        let src = if *want == Instruction::Wroc {
            "@Procedura 5 \"p\" 0\nWRÓĆ\n".to_string()
        } else {
            format!("@Procedura 5 \"p\" 0\n{}\nWRÓĆ\n", line)
        };
        let f = read_from_string(&src);
        assert!(f.errors.is_empty(), "{}", line);
        assert_eq!(f.procedures[0].code[0], *want, "{}", line);
    }
}

#[test]
fn number_radix_prefixes() {
    let pos = Position { line: 1, column: 1 };
    let mut errors = VecDeque::new();
    assert_eq!(get_number_from_string("ff", false, &pos, &mut errors), 255);
    assert_eq!(get_number_from_string("10", true, &pos, &mut errors), 10);
    assert_eq!(get_number_from_string("d10", false, &pos, &mut errors), 10);
    assert_eq!(get_number_from_string("x10", true, &pos, &mut errors), 16);
    assert_eq!(get_number_from_string("+a", false, &pos, &mut errors), 10);
    assert_eq!(get_number_from_string("ffffffffffffffff", false, &pos, &mut errors), u64::MAX);
    assert!(errors.is_empty());
}

#[test]
fn number_errors() {
    let pos = Position { line: 3, column: 7 };
    let mut errors = VecDeque::new();
    assert_eq!(get_number_from_string("", false, &pos, &mut errors), 0);
    assert_eq!(get_number_from_string("zz", false, &pos, &mut errors), 0);
    assert_eq!(get_number_from_string("d", false, &pos, &mut errors), 0);
    assert_eq!(get_number_from_string("10000000000000000", false, &pos, &mut errors), 0);
    assert_eq!(get_number_from_string("-1", true, &pos, &mut errors), 0);
    let got: Vec<ParseErrorKind> = errors.iter().map(|e| e.kind).collect();
    assert_eq!(
        got,
        vec![
            ParseErrorKind::NumberEmptyString,
            ParseErrorKind::NumberCannotParse,
            ParseErrorKind::NumberCannotParse,
            ParseErrorKind::NumberCannotParse,
            ParseErrorKind::NumberCannotParse
        ]
    );
    assert!(errors.iter().all(|e| e.position.line == 3 && e.position.column == 7));
}

#[test]
fn instruction_sets_column() {
    let mut pos = Position { line: 4, column: 0 };
    let mut errors = VecDeque::new();
    let i = get_instruction_from_strings(&"USUŃ".to_string(), &String::new(), &mut pos, &mut errors);
    assert_eq!(i, Instruction::Usun);
    assert_eq!(pos.column, 6);
    assert_eq!(pos.line, 4);
    let i = get_instruction_from_strings(&"FOO".to_string(), &String::new(), &mut pos, &mut errors);
    assert_eq!(i, Instruction::BrakOperacji);
    assert_eq!(pos.column, 4);
    assert_eq!(errors.len(), 1);
    assert_eq!(errors[0].kind, ParseErrorKind::InstructionUnknown);
}

#[test]
fn directive_decoding() {
    let mut pos = Position { line: 1, column: 9 };
    let mut errors = VecDeque::new();
    let d = get_directive_from_strings(&"@CVMA".to_string(), &"12".to_string(), &mut pos, &mut errors);
    assert_eq!(d, Directive::CVMAVersion(12));
    let d = get_directive_from_strings(
        &"@Procedura".to_string(),
        &"1f|\"|add two|\"|2".to_string(),
        &mut pos,
        &mut errors,
    );
    assert_eq!(d, Directive::Procedure(0x1f, "add two".to_string(), 2));
    assert!(errors.is_empty());
    let d = get_directive_from_strings(&"@Procedura".to_string(), &"1".to_string(), &mut pos, &mut errors);
    assert_eq!(d, Directive::Procedure(0, String::new(), 0));
    let d = get_directive_from_strings(&"@Foo".to_string(), &String::new(), &mut pos, &mut errors);
    assert_eq!(d, Directive::Invalid);
    let got: Vec<ParseErrorKind> = errors.iter().map(|e| e.kind).collect();
    assert_eq!(got, vec![ParseErrorKind::DirectiveNotEnoughParameters, ParseErrorKind::DirectiveUnknown]);
    assert_eq!(pos, Position { line: 1, column: 9 });
}

#[test]
fn procedure_fields_count_is_decimal() {
    let pos = Position { line: 1, column: 1 };
    let mut errors = VecDeque::new();
    let fields = vec!["10".to_string(), "n".to_string(), "10".to_string()];
    let d = procedure_from_fields(&fields, &pos, &mut errors);
    assert_eq!(d, Directive::Procedure(16, "n".to_string(), 10));
    let short = vec!["10".to_string(), "n".to_string()];
    let d = procedure_from_fields(&short, &pos, &mut errors);
    assert_eq!(d, Directive::Procedure(0, String::new(), 0));
    assert_eq!(errors.len(), 1);
}

#[test]
fn string_escapes_and_comments() {
    let f = read_from_string("@Procedura 3 \"a \\\"b\\\" c\" 1 ; a comment\nPCHNIJ 5 ; five\nWRÓĆ");
    assert!(f.errors.is_empty());
    assert_eq!(f.procedures[0].index, 3);
    assert_eq!(f.procedures[0].name, "a \"b\" c");
    assert_eq!(f.procedures[0].parameter_count, 1);
    assert_eq!(f.procedures[0].code[0], Instruction::Pchnij(5));
    assert_eq!(f.procedures[0].code.len(), 2);
}

#[test]
fn blank_and_comment_lines_are_skipped() {
    let f = read_from_string("\n; only a comment\n\n@Procedura 0 \"m\" 0\n\n   \nWRÓĆ\n");
    assert!(f.errors.is_empty());
    assert_eq!(f.procedures.len(), 1);
    assert_eq!(f.procedures[0].code.len(), 1);
}

#[test]
fn unknown_instruction_reports_line_and_column() {
    let f = read_from_string("@Procedura 0 \"m\" 0\nPCHNIJ 1\nFOO\nWRÓĆ\n");
    assert_eq!(f.errors.len(), 1);
    assert_eq!(f.errors[0].kind, ParseErrorKind::InstructionUnknown);
    assert_eq!(f.errors[0].position, Position { line: 3, column: 4 });
    assert_eq!(f.procedures[0].code[1], Instruction::BrakOperacji);
}

#[test]
fn every_parse_error_kind() {
    assert_eq!(kinds("@Procedura 0 \"m\" 0\nPCHNIJ\nWRÓĆ"), vec![ParseErrorKind::NumberEmptyString]);
    assert_eq!(kinds("@Procedura 0 \"m\" 0\nPCHNIJ zz\nWRÓĆ"), vec![ParseErrorKind::NumberCannotParse]);
    assert_eq!(kinds("@Procedura 0 \"m\" 0\nFOO\nWRÓĆ"), vec![ParseErrorKind::InstructionUnknown]);
    assert_eq!(kinds("@Foo 1"), vec![ParseErrorKind::DirectiveUnknown]);
    assert_eq!(kinds("PCHNIJ 1"), vec![ParseErrorKind::InstructionOutsideOfProcedure]);
    assert_eq!(kinds("@Procedura 0"), vec![ParseErrorKind::DirectiveNotEnoughParameters]);
}

#[test]
fn directive_error_position() {
    let f = read_from_string("@Procedura 0 \"m\" 0\nWRÓĆ\n\n@Foo 1\n");
    assert_eq!(f.errors.len(), 1);
    assert_eq!(f.errors[0].kind, ParseErrorKind::DirectiveUnknown);
    assert_eq!(f.errors[0].position, Position { line: 4, column: 5 });
}

#[test]
fn instruction_outside_is_dropped() {
    let f = read_from_string("PCHNIJ 1\nWRÓĆ\n@Procedura 0 \"m\" 0\nWRÓĆ\n");
    assert_eq!(f.errors.len(), 2);
    assert_eq!(f.errors[0].position, Position { line: 1, column: 0 });
    assert_eq!(f.procedures.len(), 1);
    assert_eq!(f.procedures[0].code.len(), 1);
}

#[test]
fn unterminated_procedure_is_dropped() {
    let f = read_from_string("@Procedura 0 \"m\" 0\nPCHNIJ 1\nSTOP\n");
    assert!(f.errors.is_empty());
    assert!(f.procedures.is_empty());
}

#[test]
fn scanner_takes_classes_from_caller() {
    let mut s = Scanner::new();
    for c in "@Procedura 0 \"m\" 0\nUSUŃ\nWRÓĆ\n".chars() {
        s.feed(c, c.is_alphanumeric(), ' ');
    }
    let f = s.finish();
    assert_eq!(f.procedures[0].code[0], Instruction::Usun);
    let mut s = Scanner::new();
    for c in "@Procedura 0 \"m\" 0\nUSUŃ\nWRÓĆ\n".chars() {
        s.feed(c, c.is_ascii_alphanumeric(), ' ');
    }
    let f = s.finish();
    assert_eq!(f.errors.len(), 2);
    assert!(f.errors.iter().all(|e| e.kind == ParseErrorKind::InstructionUnknown));
    assert!(f.procedures.is_empty());
}

#[test]
fn messages_and_suggestions() {
    let f = read_from_string("@Procedura 0 \"m\" 0\nFOO\nWRÓĆ");
    assert_eq!(f.errors[0].get_message(), "this instruction is unknown");
    assert_eq!(f.errors[0].get_suggestion(), "look at the spec maybe you got something wrong");
    let f = read_from_string("PCHNIJ 1");
    assert_eq!(f.errors[0].get_message(), "instruction is placed outside procedure");
    assert_eq!(f.errors[0].get_suggestion(), "place it inside the procedure");
}

#[test]
fn layout_helpers() {
    assert_eq!(get_count_of_digits(0), 0);
    assert_eq!(get_count_of_digits(-5), 0);
    assert_eq!(get_count_of_digits(9), 1);
    assert_eq!(get_count_of_digits(10), 2);
    assert_eq!(get_count_of_digits(i32::MAX), 10);
    assert_eq!(generate_spaces(3), "   ");
    assert_eq!(generate_spaces(0), "");
    assert_eq!(generate_spaces(-2), "");
}

#[test]
fn semicolon_inside_string_is_not_a_comment() {
    let f = read_from_string("@Procedura 0 \"a;b\" 0\nWRÓĆ");
    assert!(f.errors.is_empty());
    assert_eq!(f.procedures.len(), 1);
    assert_eq!(f.procedures[0].name, "ab");
    assert_eq!(f.procedures[0].parameter_count, 0);
    assert_eq!(f.procedures[0].code.len(), 1);
}

#[test]
fn split_takes_leftmost_matches() {
    let mut pos = Position { line: 1, column: 1 };
    let mut errors = VecDeque::new();
    let d = get_directive_from_strings(
        &"@Procedura".to_string(),
        &"1|\"|\"|\"|2".to_string(),
        &mut pos,
        &mut errors,
    );
    assert_eq!(d, Directive::Procedure(1, "\"".to_string(), 2));
    assert!(errors.is_empty());
}
