//! The source language: its instructions and directives, the decoding of
//! one line, and the scanner that assembles a whole file into procedures.
use vstd::prelude::*;
use std::collections::VecDeque;

use crate::error::{Error, Info, Position};
use crate::text::{
    alphanumeric, collect_chars, is_alphanumeric, parse_radix, push_char, radix_value, same_word,
    split_on, split_pieces,
};

verus! {

/// One instruction of the virtual machine.
#[derive(Clone, Copy, Debug, PartialEq, Eq, Structural)]
pub enum Instruction {
    // Stack
    Pchnij(u64),
    Usun,
    ZmiennaK(u64),
    ZmiennaU(u64),
    // Arithmetic, on signed integers (C) and on floats (Z)
    DodajC,
    DodajZ,
    OdejmC,
    OdejmZ,
    MnozC,
    MnozZ,
    DzielC,
    DzielZ,
    ResztaC,
    ResztaZ,
    JakoCZ,
    JakoZC,
    // Comparisons
    NieL,
    Rowne,
    RowneZ,
    MniejC,
    MniejZ,
    MNrowC,
    MNrowZ,
    // Bitwise operations
    NieB,
    I,
    Lub,
    XLub,
    PrzesunL,
    PrzesunR,
    // Control flow
    IdzDo(u64),
    IdzDoZe(u64),
    IdzDoNz(u64),
    Wywolaj(u64),
    Wroc,
    Stop,
    // Native procedures
    Nat(u64),
    /// Stands in the code where a line could not be decoded.
    BrakOperacji,
}

/// A decoded directive line.
#[derive(Clone, Debug, PartialEq, Eq)]
pub enum Directive {
    CVMAVersion(u64),
    Procedure(u64, String, u64),
    Invalid,
}

/// A numbered procedure: its parameter window and its code.
#[derive(Clone, Debug)]
pub struct Procedure {
    pub index: u64,
    pub name: String,
    pub parameter_count: u64,
    pub code: VecDeque<Instruction>,
}

/// The kinds of error that parsing reports.
#[derive(Clone, Copy, Debug, PartialEq, Eq, Structural)]
pub enum ParseErrorKind {
    NumberEmptyString,
    NumberCannotParse,
    InstructionUnknown,
    DirectiveUnknown,
    InstructionOutsideOfProcedure,
    DirectiveNotEnoughParameters,
}

/// A parsed source file.
pub struct CVMAFile {
    pub language_version: u64,
    pub procedures: VecDeque<Procedure>,
    pub errors: VecDeque<Error<ParseErrorKind>>,
}

/// A procedure as a value: its name as characters, its code as a sequence.
pub struct ProcedureModel {
    pub index: u64,
    pub name: Seq<char>,
    pub parameter_count: u64,
    pub code: Seq<Instruction>,
}

impl View for Procedure {
    type V = ProcedureModel;

    open spec fn view(&self) -> ProcedureModel {
        ProcedureModel {
            index: self.index,
            name: self.name@,
            parameter_count: self.parameter_count,
            code: self.code@,
        }
    }
}

/// A parsed file as a value.
pub struct FileModel {
    pub language_version: u64,
    pub procedures: Seq<ProcedureModel>,
    pub errors: Seq<Error<ParseErrorKind>>,
}

impl View for CVMAFile {
    type V = FileModel;

    open spec fn view(&self) -> FileModel {
        FileModel {
            language_version: self.language_version,
            procedures: self.procedures@.map_values(|p: Procedure| p@),
            errors: self.errors@,
        }
    }
}

/// A directive as a value.
pub enum DirectiveModel {
    CVMAVersion(u64),
    Procedure(u64, Seq<char>, u64),
    Invalid,
}

impl View for Directive {
    type V = DirectiveModel;

    open spec fn view(&self) -> DirectiveModel {
        match self {
            Directive::CVMAVersion(v) => DirectiveModel::CVMAVersion(*v),
            Directive::Procedure(i, n, k) => DirectiveModel::Procedure(*i, n@, *k),
            Directive::Invalid => DirectiveModel::Invalid,
        }
    }
}

pub open spec fn message_of(kind: ParseErrorKind) -> &'static str {
    match kind {
        ParseErrorKind::NumberEmptyString => "expected a number, but got nothing instead",
        ParseErrorKind::NumberCannotParse => "parser cannot process this number",
        ParseErrorKind::InstructionUnknown => "this instruction is unknown",
        ParseErrorKind::DirectiveUnknown => "this directive is unknown",
        ParseErrorKind::InstructionOutsideOfProcedure => "instruction is placed outside procedure",
        ParseErrorKind::DirectiveNotEnoughParameters => "directive requires more parameters than inputed",
    }
}

pub open spec fn suggestion_of(kind: ParseErrorKind) -> &'static str {
    match kind {
        ParseErrorKind::NumberEmptyString => "enter a number, or fix entered one",
        ParseErrorKind::NumberCannotParse
        | ParseErrorKind::InstructionUnknown
        | ParseErrorKind::DirectiveUnknown => "look at the spec maybe you got something wrong",
        ParseErrorKind::InstructionOutsideOfProcedure => "place it inside the procedure",
        ParseErrorKind::DirectiveNotEnoughParameters => "input required parameters",
    }
}

impl Info for Error<ParseErrorKind> {
    fn get_message(&self) -> (r: &'static str)
        ensures
            r == message_of(self.kind),
    {
        match self.kind {
            ParseErrorKind::NumberEmptyString => "expected a number, but got nothing instead",
            ParseErrorKind::NumberCannotParse => "parser cannot process this number",
            ParseErrorKind::InstructionUnknown => "this instruction is unknown",
            ParseErrorKind::DirectiveUnknown => "this directive is unknown",
            ParseErrorKind::InstructionOutsideOfProcedure => "instruction is placed outside procedure",
            ParseErrorKind::DirectiveNotEnoughParameters => "directive requires more parameters than inputed",
        }
    }

    fn get_suggestion(&self) -> (r: &'static str)
        ensures
            r == suggestion_of(self.kind),
    {
        match self.kind {
            ParseErrorKind::NumberEmptyString => "enter a number, or fix entered one",
            ParseErrorKind::NumberCannotParse
            | ParseErrorKind::InstructionUnknown
            | ParseErrorKind::DirectiveUnknown => "look at the spec maybe you got something wrong",
            ParseErrorKind::InstructionOutsideOfProcedure => "place it inside the procedure",
            ParseErrorKind::DirectiveNotEnoughParameters => "input required parameters",
        }
    }
}

/// The instructions that carry a numeric operand, without it.
#[derive(Clone, Copy, Debug, PartialEq, Eq, Structural)]
pub enum OperandKind {
    Push,
    LoadLocal,
    StoreLocal,
    Jump,
    JumpIfZero,
    JumpIfNotZero,
    Call,
    Native,
}

impl OperandKind {
    /// Whether the operand is read in decimal unless a prefix says otherwise.
    pub open spec fn decimal(self) -> bool {
        self == OperandKind::LoadLocal || self == OperandKind::StoreLocal
    }

    pub open spec fn with_operand(self, n: u64) -> Instruction {
        match self {
            OperandKind::Push => Instruction::Pchnij(n),
            OperandKind::LoadLocal => Instruction::ZmiennaK(n),
            OperandKind::StoreLocal => Instruction::ZmiennaU(n),
            OperandKind::Jump => Instruction::IdzDo(n),
            OperandKind::JumpIfZero => Instruction::IdzDoZe(n),
            OperandKind::JumpIfNotZero => Instruction::IdzDoNz(n),
            OperandKind::Call => Instruction::Wywolaj(n),
            OperandKind::Native => Instruction::Nat(n),
        }
    }

    fn is_decimal(self) -> (r: bool)
        ensures
            r == self.decimal(),
    {
        match self {
            OperandKind::LoadLocal | OperandKind::StoreLocal => true,
            _ => false,
        }
    }

    fn instruction(self, n: u64) -> (r: Instruction)
        ensures
            r == self.with_operand(n),
    {
        match self {
            OperandKind::Push => Instruction::Pchnij(n),
            OperandKind::LoadLocal => Instruction::ZmiennaK(n),
            OperandKind::StoreLocal => Instruction::ZmiennaU(n),
            OperandKind::Jump => Instruction::IdzDo(n),
            OperandKind::JumpIfZero => Instruction::IdzDoZe(n),
            OperandKind::JumpIfNotZero => Instruction::IdzDoNz(n),
            OperandKind::Call => Instruction::Wywolaj(n),
            OperandKind::Native => Instruction::Nat(n),
        }
    }
}

/// The mnemonics that take no operand.
pub open spec fn plain_instruction(m: Seq<char>) -> Option<Instruction> {
    if m == "USUŃ"@ {
        Some(Instruction::Usun)
    } else if m == "DODAJ.C"@ {
        Some(Instruction::DodajC)
    } else if m == "DODAJ.Z"@ {
        Some(Instruction::DodajZ)
    } else if m == "ODEJM.C"@ {
        Some(Instruction::OdejmC)
    } else if m == "ODEJM.Z"@ {
        Some(Instruction::OdejmZ)
    } else if m == "MNÓŻ.C"@ {
        Some(Instruction::MnozC)
    } else if m == "MNÓŻ.Z"@ {
        Some(Instruction::MnozZ)
    } else if m == "DZIEL.C"@ {
        Some(Instruction::DzielC)
    } else if m == "DZIEL.Z"@ {
        Some(Instruction::DzielZ)
    } else if m == "RESZTA.C"@ {
        Some(Instruction::ResztaC)
    } else if m == "RESZTA.Z"@ {
        Some(Instruction::ResztaZ)
    } else if m == "JAKO.CZ"@ {
        Some(Instruction::JakoCZ)
    } else if m == "JAKO.ZC"@ {
        Some(Instruction::JakoZC)
    } else if m == "NIE.L"@ {
        Some(Instruction::NieL)
    } else if m == "RÓWNE"@ {
        Some(Instruction::Rowne)
    } else if m == "RÓWNE.Z"@ {
        Some(Instruction::RowneZ)
    } else if m == "MNIEJ.C"@ {
        Some(Instruction::MniejC)
    } else if m == "MNIEJ.Z"@ {
        Some(Instruction::MniejZ)
    } else if m == "MNRÓW.C"@ {
        Some(Instruction::MNrowC)
    } else if m == "MNRÓW.Z"@ {
        Some(Instruction::MNrowZ)
    } else if m == "NIE.B"@ {
        Some(Instruction::NieB)
    } else if m == "I"@ {
        Some(Instruction::I)
    } else if m == "LUB"@ {
        Some(Instruction::Lub)
    } else if m == "XLUB"@ {
        Some(Instruction::XLub)
    } else if m == "PRZESUŃ.L"@ {
        Some(Instruction::PrzesunL)
    } else if m == "PRZESUŃ.R"@ {
        Some(Instruction::PrzesunR)
    } else if m == "STOP"@ {
        Some(Instruction::Stop)
    } else if m == "WRÓĆ"@ {
        Some(Instruction::Wroc)
    } else {
        None
    }
}

/// The mnemonics that take one numeric operand.
pub open spec fn operand_kind(m: Seq<char>) -> Option<OperandKind> {
    if m == "PCHNIJ"@ {
        Some(OperandKind::Push)
    } else if m == "ZMIENNA.K"@ {
        Some(OperandKind::LoadLocal)
    } else if m == "ZMIENNA.U"@ {
        Some(OperandKind::StoreLocal)
    } else if m == "IDŹDO"@ {
        Some(OperandKind::Jump)
    } else if m == "IDŹDO.ZE"@ {
        Some(OperandKind::JumpIfZero)
    } else if m == "IDŹDO.NZ"@ {
        Some(OperandKind::JumpIfNotZero)
    } else if m == "WYWOŁAJ"@ {
        Some(OperandKind::Call)
    } else if m == "NAT"@ {
        Some(OperandKind::Native)
    } else {
        None
    }
}

fn plain_instruction_of(m: &str) -> (r: Option<Instruction>)
    ensures
        r == plain_instruction(m@),
{
    if same_word(m, "USUŃ") {
        Some(Instruction::Usun)
    } else if same_word(m, "DODAJ.C") {
        Some(Instruction::DodajC)
    } else if same_word(m, "DODAJ.Z") {
        Some(Instruction::DodajZ)
    } else if same_word(m, "ODEJM.C") {
        Some(Instruction::OdejmC)
    } else if same_word(m, "ODEJM.Z") {
        Some(Instruction::OdejmZ)
    } else if same_word(m, "MNÓŻ.C") {
        Some(Instruction::MnozC)
    } else if same_word(m, "MNÓŻ.Z") {
        Some(Instruction::MnozZ)
    } else if same_word(m, "DZIEL.C") {
        Some(Instruction::DzielC)
    } else if same_word(m, "DZIEL.Z") {
        Some(Instruction::DzielZ)
    } else if same_word(m, "RESZTA.C") {
        Some(Instruction::ResztaC)
    } else if same_word(m, "RESZTA.Z") {
        Some(Instruction::ResztaZ)
    } else if same_word(m, "JAKO.CZ") {
        Some(Instruction::JakoCZ)
    } else if same_word(m, "JAKO.ZC") {
        Some(Instruction::JakoZC)
    } else if same_word(m, "NIE.L") {
        Some(Instruction::NieL)
    } else if same_word(m, "RÓWNE") {
        Some(Instruction::Rowne)
    } else if same_word(m, "RÓWNE.Z") {
        Some(Instruction::RowneZ)
    } else if same_word(m, "MNIEJ.C") {
        Some(Instruction::MniejC)
    } else if same_word(m, "MNIEJ.Z") {
        Some(Instruction::MniejZ)
    } else if same_word(m, "MNRÓW.C") {
        Some(Instruction::MNrowC)
    } else if same_word(m, "MNRÓW.Z") {
        Some(Instruction::MNrowZ)
    } else if same_word(m, "NIE.B") {
        Some(Instruction::NieB)
    } else if same_word(m, "I") {
        Some(Instruction::I)
    } else if same_word(m, "LUB") {
        Some(Instruction::Lub)
    } else if same_word(m, "XLUB") {
        Some(Instruction::XLub)
    } else if same_word(m, "PRZESUŃ.L") {
        Some(Instruction::PrzesunL)
    } else if same_word(m, "PRZESUŃ.R") {
        Some(Instruction::PrzesunR)
    } else if same_word(m, "STOP") {
        Some(Instruction::Stop)
    } else if same_word(m, "WRÓĆ") {
        Some(Instruction::Wroc)
    } else {
        None
    }
}

fn operand_kind_of(m: &str) -> (r: Option<OperandKind>)
    ensures
        r == operand_kind(m@),
{
    if same_word(m, "PCHNIJ") {
        Some(OperandKind::Push)
    } else if same_word(m, "ZMIENNA.K") {
        Some(OperandKind::LoadLocal)
    } else if same_word(m, "ZMIENNA.U") {
        Some(OperandKind::StoreLocal)
    } else if same_word(m, "IDŹDO") {
        Some(OperandKind::Jump)
    } else if same_word(m, "IDŹDO.ZE") {
        Some(OperandKind::JumpIfZero)
    } else if same_word(m, "IDŹDO.NZ") {
        Some(OperandKind::JumpIfNotZero)
    } else if same_word(m, "WYWOŁAJ") {
        Some(OperandKind::Call)
    } else if same_word(m, "NAT") {
        Some(OperandKind::Native)
    } else {
        None
    }
}
/// The errors to report: none, or one of the given kind at the position.
pub open spec fn report(kind: Option<ParseErrorKind>, position: Position) -> Seq<Error<ParseErrorKind>> {
    match kind {
        Some(k) => seq![Error { position, kind: k }],
        None => seq![],
    }
}

/// A numeric operand: empty is an error; a leading `d` forces decimal and a
/// leading `x` hexadecimal, otherwise `use_dec` chooses. An operand that
/// cannot be read gives 0 and an error.
pub open spec fn number_outcome(s: Seq<char>, use_dec: bool) -> (u64, Option<ParseErrorKind>) {
    if s.len() == 0 {
        (0, Some(ParseErrorKind::NumberEmptyString))
    } else {
        let dec = if s[0] == 'd' {
            true
        } else if s[0] == 'x' {
            false
        } else {
            use_dec
        };
        let body = if s[0] == 'd' || s[0] == 'x' {
            s.drop_first()
        } else {
            s
        };
        match radix_value(body, if dec { 10 } else { 16 }) {
            Some(v) => (v, None),
            None => (0, Some(ParseErrorKind::NumberCannotParse)),
        }
    }
}

/// Reads a numeric operand; an error is appended to `errors` at `position`.
pub fn get_number_from_string(
    string: &str,
    use_dec: bool,
    position: &Position,
    errors: &mut VecDeque<Error<ParseErrorKind>>,
) -> (r: u64)
    ensures
        r == number_outcome(string@, use_dec).0,
        final(errors)@ == old(errors)@ + report(number_outcome(string@, use_dec).1, *position),
{
    if string.is_empty() {
        errors.push_back(Error { position: *position, kind: ParseErrorKind::NumberEmptyString });
        return 0;
    }
    let n = string.unicode_len();
    let first = string.get_char(0);
    let mut dec = use_dec;
    let mut body = string;
    if first == 'd' {
        dec = true;
        body = string.substring_char(1, n);
    } else if first == 'x' {
        dec = false;
        body = string.substring_char(1, n);
    }
    assert(first == 'd' || first == 'x' ==> body@ == string@.drop_first());
    match parse_radix(body, if dec { 10 } else { 16 }) {
        Some(v) => {
            assert(errors@ == errors@ + Seq::<Error<ParseErrorKind>>::empty());
            v
        },
        None => {
            errors.push_back(Error { position: *position, kind: ParseErrorKind::NumberCannotParse });
            0
        },
    }
}

/// The column at which a line's parameters start: one past the mnemonic's
/// length in bytes, held to what an `i32` can hold.
pub open spec fn parameter_column(mnemonic: Seq<char>) -> i32 {
    let len = (vstd::utf8::encode_utf8(mnemonic).len() as usize) as int;
    if len < i32::MAX {
        (len + 1) as i32
    } else {
        i32::MAX
    }
}

/// Decodes an instruction line whose mnemonic is `m` and parameters `p`,
/// with errors reported at `position`.
pub open spec fn decode_instruction(m: Seq<char>, p: Seq<char>, position: Position) -> (
    Instruction,
    Seq<Error<ParseErrorKind>>,
) {
    match plain_instruction(m) {
        Some(i) => (i, seq![]),
        None => match operand_kind(m) {
            Some(k) => {
                let (n, e) = number_outcome(p, k.decimal());
                (k.with_operand(n), report(e, position))
            },
            None => (Instruction::BrakOperacji, report(Some(ParseErrorKind::InstructionUnknown), position)),
        },
    }
}

/// Decodes an instruction line. Sets the column of `position` to where the
/// parameters start and appends any error to `errors`; an unknown mnemonic
/// gives `BrakOperacji`.
pub fn get_instruction_from_strings(
    instruction: &String,
    parameters: &String,
    position: &mut Position,
    errors: &mut VecDeque<Error<ParseErrorKind>>,
) -> (r: Instruction)
    ensures
        *final(position) == (Position { line: old(position).line, column: parameter_column(instruction@) }),
        r == decode_instruction(instruction@, parameters@, *final(position)).0,
        final(errors)@ == old(errors)@ + decode_instruction(instruction@, parameters@, *final(position)).1,
{
    let len = instruction.as_str().len();
    position.column = if len < i32::MAX as usize { (len + 1) as i32 } else { i32::MAX };
    let m = instruction.as_str();
    match plain_instruction_of(m) {
        Some(i) => {
            assert(errors@ == errors@ + Seq::<Error<ParseErrorKind>>::empty());
            i
        },
        None => match operand_kind_of(m) {
            Some(k) => {
                let n = get_number_from_string(parameters.as_str(), k.is_decimal(), position, errors);
                k.instruction(n)
            },
            None => {
                errors.push_back(Error { position: *position, kind: ParseErrorKind::InstructionUnknown });
                Instruction::BrakOperacji
            },
        },
    }
}

/// The `@Procedura` directive from its fields: the index in hexadecimal, the
/// name, and the parameter count in decimal. Fewer than three fields is an
/// error, and gives a procedure with index 0, no name and no parameters.
pub open spec fn procedure_directive(fields: Seq<Seq<char>>, position: Position) -> (
    DirectiveModel,
    Seq<Error<ParseErrorKind>>,
) {
    if fields.len() < 3 {
        (
            DirectiveModel::Procedure(0, seq![], 0),
            report(Some(ParseErrorKind::DirectiveNotEnoughParameters), position),
        )
    } else {
        let (index, e1) = number_outcome(fields[0], false);
        let (count, e2) = number_outcome(fields[2], true);
        (DirectiveModel::Procedure(index, fields[1], count), report(e1, position) + report(e2, position))
    }
}

/// Decodes a directive line whose name is `d` and parameters `p`.
pub open spec fn decode_directive(d: Seq<char>, p: Seq<char>, position: Position) -> (
    DirectiveModel,
    Seq<Error<ParseErrorKind>>,
) {
    if d == "@CVMA"@ {
        let (v, e) = number_outcome(p, true);
        (DirectiveModel::CVMAVersion(v), report(e, position))
    } else if d == "@Procedura"@ {
        procedure_directive(split_pieces(p, "|\"|"@), position)
    } else {
        (DirectiveModel::Invalid, report(Some(ParseErrorKind::DirectiveUnknown), position))
    }
}

/// Builds the `@Procedura` directive from the fields that the quote
/// sentinels separate; errors are appended to `errors`.
pub fn procedure_from_fields(
    fields: &Vec<String>,
    position: &Position,
    errors: &mut VecDeque<Error<ParseErrorKind>>,
) -> (r: Directive)
    ensures
        r@ == procedure_directive(fields@.map_values(|f: String| f@), *position).0,
        final(errors)@ == old(errors)@ + procedure_directive(
            fields@.map_values(|f: String| f@),
            *position,
        ).1,
{
    if fields.len() < 3 {
        errors.push_back(Error { position: *position, kind: ParseErrorKind::DirectiveNotEnoughParameters });
        return Directive::Procedure(0, String::new(), 0);
    }
    let ghost e0 = errors@;
    let index = get_number_from_string(fields[0].as_str(), false, position, errors);
    let ghost e1 = errors@;
    let count = get_number_from_string(fields[2].as_str(), true, position, errors);
    let ghost f = fields@.map_values(|f: String| f@);
    assert(f[0] == fields[0]@ && f[1] == fields[1]@ && f[2] == fields[2]@);
    assert(errors@ == e0 + report(number_outcome(f[0], false).1, *position) + report(
        number_outcome(f[2], true).1,
        *position,
    ));
    let name = fields[1].clone();
    Directive::Procedure(index, name, count)
}

/// Decodes a directive line: `@CVMA` with a decimal version, or
/// `@Procedura`; anything else is an unknown directive. Errors are appended
/// to `errors`; `position` is left as it is.
pub fn get_directive_from_strings(
    directive: &String,
    parameters: &String,
    position: &mut Position,
    errors: &mut VecDeque<Error<ParseErrorKind>>,
) -> (r: Directive)
    ensures
        *final(position) == *old(position),
        r@ == decode_directive(directive@, parameters@, *old(position)).0,
        final(errors)@ == old(errors)@ + decode_directive(directive@, parameters@, *old(position)).1,
{
    if same_word(directive.as_str(), "@CVMA") {
        let version = get_number_from_string(parameters.as_str(), true, position, errors);
        Directive::CVMAVersion(version)
    } else if same_word(directive.as_str(), "@Procedura") {
        proof {
            reveal_strlit("|\"|");
        }
        let fields = split_on(parameters.as_str(), "|\"|");
        procedure_from_fields(&fields, position, errors)
    } else {
        errors.push_back(Error { position: *position, kind: ParseErrorKind::DirectiveUnknown });
        Directive::Invalid
    }
}

/// The scanner's state between two characters.
pub struct ScanModel {
    /// The mnemonic of the current line so far.
    pub instruction: Seq<char>,
    /// Its parameters so far, string quotes written as `|"|`.
    pub parameters: Seq<char>,
    pub is_param: bool,
    pub is_string: bool,
    pub is_string_escape: bool,
    pub is_comment: bool,
    pub is_in_procedure: bool,
    /// The number of lines ended so far, held to what an `i32` can hold.
    pub line: i32,
    /// The position last reported at.
    pub position: Position,
    /// The procedure being assembled.
    pub procedure: ProcedureModel,
    pub file: FileModel,
}

pub open spec fn empty_procedure() -> ProcedureModel {
    ProcedureModel { index: 0, name: seq![], parameter_count: 0, code: seq![] }
}

pub open spec fn initial_scan() -> ScanModel {
    ScanModel {
        instruction: seq![],
        parameters: seq![],
        is_param: false,
        is_string: false,
        is_string_escape: false,
        is_comment: false,
        is_in_procedure: false,
        line: 0,
        position: Position { line: 0, column: 0 },
        procedure: empty_procedure(),
        file: FileModel { language_version: 0, procedures: seq![], errors: seq![] },
    }
}

/// A directive line: its errors are recorded, `@CVMA` sets the version and
/// `@Procedura` opens a procedure (keeping any code gathered so far).
pub open spec fn apply_directive(st: ScanModel, pos: Position) -> ScanModel {
    let (d, errs) = decode_directive(st.instruction, st.parameters, pos);
    let file = FileModel { errors: st.file.errors + errs, ..st.file };
    match d {
        DirectiveModel::CVMAVersion(v) => ScanModel {
            position: pos,
            file: FileModel { language_version: v, ..file },
            ..st
        },
        DirectiveModel::Procedure(i, n, k) => ScanModel {
            position: pos,
            file,
            procedure: ProcedureModel { index: i, name: n, parameter_count: k, code: st.procedure.code },
            is_in_procedure: true,
            ..st
        },
        DirectiveModel::Invalid => ScanModel { position: pos, file, ..st },
    }
}

/// An instruction line. Outside a procedure it is an error and is dropped;
/// inside it joins the code, and `WRÓĆ` seals the procedure into the file.
pub open spec fn apply_instruction(st: ScanModel, pos: Position) -> ScanModel {
    let outside = Position { line: pos.line, column: 0 };
    let pos1 = if st.is_in_procedure { pos } else { outside };
    let errs0 = if st.is_in_procedure {
        seq![]
    } else {
        report(Some(ParseErrorKind::InstructionOutsideOfProcedure), outside)
    };
    let pos2 = Position { line: pos1.line, column: parameter_column(st.instruction) };
    let (instr, errs) = decode_instruction(st.instruction, st.parameters, pos2);
    let file = FileModel { errors: st.file.errors + errs0 + errs, ..st.file };
    if !st.is_in_procedure {
        ScanModel { position: pos2, file, ..st }
    } else if instr == Instruction::Wroc {
        let sealed = ProcedureModel { code: st.procedure.code.push(instr), ..st.procedure };
        ScanModel {
            position: pos2,
            file: FileModel { procedures: file.procedures.push(sealed), ..file },
            procedure: empty_procedure(),
            is_in_procedure: false,
            ..st
        }
    } else {
        ScanModel {
            position: pos2,
            file,
            procedure: ProcedureModel { code: st.procedure.code.push(instr), ..st.procedure },
            ..st
        }
    }
}

/// The end of a line: a non-empty mnemonic is decoded as a directive (it
/// starts with `@`) or an instruction, and the line's text is cleared.
/// Errors on the line carry its number and the column where its
/// parameters start.
pub open spec fn end_line(st: ScanModel) -> ScanModel {
    let line = if st.line < i32::MAX {
        (st.line + 1) as i32
    } else {
        st.line
    };
    let st1 = ScanModel { is_param: false, line, ..st };
    if st1.instruction.len() == 0 {
        st1
    } else {
        let st2 = if st1.instruction[0] == '@' {
            apply_directive(st1, Position { line, column: parameter_column(st1.instruction) })
        } else {
            apply_instruction(st1, Position { line, column: st1.position.column })
        };
        ScanModel { instruction: seq![], parameters: seq![], ..st2 }
    }
}

/// One character `c`, `alnum` telling whether it is alphanumeric and `next`
/// being the character after it. Letters, digits and `.`, `@`, `\`, `"`
/// form words; a space after a mnemonic starts the parameters and is kept
/// inside a string; `;` outside a string starts a comment up to the end of
/// the line; other characters are dropped. `\"` writes a quote inside a
/// string.
pub open spec fn scan_char(st: ScanModel, c: char, alnum: bool, next: char) -> ScanModel {
    if !alnum && c != '\n' && c != '\\' && c != '"' && c != '.' && c != '@' {
        let st1 = if c == ' ' && st.instruction.len() > 0 {
            ScanModel { is_param: true, ..st }
        } else {
            st
        };
        let st2 = if c == ' ' && st1.is_string {
            ScanModel { parameters: st1.parameters.push(' '), ..st1 }
        } else {
            st1
        };
        if c == ';' && !st2.is_string {
            ScanModel { is_comment: true, ..st2 }
        } else {
            st2
        }
    } else {
        let st1 = if c == '\n' && st.is_comment {
            ScanModel { is_comment: false, ..st }
        } else {
            st
        };
        if st1.is_comment {
            st1
        } else if c == '\\' && next == '"' {
            ScanModel { is_string_escape: true, ..st1 }
        } else if c == '"' {
            if st1.is_string_escape {
                ScanModel { is_string_escape: false, parameters: st1.parameters.push('"'), ..st1 }
            } else {
                ScanModel {
                    is_string: !st1.is_string,
                    parameters: st1.parameters + seq!['|', '"', '|'],
                    ..st1
                }
            }
        } else if c == '\n' {
            end_line(st1)
        } else if st1.is_param {
            ScanModel { parameters: st1.parameters.push(c), ..st1 }
        } else {
            ScanModel { instruction: st1.instruction.push(c), ..st1 }
        }
    }
}

/// The character after position `i`, or a newline past the end.
pub open spec fn next_char(s: Seq<char>, i: int) -> char {
    if i + 1 < s.len() {
        s[i + 1]
    } else {
        '\n'
    }
}

/// The scanner's state after the first `n` characters of `s`.
pub open spec fn scan(s: Seq<char>, n: nat) -> ScanModel
    decreases n,
{
    if n == 0 || n > s.len() {
        initial_scan()
    } else {
        let i = n - 1;
        scan_char(scan(s, (n - 1) as nat), s[i], alphanumeric(s[i]), next_char(s, i))
    }
}

/// What a source text parses to: the scan of the text with a newline added.
pub open spec fn parsed(content: Seq<char>) -> FileModel {
    let text = content.push('\n');
    scan(text, text.len()).file
}

/// The source scanner, fed one character at a time.
pub struct Scanner {
    instruction: String,
    parameters: String,
    is_param: bool,
    is_string: bool,
    is_string_escape: bool,
    is_comment: bool,
    is_in_procedure: bool,
    line: i32,
    position: Position,
    procedure: Procedure,
    file: CVMAFile,
}

impl View for Scanner {
    type V = ScanModel;

    closed spec fn view(&self) -> ScanModel {
        ScanModel {
            instruction: self.instruction@,
            parameters: self.parameters@,
            is_param: self.is_param,
            is_string: self.is_string,
            is_string_escape: self.is_string_escape,
            is_comment: self.is_comment,
            is_in_procedure: self.is_in_procedure,
            line: self.line,
            position: self.position,
            procedure: self.procedure@,
            file: self.file@,
        }
    }
}

fn new_procedure() -> (r: Procedure)
    ensures
        r@ == empty_procedure(),
{
    Procedure { index: 0, name: String::new(), parameter_count: 0, code: VecDeque::new() }
}

impl Scanner {
    pub fn new() -> (r: Scanner)
        ensures
            r@ == initial_scan(),
    {
        let r = Scanner {
            instruction: String::new(),
            parameters: String::new(),
            is_param: false,
            is_string: false,
            is_string_escape: false,
            is_comment: false,
            is_in_procedure: false,
            line: 0,
            position: Position { line: 0, column: 0 },
            procedure: new_procedure(),
            file: CVMAFile { language_version: 0, procedures: VecDeque::new(), errors: VecDeque::new() },
        };
        assert(r.file@.procedures =~= Seq::<ProcedureModel>::empty());
        r
    }

    fn end_line(&mut self)
        ensures
            final(self)@ == end_line(old(self)@),
    {
        self.is_param = false;
        if self.line < i32::MAX {
            self.line = self.line + 1;
        }
        if self.instruction.as_str().is_empty() {
            return;
        }
        self.position.line = self.line;
        if self.instruction.as_str().get_char(0) == '@' {
            let len = self.instruction.as_str().len();
            self.position.column = if len < i32::MAX as usize {
                (len + 1) as i32
            } else {
                i32::MAX
            };
            let d = get_directive_from_strings(
                &self.instruction,
                &self.parameters,
                &mut self.position,
                &mut self.file.errors,
            );
            match d {
                Directive::CVMAVersion(v) => {
                    self.file.language_version = v;
                },
                Directive::Procedure(i, n, k) => {
                    self.procedure.index = i;
                    self.procedure.name = n;
                    self.procedure.parameter_count = k;
                    self.is_in_procedure = true;
                },
                Directive::Invalid => {},
            }
        } else {
            let ghost errors0 = self.file.errors@;
            assert(errors0 + Seq::<Error<ParseErrorKind>>::empty() == errors0);
            if !self.is_in_procedure {
                self.position.column = 0;
                self.file.errors.push_back(
                    Error { position: self.position, kind: ParseErrorKind::InstructionOutsideOfProcedure },
                );
            }
            let instr = get_instruction_from_strings(
                &self.instruction,
                &self.parameters,
                &mut self.position,
                &mut self.file.errors,
            );
            if self.is_in_procedure {
                self.procedure.code.push_back(instr);
                if let Instruction::Wroc = instr {
                    let mut sealed = new_procedure();
                    std::mem::swap(&mut sealed, &mut self.procedure);
                    let ghost before = self.file.procedures@;
                    self.file.procedures.push_back(sealed);
                    assert(self.file.procedures@.map_values(|p: Procedure| p@) =~= before.map_values(
                        |p: Procedure| p@,
                    ).push(sealed@));
                    self.is_in_procedure = false;
                }
            } else {
                assert(errors0 + report(Some(ParseErrorKind::InstructionOutsideOfProcedure), self.position)
                    == errors0.push(Error { position: self.position, kind: ParseErrorKind::InstructionOutsideOfProcedure }));
            }
        }
        self.instruction = String::new();
        self.parameters = String::new();
    }

    /// Takes one character `c`, with `alnum` telling whether it is
    /// alphanumeric and `next` the character that follows it.
    pub fn feed(&mut self, c: char, alnum: bool, next: char)
        ensures
            final(self)@ == scan_char(old(self)@, c, alnum, next),
    {
        if !alnum && c != '\n' && c != '\\' && c != '"' && c != '.' && c != '@' {
            if c == ' ' && !self.instruction.as_str().is_empty() {
                self.is_param = true;
            }
            if c == ' ' && self.is_string {
                push_char(&mut self.parameters, c);
            }
            if c == ';' && !self.is_string {
                self.is_comment = true;
            }
            return;
        }
        if c == '\n' && self.is_comment {
            self.is_comment = false;
        }
        if self.is_comment {
            return;
        }
        if c == '\\' && next == '"' {
            self.is_string_escape = true;
            return;
        }
        if c == '"' {
            if self.is_string_escape {
                self.is_string_escape = false;
                push_char(&mut self.parameters, c);
            } else {
                let ghost p0 = self.parameters@;
                push_char(&mut self.parameters, '|');
                self.is_string = !self.is_string;
                push_char(&mut self.parameters, c);
                push_char(&mut self.parameters, '|');
                assert(self.parameters@ =~= p0 + seq!['|', '"', '|']);
            }
            return;
        }
        if c == '\n' {
            self.end_line();
            return;
        }
        if self.is_param {
            push_char(&mut self.parameters, c);
        } else {
            push_char(&mut self.instruction, c);
        }
    }

    /// The file assembled so far; a procedure still open is dropped.
    pub fn finish(self) -> (r: CVMAFile)
        ensures
            r@ == self@.file,
    {
        self.file
    }
}

/// Parses a whole source text. Each line is decoded as a directive or an
/// instruction, procedures are assembled between `@Procedura` and `WRÓĆ`, and
/// every error is collected with its position.
pub fn read_from_string(content: &str) -> (r: CVMAFile)
    ensures
        r@ == parsed(content@),
{
    let mut text = collect_chars(content);
    text.push('\n');
    let ghost s = text@;
    assert(s == content@.push('\n'));
    let n = text.len();
    let mut scanner = Scanner::new();
    let mut i: usize = 0;
    while i < n
        invariant
            n == s.len(),
            text@ == s,
            i <= n,
            scanner@ == scan(s, i as nat),
        decreases n - i,
    {
        let c = text[i];
        let next = if i + 1 < n { text[i + 1] } else { '\n' };
        scanner.feed(c, is_alphanumeric(c), next);
        i = i + 1;
    }
    scanner.finish()
}

} // verus!
