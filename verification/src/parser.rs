//! The instruction-set model and the assembler: mnemonic and operand
//! parsing, per-line diagnostics, and layout of the fixed 32-slot program.

use vstd::prelude::*;

use crate::bytes::spec_digits_value;
use crate::bytes::spec_lines;
use crate::bytes::spec_tokens;
use crate::bytes::strip_underscores;
use crate::bytes::take_until;
use crate::bytes::copy_range;
use crate::bytes::parse_base_digits;
use crate::bytes::remove_underscores;
use crate::bytes::split_lines;
use crate::bytes::tokenize;

verus! {

/// The closed set of operations the machine understands.
#[derive(Debug, Clone, Copy, PartialEq, Eq, Structural)]
#[allow(clippy::upper_case_acronyms)]
pub enum Operation {
    // Data
    NOOP,
    IMM,
    MOV,
    // Alu
    ADD,
    ADDC,
    SHR,
    NOT,
    // IO
    OUT,
    // Control
    JMP,
    BIE,
}

/// The ALU addressing-mode qualifier: written as a one-letter prefix on an
/// ALU mnemonic, it selects where ALU input A is read from.
#[derive(Debug, Clone, Copy, PartialEq, Eq, Structural)]
pub enum OperationArgs {
    /// No prefix letter.
    NoPrefix,
    S,
    U,
    X,
}

/// A tagged 8-bit operand. The kind is part of its identity: equal values
/// of different kinds are not interchangeable.
#[derive(Debug, Clone, Copy, PartialEq, Eq, Structural)]
pub enum Oprand {
    Register(u8),
    MemoryAddress(u8),
    Immediate(u8),
    Port(u8),
}

/// The kind of an operand, without its value.
#[derive(Debug, Clone, Copy, PartialEq, Eq, Structural)]
pub enum OprandKind {
    Register,
    MemoryAddress,
    Immediate,
    Port,
}

/// One instruction: operation, addressing mode, and two operands.
#[derive(Debug, Clone, Copy, PartialEq, Eq, Structural)]
pub struct Instruction {
    pub operation: Operation,
    pub operation_args: OperationArgs,
    pub a: Oprand,
    pub b: Oprand,
}

impl Operation {
    /// Only ADD and ADDC take an addressing-mode prefix.
    pub open spec fn spec_is_alu(self) -> bool {
        self == Operation::ADD || self == Operation::ADDC
    }

    pub fn is_alu_operation(&self) -> (r: bool)
        ensures
            r == self.spec_is_alu(),
    {
        matches!(self, Operation::ADD | Operation::ADDC)
    }

    /// Which operand slots the operation consumes from source text, and the
    /// kind each slot expects; `None` means the slot is not consumed and is
    /// filled with `Immediate(0)`.
    pub open spec fn spec_needed_oprands(self, args: OperationArgs) -> (Option<
        Oprand,
    >, Option<Oprand>) {
        match self {
            Operation::NOOP => (None, None),
            Operation::IMM => (Some(Oprand::Register(0)), Some(Oprand::Immediate(0))),
            Operation::MOV => (Some(Oprand::Register(0)), Some(Oprand::Register(0))),
            Operation::ADD | Operation::ADDC => match args {
                OperationArgs::X => (None, Some(Oprand::Register(0))),
                _ => (Some(Oprand::Register(0)), Some(Oprand::Register(0))),
            },
            Operation::SHR => (Some(Oprand::Register(0)), Some(Oprand::Register(0))),
            Operation::NOT => (Some(Oprand::Register(0)), Some(Oprand::Register(0))),
            Operation::OUT => (Some(Oprand::Port(0)), Some(Oprand::Register(0))),
            Operation::JMP | Operation::BIE => (Some(Oprand::Immediate(0)), None),
        }
    }

    pub fn needed_oprands(&self, args: &OperationArgs) -> (r: (Option<Oprand>, Option<Oprand>))
        ensures
            r == self.spec_needed_oprands(*args),
    {
        match self {
            Operation::NOOP => (None, None),
            Operation::IMM => (Some(Oprand::Register(0)), Some(Oprand::Immediate(0))),
            Operation::MOV => (Some(Oprand::Register(0)), Some(Oprand::Register(0))),
            Operation::ADD | Operation::ADDC => match args {
                OperationArgs::X => (None, Some(Oprand::Register(0))),
                _ => (Some(Oprand::Register(0)), Some(Oprand::Register(0))),
            },
            Operation::SHR => (Some(Oprand::Register(0)), Some(Oprand::Register(0))),
            Operation::NOT => (Some(Oprand::Register(0)), Some(Oprand::Register(0))),
            Operation::OUT => (Some(Oprand::Port(0)), Some(Oprand::Register(0))),
            Operation::JMP | Operation::BIE => (Some(Oprand::Immediate(0)), None),
        }
    }

    /// The operation's display name, padded to the width of a pipeline
    /// column.
    pub open spec fn spec_name(self) -> Seq<char> {
        match self {
            Operation::NOOP => "|         "@,
            Operation::IMM => "| IMM     "@,
            Operation::MOV => "| MOV     "@,
            Operation::ADD => "| ADD     "@,
            Operation::ADDC => "| ADDC    "@,
            Operation::OUT => "| OUT     "@,
            Operation::JMP => "| JMP     "@,
            Operation::BIE => "| BIE     "@,
            Operation::SHR => "| SHR     "@,
            Operation::NOT => "| NOT     "@,
        }
    }

    pub fn get_name(&self) -> (r: String)
        ensures
            r@ == self.spec_name(),
    {
        match self {
            Operation::NOOP => "|         ".to_owned(),
            Operation::IMM => "| IMM     ".to_owned(),
            Operation::MOV => "| MOV     ".to_owned(),
            Operation::ADD => "| ADD     ".to_owned(),
            Operation::ADDC => "| ADDC    ".to_owned(),
            Operation::OUT => "| OUT     ".to_owned(),
            Operation::JMP => "| JMP     ".to_owned(),
            Operation::BIE => "| BIE     ".to_owned(),
            Operation::SHR => "| SHR     ".to_owned(),
            Operation::NOT => "| NOT     ".to_owned(),
        }
    }
}

impl Instruction {
    /// The canonical no-op instruction, used for blank lines and padding.
    pub open spec fn spec_none() -> Instruction {
        Instruction {
            operation: Operation::NOOP,
            operation_args: OperationArgs::NoPrefix,
            a: Oprand::Immediate(0),
            b: Oprand::Immediate(0),
        }
    }

    pub fn none() -> (r: Self)
        ensures
            r == Self::spec_none(),
    {
        Self {
            operation: Operation::NOOP,
            operation_args: OperationArgs::NoPrefix,
            a: Oprand::Immediate(0),
            b: Oprand::Immediate(0),
        }
    }
}

impl Oprand {
    /// The 8-bit value carried by the operand, whatever its kind.
    pub open spec fn spec_data(self) -> u8 {
        match self {
            Oprand::Register(data) => data,
            Oprand::MemoryAddress(data) => data,
            Oprand::Immediate(data) => data,
            Oprand::Port(data) => data,
        }
    }

    pub fn data(&self) -> (r: u8)
        ensures
            r == self.spec_data(),
    {
        match self {
            Oprand::Register(data) => *data,
            Oprand::MemoryAddress(data) => *data,
            Oprand::Immediate(data) => *data,
            Oprand::Port(data) => *data,
        }
    }

    pub open spec fn spec_kind(self) -> OprandKind {
        match self {
            Oprand::Register(_) => OprandKind::Register,
            Oprand::MemoryAddress(_) => OprandKind::MemoryAddress,
            Oprand::Immediate(_) => OprandKind::Immediate,
            Oprand::Port(_) => OprandKind::Port,
        }
    }

    pub fn kind(&self) -> (r: OprandKind)
        ensures
            r == self.spec_kind(),
    {
        match self {
            Oprand::Register(_) => OprandKind::Register,
            Oprand::MemoryAddress(_) => OprandKind::MemoryAddress,
            Oprand::Immediate(_) => OprandKind::Immediate,
            Oprand::Port(_) => OprandKind::Port,
        }
    }

    pub fn get_oprand_name(&self) -> (r: String)
        ensures
            self is Register ==> r@ == "Register"@,
            self is MemoryAddress ==> r@ == "MemoryAddress"@,
            self is Immediate ==> r@ == "Immediate"@,
            self is Port ==> r@ == "Port"@,
    {
        match self {
            Oprand::Register(_) => "Register".to_owned(),
            Oprand::MemoryAddress(_) => "MemoryAddress".to_owned(),
            Oprand::Immediate(_) => "Immediate".to_owned(),
            Oprand::Port(_) => "Port".to_owned(),
        }
    }
}

/// Which operand slot a diagnostic speaks about.
#[derive(Debug, Clone, Copy, PartialEq, Eq, Structural)]
pub enum OprandSlot {
    A,
    B,
}

/// What an assembler diagnostic says, in structured form. Errors are
/// assembly-fatal; the last two variants are the only warnings.
#[derive(Debug, PartialEq, Eq)]
pub enum MessageKind {
    /// The first word of the line names no operation, stripped or not.
    NotAValidInstruction { token: Vec<u8> },
    /// A mode prefix was written on an operation outside the ALU family.
    NoAluArguments { operation: Operation },
    /// The prefix letter in front of an ALU mnemonic is not S, U or X.
    MalformedModePrefix { token: Vec<u8> },
    /// An operand token parses under none of the operand rules.
    NotAValidOprand { token: Vec<u8> },
    /// The line ran out of words before a required operand.
    MissingOprand { slot: OprandSlot },
    /// Warning: an operand parsed, but not with the kind the operation
    /// expects in that slot.
    OprandKindMismatch {
        operation: Operation,
        slot: OprandSlot,
        expected: OprandKind,
        found: OprandKind,
    },
    /// Warning: the source holds more instructions than the store.
    TooManyInstructions { count: usize },
}

/// Mathematical model of `MessageKind`, with tokens as byte sequences.
pub ghost enum MessageKindV {
    NotAValidInstruction { token: Seq<u8> },
    NoAluArguments { operation: Operation },
    MalformedModePrefix { token: Seq<u8> },
    NotAValidOprand { token: Seq<u8> },
    MissingOprand { slot: OprandSlot },
    OprandKindMismatch {
        operation: Operation,
        slot: OprandSlot,
        expected: OprandKind,
        found: OprandKind,
    },
    TooManyInstructions { count: usize },
}

impl DeepView for MessageKind {
    type V = MessageKindV;

    open spec fn deep_view(&self) -> MessageKindV {
        match self {
            MessageKind::NotAValidInstruction { token } => MessageKindV::NotAValidInstruction {
                token: token.deep_view(),
            },
            MessageKind::NoAluArguments { operation } => MessageKindV::NoAluArguments {
                operation: *operation,
            },
            MessageKind::MalformedModePrefix { token } => MessageKindV::MalformedModePrefix {
                token: token.deep_view(),
            },
            MessageKind::NotAValidOprand { token } => MessageKindV::NotAValidOprand {
                token: token.deep_view(),
            },
            MessageKind::MissingOprand { slot } => MessageKindV::MissingOprand { slot: *slot },
            MessageKind::OprandKindMismatch { operation, slot, expected, found } => {
                MessageKindV::OprandKindMismatch {
                    operation: *operation,
                    slot: *slot,
                    expected: *expected,
                    found: *found,
                }
            },
            MessageKind::TooManyInstructions { count } => MessageKindV::TooManyInstructions {
                count: *count,
            },
        }
    }
}

/// One diagnostic: the 0-based source line it speaks about, and what it
/// says.
#[derive(Debug, PartialEq, Eq)]
pub struct CompileMessage {
    pub line: usize,
    pub kind: MessageKind,
}

/// Mathematical model of `CompileMessage`.
pub ghost struct CompileMessageV {
    pub line: usize,
    pub kind: MessageKindV,
}

impl DeepView for CompileMessage {
    type V = CompileMessageV;

    open spec fn deep_view(&self) -> CompileMessageV {
        CompileMessageV { line: self.line, kind: self.kind.deep_view() }
    }
}

/// Relates an executable parse result to its model.
pub open spec fn result_matches<T>(r: Result<T, MessageKind>, s: Result<T, MessageKindV>) -> bool {
    match (r, s) {
        (Ok(a), Ok(b)) => a == b,
        (Err(e), Err(f)) => e.deep_view() == f,
        _ => false,
    }
}

/// ASCII uppercasing of one byte.
pub open spec fn spec_upper(b: u8) -> u8 {
    if 97 <= b <= 122 {
        (b - 32) as u8
    } else {
        b
    }
}

fn byte_upper(b: u8) -> (r: u8)
    ensures
        r == spec_upper(b),
{
    if 97 <= b && b <= 122 {
        b - 32
    } else {
        b
    }
}

/// A line normalized for parsing: truncated at the first `;` (comments)
/// and uppercased.
pub open spec fn spec_norm(line: Seq<u8>) -> Seq<u8> {
    take_until(line, ';' as u8).map_values(|b: u8| spec_upper(b))
}

/// Exec mirror of `spec_norm`.
pub fn norm_line(line: &[u8]) -> (r: Vec<u8>)
    ensures
        r@ == spec_norm(line@),
{
    let mut out: Vec<u8> = Vec::new();
    let mut i: usize = 0;
    while i < line.len() && line[i] != 59
        invariant
            i <= line@.len(),
            forall|k: int| 0 <= k < i ==> line@[k] != 59,
            out@ == line@.take(i as int).map_values(|b: u8| spec_upper(b)),
        decreases line@.len() - i,
    {
        out.push(byte_upper(line[i]));
        proof {
            assert(out@ =~= line@.take(i + 1).map_values(|b: u8| spec_upper(b)));
        }
        i += 1;
    }
    proof {
        if i == line@.len() {
            crate::bytes::lemma_take_until_absent(line@, 59);
        } else {
            crate::bytes::lemma_take_until_found(line@, 59, i as int);
        }
        assert(line@.take(i as int) == take_until(line@, 59));
        assert(';' as u8 == 59);
    }
    out
}

fn bytes3(t: &[u8], a: u8, b: u8, c: u8) -> (r: bool)
    ensures
        r == (t@ == seq![a, b, c]),
{
    let r = t.len() == 3 && t[0] == a && t[1] == b && t[2] == c;
    proof {
        if r {
            assert(t@ =~= seq![a, b, c]);
        } else {
            assert(t@ != seq![a, b, c]) by {
                if t@ == seq![a, b, c] {
                    assert(t@.len() == 3);
                    assert(t@[0] == a);
                    assert(t@[1] == b);
                    assert(t@[2] == c);
                }
            }
        }
    }
    r
}

fn bytes4(t: &[u8], a: u8, b: u8, c: u8, d: u8) -> (r: bool)
    ensures
        r == (t@ == seq![a, b, c, d]),
{
    let r = t.len() == 4 && t[0] == a && t[1] == b && t[2] == c && t[3] == d;
    proof {
        if r {
            assert(t@ =~= seq![a, b, c, d]);
        } else {
            assert(t@ != seq![a, b, c, d]) by {
                if t@ == seq![a, b, c, d] {
                    assert(t@.len() == 4);
                    assert(t@[0] == a);
                    assert(t@[1] == b);
                    assert(t@[2] == c);
                    assert(t@[3] == d);
                }
            }
        }
    }
    r
}

/// The mnemonic table: which operation a (normalized) word names.
pub open spec fn spec_match_operation_name(t: Seq<u8>) -> Option<Operation> {
    if t == seq!['I' as u8, 'M' as u8, 'M' as u8] {
        Some(Operation::IMM)
    } else if t == seq!['M' as u8, 'O' as u8, 'V' as u8] {
        Some(Operation::MOV)
    } else if t == seq!['A' as u8, 'D' as u8, 'D' as u8] {
        Some(Operation::ADD)
    } else if t == seq!['A' as u8, 'D' as u8, 'D' as u8, 'C' as u8] {
        Some(Operation::ADDC)
    } else if t == seq!['S' as u8, 'H' as u8, 'R' as u8] {
        Some(Operation::SHR)
    } else if t == seq!['N' as u8, 'O' as u8, 'O' as u8, 'P' as u8]
        || t == seq!['N' as u8, 'O' as u8, 'P' as u8] {
        Some(Operation::NOOP)
    } else if t == seq!['O' as u8, 'U' as u8, 'T' as u8] {
        Some(Operation::OUT)
    } else if t == seq!['J' as u8, 'M' as u8, 'P' as u8] {
        Some(Operation::JMP)
    } else if t == seq!['B' as u8, 'I' as u8, 'E' as u8] {
        Some(Operation::BIE)
    } else if t == seq!['N' as u8, 'O' as u8, 'T' as u8] {
        Some(Operation::NOT)
    } else {
        None
    }
}

/// Looks a word up in the mnemonic table.
pub fn match_operation_name(t: &[u8]) -> (r: Option<Operation>)
    ensures
        r == spec_match_operation_name(t@),
{
    if bytes3(t, 73, 77, 77) {
        Some(Operation::IMM)
    } else if bytes3(t, 77, 79, 86) {
        Some(Operation::MOV)
    } else if bytes3(t, 65, 68, 68) {
        Some(Operation::ADD)
    } else if bytes4(t, 65, 68, 68, 67) {
        Some(Operation::ADDC)
    } else if bytes3(t, 83, 72, 82) {
        Some(Operation::SHR)
    } else if bytes4(t, 78, 79, 79, 80) || bytes3(t, 78, 79, 80) {
        Some(Operation::NOOP)
    } else if bytes3(t, 79, 85, 84) {
        Some(Operation::OUT)
    } else if bytes3(t, 74, 77, 80) {
        Some(Operation::JMP)
    } else if bytes3(t, 66, 73, 69) {
        Some(Operation::BIE)
    } else if bytes3(t, 78, 79, 84) {
        Some(Operation::NOT)
    } else {
        None
    }
}

/// The addressing mode named by a prefix letter, if any.
pub open spec fn spec_mode_from_prefix(b: u8) -> Option<OperationArgs> {
    if b == 'U' as u8 {
        Some(OperationArgs::U)
    } else if b == 'S' as u8 {
        Some(OperationArgs::S)
    } else if b == 'X' as u8 {
        Some(OperationArgs::X)
    } else {
        None
    }
}

/// Reads an addressing mode off a mnemonic's first letter.
pub fn operation_args_from_str(b: u8) -> (r: Option<OperationArgs>)
    ensures
        r == spec_mode_from_prefix(b),
{
    if b == 85 {
        Some(OperationArgs::U)
    } else if b == 83 {
        Some(OperationArgs::S)
    } else if b == 88 {
        Some(OperationArgs::X)
    } else {
        None
    }
}

/// The value of an operand's numeral part, underscores ignored: a leading
/// `B` opens a binary literal, anything else is read as decimal. `None`
/// when the digits are malformed or the value does not fit in a byte.
pub open spec fn spec_parse_oprand_binary(s: Seq<u8>) -> Option<u8> {
    let t = strip_underscores(s);
    if t.len() == 0 {
        None
    } else if t[0] == 'B' as u8 {
        spec_digits_value(t.drop_first(), 2)
    } else {
        spec_digits_value(t, 10)
    }
}

/// Exec mirror of `spec_parse_oprand_binary`.
pub fn parse_oprand_binary(s: &[u8]) -> (r: Option<u8>)
    ensures
        r == spec_parse_oprand_binary(s@),
{
    let t = remove_underscores(s);
    if t.len() == 0 {
        None
    } else if t[0] == 66 {
        proof {
            assert(t@.skip(1) =~= t@.drop_first());
        }
        parse_base_digits(t.as_slice(), 1, 2)
    } else {
        proof {
            assert(t@.skip(0) =~= t@);
        }
        parse_base_digits(t.as_slice(), 0, 10)
    }
}

/// A bare, nonempty decimal numeral that fits in a byte.
pub open spec fn spec_parse_dec(s: Seq<u8>) -> Option<u8> {
    if s.len() == 0 {
        None
    } else {
        spec_digits_value(s, 10)
    }
}

fn parse_decimal(s: &[u8]) -> (r: Option<u8>)
    ensures
        r == spec_parse_dec(s@),
{
    if s.len() == 0 {
        None
    } else {
        proof {
            assert(s@.skip(0) =~= s@);
        }
        parse_base_digits(s, 0, 10)
    }
}

/// How one word reads as an operand: a bare decimal numeral is an
/// Immediate; `R`, `#` and `%` prefix Register, MemoryAddress and Port
/// values; otherwise the whole word may be a binary literal, read as an
/// Immediate; anything else is an error naming the word.
pub open spec fn spec_parse_oprand(t: Seq<u8>) -> Result<Oprand, MessageKindV> {
    match spec_parse_dec(t) {
        Some(v) => Ok(Oprand::Immediate(v)),
        None => if t.len() > 0 && t[0] == 'R' as u8 {
            match spec_parse_oprand_binary(t.drop_first()) {
                Some(v) => Ok(Oprand::Register(v)),
                None => Err(MessageKindV::NotAValidOprand { token: t }),
            }
        } else if t.len() > 0 && t[0] == '#' as u8 {
            match spec_parse_oprand_binary(t.drop_first()) {
                Some(v) => Ok(Oprand::MemoryAddress(v)),
                None => Err(MessageKindV::NotAValidOprand { token: t }),
            }
        } else if t.len() > 0 && t[0] == '%' as u8 {
            match spec_parse_oprand_binary(t.drop_first()) {
                Some(v) => Ok(Oprand::Port(v)),
                None => Err(MessageKindV::NotAValidOprand { token: t }),
            }
        } else {
            match spec_parse_oprand_binary(t) {
                Some(v) => Ok(Oprand::Immediate(v)),
                None => Err(MessageKindV::NotAValidOprand { token: t }),
            }
        },
    }
}

fn to_vec_bytes(s: &[u8]) -> (r: Vec<u8>)
    ensures
        r@ == s@,
{
    let r = copy_range(s, 0, s.len());
    proof {
        assert(s@.subrange(0, s@.len() as int) =~= s@);
    }
    r
}

/// Exec mirror of `spec_parse_oprand`.
pub fn parse_oprand(oprand: &[u8]) -> (r: Result<Oprand, MessageKind>)
    ensures
        result_matches(r, spec_parse_oprand(oprand@)),
{
    if let Some(v) = parse_decimal(oprand) {
        return Ok(Oprand::Immediate(v));
    }
    let prefixed = oprand.len() > 0 && (oprand[0] == 82 || oprand[0] == 35 || oprand[0] == 37);
    let parsed = if prefixed {
        let rest = copy_range(oprand, 1, oprand.len());
        proof {
            assert(oprand@.subrange(1, oprand@.len() as int) =~= oprand@.drop_first());
        }
        parse_oprand_binary(rest.as_slice())
    } else {
        parse_oprand_binary(oprand)
    };
    match parsed {
        Some(v) => {
            if prefixed {
                if oprand[0] == 82 {
                    Ok(Oprand::Register(v))
                } else if oprand[0] == 35 {
                    Ok(Oprand::MemoryAddress(v))
                } else {
                    Ok(Oprand::Port(v))
                }
            } else {
                Ok(Oprand::Immediate(v))
            }
        },
        None => {
            let token = to_vec_bytes(oprand);
            proof {
                assert(token.deep_view() =~= oprand@);
            }
            Err(MessageKind::NotAValidOprand { token })
        },
    }
}

/// How the first word of a line resolves to an operation and mode:
/// matched verbatim it names the operation with no prefix; matched with
/// its first letter stripped it must be an ALU operation, and the letter
/// names the mode. An empty line is the canonical no-op.
pub open spec fn spec_operation_from_tokens(toks: Seq<Seq<u8>>) -> Result<
    (Operation, OperationArgs),
    MessageKindV,
> {
    if toks.len() == 0 {
        Ok((Operation::NOOP, OperationArgs::NoPrefix))
    } else {
        let t = toks[0];
        match spec_match_operation_name(t) {
            Some(op) => Ok((op, OperationArgs::NoPrefix)),
            None => {
                let stripped = if t.len() == 0 {
                    t
                } else {
                    t.drop_first()
                };
                match spec_match_operation_name(stripped) {
                    Some(op) => if op.spec_is_alu() {
                        match spec_mode_from_prefix(t[0]) {
                            Some(mode) => Ok((op, mode)),
                            None => Err(MessageKindV::MalformedModePrefix { token: t }),
                        }
                    } else {
                        Err(MessageKindV::NoAluArguments { operation: op })
                    },
                    None => Err(MessageKindV::NotAValidInstruction { token: t }),
                }
            },
        }
    }
}

/// Exec mirror of `spec_operation_from_tokens`.
pub fn operation_from_str(toks: &Vec<Vec<u8>>) -> (r: Result<
    (Operation, OperationArgs),
    MessageKind,
>)
    ensures
        result_matches(r, spec_operation_from_tokens(toks.deep_view())),
{
    if toks.len() == 0 {
        proof {
            assert(toks.deep_view().len() == 0);
        }
        return Ok((Operation::NOOP, OperationArgs::NoPrefix));
    }
    let t = &toks[0];
    proof {
        assert(toks.deep_view()[0] =~= t@);
    }
    if let Some(op) = match_operation_name(t.as_slice()) {
        return Ok((op, OperationArgs::NoPrefix));
    }
    let stripped = if t.len() == 0 {
        to_vec_bytes(t.as_slice())
    } else {
        let r = copy_range(t.as_slice(), 1, t.len());
        proof {
            assert(t@.subrange(1, t@.len() as int) =~= t@.drop_first());
        }
        r
    };
    match match_operation_name(stripped.as_slice()) {
        Some(op) => {
            if op.is_alu_operation() {
                match operation_args_from_str(t[0]) {
                    Some(mode) => Ok((op, mode)),
                    None => {
                        let token = to_vec_bytes(t.as_slice());
                        proof {
                            assert(token.deep_view() =~= t@);
                        }
                        Err(MessageKind::MalformedModePrefix { token })
                    },
                }
            } else {
                Err(MessageKind::NoAluArguments { operation: op })
            }
        },
        None => {
            let token = to_vec_bytes(t.as_slice());
            proof {
                assert(token.deep_view() =~= t@);
            }
            Err(MessageKind::NotAValidInstruction { token })
        },
    }
}

/// How one source line parses: normalize, tokenize, resolve the mnemonic,
/// then consume one word per required operand (slot A, then slot B); a
/// slot the operation does not consume is filled with `Immediate(0)`.
/// Running out of words on a required slot is a hard error.
pub open spec fn spec_parse_line(line: Seq<u8>) -> Result<Instruction, MessageKindV> {
    let toks = spec_tokens(spec_norm(line));
    match spec_operation_from_tokens(toks) {
        Err(e) => Err(e),
        Ok((operation, operation_args)) => {
            let needs = operation.spec_needed_oprands(operation_args);
            let a_res = if needs.0 is Some {
                if toks.len() >= 2 {
                    spec_parse_oprand(toks[1])
                } else {
                    Err(MessageKindV::MissingOprand { slot: OprandSlot::A })
                }
            } else {
                Ok(Oprand::Immediate(0))
            };
            let b_index: int = if needs.0 is Some {
                2
            } else {
                1
            };
            let b_res = if needs.1 is Some {
                if toks.len() > b_index {
                    spec_parse_oprand(toks[b_index])
                } else {
                    Err(MessageKindV::MissingOprand { slot: OprandSlot::B })
                }
            } else {
                Ok(Oprand::Immediate(0))
            };
            match (a_res, b_res) {
                (Ok(a), Ok(b)) => Ok(Instruction { operation, operation_args, a, b }),
                (Err(e), _) => Err(e),
                (_, Err(e)) => Err(e),
            }
        },
    }
}

/// Exec mirror of `spec_parse_line`.
pub fn parse_line(line: &[u8]) -> (r: Result<Instruction, MessageKind>)
    ensures
        result_matches(r, spec_parse_line(line@)),
{
    let normed = norm_line(line);
    let toks = tokenize(normed.as_slice());
    let ghost toks_v = spec_tokens(spec_norm(line@));
    let (operation, operation_args) = match operation_from_str(&toks) {
        Ok(p) => p,
        Err(e) => {
            return Err(e);
        },
    };
    let needs = operation.needed_oprands(&operation_args);
    let a = if needs.0.is_some() {
        if toks.len() >= 2 {
            proof {
                assert(toks.deep_view()[1] =~= toks[1]@);
            }
            match parse_oprand(toks[1].as_slice()) {
                Ok(o) => o,
                Err(e) => {
                    return Err(e);
                },
            }
        } else {
            return Err(MessageKind::MissingOprand { slot: OprandSlot::A });
        }
    } else {
        Oprand::Immediate(0)
    };
    let b_index: usize = if needs.0.is_some() {
        2
    } else {
        1
    };
    let b = if needs.1.is_some() {
        if toks.len() > b_index {
            proof {
                assert(toks.deep_view()[b_index as int] =~= toks[b_index as int]@);
            }
            match parse_oprand(toks[b_index].as_slice()) {
                Ok(o) => o,
                Err(e) => {
                    return Err(e);
                },
            }
        } else {
            return Err(MessageKind::MissingOprand { slot: OprandSlot::B });
        }
    } else {
        Oprand::Immediate(0)
    };
    Ok(Instruction { operation, operation_args, a, b })
}

/// The kind-mismatch warnings one instruction earns on its line: one per
/// consumed slot whose parsed kind differs from the expected kind, slot A
/// first.
pub open spec fn spec_instr_warnings(instr: Instruction, line: usize) -> Seq<CompileMessageV> {
    let needs = instr.operation.spec_needed_oprands(instr.operation_args);
    let wa: Seq<CompileMessageV> = match needs.0 {
        Some(expected) => if expected.spec_kind() != instr.a.spec_kind() {
            seq![
                CompileMessageV {
                    line,
                    kind: MessageKindV::OprandKindMismatch {
                        operation: instr.operation,
                        slot: OprandSlot::A,
                        expected: expected.spec_kind(),
                        found: instr.a.spec_kind(),
                    },
                },
            ]
        } else {
            Seq::<CompileMessageV>::empty()
        },
        None => Seq::<CompileMessageV>::empty(),
    };
    let wb: Seq<CompileMessageV> = match needs.1 {
        Some(expected) => if expected.spec_kind() != instr.b.spec_kind() {
            seq![
                CompileMessageV {
                    line,
                    kind: MessageKindV::OprandKindMismatch {
                        operation: instr.operation,
                        slot: OprandSlot::B,
                        expected: expected.spec_kind(),
                        found: instr.b.spec_kind(),
                    },
                },
            ]
        } else {
            Seq::<CompileMessageV>::empty()
        },
        None => Seq::<CompileMessageV>::empty(),
    };
    wa + wb
}

/// All kind-mismatch warnings of an instruction list, in line order.
pub open spec fn spec_kind_warnings(instrs: Seq<Instruction>) -> Seq<CompileMessageV>
    decreases instrs.len(),
{
    if instrs.len() == 0 {
        Seq::<CompileMessageV>::empty()
    } else {
        spec_kind_warnings(instrs.drop_last())
            + spec_instr_warnings(instrs.last(), (instrs.len() - 1) as usize)
    }
}

/// Every warning of an instruction list: the kind mismatches, then a size
/// warning when the list outgrows the 32-slot store.
pub open spec fn spec_warnings(instrs: Seq<Instruction>) -> Seq<CompileMessageV> {
    spec_kind_warnings(instrs) + if instrs.len() > 32 {
        seq![
            CompileMessageV {
                line: 32,
                kind: MessageKindV::TooManyInstructions { count: instrs.len() as usize },
            },
        ]
    } else {
        Seq::<CompileMessageV>::empty()
    }
}

fn push_mismatch_warning(
    warnings: &mut Vec<CompileMessage>,
    instr: &Instruction,
    line: usize,
    slot: OprandSlot,
    expected: Oprand,
    found: Oprand,
)
    ensures
        final(warnings)@ == old(warnings)@.push(
            CompileMessage {
                line,
                kind: MessageKind::OprandKindMismatch {
                    operation: instr.operation,
                    slot,
                    expected: expected.spec_kind(),
                    found: found.spec_kind(),
                },
            },
        ),
{
    let kind = MessageKind::OprandKindMismatch {
        operation: instr.operation,
        slot,
        expected: expected.kind(),
        found: found.kind(),
    };
    warnings.push(CompileMessage { line, kind });
}

/// Appends every warning of `instructions` to `warnings`, as
/// `spec_warnings` describes them.
pub fn add_warnings(instructions: &Vec<Instruction>, warnings: &mut Vec<CompileMessage>)
    ensures
        final(warnings).deep_view() == old(warnings).deep_view()
            + spec_warnings(instructions@),
{
    let mut line: usize = 0;
    while line < instructions.len()
        invariant
            line <= instructions@.len(),
            warnings.deep_view() == old(warnings).deep_view()
                + spec_kind_warnings(instructions@.take(line as int)),
        decreases instructions@.len() - line,
    {
        let instr = &instructions[line];
        let ghost w0 = warnings.deep_view();
        let ghost iw = spec_instr_warnings(instructions@[line as int], line);
        let needs = instr.operation.needed_oprands(&instr.operation_args);
        if let Some(expected) = needs.0 {
            if expected.kind() != instr.a.kind() {
                push_mismatch_warning(warnings, instr, line, OprandSlot::A, expected, instr.a);
            }
        }
        if let Some(expected) = needs.1 {
            if expected.kind() != instr.b.kind() {
                push_mismatch_warning(warnings, instr, line, OprandSlot::B, expected, instr.b);
            }
        }
        proof {
            assert(warnings.deep_view() =~~= w0 + iw);
            assert(instructions@.take(line + 1).drop_last() =~= instructions@.take(line as int));
            assert(instructions@.take(line + 1).last() == instructions@[line as int]);
            assert(spec_kind_warnings(instructions@.take(line + 1))
                == spec_kind_warnings(instructions@.take(line as int)) + iw);
            assert(warnings.deep_view() =~~= old(warnings).deep_view()
                + spec_kind_warnings(instructions@.take(line + 1)));
        }
        line += 1;
    }
    proof {
        assert(instructions@.take(line as int) =~= instructions@);
    }
    let ghost wk = warnings.deep_view();
    if instructions.len() > 32 {
        let msg = CompileMessage {
            line: 32,
            kind: MessageKind::TooManyInstructions { count: instructions.len() },
        };
        let ghost msg_v = msg.deep_view();
        warnings.push(msg);
        proof {
            assert(warnings.deep_view() =~~= wk.push(msg_v));
            assert(spec_warnings(instructions@) == spec_kind_warnings(instructions@)
                + seq![msg_v]);
            assert(warnings.deep_view() =~~= old(warnings).deep_view()
                + spec_warnings(instructions@));
        }
    } else {
        proof {
            assert(warnings.deep_view() =~~= old(warnings).deep_view()
                + spec_warnings(instructions@));
        }
    }
}

/// The instructions that the parsable lines yield, in source order; lines
/// that fail to parse contribute nothing here (they land in the errors).
pub open spec fn spec_asm_instrs(lines: Seq<Seq<u8>>) -> Seq<Instruction>
    decreases lines.len(),
{
    if lines.len() == 0 {
        Seq::<Instruction>::empty()
    } else {
        spec_asm_instrs(lines.drop_last()) + match spec_parse_line(lines.last()) {
            Ok(instr) => seq![instr],
            Err(_) => Seq::<Instruction>::empty(),
        }
    }
}

/// The errors the lines yield, each carrying its 0-based line number, in
/// source order. Every line is parsed: assembly never stops at the first
/// error.
pub open spec fn spec_asm_errors(lines: Seq<Seq<u8>>) -> Seq<CompileMessageV>
    decreases lines.len(),
{
    if lines.len() == 0 {
        Seq::<CompileMessageV>::empty()
    } else {
        spec_asm_errors(lines.drop_last()) + match spec_parse_line(lines.last()) {
            Ok(_) => Seq::<CompileMessageV>::empty(),
            Err(e) => seq![CompileMessageV { line: (lines.len() - 1) as usize, kind: e }],
        }
    }
}

/// The final 32-slot store: short sources are padded with the canonical
/// no-op, long ones are cut at the 32nd instruction (the size warning
/// having already said so).
pub open spec fn spec_program_layout(instrs: Seq<Instruction>) -> Seq<Instruction> {
    if instrs.len() >= 32 {
        instrs.take(32)
    } else {
        instrs + Seq::<Instruction>::new((32 - instrs.len()) as nat, |i: int| Instruction::spec_none())
    }
}

/// Law: whatever the source yielded, the laid-out program holds exactly 32
/// instructions.
pub proof fn lemma_program_layout_len(instrs: Seq<Instruction>)
    ensures
        spec_program_layout(instrs).len() == 32,
{
}

/// Law: assembly is deterministic. Everything `assemble` promises is a
/// function of the source text alone, so two runs on identical sources
/// yield identical programs, errors and warnings.
pub proof fn lemma_assemble_deterministic(s1: Seq<u8>, s2: Seq<u8>)
    requires
        s1 == s2,
    ensures
        spec_asm_instrs(spec_lines(s1)) == spec_asm_instrs(spec_lines(s2)),
        spec_asm_errors(spec_lines(s1)) == spec_asm_errors(spec_lines(s2)),
        spec_warnings(spec_asm_instrs(spec_lines(s1)))
            == spec_warnings(spec_asm_instrs(spec_lines(s2))),
        spec_program_layout(spec_asm_instrs(spec_lines(s1)))
            == spec_program_layout(spec_asm_instrs(spec_lines(s2))),
{
}

/// A validated program: exactly 32 instructions, owned by the emulator
/// once loaded and never mutated after.
#[derive(Debug)]
pub struct Program {
    pub instructions: Vec<Instruction>,
}

impl Program {
    /// The program invariant: the store holds exactly 32 instructions.
    pub open spec fn wf(&self) -> bool {
        self.instructions@.len() == 32
    }
}

/// What one run of the assembler returns: the program when no line
/// errored, and both diagnostic lists either way.
#[derive(Debug)]
pub struct AssembleResult {
    pub program: Option<Program>,
    pub errors: Vec<CompileMessage>,
    pub warnings: Vec<CompileMessage>,
}

pub struct ProgramLoader;

impl ProgramLoader {
    /// Assembles source text: parses every line, collects all errors and
    /// warnings, and lays out the 32-slot program when no error occurred.
    pub fn assemble(source: &[u8]) -> (r: AssembleResult)
        ensures
            ({
                let lines = spec_lines(source@);
                let instrs = spec_asm_instrs(lines);
                &&& r.errors.deep_view() == spec_asm_errors(lines)
                &&& r.warnings.deep_view() == spec_warnings(instrs)
                &&& (r.program is Some <==> spec_asm_errors(lines).len() == 0)
                &&& (r.program matches Some(p) ==> p.instructions@ == spec_program_layout(
                    instrs,
                ) && p.wf())
            }),
    {
        let lines = split_lines(source);
        let ghost lines_v = spec_lines(source@);
        let mut instructions: Vec<Instruction> = Vec::new();
        let mut errors: Vec<CompileMessage> = Vec::new();
        let mut i: usize = 0;
        proof {
            assert(instructions@ =~= spec_asm_instrs(lines_v.take(0)));
            assert(errors.deep_view() =~~= spec_asm_errors(lines_v.take(0)));
        }
        while i < lines.len()
            invariant
                i <= lines@.len(),
                lines.deep_view() == lines_v,
                instructions@ == spec_asm_instrs(lines_v.take(i as int)),
                errors.deep_view() == spec_asm_errors(lines_v.take(i as int)),
            decreases lines@.len() - i,
        {
            proof {
                assert(lines.deep_view()[i as int] =~= lines[i as int]@);
                assert(lines_v.take(i + 1).drop_last() =~= lines_v.take(i as int));
                assert(lines_v.take(i + 1).last() == lines_v[i as int]);
            }
            match parse_line(lines[i].as_slice()) {
                Ok(instr) => {
                    instructions.push(instr);
                    proof {
                        assert(instructions@ =~= spec_asm_instrs(lines_v.take(i + 1)));
                        assert(errors.deep_view() =~~= spec_asm_errors(lines_v.take(i + 1)));
                    }
                },
                Err(e) => {
                    errors.push(CompileMessage { line: i, kind: e });
                    proof {
                        assert(instructions@ =~= spec_asm_instrs(lines_v.take(i + 1)));
                        assert(errors.deep_view() =~~= spec_asm_errors(lines_v.take(i + 1)));
                    }
                },
            }
            i += 1;
        }
        proof {
            assert(lines_v.take(i as int) =~= lines_v);
        }
        let ghost instrs_v = spec_asm_instrs(lines_v);
        let mut warnings: Vec<CompileMessage> = Vec::new();
        add_warnings(&instructions, &mut warnings);
        proof {
            assert(Seq::<CompileMessageV>::empty() + spec_warnings(instrs_v)
                =~~= spec_warnings(instrs_v));
        }
        if errors.len() > 0 {
            return AssembleResult { program: None, errors, warnings };
        }
        if instructions.len() > 32 {
            instructions.truncate(32);
            proof {
                assert(instructions@ =~= spec_program_layout(instrs_v));
            }
        } else {
            proof {
                assert(instructions@ =~= spec_program_layout(instrs_v).take(
                    instructions@.len() as int,
                ));
            }
            while instructions.len() < 32
                invariant
                    instrs_v.len() <= instructions@.len() <= 32,
                    instructions@ == spec_program_layout(instrs_v).take(
                        instructions@.len() as int,
                    ),
                decreases 32 - instructions@.len(),
            {
                instructions.push(Instruction::none());
                proof {
                    assert(instructions@ =~= spec_program_layout(instrs_v).take(
                        instructions@.len() as int,
                    ));
                }
            }
            proof {
                assert(instructions@ =~= spec_program_layout(instrs_v));
            }
        }
        AssembleResult { program: Some(Program { instructions }), errors, warnings }
    }
}

} // verus!
