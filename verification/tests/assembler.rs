use electron::parser::CompileMessage;
use electron::parser::Instruction;
use electron::parser::MessageKind;
use electron::parser::Operation;
use electron::parser::OperationArgs;
use electron::parser::Oprand;
use electron::parser::OprandKind;
use electron::parser::OprandSlot;
use electron::parser::ProgramLoader;

fn noop() -> Instruction {
    Instruction {
        operation: Operation::NOOP,
        operation_args: OperationArgs::NoPrefix,
        a: Oprand::Immediate(0),
        b: Oprand::Immediate(0),
    }
}

#[test]
fn short_source_pads_to_exactly_32() {
    let r = ProgramLoader::assemble(b"IMM R1 5\n");
    assert!(r.errors.is_empty());
    let p = r.program.expect("clean source must assemble");
    assert_eq!(p.instructions.len(), 32);
    assert_eq!(
        p.instructions[0],
        Instruction {
            operation: Operation::IMM,
            operation_args: OperationArgs::NoPrefix,
            a: Oprand::Register(1),
            b: Oprand::Immediate(5),
        }
    );
    for i in 1..32 {
        assert_eq!(p.instructions[i], noop());
    }
}

#[test]
fn empty_source_is_all_noops() {
    let r = ProgramLoader::assemble(b"");
    assert!(r.errors.is_empty());
    assert!(r.warnings.is_empty());
    let p = r.program.expect("empty source must assemble");
    assert_eq!(p.instructions.len(), 32);
    for i in 0..32 {
        assert_eq!(p.instructions[i], noop());
    }
}

#[test]
fn long_source_is_exactly_32_with_size_warning() {
    let mut src = String::new();
    for _ in 0..40 {
        src.push_str("NOOP\n");
    }
    let r = ProgramLoader::assemble(src.as_bytes());
    assert!(r.errors.is_empty());
    assert_eq!(
        r.warnings,
        vec![CompileMessage {
            line: 32,
            kind: MessageKind::TooManyInstructions { count: 40 },
        }]
    );
    let p = r.program.expect("oversized but clean source still assembles");
    assert_eq!(p.instructions.len(), 32);
}

#[test]
fn xadd_assembles_with_mode_x_and_absent_operand_a() {
    let r = ProgramLoader::assemble(b"XADD R1 R2\n");
    assert!(r.errors.is_empty());
    let p = r.program.unwrap();
    assert_eq!(
        p.instructions[0],
        Instruction {
            operation: Operation::ADD,
            operation_args: OperationArgs::X,
            a: Oprand::Immediate(0),
            b: Oprand::Register(1),
        }
    );
}

#[test]
fn xmov_fails_operation_takes_no_alu_arguments() {
    let r = ProgramLoader::assemble(b"XMOV R1 R2\n");
    assert!(r.program.is_none());
    assert_eq!(
        r.errors,
        vec![CompileMessage {
            line: 0,
            kind: MessageKind::NoAluArguments { operation: Operation::MOV },
        }]
    );
}

#[test]
fn malformed_operand_token_names_token_and_line() {
    let r = ProgramLoader::assemble(b"NOOP\nADD R1 RZZ\n");
    assert!(r.program.is_none());
    assert_eq!(
        r.errors,
        vec![CompileMessage {
            line: 1,
            kind: MessageKind::NotAValidOprand { token: b"RZZ".to_vec() },
        }]
    );
}

#[test]
fn assembling_twice_is_deterministic() {
    let src: &[u8] = b"IMM R1 200\nADD R1 R2\nout %3 r1 ; comment\nBAD LINE\nIMM 5 5\n";
    let r1 = ProgramLoader::assemble(src);
    let r2 = ProgramLoader::assemble(src);
    assert_eq!(r1.errors, r2.errors);
    assert_eq!(r1.warnings, r2.warnings);
    assert_eq!(r1.program.is_some(), r2.program.is_some());
    if let (Some(p1), Some(p2)) = (r1.program, r2.program) {
        assert_eq!(p1.instructions, p2.instructions);
    }
}

#[test]
fn comments_blank_lines_and_case_fold() {
    let r = ProgramLoader::assemble(b"  ; a comment line\n\nimm r2 7 ; trailing\n");
    assert!(r.errors.is_empty());
    let p = r.program.unwrap();
    assert_eq!(p.instructions[0], noop());
    assert_eq!(p.instructions[1], noop());
    assert_eq!(
        p.instructions[2],
        Instruction {
            operation: Operation::IMM,
            operation_args: OperationArgs::NoPrefix,
            a: Oprand::Register(2),
            b: Oprand::Immediate(7),
        }
    );
}

#[test]
fn binary_literals_and_underscores() {
    let r = ProgramLoader::assemble(b"IMM R1 B1010_1010\nIMM RB11 5\nJMP B100000\n");
    assert!(r.errors.is_empty());
    let p = r.program.unwrap();
    assert_eq!(p.instructions[0].b, Oprand::Immediate(170));
    assert_eq!(p.instructions[1].a, Oprand::Register(3));
    assert_eq!(p.instructions[2].a, Oprand::Immediate(32));
}

#[test]
fn operand_kind_mismatch_is_warning_not_error() {
    let r = ProgramLoader::assemble(b"IMM 5 5\n");
    assert!(r.errors.is_empty());
    assert_eq!(
        r.warnings,
        vec![CompileMessage {
            line: 0,
            kind: MessageKind::OprandKindMismatch {
                operation: Operation::IMM,
                slot: OprandSlot::A,
                expected: OprandKind::Register,
                found: OprandKind::Immediate,
            },
        }]
    );
    let p = r.program.expect("warnings never block assembly");
    assert_eq!(p.instructions[0].a, Oprand::Immediate(5));
}

#[test]
fn missing_required_operand_is_error() {
    let r = ProgramLoader::assemble(b"IMM R1\n");
    assert!(r.program.is_none());
    assert_eq!(
        r.errors,
        vec![CompileMessage {
            line: 0,
            kind: MessageKind::MissingOprand { slot: OprandSlot::B },
        }]
    );
}

#[test]
fn bad_mode_prefix_letter_is_malformed_instruction() {
    let r = ProgramLoader::assemble(b"QADD R1 R2\n");
    assert!(r.program.is_none());
    assert_eq!(
        r.errors,
        vec![CompileMessage {
            line: 0,
            kind: MessageKind::MalformedModePrefix { token: b"QADD".to_vec() },
        }]
    );
}

#[test]
fn nop_is_an_alias_for_noop() {
    let r = ProgramLoader::assemble(b"NOP\n");
    assert!(r.errors.is_empty());
    assert_eq!(r.program.unwrap().instructions[0], noop());
}

#[test]
fn unknown_mnemonic_is_error() {
    let r = ProgramLoader::assemble(b"FROB R1 R2\n");
    assert!(r.program.is_none());
    assert_eq!(
        r.errors,
        vec![CompileMessage {
            line: 0,
            kind: MessageKind::NotAValidInstruction { token: b"FROB".to_vec() },
        }]
    );
}

#[test]
fn oversized_numerals_are_operand_errors() {
    let r = ProgramLoader::assemble(b"IMM R1 300\nIMM R2 B111111111\n");
    assert!(r.program.is_none());
    assert_eq!(
        r.errors,
        vec![
            CompileMessage {
                line: 0,
                kind: MessageKind::NotAValidOprand { token: b"300".to_vec() },
            },
            CompileMessage {
                line: 1,
                kind: MessageKind::NotAValidOprand { token: b"B111111111".to_vec() },
            },
        ]
    );
}

#[test]
fn errors_are_collected_across_all_lines() {
    let r = ProgramLoader::assemble(b"FOO\nIMM R1 5\nBAR\n");
    assert!(r.program.is_none());
    assert_eq!(r.errors.len(), 2);
    assert_eq!(r.errors[0].line, 0);
    assert_eq!(r.errors[1].line, 2);
}

#[test]
fn out_and_port_operands() {
    let r = ProgramLoader::assemble(b"OUT %3 R2\n");
    assert!(r.errors.is_empty());
    let p = r.program.unwrap();
    assert_eq!(
        p.instructions[0],
        Instruction {
            operation: Operation::OUT,
            operation_args: OperationArgs::NoPrefix,
            a: Oprand::Port(3),
            b: Oprand::Register(2),
        }
    );
}

#[test]
fn memory_address_operand_parses() {
    let r = ProgramLoader::assemble(b"JMP #4\n");
    assert!(r.errors.is_empty());
    let p = r.program.unwrap();
    assert_eq!(p.instructions[0].a, Oprand::MemoryAddress(4));
    assert_eq!(
        r.warnings,
        vec![CompileMessage {
            line: 0,
            kind: MessageKind::OprandKindMismatch {
                operation: Operation::JMP,
                slot: OprandSlot::A,
                expected: OprandKind::Immediate,
                found: OprandKind::MemoryAddress,
            },
        }]
    );
}

#[test]
fn operation_name_padding() {
    assert_eq!(Operation::IMM.get_name(), "| IMM     ");
    assert_eq!(Operation::NOOP.get_name(), "|         ");
    assert_eq!(Operation::ADDC.get_name(), "| ADDC    ");
}

#[test]
fn oprand_data_ignores_kind() {
    assert_eq!(Oprand::Register(7).data(), 7);
    assert_eq!(Oprand::MemoryAddress(9).data(), 9);
    assert_eq!(Oprand::Immediate(255).data(), 255);
    assert_eq!(Oprand::Port(3).data(), 3);
}
