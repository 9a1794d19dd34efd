use electron::emulator::Emulator;
use electron::parser::Operation;
use electron::parser::Program;
use electron::parser::ProgramLoader;

fn load(src: &[u8]) -> Program {
    let r = ProgramLoader::assemble(src);
    assert!(r.errors.is_empty(), "test program must assemble: {:?}", r.errors);
    r.program.unwrap()
}

fn run(src: &[u8], cycles: usize) -> Emulator {
    let mut emulator = Emulator::new(load(src));
    for _ in 0..cycles {
        emulator.clock();
    }
    emulator
}

#[test]
fn register_zero_always_reads_zero() {
    let mut emulator = Emulator::new(load(b""));
    assert_eq!(emulator.registers.read(0), 0);
    emulator.registers.write(0, 99);
    assert_eq!(emulator.registers.read(0), 0);
    emulator.registers.write(0, 1);
    emulator.registers.write(0, 255);
    assert_eq!(emulator.registers.read(0), 0);
    // and through the machine itself: an IMM aimed at register 0
    let emulator = run(b"IMM R0 7\n", 8);
    assert_eq!(emulator.registers.read(0), 0);
}

#[test]
fn register_writes_out_of_range_are_dropped() {
    let mut emulator = Emulator::new(load(b""));
    emulator.registers.write(200, 5);
    assert_eq!(emulator.registers.read(200), 0);
    emulator.registers.write(3, 7);
    assert_eq!(emulator.registers.read(3), 7);
}

#[test]
fn double_add_wraps_and_sets_flags_from_raw_inputs() {
    // ADD R1 R2 twice, no mode prefix: neither ADD writes a register back,
    // so both see R1=200, R2=100. The sum 300 wraps by the machine's
    // subtract-255 rule to 45.
    let emulator = run(b"IMM R1 200\nIMM R2 100\nADD R1 R2\nADD R1 R2\n", 6);
    assert_eq!(emulator.alu.accumalator, 45);
    assert!(emulator.alu.flags.over_flow);
    assert!(emulator.alu.flags.greater_than);
    assert!(!emulator.alu.flags.equals);
    assert!(!emulator.alu.flags.less_than);
    // R1 untouched: mode-less ADD has no write-back
    assert_eq!(emulator.registers.read(1), 200);
}

#[test]
fn imm_takes_effect_only_after_write_back_latency() {
    let mut emulator = Emulator::new(load(b"IMM R3 5\n"));
    // fetch, decode, execute: three cycles in, nothing is committed yet
    for _ in 0..3 {
        emulator.clock();
        assert_eq!(emulator.registers.read(3), 0);
    }
    // the fourth cycle's write-back commits the value
    emulator.clock();
    assert_eq!(emulator.registers.read(3), 5);
}

#[test]
fn jmp_at_address_3_lands_on_11() {
    // JMP 10 sits at address 3; its execute happens on cycle 6, which sets
    // the counter to 10, and the same cycle's increment leaves 11.
    let emulator = run(b"NOOP\nNOOP\nNOOP\nJMP 10\n", 6);
    assert_eq!(emulator.program_counter, 11);
}

#[test]
fn jmp_target_31_wraps_to_zero() {
    // JMP 31 at address 0 executes on cycle 3: counter 31, then the
    // increment wraps it to 0.
    let emulator = run(b"JMP 31\n", 3);
    assert_eq!(emulator.program_counter, 0);
}

#[test]
fn jmp_target_is_reduced_to_the_5_bit_address_space() {
    // 200 is no address of the 32-slot store; the counter is 5-bit, so the
    // jump lands on 200 mod 32 = 8, and the increment leaves 9.
    let emulator = run(b"JMP 200\n", 3);
    assert_eq!(emulator.program_counter, 9);
}

#[test]
fn imm_to_out_of_range_register_is_dropped() {
    let emulator = run(b"IMM R200 5\n", 8);
    for i in 0..=255u8 {
        assert_eq!(emulator.registers.read(i), 0);
    }
}

#[test]
fn jmp_landing_is_independent_of_program_length() {
    // the same jump, in a source that fills all 32 slots
    let mut src = Vec::new();
    src.extend_from_slice(b"NOOP\nNOOP\nNOOP\nJMP 10\n");
    for _ in 4..32 {
        src.extend_from_slice(b"NOOP\n");
    }
    let emulator = run(&src, 6);
    assert_eq!(emulator.program_counter, 11);
}

#[test]
fn pipeline_stages_advance_one_per_cycle() {
    // After two cycles the three front stages must hold three DIFFERENT
    // instructions; forward-order stage evaluation would smear the fetched
    // instruction across them.
    let emulator = run(b"IMM R1 1\nMOV R2 R1\nOUT %0 R1\n", 2);
    assert_eq!(emulator.fetch_register.operation, Operation::MOV);
    assert_eq!(emulator.decode_register.operation, Operation::IMM);
    assert_eq!(emulator.execute_register.operation, Operation::NOOP);
    assert_eq!(emulator.write_back_register.operation, Operation::NOOP);
    let emulator = run(b"IMM R1 1\nMOV R2 R1\nOUT %0 R1\n", 3);
    assert_eq!(emulator.fetch_register.operation, Operation::OUT);
    assert_eq!(emulator.decode_register.operation, Operation::MOV);
    assert_eq!(emulator.execute_register.operation, Operation::IMM);
    assert_eq!(emulator.write_back_register.operation, Operation::NOOP);
}

#[test]
fn out_latches_register_value_onto_port() {
    let emulator = run(b"IMM R1 42\nOUT %2 R1\n", 5);
    assert_eq!(emulator.ports.out[2], 42);
    for (i, v) in emulator.ports.out.iter().enumerate() {
        if i != 2 {
            assert_eq!(*v, 0);
        }
    }
}

#[test]
fn out_to_out_of_range_port_is_dropped() {
    let emulator = run(b"IMM R1 1\nOUT %9 R1\n", 5);
    assert_eq!(emulator.ports.out, [0u8; 8]);
}

#[test]
fn s_mode_add_writes_accumulator_back() {
    // after 5 cycles the SADD has just executed: the sum sits in the
    // accumulator but is not yet written back
    let emulator = run(b"IMM R1 10\nIMM R2 20\nSADD R1 R2\n", 5);
    assert_eq!(emulator.alu.accumalator, 30);
    assert_eq!(emulator.registers.read(1), 10);
    // the sixth cycle's write-back commits it to R1
    let emulator = run(b"IMM R1 10\nIMM R2 20\nSADD R1 R2\n", 6);
    assert_eq!(emulator.registers.read(1), 30);
}

#[test]
fn u_mode_add_reads_accumulator_as_input_a() {
    // ADD leaves the accumulator at 10; UADD then adds R1 to it and the U
    // mode writes the result back to R1.
    let emulator = run(b"IMM R1 5\nADD R1 R1\nUADD R1 R1\n", 7);
    assert_eq!(emulator.registers.read(1), 15);
}

#[test]
fn addc_adds_one_extra() {
    let emulator = run(b"IMM R1 10\nIMM R2 20\nSADDC R1 R2\n", 6);
    assert_eq!(emulator.registers.read(1), 31);
}

#[test]
fn mov_copies_between_registers() {
    let emulator = run(b"IMM R1 9\nMOV R2 R1\n", 5);
    assert_eq!(emulator.registers.read(2), 9);
}

#[test]
fn bie_behaves_as_noop_at_runtime() {
    let emulator = run(b"IMM R1 9\nBIE 3\n", 8);
    // nothing jumped, nothing written beyond the IMM
    assert_eq!(emulator.registers.read(1), 9);
    assert_eq!(emulator.program_counter, 8);
}

#[test]
fn program_counter_wraps_after_address_31() {
    let emulator = run(b"", 33);
    assert_eq!(emulator.program_counter, 1);
}

#[test]
fn input_lines_are_host_settable_and_clamped() {
    let mut emulator = Emulator::new(load(b""));
    emulator.ports.input[3] = 9;
    assert_eq!(emulator.ports._read_in(3), 9);
    assert_eq!(emulator.ports._read_in(200), 0);
}

#[test]
fn noop_execute_grounds_accumulator_and_compares_zeros() {
    // the ALU runs every cycle: a NOOP reaching execute compares two zero
    // inputs and grounds the accumulator
    let emulator = run(b"", 3);
    assert_eq!(emulator.alu.accumalator, 0);
    assert!(emulator.alu.flags.equals);
    assert!(!emulator.alu.flags.over_flow);
}
