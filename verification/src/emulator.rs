//! The pipeline emulator: a four-stage, single-buffered pipeline over a
//! fixed 32-slot program, with a register file, an ALU with condition
//! flags, and memory-mapped ports.

use vstd::prelude::*;

use crate::parser::Instruction;
use crate::parser::Operation;
use crate::parser::OperationArgs;
use crate::parser::Program;

verus! {

/// The arithmetic-logic unit: one accumulator byte and the condition flags
/// recomputed from its two inputs every execute cycle.
#[derive(Debug, Clone, Copy, PartialEq, Eq, Structural)]
pub struct Alu {
    pub accumalator: u8,
    pub flags: AluFlags,
}

/// Condition flags: all compare the ALU's raw inputs, except `over_flow`,
/// which looks at the sum.
#[derive(Debug, Clone, Copy, PartialEq, Eq, Structural)]
pub struct AluFlags {
    pub equals: bool,
    pub greater_than: bool,
    pub less_than: bool,
    pub over_flow: bool,
}

/// The register file: 8 byte-wide cells, of which register 0 is hardwired
/// ground and always reads as 0.
#[derive(Debug)]
pub struct Registers {
    regs: [u8; 8],
}

/// What a read of `address` returns in register-file state `regs`:
/// register 0 is ground, out-of-range addresses read as 0.
pub open spec fn spec_read_reg(regs: Seq<u8>, address: u8) -> u8 {
    if address == 0 {
        0
    } else if (address as int) < regs.len() {
        regs[address as int]
    } else {
        0
    }
}

/// What a write of `data` to `address` leaves behind: out-of-range writes
/// are dropped.
pub open spec fn spec_write_reg(regs: Seq<u8>, address: u8, data: u8) -> Seq<u8> {
    if (address as int) < regs.len() {
        regs.update(address as int, data)
    } else {
        regs
    }
}

impl Registers {
    pub closed spec fn view(&self) -> Seq<u8> {
        self.regs@
    }

    pub fn write(&mut self, address: u8, data: u8)
        ensures
            final(self)@ == spec_write_reg(old(self)@, address, data),
    {
        if (address as usize) < 8 {
            self.regs[address as usize] = data;
        }
        proof {
            assert(self@ =~= spec_write_reg(old(self)@, address, data));
        }
    }

    pub fn read(&self, address: u8) -> (r: u8)
        ensures
            r == spec_read_reg(self@, address),
            address == 0 ==> r == 0,
    {
        if address == 0 {
            0
        } else if (address as usize) < 8 {
            self.regs[address as usize]
        } else {
            0
        }
    }
}

/// Law: register 0 reads as 0 in every register-file state — in particular
/// after any sequence of writes, including writes to register 0 itself.
pub proof fn lemma_register_zero_reads_zero(regs: Seq<u8>)
    ensures
        spec_read_reg(regs, 0) == 0,
{
}

/// The port space: 8 byte-wide output latches the emulator writes, and 8
/// input lines an outside host may set.
#[derive(Debug)]
pub struct Ports {
    pub out: [u8; 8],
    pub input: [u8; 8],
}

/// What a port write leaves on the output latches: out-of-range writes are
/// dropped.
pub open spec fn spec_write_port(out: Seq<u8>, address: u8, data: u8) -> Seq<u8> {
    if (address as int) < out.len() {
        out.update(address as int, data)
    } else {
        out
    }
}

impl Ports {
    pub fn write_out(&mut self, address: u8, data: u8)
        ensures
            final(self).out@ == spec_write_port(old(self).out@, address, data),
            final(self).input == old(self).input,
    {
        if (address as usize) < 8 {
            self.out[address as usize] = data;
        }
        proof {
            assert(self.out@ =~= spec_write_port(old(self).out@, address, data));
        }
    }

    pub fn _read_in(&self, address: u8) -> (r: u8)
        ensures
            r == if (address as int) < self.input@.len() {
                self.input@[address as int]
            } else {
                0
            },
    {
        if (address as usize) < 8 {
            self.input[address as usize]
        } else {
            0
        }
    }
}

/// Where ALU input A comes from: a register named by operand A under no
/// prefix or S, the accumulator itself under U or X.
pub open spec fn spec_alu_input_a(alu: Alu, regs: Seq<u8>, instruction: Instruction) -> u8 {
    match instruction.operation_args {
        OperationArgs::NoPrefix | OperationArgs::S => spec_read_reg(
            regs,
            instruction.a.spec_data(),
        ),
        OperationArgs::U | OperationArgs::X => alu.accumalator,
    }
}

/// The raw sum the ALU computes: A+B for ADD, A+B+1 for ADDC, 0 for every
/// other operation (the ALU runs every cycle, harmlessly).
pub open spec fn spec_alu_sum(operation: Operation, a: int, b: int) -> int {
    if operation == Operation::ADD {
        a + b
    } else if operation == Operation::ADDC {
        a + b + 1
    } else {
        0
    }
}

/// The accumulator wrap rule of this machine: a sum over 255 has 255
/// subtracted (one above true 8-bit modular arithmetic; the quirk is part
/// of the ISA and is kept, not corrected).
pub open spec fn spec_alu_wrap(sum: int) -> int {
    if sum > 255 {
        (sum - 255) % 256
    } else {
        sum
    }
}

/// One ALU cycle: both inputs widened, flags recomputed from the raw
/// inputs (not the sum, except overflow), accumulator set to the wrapped
/// sum.
pub open spec fn spec_alu_execute(alu: Alu, regs: Seq<u8>, instruction: Instruction) -> Alu {
    let a = spec_alu_input_a(alu, regs, instruction) as int;
    let b = spec_read_reg(regs, instruction.b.spec_data()) as int;
    let sum = spec_alu_sum(instruction.operation, a, b);
    Alu {
        accumalator: spec_alu_wrap(sum) as u8,
        flags: AluFlags {
            equals: a == b,
            greater_than: a > b,
            less_than: a < b,
            over_flow: sum > 255,
        },
    }
}

impl Alu {
    /// Runs one ALU cycle against the current register file.
    pub fn execute(&mut self, registers: &Registers, instruction: &Instruction)
        ensures
            *final(self) == spec_alu_execute(*old(self), registers@, *instruction),
    {
        let a_data: u16 = match instruction.operation_args {
            OperationArgs::NoPrefix | OperationArgs::S => registers.read(
                instruction.a.data(),
            ) as u16,
            OperationArgs::U | OperationArgs::X => self.accumalator as u16,
        };
        let b_data: u16 = registers.read(instruction.b.data()) as u16;
        let result: u16 = match instruction.operation {
            Operation::ADD => a_data + b_data,
            Operation::ADDC => a_data + b_data + 1,
            _ => 0,
        };
        self.flags = AluFlags {
            equals: a_data == b_data,
            greater_than: a_data > b_data,
            less_than: a_data < b_data,
            over_flow: result > 255,
        };
        let wrapped: u16 = if result > 255 {
            (result - 255) % 256
        } else {
            result
        };
        self.accumalator = wrapped as u8;
    }
}

/// Mathematical model of the whole machine: the immutable program, the
/// program counter, the four single-buffered pipeline registers, the ALU,
/// the register file and the port space.
#[verifier::ext_equal]
pub ghost struct EmuModel {
    pub program: Seq<Instruction>,
    pub program_counter: u8,
    pub fetch: Instruction,
    pub decode: Instruction,
    pub execute: Instruction,
    pub write_back: Instruction,
    pub alu: Alu,
    pub regs: Seq<u8>,
    pub out: Seq<u8>,
    pub input: Seq<u8>,
}

/// The machine invariant: a full 32-slot store, a 5-bit program counter,
/// 8 registers, 8 output latches, 8 input lines.
pub open spec fn emu_wf(s: EmuModel) -> bool {
    &&& s.program.len() == 32
    &&& s.program_counter < 32
    &&& s.regs.len() == 8
    &&& s.out.len() == 8
    &&& s.input.len() == 8
}

/// Write-back: the execute register's previous-cycle contents move into
/// the write-back register and their side effect is committed: IMM writes
/// immediate B to register A; MOV copies register B to register A; ADD and
/// ADDC store the accumulator to register A under S or U (under no prefix
/// or X they write nothing); OUT latches register B onto the port named by
/// operand A; everything else has no effect.
pub open spec fn spec_write_back(s: EmuModel) -> EmuModel {
    let i = s.execute;
    let s1 = EmuModel { write_back: i, ..s };
    match i.operation {
        Operation::IMM => EmuModel {
            regs: spec_write_reg(s1.regs, i.a.spec_data(), i.b.spec_data()),
            ..s1
        },
        Operation::MOV => EmuModel {
            regs: spec_write_reg(
                s1.regs,
                i.a.spec_data(),
                spec_read_reg(s1.regs, i.b.spec_data()),
            ),
            ..s1
        },
        Operation::ADD | Operation::ADDC => match i.operation_args {
            OperationArgs::S | OperationArgs::U => EmuModel {
                regs: spec_write_reg(s1.regs, i.a.spec_data(), s1.alu.accumalator),
                ..s1
            },
            OperationArgs::NoPrefix | OperationArgs::X => s1,
        },
        Operation::OUT => EmuModel {
            out: spec_write_port(
                s1.out,
                i.a.spec_data(),
                spec_read_reg(s1.regs, i.b.spec_data()),
            ),
            ..s1
        },
        Operation::NOOP | Operation::JMP | Operation::SHR | Operation::NOT
            | Operation::BIE => s1,
    }
}

/// A JMP in the execute register overwrites the program counter with its
/// operand-A value, reduced to the 5-bit address space. The wrap-increment
/// that closes the same cycle then acts on the jumped-to address, so the
/// target takes effect one cycle later than a naive reading suggests.
pub open spec fn spec_branch(s: EmuModel) -> EmuModel {
    if s.execute.operation == Operation::JMP {
        EmuModel {
            program_counter: ((s.execute.a.spec_data() as int) % 32) as u8,
            ..s
        }
    } else {
        s
    }
}

/// Execute: the decode register's previous contents move into the execute
/// register, any branch is resolved, then the ALU runs.
pub open spec fn spec_execute(s: EmuModel) -> EmuModel {
    let s1 = EmuModel { execute: s.decode, ..s };
    let s2 = spec_branch(s1);
    EmuModel { alu: spec_alu_execute(s2.alu, s2.regs, s2.execute), ..s2 }
}

/// Decode: the fetch register's previous contents move into the decode
/// register, unchanged.
pub open spec fn spec_decode(s: EmuModel) -> EmuModel {
    EmuModel { decode: s.fetch, ..s }
}

/// Fetch: the instruction the program counter names enters the pipeline.
pub open spec fn spec_fetch(s: EmuModel) -> EmuModel {
    EmuModel { fetch: s.program[s.program_counter as int], ..s }
}

/// Program-counter advance: increment by one, wrapping to 0 past 31.
pub open spec fn spec_inc_pc(s: EmuModel) -> EmuModel {
    EmuModel {
        program_counter: if s.program_counter + 1 >= 32 {
            0
        } else {
            (s.program_counter + 1) as u8
        },
        ..s
    }
}

/// One whole cycle. The stages run in REVERSE pipeline order — write-back,
/// execute, decode, fetch — because each pipeline register is
/// single-buffered: every stage must consume its input register's
/// previous-cycle contents before the stage behind it overwrites them.
/// The program counter advances last.
pub open spec fn spec_clock(s: EmuModel) -> EmuModel {
    spec_inc_pc(spec_fetch(spec_decode(spec_execute(spec_write_back(s)))))
}

/// The machine as construction leaves it: program counter 0, no-ops in
/// every pipeline register, everything else zeroed.
pub open spec fn spec_init(program: Seq<Instruction>) -> EmuModel {
    EmuModel {
        program,
        program_counter: 0,
        fetch: Instruction::spec_none(),
        decode: Instruction::spec_none(),
        execute: Instruction::spec_none(),
        write_back: Instruction::spec_none(),
        alu: Alu {
            accumalator: 0,
            flags: AluFlags {
                equals: false,
                greater_than: false,
                less_than: false,
                over_flow: false,
            },
        },
        regs: Seq::<u8>::new(8, |i: int| 0u8),
        out: Seq::<u8>::new(8, |i: int| 0u8),
        input: Seq::<u8>::new(8, |i: int| 0u8),
    }
}

/// The machine: one program, stepped one clock at a time. Construction
/// itself yields a valid, steppable state.
#[derive(Debug)]
pub struct Emulator {
    program: Program,
    pub program_counter: u8,
    pub fetch_register: Instruction,
    pub decode_register: Instruction,
    pub execute_register: Instruction,
    pub write_back_register: Instruction,
    pub alu: Alu,
    pub registers: Registers,
    pub ports: Ports,
}

impl View for Emulator {
    type V = EmuModel;

    closed spec fn view(&self) -> EmuModel {
        EmuModel {
            program: self.program.instructions@,
            program_counter: self.program_counter,
            fetch: self.fetch_register,
            decode: self.decode_register,
            execute: self.execute_register,
            write_back: self.write_back_register,
            alu: self.alu,
            regs: self.registers@,
            out: self.ports.out@,
            input: self.ports.input@,
        }
    }
}

impl Emulator {
    pub fn new(program: Program) -> (r: Self)
        ensures
            r@ == spec_init(program.instructions@),
            program.wf() ==> emu_wf(r@),
    {
        let r = Self {
            program,
            program_counter: 0,
            fetch_register: Instruction::none(),
            decode_register: Instruction::none(),
            execute_register: Instruction::none(),
            write_back_register: Instruction::none(),
            alu: Alu {
                accumalator: 0,
                flags: AluFlags {
                    equals: false,
                    greater_than: false,
                    less_than: false,
                    over_flow: false,
                },
            },
            registers: Registers { regs: [0; 8] },
            ports: Ports { out: [0; 8], input: [0; 8] },
        };
        proof {
            assert(r@.regs =~= Seq::<u8>::new(8, |i: int| 0u8));
            assert(r@.out =~= Seq::<u8>::new(8, |i: int| 0u8));
            assert(r@.input =~= Seq::<u8>::new(8, |i: int| 0u8));
            assert(r@ =~= spec_init(r.program.instructions@));
        }
        r
    }

    fn increment_program_counter(&mut self)
        requires
            old(self).program_counter < 32,
        ensures
            final(self)@ == spec_inc_pc(old(self)@),
    {
        self.program_counter += 1;
        if self.program_counter >= 32 {
            self.program_counter = 0;
        }
        proof {
            assert(self@ =~= spec_inc_pc(old(self)@));
        }
    }

    fn check_for_branch(&mut self)
        ensures
            final(self)@ == spec_branch(old(self)@),
    {
        match self.execute_register.operation {
            Operation::JMP => {
                self.program_counter = self.execute_register.a.data() % 32;
            },
            _ => (),
        }
        proof {
            assert(self@ =~= spec_branch(old(self)@));
        }
    }

    fn fetch(&mut self)
        requires
            old(self)@.program.len() == 32,
            old(self)@.program_counter < 32,
        ensures
            final(self)@ == spec_fetch(old(self)@),
    {
        self.fetch_register = self.program.instructions[self.program_counter as usize];
        proof {
            assert(self@ =~= spec_fetch(old(self)@));
        }
    }

    fn decode(&mut self)
        ensures
            final(self)@ == spec_decode(old(self)@),
    {
        self.decode_register = self.fetch_register;
        proof {
            assert(self@ =~= spec_decode(old(self)@));
        }
    }

    fn execute(&mut self)
        ensures
            final(self)@ == spec_execute(old(self)@),
    {
        self.execute_register = self.decode_register;
        self.check_for_branch();
        self.alu.execute(&self.registers, &self.execute_register);
        proof {
            assert(self@ =~= spec_execute(old(self)@));
        }
    }

    fn write_back(&mut self)
        ensures
            final(self)@ == spec_write_back(old(self)@),
    {
        self.write_back_register = self.execute_register;
        let a = self.write_back_register.a.data();
        let b = self.write_back_register.b.data();
        match self.write_back_register.operation {
            Operation::NOOP => (),
            Operation::IMM => self.registers.write(a, b),
            Operation::MOV => {
                let v = self.registers.read(b);
                self.registers.write(a, v);
            },
            Operation::ADD | Operation::ADDC => match self.write_back_register.operation_args {
                OperationArgs::S | OperationArgs::U => {
                    let acc = self.alu.accumalator;
                    self.registers.write(a, acc);
                },
                OperationArgs::NoPrefix | OperationArgs::X => (),
            },
            Operation::OUT => {
                let v = self.registers.read(b);
                self.ports.write_out(a, v);
            },
            Operation::JMP | Operation::SHR | Operation::NOT | Operation::BIE => (),
        }
        proof {
            assert(self@ =~= spec_write_back(old(self)@));
        }
    }

    /// One whole cycle, atomically: write-back, execute, decode, fetch —
    /// in that order, because the pipeline registers are single-buffered —
    /// then the program-counter advance.
    pub fn clock(&mut self)
        requires
            emu_wf(old(self)@),
        ensures
            final(self)@ == spec_clock(old(self)@),
            emu_wf(final(self)@),
    {
        self.write_back();
        self.execute();
        self.decode();
        self.fetch();
        self.increment_program_counter();
        proof {
            lemma_clock_preserves_wf(old(self)@);
        }
    }
}

/// Law: the machine invariant survives every cycle, whatever the
/// instruction stream holds.
pub proof fn lemma_clock_preserves_wf(s: EmuModel)
    requires
        emu_wf(s),
    ensures
        emu_wf(spec_clock(s)),
{
}

/// Law: one clock moves each instruction exactly one stage forward.
/// Write-back consumes the execute register as it stood BEFORE the cycle,
/// execute consumes the old decode register, decode the old fetch
/// register, and fetch reads the program at the (possibly jumped-to)
/// program counter. Evaluating the stages in forward order instead would
/// overwrite each register a cycle early; this law is what that order
/// preserves.
pub proof fn lemma_pipeline_advances_one_stage(s: EmuModel)
    ensures
        spec_clock(s).write_back == s.execute,
        spec_clock(s).execute == s.decode,
        spec_clock(s).decode == s.fetch,
        spec_clock(s).fetch == s.program[
            if s.decode.operation == Operation::JMP {
                (s.decode.a.spec_data() as int) % 32
            } else {
                s.program_counter as int
            }
        ],
{
}

/// Law: when the decode register holds a JMP, the cycle that executes it
/// leaves the program counter one past the 5-bit target — whatever the
/// program's contents, its length, or the rest of the state, and wrapping
/// to 0 from address 31.
pub proof fn lemma_jmp_lands_one_past_target(s: EmuModel)
    requires
        s.decode.operation == Operation::JMP,
    ensures
        spec_clock(s).program_counter as int
            == (((s.decode.a.spec_data() as int) % 32) + 1) % 32,
{
}

} // verus!
