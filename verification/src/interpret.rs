//! Interpreters for a small register machine: a first one over bytes, and a
//! second one over any kind of value, with labels and jumps.
use crate::interpret::cpu::{read_spec, write_spec, Cpu, CpuView};
use crate::interpret::instruction::{
    label_lookup, ExecutionError, ExecutionErrorView, Instruction, InstructionView, Program,
    ProgramView,
};
use crate::interpret::memory::{readable, ReadableExpr};
use crate::text::{chars_of, parse_u8, parse_u8_spec};
use vstd::prelude::*;
use vstd::string::StringExecFns;

pub mod basic;
pub mod cpu;
pub mod instruction;
pub mod memory;
pub mod parser;

verus! {

/// What the machine computes with. Implement it to run programs over values
/// of your own.
pub trait Value: Sized {
    /// The value that `input` spells, if it spells one. Left open where a
    /// kind of value does not say.
    open spec fn parsed(input: Seq<char>) -> Option<Self> {
        arbitrary()
    }

    /// Whether the value counts as zero.
    open spec fn zero(&self) -> bool {
        arbitrary()
    }

    /// The sum of two values.
    open spec fn plus_spec(self, rhs: Self) -> Self {
        arbitrary()
    }

    /// The difference of two values.
    open spec fn minus_spec(self, rhs: Self) -> Self {
        arbitrary()
    }

    /// The value that the cells of a machine hold when it starts.
    open spec fn initial_spec() -> Self {
        arbitrary()
    }

    /// Reads a value from its text.
    fn parse(input: &str) -> (res: Result<Self, String>)
        ensures
            match res {
                Ok(v) => Self::parsed(input@) == Some(v),
                Err(_) => Self::parsed(input@) is None,
            },
    ;

    /// Whether the value counts as zero.
    fn is_zero(&self) -> (b: bool)
        ensures
            b == self.zero(),
    ;

    /// Adds `rhs`.
    fn plus(self, rhs: Self) -> (r: Self)
        ensures
            r == self.plus_spec(rhs),
    ;

    /// Subtracts `rhs`.
    fn minus(self, rhs: Self) -> (r: Self)
        ensures
            r == self.minus_spec(rhs),
    ;

    /// A copy of the value.
    fn duplicate(&self) -> (r: Self)
        ensures
            r == *self,
    ;

    /// The value that the cells of a machine hold when it starts.
    fn initial() -> (r: Self)
        ensures
            r == Self::initial_spec(),
    ;
}

/// Bytes: decimal text, arithmetic that wraps around at 256.
impl Value for u8 {
    open spec fn parsed(input: Seq<char>) -> Option<u8> {
        parse_u8_spec(input)
    }

    open spec fn zero(&self) -> bool {
        *self == 0
    }

    open spec fn plus_spec(self, rhs: u8) -> u8 {
        ((self + rhs) % 256) as u8
    }

    open spec fn minus_spec(self, rhs: u8) -> u8 {
        ((self - rhs) % 256) as u8
    }

    open spec fn initial_spec() -> u8 {
        0
    }

    fn parse(input: &str) -> (res: Result<u8, String>) {
        let chars = chars_of(input);
        assert(chars@.subrange(0, chars.len() as int) =~= chars@);
        match parse_u8(&chars, 0, chars.len()) {
            Some(v) => Ok(v),
            None => Err(String::from_str("Cannot parse u8")),
        }
    }

    fn is_zero(&self) -> (b: bool) {
        *self == 0
    }

    fn plus(self, rhs: u8) -> (r: u8) {
        ((self as u16 + rhs as u16) % 256) as u8
    }

    fn minus(self, rhs: u8) -> (r: u8) {
        ((256 + self as u16 - rhs as u16) % 256) as u8
    }

    fn duplicate(&self) -> (r: u8) {
        *self
    }

    fn initial() -> (r: u8) {
        0
    }
}

/// The machine after `inst`, together with the value that `inst` prints, or
/// why `inst` fails. Unless `inst` jumps, the instruction pointer moves on by one.
pub open spec fn step_spec<T: Value>(
    cpu: CpuView<T>,
    labels: Seq<(Seq<char>, usize)>,
    inst: InstructionView<T>,
) -> Result<(CpuView<T>, Option<T>), ExecutionErrorView> {
    let next = (cpu.ip + 1) as u64;
    match inst {
        InstructionView::Move { dest, src } => match read_spec(cpu, src) {
            Err(e) => Err(ExecutionErrorView::Read(e)),
            Ok(value) => match write_spec(cpu, dest, value) {
                Err(e) => Err(ExecutionErrorView::Write(e)),
                Ok(after) => Ok((CpuView { ip: next, ..after }, None)),
            },
        },
        InstructionView::Add { dest, src } => match read_spec(cpu, src) {
            Err(e) => Err(ExecutionErrorView::Read(e)),
            Ok(a) => match read_spec(cpu, readable::<T>(dest)) {
                Err(e) => Err(ExecutionErrorView::Read(e)),
                Ok(b) => match write_spec(cpu, dest, a.plus_spec(b)) {
                    Err(e) => Err(ExecutionErrorView::Write(e)),
                    Ok(after) => Ok((CpuView { ip: next, ..after }, None)),
                },
            },
        },
        InstructionView::Sub { dest, src } => match read_spec(cpu, src) {
            Err(e) => Err(ExecutionErrorView::Read(e)),
            Ok(a) => match read_spec(cpu, readable::<T>(dest)) {
                Err(e) => Err(ExecutionErrorView::Read(e)),
                Ok(b) => match write_spec(cpu, dest, b.minus_spec(a)) {
                    Err(e) => Err(ExecutionErrorView::Write(e)),
                    Ok(after) => Ok((CpuView { ip: next, ..after }, None)),
                },
            },
        },
        InstructionView::Print { expr } => match read_spec(cpu, expr) {
            Err(e) => Err(ExecutionErrorView::Read(e)),
            Ok(value) => Ok((CpuView { ip: next, ..cpu }, Some(value))),
        },
        InstructionView::JumpIfNotZero { src, label } => match read_spec(cpu, src) {
            Err(e) => Err(ExecutionErrorView::Read(e)),
            Ok(value) => if value.zero() {
                Ok((CpuView { ip: next, ..cpu }, None))
            } else {
                match label_lookup(labels, label) {
                    None => Err(ExecutionErrorView::InvalidLabel(label)),
                    Some(target) => Ok((CpuView { ip: target as u64, ..cpu }, None)),
                }
            },
        },
    }
}

/// How a run ended.
#[derive(Debug, PartialEq, Eq, Clone, Copy, Structural)]
pub enum Halt {
    /// The instruction pointer left the program.
    Finished,
    /// The allowed number of steps was used up.
    OutOfSteps,
}

/// The machine and the printed values after the program has run for at most
/// `steps` steps from `cpu`, with `printed` printed before; and how the run
/// ended. A run ends when the instruction pointer leaves the program, when an
/// instruction fails, or when the steps are used up.
pub open spec fn run_spec<T: Value>(
    program: ProgramView<T>,
    cpu: CpuView<T>,
    printed: Seq<T>,
    steps: nat,
) -> (CpuView<T>, Seq<T>, Result<Halt, ExecutionErrorView>)
    decreases steps,
{
    if cpu.ip >= program.instructions.len() {
        (cpu, printed, Ok(Halt::Finished))
    } else if steps == 0 {
        (cpu, printed, Ok(Halt::OutOfSteps))
    } else {
        match step_spec(cpu, program.labels, program.instructions[cpu.ip as int]) {
            Err(e) => (cpu, printed, Err(e)),
            Ok((next, out)) => run_spec(
                program,
                next,
                match out {
                    Some(v) => printed.push(v),
                    None => printed,
                },
                (steps - 1) as nat,
            ),
        }
    }
}

/// A copy of a readable expression.
fn copy_expr<T: Value>(expr: &ReadableExpr<T>) -> (r: ReadableExpr<T>)
    ensures
        r == *expr,
{
    match expr {
        ReadableExpr::Addressable(addr) => ReadableExpr::Addressable(*addr),
        ReadableExpr::Constant(value) => ReadableExpr::Constant(value.duplicate()),
    }
}

/// Executes `instruction`. Returns the value that it prints, if it prints
/// one; the printing itself is left to the caller. Nothing changes when the
/// instruction fails.
pub fn execute_instruction<T: Value>(
    cpu: &mut Cpu<T>,
    program: &Program<T>,
    instruction: &Instruction<T>,
) -> (res: Result<Option<T>, ExecutionError>)
    requires
        old(cpu)@.ip < u64::MAX,
    ensures
        match res {
            Ok(printed) => step_spec(old(cpu)@, program@.labels, instruction@) == Ok::<
                (CpuView<T>, Option<T>),
                ExecutionErrorView,
            >((final(cpu)@, printed)),
            Err(e) => step_spec(old(cpu)@, program@.labels, instruction@) == Err::<
                (CpuView<T>, Option<T>),
                ExecutionErrorView,
            >(e@) && final(cpu)@ == old(cpu)@,
        },
{
    let next = cpu.get_ip() + 1;
    match instruction {
        Instruction::Move { src, dest } => {
            let value = match cpu.read(copy_expr(src)) {
                Ok(v) => v,
                Err(e) => {
                    return Err(ExecutionError::Read(e));
                },
            };
            match cpu.write(*dest, value) {
                Ok(()) => {},
                Err(e) => {
                    return Err(ExecutionError::Write(e));
                },
            }
            cpu.set_ip(next);
            Ok(None)
        },
        Instruction::Add { src, dest } => {
            let a = match cpu.read(copy_expr(src)) {
                Ok(v) => v,
                Err(e) => {
                    return Err(ExecutionError::Read(e));
                },
            };
            let b = match cpu.read(dest.as_read()) {
                Ok(v) => v,
                Err(e) => {
                    return Err(ExecutionError::Read(e));
                },
            };
            match cpu.write(*dest, a.plus(b)) {
                Ok(()) => {},
                Err(e) => {
                    return Err(ExecutionError::Write(e));
                },
            }
            cpu.set_ip(next);
            Ok(None)
        },
        Instruction::Sub { src, dest } => {
            let a = match cpu.read(copy_expr(src)) {
                Ok(v) => v,
                Err(e) => {
                    return Err(ExecutionError::Read(e));
                },
            };
            let b = match cpu.read(dest.as_read()) {
                Ok(v) => v,
                Err(e) => {
                    return Err(ExecutionError::Read(e));
                },
            };
            match cpu.write(*dest, b.minus(a)) {
                Ok(()) => {},
                Err(e) => {
                    return Err(ExecutionError::Write(e));
                },
            }
            cpu.set_ip(next);
            Ok(None)
        },
        Instruction::Print { expr } => {
            let value = match cpu.read(copy_expr(expr)) {
                Ok(v) => v,
                Err(e) => {
                    return Err(ExecutionError::Read(e));
                },
            };
            cpu.set_ip(next);
            Ok(Some(value))
        },
        Instruction::JumpIfNotZero { src, label } => {
            let value = match cpu.read(copy_expr(src)) {
                Ok(v) => v,
                Err(e) => {
                    return Err(ExecutionError::Read(e));
                },
            };
            if value.is_zero() {
                cpu.set_ip(next);
                Ok(None)
            } else {
                match program.resolve_label(label.as_str()) {
                    Some(target) => {
                        cpu.set_ip(target as u64);
                        Ok(None)
                    },
                    None => Err(ExecutionError::InvalidLabel(label.clone())),
                }
            }
        },
    }
}

/// Runs `program` from the machine's instruction pointer on, for at most
/// `max_steps` steps. What the program prints is appended to `printed`; the
/// printing itself is left to the caller. When an instruction fails, the
/// machine stays as it was before that instruction.
pub fn execute_program<T: Value>(
    cpu: &mut Cpu<T>,
    program: &Program<T>,
    printed: &mut Vec<T>,
    max_steps: u64,
) -> (res: Result<Halt, ExecutionError>)
    ensures
        ({
            let (end, out, how) = run_spec(program@, old(cpu)@, old(printed)@, max_steps as nat);
            &&& final(cpu)@ == end
            &&& final(printed)@ == out
            &&& match res {
                Ok(h) => how == Ok::<Halt, ExecutionErrorView>(h),
                Err(e) => how == Err::<Halt, ExecutionErrorView>(e@),
            }
        }),
{
    let ghost goal = run_spec(program@, cpu@, printed@, max_steps as nat);
    let mut left: u64 = max_steps;
    loop
        invariant
            goal == run_spec(program@, old(cpu)@, old(printed)@, max_steps as nat),
            run_spec(program@, cpu@, printed@, left as nat) == goal,
        decreases left,
    {
        let ip = cpu.get_ip();
        if ip >= program.instructions.len() as u64 {
            return Ok(Halt::Finished);
        }
        if left == 0 {
            return Ok(Halt::OutOfSteps);
        }
        let ghost before = printed@;
        match execute_instruction(cpu, program, &program.instructions[ip as usize]) {
            Err(e) => {
                return Err(e);
            },
            Ok(Some(value)) => {
                printed.push(value);
            },
            Ok(None) => {},
        }
        left = left - 1;
    }
}

} // verus!
