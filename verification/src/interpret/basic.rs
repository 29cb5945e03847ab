//! A machine with byte registers and byte memory, and two instructions.
use crate::text::{
    chars_of, find_char, index_of_char, line_ranges, lines_of, parse_u8, parse_u8_spec, str_equal,
    trim_range, trimmed,
};
use vstd::prelude::*;
use vstd::string::StrSliceExecFns;

verus! {

/// One cell of a register file or of memory.
#[derive(Copy, Clone, Debug, PartialEq, Eq, Structural)]
pub enum MemoryCell {
    /// Never written.
    Undefined,
    /// Holds a byte.
    Defined(u8),
}

/// A place that can be addressed.
#[derive(Copy, Clone, Debug, PartialEq, Eq, Structural)]
pub enum AddrExpr {
    Register(u8),
    Memory(u32),
}

/// Something that can be read.
#[derive(Copy, Clone, Debug, PartialEq, Eq, Structural)]
pub enum ReadExpr {
    Constant(u8),
    Addr(AddrExpr),
}

/// Something that can be written.
#[derive(Copy, Clone, Debug, PartialEq, Eq, Structural)]
pub enum WriteExpr {
    Addr(AddrExpr),
}

impl ReadExpr {
    /// The constant `value`.
    pub fn constant(value: u8) -> (e: ReadExpr)
        ensures
            e == ReadExpr::Constant(value),
    {
        ReadExpr::Constant(value)
    }

    /// The memory cell at `address`.
    pub fn memory(address: u32) -> (e: ReadExpr)
        ensures
            e == ReadExpr::Addr(AddrExpr::Memory(address)),
    {
        ReadExpr::Addr(AddrExpr::Memory(address))
    }

    /// The register number `index`.
    pub fn register(index: u8) -> (e: ReadExpr)
        ensures
            e == ReadExpr::Addr(AddrExpr::Register(index)),
    {
        ReadExpr::Addr(AddrExpr::Register(index))
    }
}

impl WriteExpr {
    /// The memory cell at `address`.
    pub fn memory(address: u32) -> (e: WriteExpr)
        ensures
            e == WriteExpr::Addr(AddrExpr::Memory(address)),
    {
        WriteExpr::Addr(AddrExpr::Memory(address))
    }

    /// The register number `index`.
    pub fn register(index: u8) -> (e: WriteExpr)
        ensures
            e == WriteExpr::Addr(AddrExpr::Register(index)),
    {
        WriteExpr::Addr(AddrExpr::Register(index))
    }
}

/// Why a read failed.
#[derive(Copy, Clone, Debug, PartialEq, Eq, Structural)]
pub enum ReadExprError {
    /// The cell was never written.
    Undefined,
    /// There is no cell with that index.
    OutOfBounds { index: usize },
}

/// Why a write failed.
#[derive(Copy, Clone, Debug, PartialEq, Eq, Structural)]
pub enum WriteExprError {
    /// There is no cell with that index.
    OutOfBounds { index: usize },
}

/// Why an instruction failed.
#[derive(Copy, Clone, Debug, PartialEq, Eq, Structural)]
pub enum ExecuteError {
    ReadExpr(ReadExprError),
    WriteExpr(WriteExprError),
}

/// What the machine can do.
#[derive(Copy, Clone, Debug, PartialEq, Eq, Structural)]
pub enum Instruction {
    /// Copy the value of `src` to `dest`.
    Move { dest: WriteExpr, src: ReadExpr },
    /// Print the value of the expression.
    Print(ReadExpr),
}

/// Mathematical value of a [`Cpu`].
pub struct CpuView {
    pub registers: Seq<MemoryCell>,
    pub memory: Seq<MemoryCell>,
}

/// Index of the cell that `addr` names, in its register file or memory.
pub open spec fn cell_index(addr: AddrExpr) -> nat {
    match addr {
        AddrExpr::Register(r) => r as nat,
        AddrExpr::Memory(a) => a as nat,
    }
}

/// The cells among which `addr` names one.
pub open spec fn bank(cpu: CpuView, addr: AddrExpr) -> Seq<MemoryCell> {
    match addr {
        AddrExpr::Register(_) => cpu.registers,
        AddrExpr::Memory(_) => cpu.memory,
    }
}

/// What reading `expr` gives.
pub open spec fn read_spec(cpu: CpuView, expr: ReadExpr) -> Result<u8, ReadExprError> {
    match expr {
        ReadExpr::Constant(value) => Ok(value),
        ReadExpr::Addr(addr) => if cell_index(addr) < bank(cpu, addr).len() {
            match bank(cpu, addr)[cell_index(addr) as int] {
                MemoryCell::Undefined => Err(ReadExprError::Undefined),
                MemoryCell::Defined(value) => Ok(value),
            }
        } else {
            Err(ReadExprError::OutOfBounds { index: cell_index(addr) as usize })
        },
    }
}

/// The machine after `value` was written to `expr`, or why it cannot be.
pub open spec fn write_spec(cpu: CpuView, expr: WriteExpr, value: u8) -> Result<
    CpuView,
    WriteExprError,
> {
    match expr {
        WriteExpr::Addr(addr) => if cell_index(addr) < bank(cpu, addr).len() {
            let cells = bank(cpu, addr).update(cell_index(addr) as int, MemoryCell::Defined(value));
            match addr {
                AddrExpr::Register(_) => Ok(CpuView { registers: cells, ..cpu }),
                AddrExpr::Memory(_) => Ok(CpuView { memory: cells, ..cpu }),
            }
        } else {
            Err(WriteExprError::OutOfBounds { index: cell_index(addr) as usize })
        },
    }
}

/// The machine after `inst`, together with the value that `inst` prints, or
/// why `inst` fails.
pub open spec fn execute_spec(cpu: CpuView, inst: Instruction) -> Result<
    (CpuView, Option<u8>),
    ExecuteError,
> {
    match inst {
        Instruction::Print(expr) => match read_spec(cpu, expr) {
            Ok(value) => Ok((cpu, Some(value))),
            Err(e) => Err(ExecuteError::ReadExpr(e)),
        },
        Instruction::Move { dest, src } => match read_spec(cpu, src) {
            Ok(value) => match write_spec(cpu, dest, value) {
                Ok(after) => Ok((after, None)),
                Err(e) => Err(ExecuteError::WriteExpr(e)),
            },
            Err(e) => Err(ExecuteError::ReadExpr(e)),
        },
    }
}

/// Sets the sizes of a machine before it is built.
pub struct CpuBuilder {
    register_count: usize,
    memory_size: usize,
}

/// The machine: registers and memory.
pub struct Cpu {
    registers: Vec<MemoryCell>,
    memory: Vec<MemoryCell>,
}

impl View for Cpu {
    type V = CpuView;

    closed spec fn view(&self) -> CpuView {
        CpuView { registers: self.registers@, memory: self.memory@ }
    }
}

impl CpuBuilder {
    /// The number of registers that will be built.
    pub closed spec fn registers(&self) -> nat {
        self.register_count as nat
    }

    /// The number of memory cells that will be built.
    pub closed spec fn cells(&self) -> nat {
        self.memory_size as nat
    }

    /// A builder for 16 registers and 1024 memory cells.
    pub fn new() -> (b: CpuBuilder)
        ensures
            b.registers() == 16,
            b.cells() == 1024,
    {
        CpuBuilder { register_count: 16, memory_size: 1024 }
    }

    /// The same builder with another number of registers.
    pub fn register_count(self, register_count: usize) -> (b: CpuBuilder)
        ensures
            b.registers() == register_count,
            b.cells() == self.cells(),
    {
        CpuBuilder { register_count, memory_size: self.memory_size }
    }

    /// The same builder with another number of memory cells.
    pub fn memory_size(self, memory_size: usize) -> (b: CpuBuilder)
        ensures
            b.registers() == self.registers(),
            b.cells() == memory_size,
    {
        CpuBuilder { register_count: self.register_count, memory_size }
    }

    /// A machine in which every cell holds zero.
    pub fn zeroed(self) -> (cpu: Cpu)
        ensures
            cpu@.registers == Seq::new(self.registers(), |i: int| MemoryCell::Defined(0)),
            cpu@.memory == Seq::new(self.cells(), |i: int| MemoryCell::Defined(0)),
    {
        let cpu = Cpu {
            registers: vec![MemoryCell::Defined(0); self.register_count],
            memory: vec![MemoryCell::Defined(0); self.memory_size],
        };
        assert(cpu@.registers =~= Seq::new(self.registers(), |i: int| MemoryCell::Defined(0)));
        assert(cpu@.memory =~= Seq::new(self.cells(), |i: int| MemoryCell::Defined(0)));
        cpu
    }

    /// A machine in which no cell was written yet.
    pub fn undefined(self) -> (cpu: Cpu)
        ensures
            cpu@.registers == Seq::new(self.registers(), |i: int| MemoryCell::Undefined),
            cpu@.memory == Seq::new(self.cells(), |i: int| MemoryCell::Undefined),
    {
        let cpu = Cpu {
            registers: vec![MemoryCell::Undefined; self.register_count],
            memory: vec![MemoryCell::Undefined; self.memory_size],
        };
        assert(cpu@.registers =~= Seq::new(self.registers(), |i: int| MemoryCell::Undefined));
        assert(cpu@.memory =~= Seq::new(self.cells(), |i: int| MemoryCell::Undefined));
        cpu
    }
}

impl Cpu {
    /// Reads `expr`.
    pub fn read(&self, expr: ReadExpr) -> (res: Result<u8, ReadExprError>)
        ensures
            res == read_spec(self@, expr),
    {
        match expr {
            ReadExpr::Constant(value) => Ok(value),
            ReadExpr::Addr(AddrExpr::Register(r)) => {
                let index = r as usize;
                if index < self.registers.len() {
                    match self.registers[index] {
                        MemoryCell::Undefined => Err(ReadExprError::Undefined),
                        MemoryCell::Defined(value) => Ok(value),
                    }
                } else {
                    Err(ReadExprError::OutOfBounds { index })
                }
            },
            ReadExpr::Addr(AddrExpr::Memory(a)) => {
                let index = a as usize;
                if index < self.memory.len() {
                    match self.memory[index] {
                        MemoryCell::Undefined => Err(ReadExprError::Undefined),
                        MemoryCell::Defined(value) => Ok(value),
                    }
                } else {
                    Err(ReadExprError::OutOfBounds { index })
                }
            },
        }
    }

    /// Writes `value` to `expr`. Nothing changes when that fails.
    pub fn write(&mut self, expr: WriteExpr, value: u8) -> (res: Result<(), WriteExprError>)
        ensures
            match res {
                Ok(()) => write_spec(old(self)@, expr, value) == Ok::<CpuView, WriteExprError>(
                    final(self)@,
                ),
                Err(e) => write_spec(old(self)@, expr, value) == Err::<CpuView, WriteExprError>(e)
                    && final(self)@ == old(self)@,
            },
    {
        match expr {
            WriteExpr::Addr(AddrExpr::Register(r)) => {
                let index = r as usize;
                if index < self.registers.len() {
                    self.registers.set(index, MemoryCell::Defined(value));
                    Ok(())
                } else {
                    Err(WriteExprError::OutOfBounds { index })
                }
            },
            WriteExpr::Addr(AddrExpr::Memory(a)) => {
                let index = a as usize;
                if index < self.memory.len() {
                    self.memory.set(index, MemoryCell::Defined(value));
                    Ok(())
                } else {
                    Err(WriteExprError::OutOfBounds { index })
                }
            },
        }
    }
}

/// Executes `inst`. Returns the value that `inst` prints, if it prints one;
/// the printing itself is left to the caller. Nothing changes when `inst` fails.
pub fn execute_instruction(cpu: &mut Cpu, inst: Instruction) -> (res: Result<
    Option<u8>,
    ExecuteError,
>)
    ensures
        match res {
            Ok(printed) => execute_spec(old(cpu)@, inst) == Ok::<
                (CpuView, Option<u8>),
                ExecuteError,
            >((final(cpu)@, printed)),
            Err(e) => execute_spec(old(cpu)@, inst) == Err::<(CpuView, Option<u8>), ExecuteError>(e)
                && final(cpu)@ == old(cpu)@,
        },
{
    match inst {
        Instruction::Print(expr) => match cpu.read(expr) {
            Ok(value) => Ok(Some(value)),
            Err(e) => Err(ExecuteError::ReadExpr(e)),
        },
        Instruction::Move { dest, src } => match cpu.read(src) {
            Ok(value) => match cpu.write(dest, value) {
                Ok(()) => Ok(None),
                Err(e) => Err(ExecuteError::WriteExpr(e)),
            },
            Err(e) => Err(ExecuteError::ReadExpr(e)),
        },
    }
}

/// What is wrong with a line of a program.
#[derive(Debug, PartialEq, Eq, Clone, Copy)]
pub enum ParseErrorKind<'a> {
    /// The instruction stands alone on its line.
    MissingArguments,
    /// No instruction has this name.
    UnknownInstruction(&'a str),
    /// This is not a number between 0 and 255.
    InvalidConstant(&'a str),
    /// This is not the number of a register.
    InvalidRegister(&'a str),
}

/// A line that could not be parsed.
#[derive(Debug, PartialEq, Eq, Clone, Copy)]
pub struct ParseError<'a> {
    /// Number of the line, counted from zero.
    pub line_number: usize,
    /// The line, without the white space around it.
    pub line: &'a str,
    /// What is wrong with it.
    pub kind: ParseErrorKind<'a>,
}

impl<'a> ParseError<'a> {
    /// An instruction without arguments.
    fn missing_args(line_number: usize, line: &'a str) -> (e: ParseError<'a>)
        ensures
            e == (ParseError { line_number, line, kind: ParseErrorKind::MissingArguments }),
    {
        ParseError { line_number, line, kind: ParseErrorKind::MissingArguments }
    }

    /// An instruction that the machine does not know.
    fn unknown_instruction(line_number: usize, line: &'a str, instruction: &'a str) -> (e:
        ParseError<'a>)
        ensures
            e == (ParseError {
                line_number,
                line,
                kind: ParseErrorKind::UnknownInstruction(instruction),
            }),
    {
        ParseError { line_number, line, kind: ParseErrorKind::UnknownInstruction(instruction) }
    }
}

/// Mathematical value of a [`ParseErrorKind`].
pub enum ParseErrorKindView {
    MissingArguments,
    UnknownInstruction(Seq<char>),
    InvalidConstant(Seq<char>),
    InvalidRegister(Seq<char>),
}

/// Mathematical value of a [`ParseError`].
pub struct ParseErrorView {
    pub line_number: nat,
    pub line: Seq<char>,
    pub kind: ParseErrorKindView,
}

impl<'a> View for ParseErrorKind<'a> {
    type V = ParseErrorKindView;

    open spec fn view(&self) -> ParseErrorKindView {
        match self {
            ParseErrorKind::MissingArguments => ParseErrorKindView::MissingArguments,
            ParseErrorKind::UnknownInstruction(s) => ParseErrorKindView::UnknownInstruction(s@),
            ParseErrorKind::InvalidConstant(s) => ParseErrorKindView::InvalidConstant(s@),
            ParseErrorKind::InvalidRegister(s) => ParseErrorKindView::InvalidRegister(s@),
        }
    }
}

impl<'a> View for ParseError<'a> {
    type V = ParseErrorView;

    open spec fn view(&self) -> ParseErrorView {
        ParseErrorView {
            line_number: self.line_number as nat,
            line: self.line@,
            kind: self.kind@,
        }
    }
}

/// What one line of a program holds.
pub enum LineView {
    /// Nothing but white space.
    Blank,
    /// An instruction.
    Parsed(Instruction),
    /// Something that cannot be parsed.
    Bad(ParseErrorKindView),
}

/// The expression that `args` spells: `R` and a register's number, or a constant.
pub open spec fn read_expr_spec(args: Seq<char>) -> Result<ReadExpr, ParseErrorKindView> {
    if args.len() > 0 && args[0] == 'R' {
        match parse_u8_spec(args.drop_first()) {
            Some(num) => Ok(ReadExpr::Addr(AddrExpr::Register(num))),
            None => Err(ParseErrorKindView::InvalidRegister(args.drop_first())),
        }
    } else {
        match parse_u8_spec(args) {
            Some(num) => Ok(ReadExpr::Constant(num)),
            None => Err(ParseErrorKindView::InvalidConstant(args)),
        }
    }
}

/// What the line `raw` holds. A line that is not blank is an instruction's
/// name, one space, and the instruction's arguments.
pub open spec fn line_spec(raw: Seq<char>) -> LineView {
    let line = trimmed(raw);
    if line.len() == 0 {
        LineView::Blank
    } else {
        let p = index_of_char(line, ' ');
        if p >= line.len() {
            LineView::Bad(ParseErrorKindView::MissingArguments)
        } else {
            let name = line.take(p as int);
            let args = line.skip(p as int + 1);
            if name == "PRINT"@ {
                match read_expr_spec(args) {
                    Ok(expr) => LineView::Parsed(Instruction::Print(expr)),
                    Err(kind) => LineView::Bad(kind),
                }
            } else {
                LineView::Bad(ParseErrorKindView::UnknownInstruction(name))
            }
        }
    }
}

/// The instructions of the first `k` lines, or the first error among them.
pub open spec fn parse_prefix(lines: Seq<Seq<char>>, k: nat) -> Result<
    Seq<Instruction>,
    ParseErrorView,
>
    decreases k,
{
    if k == 0 {
        Ok(Seq::empty())
    } else {
        match parse_prefix(lines, (k - 1) as nat) {
            Err(e) => Err(e),
            Ok(done) => match line_spec(lines[k - 1]) {
                LineView::Blank => Ok(done),
                LineView::Parsed(inst) => Ok(done.push(inst)),
                LineView::Bad(kind) => Err(
                    ParseErrorView {
                        line_number: (k - 1) as nat,
                        line: trimmed(lines[k - 1]),
                        kind,
                    },
                ),
            },
        }
    }
}

/// The program that `input` spells, one instruction per line, or its first error.
pub open spec fn parse_spec(input: Seq<char>) -> Result<Seq<Instruction>, ParseErrorView> {
    parse_prefix(lines_of(input), lines_of(input).len())
}

/// The first error stays the result, however many lines follow it.
pub proof fn lemma_first_error_stays(lines: Seq<Seq<char>>, k: nat, n: nat)
    requires
        k <= n,
        parse_prefix(lines, k) is Err,
    ensures
        parse_prefix(lines, n) == parse_prefix(lines, k),
    decreases n,
{
    if k < n {
        lemma_first_error_stays(lines, k, (n - 1) as nat);
    }
}

/// Attaches the line to what is wrong with it.
fn with_line<'a, T>(
    result: Result<T, ParseErrorKind<'a>>,
    line_number: usize,
    line: &'a str,
) -> (res: Result<T, ParseError<'a>>)
    ensures
        match (result, res) {
            (Ok(a), Ok(b)) => a == b,
            (Err(kind), Err(e)) => e == (ParseError { line_number, line, kind }),
            _ => false,
        },
{
    match result {
        Ok(v) => Ok(v),
        Err(kind) => Err(ParseError { line_number, line, kind }),
    }
}

/// Parses the arguments `input[lo..hi]` of `PRINT`.
fn parse_read_expr<'a>(input: &'a str, chars: &Vec<char>, lo: usize, hi: usize) -> (res: Result<
    ReadExpr,
    ParseErrorKind<'a>,
>)
    requires
        chars@ == input@,
        lo <= hi <= chars.len(),
    ensures
        match res {
            Ok(expr) => read_expr_spec(chars@.subrange(lo as int, hi as int)) == Ok::<
                ReadExpr,
                ParseErrorKindView,
            >(expr),
            Err(kind) => read_expr_spec(chars@.subrange(lo as int, hi as int)) == Err::<
                ReadExpr,
                ParseErrorKindView,
            >(kind@),
        },
{
    let ghost args = chars@.subrange(lo as int, hi as int);
    if lo < hi && chars[lo] == 'R' {
        assert(args.drop_first() =~= chars@.subrange(lo + 1, hi as int));
        match parse_u8(chars, lo + 1, hi) {
            Some(num) => Ok(ReadExpr::register(num)),
            None => Err(ParseErrorKind::InvalidRegister(input.substring_char(lo + 1, hi))),
        }
    } else {
        match parse_u8(chars, lo, hi) {
            Some(num) => Ok(ReadExpr::constant(num)),
            None => Err(ParseErrorKind::InvalidConstant(input.substring_char(lo, hi))),
        }
    }
}

/// Parses a program: one instruction per line, blank lines allowed. Stops at
/// the first line that cannot be parsed.
pub fn parse<'a>(input: &'a str) -> (res: Result<Vec<Instruction>, ParseError<'a>>)
    ensures
        match res {
            Ok(program) => parse_spec(input@) == Ok::<Seq<Instruction>, ParseErrorView>(program@),
            Err(e) => parse_spec(input@) == Err::<Seq<Instruction>, ParseErrorView>(e@),
        },
{
    let chars = chars_of(input);
    let ranges = line_ranges(&chars);
    let ghost lines = lines_of(input@);
    let mut instructions: Vec<Instruction> = Vec::new();
    let mut k: usize = 0;
    while k < ranges.len()
        invariant
            k <= ranges.len(),
            chars@ == input@,
            lines == lines_of(input@),
            ranges.len() == lines.len(),
            forall|i: int|
                0 <= i < ranges.len() ==> (#[trigger] ranges[i]).0 <= ranges[i].1 <= chars.len()
                    && chars@.subrange(ranges[i].0 as int, ranges[i].1 as int) == lines[i],
            parse_prefix(lines, k as nat) == Ok::<Seq<Instruction>, ParseErrorView>(instructions@),
        decreases ranges.len() - k,
    {
        let (lo, hi) = ranges[k];
        assert(chars@.subrange(lo as int, hi as int) == lines[k as int]);
        let (a, b) = trim_range(&chars, lo, hi);
        let ghost line = chars@.subrange(a as int, b as int);
        if a < b {
            let line_text = input.substring_char(a, b);
            let p = match find_char(&chars, a, b, ' ') {
                Some(p) => p,
                None => {
                    proof {
                        lemma_first_error_stays(lines, (k + 1) as nat, lines.len());
                    }
                    return Err(ParseError::missing_args(k, line_text));
                },
            };
            let name = input.substring_char(a, p);
            proof {
                assert(line.take(p - a) =~= chars@.subrange(a as int, p as int));
                assert(line.skip(p - a + 1) =~= chars@.subrange(p + 1, b as int));
            }
            if str_equal(name, "PRINT") {
                match with_line(parse_read_expr(input, &chars, p + 1, b), k, line_text) {
                    Ok(expr) => {
                        instructions.push(Instruction::Print(expr));
                    },
                    Err(e) => {
                        proof {
                            lemma_first_error_stays(lines, (k + 1) as nat, lines.len());
                        }
                        return Err(e);
                    },
                }
            } else {
                proof {
                    lemma_first_error_stays(lines, (k + 1) as nat, lines.len());
                }
                return Err(ParseError::unknown_instruction(k, line_text, name));
            }
        }
        k = k + 1;
    }
    Ok(instructions)
}

} // verus!
