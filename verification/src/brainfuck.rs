//! An interpreter for the Brainfuck language: a tape of bytes, a pointer on
//! it, and eight instructions.
use crate::text::{chars_of, push_char};
use vstd::prelude::*;

verus! {

/// The number of instructions that a program may execute before it is
/// taken to run for ever.
pub const STEP_LIMIT: u64 = 10000;

/// One instruction. The two ends of a loop know where the other end stands.
#[derive(Debug, PartialEq, Eq, Clone, Copy, Structural)]
pub enum Instruction {
    /// `>`: move the pointer to the right.
    Right,
    /// `<`: move the pointer to the left.
    Left,
    /// `+`: add one to the cell under the pointer.
    Increment,
    /// `-`: subtract one from the cell under the pointer.
    Decrement,
    /// `.`: write the cell under the pointer to the output.
    Output,
    /// `,`: read a byte of the input into the cell under the pointer.
    Input,
    /// `[`: go behind the loop's end if the cell under the pointer is zero.
    LoopStart { end: usize },
    /// `]`: go back behind the loop's start unless the cell under the pointer is zero.
    LoopEnd { start: usize },
}

/// Why a text is no program.
#[derive(Debug, PartialEq, Eq, Clone, Copy, Structural)]
pub enum ParseError {
    /// The character at `location` is no instruction.
    UnknownInstruction { location: usize, instruction: char },
    /// The loop instruction at `location` has no partner.
    UnmatchedLoop { location: usize },
}

/// Why a program stopped before its end.
#[derive(Debug, PartialEq, Eq, Clone, Copy, Structural)]
pub enum ExecuteError {
    /// The program asked for input when none was left.
    NoInputLeft,
    /// The program executed more instructions than allowed.
    InfiniteLoop,
}

/// A parsed program.
#[derive(Debug, PartialEq, Eq)]
pub struct Program {
    instructions: Vec<Instruction>,
}

impl View for Program {
    type V = Seq<Instruction>;

    closed spec fn view(&self) -> Seq<Instruction> {
        self.instructions@
    }
}

/// The instruction that `c` stands for, loops not yet matched.
pub open spec fn instruction_of(c: char) -> Option<Instruction> {
    if c == '>' {
        Some(Instruction::Right)
    } else if c == '<' {
        Some(Instruction::Left)
    } else if c == '+' {
        Some(Instruction::Increment)
    } else if c == '-' {
        Some(Instruction::Decrement)
    } else if c == '.' {
        Some(Instruction::Output)
    } else if c == ',' {
        Some(Instruction::Input)
    } else if c == '[' {
        Some(Instruction::LoopStart { end: 0 })
    } else if c == ']' {
        Some(Instruction::LoopEnd { start: 0 })
    } else {
        None
    }
}

/// The program that `text` spells from position `i` on, where `done` holds
/// the instructions before `i` and `open` the positions of the loops that
/// were started and not ended, innermost last. A loop's end is matched with
/// the innermost open start. The first character that is no instruction, the
/// first end without a start, or else the innermost start without an end is
/// the error.
pub open spec fn build(text: Seq<char>, i: nat, open: Seq<usize>, done: Seq<Instruction>) -> Result<
    Seq<Instruction>,
    ParseError,
>
    decreases text.len() - i,
{
    if i >= text.len() {
        if open.len() > 0 {
            Err(ParseError::UnmatchedLoop { location: open.last() })
        } else {
            Ok(done)
        }
    } else {
        let c = text[i as int];
        match instruction_of(c) {
            None => Err(ParseError::UnknownInstruction { location: i as usize, instruction: c }),
            Some(Instruction::LoopStart { end }) => build(
                text,
                i + 1,
                open.push(i as usize),
                done.push(Instruction::LoopStart { end: 0 }),
            ),
            Some(Instruction::LoopEnd { start }) => if open.len() == 0 {
                Err(ParseError::UnmatchedLoop { location: i as usize })
            } else {
                build(
                    text,
                    i + 1,
                    open.drop_last(),
                    done.update(
                        open.last() as int,
                        Instruction::LoopStart { end: i as usize },
                    ).push(Instruction::LoopEnd { start: open.last() }),
                )
            },
            Some(inst) => build(text, i + 1, open, done.push(inst)),
        }
    }
}

/// The program that `text` spells, or why it spells none.
pub open spec fn parse_spec(text: Seq<char>) -> Result<Seq<Instruction>, ParseError> {
    build(text, 0, Seq::empty(), Seq::empty())
}

/// Parses a program. Every character must be one of the eight instructions.
pub fn parse_program(text: &str) -> (res: Result<Program, ParseError>)
    ensures
        match res {
            Ok(p) => parse_spec(text@) == Ok::<Seq<Instruction>, ParseError>(p@),
            Err(e) => parse_spec(text@) == Err::<Seq<Instruction>, ParseError>(e),
        },
{
    let chars = chars_of(text);
    let mut open: Vec<usize> = Vec::new();
    let mut done: Vec<Instruction> = Vec::new();
    let mut i: usize = 0;
    while i < chars.len()
        invariant
            i <= chars.len(),
            chars@ == text@,
            done@.len() == i,
            forall|k: int| 0 <= k < open@.len() ==> #[trigger] open@[k] < i,
            parse_spec(text@) == build(text@, i as nat, open@, done@),
        decreases chars.len() - i,
    {
        let c = chars[i];
        if c == '>' {
            done.push(Instruction::Right);
        } else if c == '<' {
            done.push(Instruction::Left);
        } else if c == '+' {
            done.push(Instruction::Increment);
        } else if c == '-' {
            done.push(Instruction::Decrement);
        } else if c == '.' {
            done.push(Instruction::Output);
        } else if c == ',' {
            done.push(Instruction::Input);
        } else if c == '[' {
            open.push(i);
            done.push(Instruction::LoopStart { end: 0 });
        } else if c == ']' {
            let ghost before = open@;
            match open.pop() {
                None => {
                    return Err(ParseError::UnmatchedLoop { location: i });
                },
                Some(start) => {
                    assert(before[before.len() - 1] < i);
                    done.set(start, Instruction::LoopStart { end: i });
                    done.push(Instruction::LoopEnd { start });
                },
            }
        } else {
            return Err(ParseError::UnknownInstruction { location: i, instruction: c });
        }
        i = i + 1;
    }
    if open.len() > 0 {
        return Err(ParseError::UnmatchedLoop { location: open[open.len() - 1] });
    }
    Ok(Program { instructions: done })
}

/// The state of a running program.
pub struct Machine {
    /// Position of the next instruction.
    pub pc: nat,
    /// Position of the pointer on the tape.
    pub pointer: nat,
    /// The tape.
    pub tape: Seq<u8>,
    /// How many bytes of the input were read.
    pub consumed: nat,
    /// What was written so far.
    pub output: Seq<char>,
}

/// The cell under the pointer; zero where the tape has no cell.
pub open spec fn cell(m: Machine) -> u8 {
    if m.pointer < m.tape.len() {
        m.tape[m.pointer as int]
    } else {
        0
    }
}

/// The tape with `value` in the cell under the pointer.
pub open spec fn with_cell(m: Machine, value: u8) -> Seq<u8> {
    if m.pointer < m.tape.len() {
        m.tape.update(m.pointer as int, value)
    } else {
        m.tape
    }
}

/// The machine after the instruction `inst`; the tape is a ring, and cells
/// wrap around at 256.
pub open spec fn step_spec(m: Machine, inst: Instruction, input: Seq<u8>) -> Result<
    Machine,
    ExecuteError,
> {
    let next = m.pc + 1;
    match inst {
        Instruction::Right => Ok(
            Machine {
                pc: next,
                pointer: if m.pointer + 1 < m.tape.len() {
                    m.pointer + 1
                } else {
                    0
                },
                ..m
            },
        ),
        Instruction::Left => Ok(
            Machine {
                pc: next,
                pointer: if m.pointer > 0 {
                    (m.pointer - 1) as nat
                } else if m.tape.len() > 0 {
                    (m.tape.len() - 1) as nat
                } else {
                    0
                },
                ..m
            },
        ),
        Instruction::Increment => Ok(
            Machine {
                pc: next,
                tape: with_cell(
                    m,
                    if cell(m) == 255 {
                        0
                    } else {
                        (cell(m) + 1) as u8
                    },
                ),
                ..m
            },
        ),
        Instruction::Decrement => Ok(
            Machine {
                pc: next,
                tape: with_cell(
                    m,
                    if cell(m) == 0 {
                        255
                    } else {
                        (cell(m) - 1) as u8
                    },
                ),
                ..m
            },
        ),
        Instruction::Output => Ok(Machine { pc: next, output: m.output.push(cell(m) as char), ..m }),
        Instruction::Input => if m.consumed < input.len() {
            Ok(
                Machine {
                    pc: next,
                    tape: with_cell(m, input[m.consumed as int]),
                    consumed: m.consumed + 1,
                    ..m
                },
            )
        } else {
            Err(ExecuteError::NoInputLeft)
        },
        Instruction::LoopStart { end } => Ok(
            Machine {
                pc: if cell(m) == 0 {
                    end as nat + 1
                } else {
                    next
                },
                ..m
            },
        ),
        Instruction::LoopEnd { start } => Ok(
            Machine {
                pc: if cell(m) != 0 {
                    start as nat + 1
                } else {
                    next
                },
                ..m
            },
        ),
    }
}

/// What the program writes when it runs from the state `m` and may execute
/// `steps` instructions more. It ends when the next instruction lies behind
/// the program's end.
pub open spec fn run_spec(program: Seq<Instruction>, input: Seq<u8>, m: Machine, steps: nat) -> Result<
    Seq<char>,
    ExecuteError,
>
    decreases steps,
{
    if m.pc >= program.len() {
        Ok(m.output)
    } else if steps == 0 {
        Err(ExecuteError::InfiniteLoop)
    } else {
        match step_spec(m, program[m.pc as int], input) {
            Err(e) => Err(e),
            Ok(next) => run_spec(program, input, next, (steps - 1) as nat),
        }
    }
}

/// The state in which a program starts on the tape `memory`.
pub open spec fn initial(memory: Seq<u8>) -> Machine {
    Machine { pc: 0, pointer: 0, tape: memory, consumed: 0, output: Seq::empty() }
}

impl Program {
    /// The number of instructions.
    pub fn len(&self) -> (n: usize)
        ensures
            n == self@.len(),
    {
        self.instructions.len()
    }

    /// Runs the program on the tape `memory`, with the pointer on its first
    /// cell, and returns what the program wrote.
    pub fn execute(&self, input: Vec<u8>, memory: Vec<u8>) -> (res: Result<String, ExecuteError>)
        ensures
            match res {
                Ok(out) => run_spec(self@, input@, initial(memory@), STEP_LIMIT as nat) == Ok::<
                    Seq<char>,
                    ExecuteError,
                >(out@),
                Err(e) => run_spec(self@, input@, initial(memory@), STEP_LIMIT as nat) == Err::<
                    Seq<char>,
                    ExecuteError,
                >(e),
            },
    {
        let mut tape = memory;
        let mut output = String::new();
        let mut pc: usize = 0;
        let mut pointer: usize = 0;
        let mut consumed: usize = 0;
        let mut left: u64 = STEP_LIMIT;
        let ghost goal = run_spec(self@, input@, initial(memory@), STEP_LIMIT as nat);
        let n = self.instructions.len();
        while pc < n
            invariant
                n == self@.len(),
                pointer < tape@.len() || pointer == 0,
                consumed <= input@.len(),
                goal == run_spec(self@, input@, initial(memory@), STEP_LIMIT as nat),
                goal == run_spec(
                    self@,
                    input@,
                    Machine {
                        pc: pc as nat,
                        pointer: pointer as nat,
                        tape: tape@,
                        consumed: consumed as nat,
                        output: output@,
                    },
                    left as nat,
                ),
            decreases left,
        {
            if left == 0 {
                return Err(ExecuteError::InfiniteLoop);
            }
            left = left - 1;
            let value: u8 = if pointer < tape.len() {
                tape[pointer]
            } else {
                0
            };
            match self.instructions[pc] {
                Instruction::Right => {
                    pointer = if pointer + 1 < tape.len() {
                        pointer + 1
                    } else {
                        0
                    };
                    pc = pc + 1;
                },
                Instruction::Left => {
                    pointer = if pointer > 0 {
                        pointer - 1
                    } else if tape.len() > 0 {
                        tape.len() - 1
                    } else {
                        0
                    };
                    pc = pc + 1;
                },
                Instruction::Increment => {
                    if pointer < tape.len() {
                        tape.set(
                            pointer,
                            if value == 255 {
                                0
                            } else {
                                value + 1
                            },
                        );
                    }
                    pc = pc + 1;
                },
                Instruction::Decrement => {
                    if pointer < tape.len() {
                        tape.set(
                            pointer,
                            if value == 0 {
                                255
                            } else {
                                value - 1
                            },
                        );
                    }
                    pc = pc + 1;
                },
                Instruction::Output => {
                    push_char(&mut output, value as char);
                    pc = pc + 1;
                },
                Instruction::Input => {
                    if consumed >= input.len() {
                        return Err(ExecuteError::NoInputLeft);
                    }
                    if pointer < tape.len() {
                        tape.set(pointer, input[consumed]);
                    }
                    consumed = consumed + 1;
                    pc = pc + 1;
                },
                Instruction::LoopStart { end } => {
                    if value == 0 {
                        if end >= n {
                            proof {
                                let m = Machine {
                                    pc: end as nat + 1,
                                    pointer: pointer as nat,
                                    tape: tape@,
                                    consumed: consumed as nat,
                                    output: output@,
                                };
                                assert(run_spec(self@, input@, m, left as nat) == Ok::<
                                    Seq<char>,
                                    ExecuteError,
                                >(output@));
                            }
                            return Ok(output);
                        }
                        pc = end + 1;
                    } else {
                        pc = pc + 1;
                    }
                },
                Instruction::LoopEnd { start } => {
                    if value != 0 {
                        if start >= n {
                            proof {
                                let m = Machine {
                                    pc: start as nat + 1,
                                    pointer: pointer as nat,
                                    tape: tape@,
                                    consumed: consumed as nat,
                                    output: output@,
                                };
                                assert(run_spec(self@, input@, m, left as nat) == Ok::<
                                    Seq<char>,
                                    ExecuteError,
                                >(output@));
                            }
                            return Ok(output);
                        }
                        pc = start + 1;
                    } else {
                        pc = pc + 1;
                    }
                },
            }
        }
        Ok(output)
    }
}

} // verus!
