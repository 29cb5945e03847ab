use workshop::interpret::basic;
use workshop::interpret::cpu::{CpuBuilder, ReadError, WriteError};
use workshop::interpret::instruction::{ExecutionError, Instruction, Program};
use workshop::interpret::memory::{AddressableExpr, ReadableExpr, WritableExpr};
use workshop::interpret::parser::{annotate_error, parse_program, ParseError, ParseErrorKind};
use workshop::interpret::{execute_instruction, execute_program, Halt, Value};

#[test]
fn test_cpu_init_zero() {
    let cpu = CpuBuilder::new().register_count(16).memory_size(1024).zeroed();
    assert_eq!(cpu.read(ReadableExpr::memory(100)).unwrap(), 0);
    assert_eq!(cpu.read(ReadableExpr::register(0)).unwrap(), 0);
}

#[test]
fn cpu_bounds_and_undefined_cells() {
    let mut cpu = CpuBuilder::new().register_count(2).memory_size(4).undefined::<u8>();
    assert_eq!(
        cpu.read(ReadableExpr::register(0)),
        Err(ReadError::Undefined(AddressableExpr::Register(0)))
    );
    assert_eq!(
        cpu.read(ReadableExpr::register(2)),
        Err(ReadError::OutOfBounds(AddressableExpr::Register(2)))
    );
    assert_eq!(
        cpu.write(WritableExpr::memory(4), 1),
        Err(WriteError::OutOfBounds(AddressableExpr::Memory(4)))
    );
    assert_eq!(cpu.write(WritableExpr::memory(3), 7), Ok(()));
    assert_eq!(cpu.read(ReadableExpr::memory(3)), Ok(7));
    assert_eq!(cpu.read(ReadableExpr::constant(9)), Ok(9));
    assert_eq!(cpu.get_ip(), 0);
    cpu.set_ip(5);
    assert_eq!(cpu.get_ip(), 5);
}

#[test]
fn value_of_bytes() {
    assert_eq!(<u8 as Value>::parse("255"), Ok(255));
    assert_eq!(<u8 as Value>::parse("+7"), Ok(7));
    assert_eq!(<u8 as Value>::parse("007"), Ok(7));
    assert!(<u8 as Value>::parse("256").is_err());
    assert!(<u8 as Value>::parse("").is_err());
    assert!(<u8 as Value>::parse("+").is_err());
    assert!(<u8 as Value>::parse("-1").is_err());
    assert!(<u8 as Value>::parse("1 ").is_err());
    assert_eq!(200u8.plus(100), 44);
    assert_eq!(3u8.minus(5), 254);
    assert!(0u8.is_zero());
    assert!(!1u8.is_zero());
}

#[test]
fn parse_and_run_countdown() {
    let input = "
    MOV R0, 3
    start:
    PRINT R0
    SUB R0, 1
    JNZ R0, start
    ";
    let program: Program<u8> = parse_program(input).unwrap();
    assert_eq!(program.instructions.len(), 4);
    assert_eq!(program.labels, vec![(String::from("start"), 1)]);
    assert_eq!(program.resolve_label("start"), Some(1));
    assert_eq!(program.resolve_label("end"), None);
    let mut cpu = CpuBuilder::new().register_count(16).memory_size(1024).default::<u8>();
    let mut printed = Vec::new();
    assert_eq!(execute_program(&mut cpu, &program, &mut printed, 1000), Ok(Halt::Finished));
    assert_eq!(printed, vec![3, 2, 1]);
    assert_eq!(cpu.get_ip(), 4);
}

#[test]
fn run_out_of_steps() {
    let program: Program<u8> = parse_program("loop:\nADD R0, 1\nPRINT 1\nJNZ 1, loop").unwrap();
    let mut cpu = CpuBuilder::new().zeroed();
    let mut printed = Vec::new();
    assert_eq!(execute_program(&mut cpu, &program, &mut printed, 7), Ok(Halt::OutOfSteps));
    assert_eq!(printed, vec![1, 1]);
    assert_eq!(cpu.read(ReadableExpr::register(0)), Ok(3));
}

#[test]
fn run_stops_at_the_failing_instruction() {
    let program: Program<u8> = parse_program("PRINT 5\nMOV R200, 1\nPRINT 6").unwrap();
    let mut cpu = CpuBuilder::new().zeroed();
    let mut printed = Vec::new();
    assert_eq!(
        execute_program(&mut cpu, &program, &mut printed, 10),
        Err(ExecutionError::Write(WriteError::OutOfBounds(AddressableExpr::Register(200))))
    );
    assert_eq!(printed, vec![5]);
    assert_eq!(cpu.get_ip(), 1);
}

#[test]
fn jump_to_unknown_label() {
    let program: Program<u8> = parse_program("JNZ 1, nowhere").unwrap();
    let mut cpu = CpuBuilder::new().zeroed();
    let inst = Instruction::JumpIfNotZero {
        src: ReadableExpr::constant(1),
        label: String::from("nowhere"),
    };
    assert_eq!(program.instructions, vec![inst]);
    assert_eq!(
        execute_instruction(&mut cpu, &program, &program.instructions[0]),
        Err(ExecutionError::InvalidLabel(String::from("nowhere")))
    );
    assert_eq!(cpu.get_ip(), 0);
}

#[test]
fn add_and_sub_wrap_around() {
    let program: Program<u8> =
        parse_program("MOV R1, 250\nADD R1, 10\nPRINT R1\nSUB R1, 5\nPRINT R1").unwrap();
    let mut cpu = CpuBuilder::new().zeroed();
    let mut printed = Vec::new();
    assert_eq!(execute_program(&mut cpu, &program, &mut printed, 10), Ok(Halt::Finished));
    assert_eq!(printed, vec![4, 255]);
}

#[test]
fn parse_errors() {
    let unknown = parse_program::<u8>("MOV R0, 1\nFOO R1").unwrap_err();
    assert_eq!(unknown, ParseError { line: 1, error: ParseErrorKind::UnknownCommand("FOO") });
    let args = parse_program::<u8>("\n\nADD  R0 1 ").unwrap_err();
    assert_eq!(args, ParseError { line: 2, error: ParseErrorKind::UnexpectedArgs("R0 1") });
    let readable = parse_program::<u8>("PRINT R").unwrap_err();
    assert_eq!(readable, ParseError { line: 0, error: ParseErrorKind::InvalidReadableExpr("R") });
    let source_first = parse_program::<u8>("MOV 5, x").unwrap_err();
    assert_eq!(
        source_first,
        ParseError { line: 0, error: ParseErrorKind::InvalidReadableExpr("x") }
    );
    let writable = parse_program::<u8>("MOV Rx, 5").unwrap_err();
    assert_eq!(writable, ParseError { line: 0, error: ParseErrorKind::InvalidWritableExpr("Rx") });
    let not_a_register = parse_program::<u8>("MOV 5, 5").unwrap_err();
    assert_eq!(
        not_a_register,
        ParseError { line: 0, error: ParseErrorKind::InvalidReadableExpr("5") }
    );
    let empty = parse_program::<u8>(":::").unwrap_err();
    assert_eq!(empty, ParseError { line: 0, error: ParseErrorKind::EmptyLabel });
    let twice = parse_program::<u8>("a:\nPRINT 1\na::").unwrap_err();
    assert_eq!(twice, ParseError { line: 2, error: ParseErrorKind::DuplicatedLabel("a") });
    let jump = parse_program::<u8>("JNZ 1").unwrap_err();
    assert_eq!(jump, ParseError { line: 0, error: ParseErrorKind::UnexpectedArgs("1") });
}

#[test]
fn annotate_parse_error() {
    let input = "PRINT 5\r\n  FOO R1\nPRINT 2";
    let error = parse_program::<u8>(input).unwrap_err();
    assert_eq!(annotate_error(input, error), "Line 2:   FOO R1\nUnknown command FOO");
    let far = ParseError { line: 3, error: ParseErrorKind::EmptyLabel };
    assert_eq!(annotate_error(input, far), "Error at unknown line");
    let bad = ParseError { line: 0, error: ParseErrorKind::InvalidWritableExpr("Rx") };
    assert_eq!(
        annotate_error("MOV Rx, 1", bad),
        "Line 1: MOV Rx, 1\nInvalid writable expression Rx"
    );
}

#[test]
fn basic_machine() {
    let mut cpu = basic::CpuBuilder::new().register_count(16).memory_size(128).zeroed();
    let set = basic::Instruction::Move {
        dest: basic::WriteExpr::memory(5),
        src: basic::ReadExpr::constant(50),
    };
    assert_eq!(basic::execute_instruction(&mut cpu, set), Ok(None));
    let print = basic::Instruction::Print(basic::ReadExpr::memory(5));
    assert_eq!(basic::execute_instruction(&mut cpu, print), Ok(Some(50)));
    let far = basic::Instruction::Print(basic::ReadExpr::memory(128));
    assert_eq!(
        basic::execute_instruction(&mut cpu, far),
        Err(basic::ExecuteError::ReadExpr(basic::ReadExprError::OutOfBounds { index: 128 }))
    );
    let mut blank = basic::CpuBuilder::new().undefined();
    assert_eq!(
        blank.read(basic::ReadExpr::register(3)),
        Err(basic::ReadExprError::Undefined)
    );
    assert_eq!(
        blank.write(basic::WriteExpr::register(16), 1),
        Err(basic::WriteExprError::OutOfBounds { index: 16 })
    );
    assert_eq!(blank.write(basic::WriteExpr::register(15), 1), Ok(()));
    assert_eq!(blank.read(basic::ReadExpr::register(15)), Ok(1));
}

#[test]
fn basic_parser() {
    let program = basic::parse("\nPRINT R0\n  PRINT 8  \n").unwrap();
    assert_eq!(
        program,
        vec![
            basic::Instruction::Print(basic::ReadExpr::register(0)),
            basic::Instruction::Print(basic::ReadExpr::constant(8)),
        ]
    );
    assert_eq!(
        basic::parse("PRINT 1\n\n  PRINT"),
        Err(basic::ParseError {
            line_number: 2,
            line: "PRINT",
            kind: basic::ParseErrorKind::MissingArguments
        })
    );
    assert_eq!(
        basic::parse("JUMP 1"),
        Err(basic::ParseError {
            line_number: 0,
            line: "JUMP 1",
            kind: basic::ParseErrorKind::UnknownInstruction("JUMP")
        })
    );
    assert_eq!(
        basic::parse("PRINT 256"),
        Err(basic::ParseError {
            line_number: 0,
            line: "PRINT 256",
            kind: basic::ParseErrorKind::InvalidConstant("256")
        })
    );
    assert_eq!(
        basic::parse("PRINT R-1"),
        Err(basic::ParseError {
            line_number: 0,
            line: "PRINT R-1",
            kind: basic::ParseErrorKind::InvalidRegister("-1")
        })
    );
}

#[derive(Debug, Clone, Copy, PartialEq, Eq)]
struct Pair {
    x: i32,
    y: i32,
}

impl Value for Pair {
    fn parse(input: &str) -> Result<Self, String> {
        let Some((left, right)) = input.split_once('_') else {
            return Err("Wrong pair".to_string());
        };
        let x = left.parse::<i32>().map_err(|error| format!("Error: {error:?}"))?;
        let y = right.parse::<i32>().map_err(|error| format!("Error: {error:?}"))?;
        Ok(Pair { x, y })
    }

    fn is_zero(&self) -> bool {
        self.x == 0 && self.y == 0
    }

    fn plus(self, rhs: Self) -> Self {
        Pair { x: self.x + rhs.x, y: self.y + rhs.y }
    }

    fn minus(self, rhs: Self) -> Self {
        Pair { x: self.x - rhs.x, y: self.y - rhs.y }
    }

    fn duplicate(&self) -> Self {
        *self
    }

    fn initial() -> Self {
        Pair { x: 0, y: 0 }
    }
}

#[test]
fn programs_over_values_of_another_kind() {
    let input = "MOV R0, 2_4\nagain:\nPRINT R0\nSUB R0, 1_2\nJNZ R0, again\nADD R1, 7_-7\nPRINT R1";
    let program: Program<Pair> = parse_program(input).unwrap();
    let mut cpu = CpuBuilder::new().register_count(2).memory_size(0).default::<Pair>();
    let mut printed = Vec::new();
    assert_eq!(execute_program(&mut cpu, &program, &mut printed, 100), Ok(Halt::Finished));
    assert_eq!(
        printed,
        vec![Pair { x: 2, y: 4 }, Pair { x: 1, y: 2 }, Pair { x: 7, y: -7 }]
    );
}
