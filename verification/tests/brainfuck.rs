use workshop::brainfuck::{parse_program, ExecuteError, ParseError};

fn check_output(program_text: &str, input: &str, expected_output: &str) {
    let program = parse_program(program_text);
    match program {
        Ok(program) => {
            let result = program
                .execute(input.to_string().into_bytes(), vec![0; 30000])
                .expect(&format!("Cannot execute program {program_text}"));
            assert_eq!(result, expected_output);
        }
        Err(error) => {
            panic!("Error occurred while parsing program {program_text}: {error:?}");
        }
    }
}

#[test]
fn parse_empty() {
    check_output("", "", "");
}

#[test]
fn parse_unknown_instruction() {
    assert!(matches!(
        parse_program(">p"),
        Err(ParseError::UnknownInstruction {
            location: 1,
            instruction: 'p'
        })
    ));
}

#[test]
fn parse_unmatched_loop_start() {
    assert_eq!(
        parse_program(">++[+>][++>"),
        Err(ParseError::UnmatchedLoop { location: 7 })
    );
}

#[test]
fn parse_unmatched_loop_end() {
    assert_eq!(
        parse_program(">++[+>][++>]+]"),
        Err(ParseError::UnmatchedLoop { location: 13 })
    );
}

#[test]
fn missing_input() {
    let program = parse_program(",").unwrap();
    let result = program.execute(vec![], vec![0; 30000]);
    assert_eq!(result, Err(ExecuteError::NoInputLeft));
}

#[test]
fn infinite_loop() {
    let program = parse_program("+[]").unwrap();
    let result = program.execute(vec![], vec![0; 30000]);
    assert_eq!(result, Err(ExecuteError::InfiniteLoop));
}

#[test]
fn copy_input() {
    check_output(",.>,.>,.>,.>,.", "hello", "hello");
}

#[test]
fn output_exclamation_mark() {
    check_output("+++++++++++++++++++++++++++++++++.", "", "!");
}

#[test]
fn three_exclamation_marks() {
    check_output(">+++++++++++++++++++++++++++++++++<+++[>.<-]", "", "!!!");
}

#[test]
fn hello_world() {
    check_output("++++++++[>++++[>++>+++>+++>+<<<<-]>+>+>->>+[<]<-]>>.>---.+++++++..+++.>>.<-.<.+++.------.--------.>>+.>++.", "", "Hello World!\n");
}

#[test]
fn ten_thousand_instructions_are_allowed() {
    let text = "+".repeat(10000);
    let program = parse_program(&text).unwrap();
    assert_eq!(program.execute(vec![], vec![0; 1]), Ok(String::new()));
    let text = "+".repeat(10001);
    let program = parse_program(&text).unwrap();
    assert_eq!(program.execute(vec![], vec![0; 1]), Err(ExecuteError::InfiniteLoop));
}

#[test]
fn tape_is_a_ring_and_cells_wrap() {
    let program = parse_program("-.<+.>.").unwrap();
    assert_eq!(
        program.execute(vec![], vec![0; 3]),
        Ok(String::from("\u{ff}\u{1}\u{ff}"))
    );
}

#[test]
fn innermost_open_loop_is_reported() {
    assert_eq!(parse_program("[[]["), Err(ParseError::UnmatchedLoop { location: 3 }));
}
