use workshop::shell::{
    ChangeWorkdir, Command, CommandError, CommandResponse, InterpreterState, PrintWorkdir, Shell,
};

struct Cd;

impl Command for Cd {
    fn execute(
        &self,
        line: &str,
        state: &mut InterpreterState,
        _output: &mut String,
    ) -> CommandResponse {
        match ChangeWorkdir.target(line) {
            None => CommandResponse::Unhandled,
            Some(dir) => {
                let resolved = if dir.starts_with('/') {
                    Ok(dir.to_string())
                } else {
                    Err(format!("no such directory: {dir}"))
                };
                ChangeWorkdir.complete(state, resolved)
            }
        }
    }
}

#[test]
fn test_pwd_1() {
    let pwd = PrintWorkdir;
    let mut state = InterpreterState::new(String::from("/foo"));
    let mut buffer = String::new();
    pwd.execute("pwd", &mut state, &mut buffer);
    assert_eq!(buffer, "/foo\n");
}

#[test]
fn pwd_ignores_other_lines() {
    let mut state = InterpreterState::new(String::from("/foo"));
    let mut buffer = String::from("before");
    assert_eq!(PrintWorkdir.execute("pwd x", &mut state, &mut buffer), CommandResponse::Unhandled);
    assert_eq!(PrintWorkdir.execute("", &mut state, &mut buffer), CommandResponse::Unhandled);
    assert_eq!(buffer, "before");
    assert_eq!(
        PrintWorkdir.execute("  pwd \n", &mut state, &mut buffer),
        CommandResponse::Handled(Ok(()))
    );
    assert_eq!(buffer, "before/foo\n");
}

#[test]
fn cd_target_and_completion() {
    assert_eq!(ChangeWorkdir.target("cd /bar"), Some("/bar"));
    assert_eq!(ChangeWorkdir.target("  cd  a b  "), Some(" a b"));
    assert_eq!(ChangeWorkdir.target("cd"), None);
    assert_eq!(ChangeWorkdir.target("cdx /bar"), None);
    assert_eq!(ChangeWorkdir.target("pwd"), None);
    let mut state = InterpreterState::new(String::from("/foo"));
    assert_eq!(
        ChangeWorkdir.complete(&mut state, Ok(String::from("/bar"))),
        CommandResponse::Handled(Ok(()))
    );
    assert_eq!(state.workdir, "/bar");
    assert_eq!(
        ChangeWorkdir.complete(&mut state, Err(String::from("gone"))),
        CommandResponse::Handled(Err(CommandError::IO(String::from("gone"))))
    );
    assert_eq!(state.workdir, "/bar");
}

#[test]
fn shell_asks_its_commands_in_order() {
    let mut shell = Shell::new(InterpreterState::new(String::from("/home")));
    shell.add_command(Box::new(PrintWorkdir));
    shell.add_command(Box::new(Cd));
    let mut out = String::new();
    shell.print_prompt(&mut out);
    assert_eq!(out, "/home$ ");
    shell.execute_line("pwd", &mut out);
    assert_eq!(out, "/home$ /home\n");
    shell.execute_line("cd /tmp", &mut out);
    assert_eq!(shell.working_directory(), "/tmp");
    shell.execute_line("ls", &mut out);
    assert_eq!(out, "/home$ /home\n");
    let mut out = String::new();
    shell.execute_line("cd nowhere", &mut out);
    assert_eq!(out, "Command `cd nowhere` has failed: no such directory: nowhere\n");
    assert_eq!(shell.working_directory(), "/tmp");
    shell.print_prompt(&mut out);
    assert!(out.ends_with("/tmp$ "));
}
