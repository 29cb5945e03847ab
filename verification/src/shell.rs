//! The skeleton of a command shell: commands look at a line one after the
//! other until one of them handles it. The shell writes into a text that the
//! surrounding program prints, and leaves the file system to that program.
use crate::text::{chars_of, find_char, index_of_char, str_equal, trim_range, trimmed};
use vstd::prelude::*;
use vstd::string::{StrSliceExecFns, StringExecFns};

verus! {

/// Why a command failed.
#[derive(Debug, PartialEq, Eq)]
pub enum CommandError {
    /// The system refused what the command asked of it; the text says why.
    IO(String),
}

/// What a command made of a line.
#[derive(Debug, PartialEq, Eq)]
pub enum CommandResponse {
    /// The line is not for this command.
    Unhandled,
    /// The line was for this command, which succeeded or failed.
    Handled(Result<(), CommandError>),
}

/// What the shell knows between two lines.
#[derive(Debug, PartialEq, Eq)]
pub struct InterpreterState {
    /// The working directory.
    pub workdir: String,
}

impl InterpreterState {
    /// A state with the working directory `workdir`.
    pub fn new(workdir: String) -> (state: InterpreterState)
        ensures
            state.workdir == workdir,
    {
        InterpreterState { workdir }
    }
}

/// The text that reports a failed command, if `res` is a failure.
pub open spec fn failure_text(line: Seq<char>, res: CommandResponse) -> Seq<char> {
    match res {
        CommandResponse::Handled(Err(CommandError::IO(why))) => "Command `"@ + line
            + "` has failed: "@ + why@ + "\n"@,
        _ => Seq::empty(),
    }
}

/// Something the shell can do. A command looks at a line and says whether
/// the line is meant for it.
pub trait Command {
    /// Whether `line` is meant for this command. Left open where a command
    /// does not say.
    open spec fn handles(&self, line: Seq<char>) -> bool {
        arbitrary()
    }

    /// Whether the command, handling `line` with the working directory
    /// `before`, may leave the working directory `after`, write `written`
    /// and answer `res`. Everything is allowed where a command does not say.
    open spec fn allows(
        &self,
        line: Seq<char>,
        before: Seq<char>,
        after: Seq<char>,
        written: Seq<char>,
        res: CommandResponse,
    ) -> bool {
        true
    }

    /// Looks at `line`. A command that the line is not meant for changes
    /// nothing; one that handles it appends to `output` what it has to say.
    fn execute(&self, line: &str, state: &mut InterpreterState, output: &mut String) -> (res:
        CommandResponse)
        ensures
            res !is Unhandled <==> self.handles(line@),
            !self.handles(line@) ==> final(state).workdir@ == old(state).workdir@ && final(output)@
                == old(output)@,
            self.handles(line@) ==> exists|written: Seq<char>|
                final(output)@ == old(output)@ + written && #[trigger] self.allows(
                    line@,
                    old(state).workdir@,
                    final(state).workdir@,
                    written,
                    res,
                ),
    ;
}

/// Prints the working directory: the command `pwd`.
pub struct PrintWorkdir;

impl Command for PrintWorkdir {
    open spec fn handles(&self, line: Seq<char>) -> bool {
        trimmed(line) == "pwd"@
    }

    open spec fn allows(
        &self,
        line: Seq<char>,
        before: Seq<char>,
        after: Seq<char>,
        written: Seq<char>,
        res: CommandResponse,
    ) -> bool {
        &&& after == before
        &&& written == before + "\n"@
        &&& res == CommandResponse::Handled(Ok(()))
    }

    fn execute(&self, line: &str, state: &mut InterpreterState, output: &mut String) -> (res:
        CommandResponse) {
        let chars = chars_of(line);
        assert(chars@.subrange(0, chars.len() as int) =~= chars@);
        let (a, b) = trim_range(&chars, 0, chars.len());
        if !str_equal(line.substring_char(a, b), "pwd") {
            return CommandResponse::Unhandled;
        }
        let ghost before = output@;
        output.append(state.workdir.as_str());
        output.append("\n");
        let res = CommandResponse::Handled(Ok(()));
        proof {
            let written = state.workdir@ + "\n"@;
            assert(output@ =~= before + written);
            assert(self.allows(line@, state.workdir@, state.workdir@, written, res));
        }
        res
    }
}

/// Changes the working directory: the command `cd` with a directory. What
/// the directory's full path is, and whether there is such a directory, only
/// the file system can tell: the command says which directory is asked for,
/// and completes once it is told what became of that.
pub struct ChangeWorkdir;

/// The directory that the line asks to change to: what follows `cd` and one
/// space on the trimmed line.
pub open spec fn cd_target(line: Seq<char>) -> Option<Seq<char>> {
    let t = trimmed(line);
    let p = index_of_char(t, ' ');
    if p < t.len() && t.take(p as int) == "cd"@ {
        Some(t.skip(p as int + 1))
    } else {
        None
    }
}

impl ChangeWorkdir {
    /// The directory that `line` asks to change to; `None` where the line
    /// is not a `cd` command.
    pub fn target<'a>(&self, line: &'a str) -> (dir: Option<&'a str>)
        ensures
            match dir {
                Some(d) => cd_target(line@) == Some(d@),
                None => cd_target(line@) is None,
            },
    {
        let chars = chars_of(line);
        assert(chars@.subrange(0, chars.len() as int) =~= chars@);
        let (a, b) = trim_range(&chars, 0, chars.len());
        let ghost t = chars@.subrange(a as int, b as int);
        let p = match find_char(&chars, a, b, ' ') {
            Some(p) => p,
            None => {
                return None;
            },
        };
        proof {
            assert(t.take(p - a) =~= chars@.subrange(a as int, p as int));
            assert(t.skip(p - a + 1) =~= chars@.subrange(p + 1, b as int));
        }
        if !str_equal(line.substring_char(a, p), "cd") {
            return None;
        }
        Some(line.substring_char(p + 1, b))
    }

    /// Completes the command: moves to the resolved directory, or reports
    /// why the directory could not be resolved.
    pub fn complete(&self, state: &mut InterpreterState, resolved: Result<String, String>) -> (res:
        CommandResponse)
        ensures
            match resolved {
                Ok(dir) => final(state).workdir == dir && res == CommandResponse::Handled(Ok(())),
                Err(why) => final(state).workdir == old(state).workdir && res
                    == CommandResponse::Handled(Err(CommandError::IO(why))),
            },
    {
        match resolved {
            Ok(dir) => {
                state.workdir = dir;
                CommandResponse::Handled(Ok(()))
            },
            Err(why) => CommandResponse::Handled(Err(CommandError::IO(why))),
        }
    }
}

/// The commands of a shell, and its state.
pub struct Shell {
    commands: Vec<Box<dyn Command>>,
    state: InterpreterState,
}

impl Shell {
    /// The commands, in the order in which they are asked.
    pub closed spec fn commands(&self) -> Seq<Box<dyn Command>> {
        self.commands@
    }

    /// The working directory.
    pub closed spec fn workdir(&self) -> Seq<char> {
        self.state.workdir@
    }

    /// Position of the first command that `line` is meant for; the number
    /// of commands where there is none.
    pub open spec fn first_handler(commands: Seq<Box<dyn Command>>, line: Seq<char>) -> nat
        decreases commands.len(),
    {
        if commands.len() == 0 {
            0
        } else if commands[0].handles(line) {
            0
        } else {
            1 + Self::first_handler(commands.drop_first(), line)
        }
    }

    /// A shell without commands.
    pub fn new(state: InterpreterState) -> (shell: Shell)
        ensures
            shell.commands().len() == 0,
            shell.workdir() == state.workdir@,
    {
        Shell { commands: Vec::new(), state }
    }

    /// The working directory.
    pub fn working_directory(&self) -> (dir: &String)
        ensures
            dir@ == self.workdir(),
    {
        &self.state.workdir
    }

    /// Adds a command behind those that the shell has.
    pub fn add_command(&mut self, command: Box<dyn Command>)
        ensures
            final(self).workdir() == old(self).workdir(),
            final(self).commands() == old(self).commands().push(command),
    {
        self.commands.push(command);
    }

    /// Hands `line` to the commands, one after the other, until one handles
    /// it. That command alone acts; when it fails, a report of the failure
    /// follows what it wrote. A line that is meant for no command changes
    /// nothing.
    pub fn execute_line(&mut self, line: &str, output: &mut String)
        ensures
            final(self).commands() == old(self).commands(),
            ({
                let i = Self::first_handler(old(self).commands(), line@);
                if i >= old(self).commands().len() {
                    final(self).workdir() == old(self).workdir() && final(output)@ == old(output)@
                } else {
                    exists|written: Seq<char>, res: CommandResponse|
                        (#[trigger] old(self).commands()[i as int].allows(
                            line@,
                            old(self).workdir(),
                            final(self).workdir(),
                            written,
                            res,
                        )) && final(output)@ == old(output)@ + written + failure_text(line@, res)
                }
            }),
    {
        let ghost all = self.commands@;
        let mut i: usize = 0;
        assert(all.skip(0) =~= all);
        while i < self.commands.len()
            invariant
                i <= self.commands.len(),
                self.commands@ == all,
                all == old(self).commands(),
                self.state.workdir@ == old(self).workdir(),
                output@ == old(output)@,
                Self::first_handler(all, line@) == i + Self::first_handler(all.skip(i as int), line@),
            decreases self.commands.len() - i,
        {
            let ghost before = output@;
            proof {
                assert(all.skip(i as int).drop_first() =~= all.skip(i + 1));
                assert(all.skip(i as int)[0] == all[i as int]);
            }
            let res = self.commands[i].execute(line, &mut self.state, output);
            match res {
                CommandResponse::Handled(Err(CommandError::IO(why))) => {
                    let ghost written = choose|written: Seq<char>|
                        output@ == before + written && #[trigger] all[i as int].allows(
                            line@,
                            old(self).workdir(),
                            self.state.workdir@,
                            written,
                            res,
                        );
                    output.append("Command `");
                    output.append(line);
                    output.append("` has failed: ");
                    output.append(why.as_str());
                    output.append("\n");
                    proof {
                        assert(output@ =~= before + written + failure_text(line@, res));
                        assert(Self::first_handler(all.skip(i as int), line@) == 0);
                        assert(Self::first_handler(all, line@) == i);
                        assert(all[i as int].allows(
                            line@,
                            old(self).workdir(),
                            self.state.workdir@,
                            written,
                            res,
                        ));
                        assert(output@ == old(output)@ + written + failure_text(line@, res));
                        let k = Self::first_handler(old(self).commands(), line@);
                        assert(k == i);
                        assert(old(self).commands()[k as int] == all[i as int]);
                        assert(self.workdir() == self.state.workdir@);
                        assert(exists|w: Seq<char>, r: CommandResponse|
                            (#[trigger] old(self).commands()[k as int].allows(
                                line@,
                                old(self).workdir(),
                                self.workdir(),
                                w,
                                r,
                            )) && output@ == old(output)@ + w + failure_text(line@, r));
                    }
                    return;
                },
                CommandResponse::Handled(Ok(())) => {
                    proof {
                        let written = choose|written: Seq<char>|
                            output@ == before + written && #[trigger] all[i as int].allows(
                                line@,
                                old(self).workdir(),
                                self.state.workdir@,
                                written,
                                res,
                            );
                        assert(output@ =~= before + written + failure_text(line@, res));
                        assert(Self::first_handler(all.skip(i as int), line@) == 0);
                        assert(Self::first_handler(all, line@) == i);
                        assert(all[i as int].allows(
                            line@,
                            old(self).workdir(),
                            self.state.workdir@,
                            written,
                            res,
                        ));
                        assert(output@ == old(output)@ + written + failure_text(line@, res));
                        let k = Self::first_handler(old(self).commands(), line@);
                        assert(k == i);
                        assert(old(self).commands()[k as int] == all[i as int]);
                        assert(self.workdir() == self.state.workdir@);
                        assert(exists|w: Seq<char>, r: CommandResponse|
                            (#[trigger] old(self).commands()[k as int].allows(
                                line@,
                                old(self).workdir(),
                                self.workdir(),
                                w,
                                r,
                            )) && output@ == old(output)@ + w + failure_text(line@, r));
                    }
                    return;
                },
                CommandResponse::Unhandled => {},
            }
            i = i + 1;
        }
    }

    /// Writes the prompt: the working directory, a dollar sign and a space.
    pub fn print_prompt(&self, output: &mut String)
        ensures
            final(output)@ == old(output)@ + self.workdir() + "$ "@,
    {
        output.append(self.state.workdir.as_str());
        output.append("$ ");
    }
}

} // verus!
