//! The text form of programs: one instruction or label per line.
use crate::interpret::instruction::{
    instructions_view, label_lookup, labels_view, lookup_label, Instruction, InstructionView,
    Program, ProgramView,
};
use crate::interpret::memory::{AddressableExpr, ReadableExpr, WritableExpr};
use crate::interpret::Value;
use crate::text::{
    chars_of, decimal, decimal_string, find_char, index_of_char, line_ranges, lines_of, parse_u8,
    parse_u8_spec, str_equal, trim_range, trimmed,
};
use vstd::prelude::*;
use vstd::string::{StrSliceExecFns, StringExecFns};

verus! {

/// What is wrong with a line of a program.
#[derive(Debug, PartialEq, Eq, Clone, Copy)]
pub enum ParseErrorKind<'a> {
    /// No instruction has this name.
    UnknownCommand(&'a str),
    /// The arguments lack a comma.
    UnexpectedArgs(&'a str),
    /// This is neither a value nor a register.
    InvalidReadableExpr(&'a str),
    /// This is `R` without the number of a register behind it.
    InvalidWritableExpr(&'a str),
    /// A label without a name.
    EmptyLabel,
    /// A label that stands in the program already.
    DuplicatedLabel(&'a str),
}

/// A line that could not be parsed.
#[derive(Debug, PartialEq, Eq, Clone, Copy)]
pub struct ParseError<'a> {
    /// Number of the line, counted from zero.
    pub line: usize,
    /// What is wrong with it.
    pub error: ParseErrorKind<'a>,
}

/// Mathematical value of a [`ParseErrorKind`].
pub enum ParseErrorKindView {
    UnknownCommand(Seq<char>),
    UnexpectedArgs(Seq<char>),
    InvalidReadableExpr(Seq<char>),
    InvalidWritableExpr(Seq<char>),
    EmptyLabel,
    DuplicatedLabel(Seq<char>),
}

/// Mathematical value of a [`ParseError`].
pub struct ParseErrorView {
    pub line: nat,
    pub error: ParseErrorKindView,
}

impl<'a> View for ParseErrorKind<'a> {
    type V = ParseErrorKindView;

    open spec fn view(&self) -> ParseErrorKindView {
        match self {
            ParseErrorKind::UnknownCommand(s) => ParseErrorKindView::UnknownCommand(s@),
            ParseErrorKind::UnexpectedArgs(s) => ParseErrorKindView::UnexpectedArgs(s@),
            ParseErrorKind::InvalidReadableExpr(s) => ParseErrorKindView::InvalidReadableExpr(s@),
            ParseErrorKind::InvalidWritableExpr(s) => ParseErrorKindView::InvalidWritableExpr(s@),
            ParseErrorKind::EmptyLabel => ParseErrorKindView::EmptyLabel,
            ParseErrorKind::DuplicatedLabel(s) => ParseErrorKindView::DuplicatedLabel(s@),
        }
    }
}

impl<'a> View for ParseError<'a> {
    type V = ParseErrorView;

    open spec fn view(&self) -> ParseErrorView {
        ParseErrorView { line: self.line as nat, error: self.error@ }
    }
}

impl<'a> ParseError<'a> {
    /// An unknown command on line `line`.
    fn unknown_cmd(line: usize, cmd: &'a str) -> (e: ParseError<'a>)
        ensures
            e == (ParseError { line, error: ParseErrorKind::UnknownCommand(cmd) }),
    {
        ParseError { line, error: ParseErrorKind::UnknownCommand(cmd) }
    }

    /// Arguments without a comma on line `line`.
    fn unexpected_args(line: usize, args: &'a str) -> (e: ParseError<'a>)
        ensures
            e == (ParseError { line, error: ParseErrorKind::UnexpectedArgs(args) }),
    {
        ParseError { line, error: ParseErrorKind::UnexpectedArgs(args) }
    }
}

/// What one line of a program holds.
pub enum LineView<T> {
    /// Nothing but white space.
    Blank,
    /// An instruction.
    Parsed(InstructionView<T>),
    /// A label for the next instruction.
    Label(Seq<char>),
    /// Something that cannot be parsed.
    Bad(ParseErrorKindView),
}

/// The register that `t` names: `R` and the register's number.
pub open spec fn register_spec(t: Seq<char>) -> Option<u8> {
    if t.len() > 0 && t[0] == 'R' {
        parse_u8_spec(t.drop_first())
    } else {
        None
    }
}

/// The readable expression that `input` spells, white space around it
/// aside: a value, or else a register.
pub open spec fn readable_spec<T: Value>(input: Seq<char>) -> Result<
    ReadableExpr<T>,
    ParseErrorKindView,
> {
    let t = trimmed(input);
    match T::parsed(t) {
        Some(v) => Ok(ReadableExpr::Constant(v)),
        None => match register_spec(t) {
            Some(r) => Ok(ReadableExpr::Addressable(AddressableExpr::Register(r))),
            None => Err(ParseErrorKindView::InvalidReadableExpr(t)),
        },
    }
}

/// The writable expression that `input` spells, white space around it
/// aside: a register. What does not start with `R` is reported as an invalid
/// readable expression.
pub open spec fn writable_spec(input: Seq<char>) -> Result<WritableExpr, ParseErrorKindView> {
    let t = trimmed(input);
    if t.len() > 0 && t[0] == 'R' {
        match parse_u8_spec(t.drop_first()) {
            Some(r) => Ok(WritableExpr::Addressable(AddressableExpr::Register(r))),
            None => Err(ParseErrorKindView::InvalidWritableExpr(t)),
        }
    } else {
        Err(ParseErrorKindView::InvalidReadableExpr(t))
    }
}

/// Destination and source of an instruction with two arguments: what
/// stands before the first comma and what stands behind it. The source is
/// looked at first.
pub open spec fn dest_src_spec<T: Value>(args: Seq<char>) -> Result<
    (WritableExpr, ReadableExpr<T>),
    ParseErrorKindView,
> {
    let t = trimmed(args);
    let p = index_of_char(t, ',');
    if p >= t.len() {
        Err(ParseErrorKindView::UnexpectedArgs(t))
    } else {
        match readable_spec::<T>(t.skip(p as int + 1)) {
            Err(kind) => Err(kind),
            Ok(src) => match writable_spec(t.take(p as int)) {
                Err(kind) => Err(kind),
                Ok(dest) => Ok((dest, src)),
            },
        }
    }
}

/// `s` up to its first `c`, or all of `s` when it holds none.
pub open spec fn before_char(s: Seq<char>, c: char) -> Seq<char> {
    if index_of_char(s, c) >= s.len() {
        s
    } else {
        s.take(index_of_char(s, c) as int)
    }
}

/// `s` without the colons at its end.
pub open spec fn strip_colons(s: Seq<char>) -> Seq<char>
    decreases s.len(),
{
    if s.len() > 0 && s.last() == ':' {
        strip_colons(s.drop_last())
    } else {
        s
    }
}

/// The arguments of a conditional jump: a readable expression, a comma, and
/// the label's name, which ends at the next comma if there is one.
pub open spec fn jump_spec<T: Value>(args: Seq<char>) -> LineView<T> {
    let c = index_of_char(args, ',');
    match readable_spec::<T>(before_char(args, ',')) {
        Err(kind) => LineView::Bad(kind),
        Ok(src) => if c >= args.len() {
            LineView::Bad(ParseErrorKindView::UnexpectedArgs(args))
        } else {
            LineView::Parsed(
                InstructionView::JumpIfNotZero {
                    src,
                    label: trimmed(before_char(args.skip(c as int + 1), ',')),
                },
            )
        },
    }
}

/// What the line `raw` holds. A line that is not blank starts with a
/// command, which ends at the first space; the arguments follow.
pub open spec fn line_spec<T: Value>(raw: Seq<char>) -> LineView<T> {
    let line = trimmed(raw);
    if line.len() == 0 {
        LineView::Blank
    } else {
        let p = index_of_char(line, ' ');
        let command = before_char(line, ' ');
        let args = if p >= line.len() {
            Seq::empty()
        } else {
            line.skip(p as int + 1)
        };
        if command == "MOV"@ {
            match dest_src_spec::<T>(args) {
                Ok((dest, src)) => LineView::Parsed(InstructionView::Move { dest, src }),
                Err(kind) => LineView::Bad(kind),
            }
        } else if command == "ADD"@ {
            match dest_src_spec::<T>(args) {
                Ok((dest, src)) => LineView::Parsed(InstructionView::Add { dest, src }),
                Err(kind) => LineView::Bad(kind),
            }
        } else if command == "SUB"@ {
            match dest_src_spec::<T>(args) {
                Ok((dest, src)) => LineView::Parsed(InstructionView::Sub { dest, src }),
                Err(kind) => LineView::Bad(kind),
            }
        } else if command == "PRINT"@ {
            match readable_spec::<T>(args) {
                Ok(expr) => LineView::Parsed(InstructionView::Print { expr }),
                Err(kind) => LineView::Bad(kind),
            }
        } else if command == "JNZ"@ {
            jump_spec::<T>(args)
        } else if command.len() > 0 && command.last() == ':' {
            if strip_colons(command).len() == 0 {
                LineView::Bad(ParseErrorKindView::EmptyLabel)
            } else {
                LineView::Label(strip_colons(command))
            }
        } else {
            LineView::Bad(ParseErrorKindView::UnknownCommand(command))
        }
    }
}

/// The program `p` extended by what the line with number `k` holds. A
/// label stands for the position of the instruction that follows it.
pub open spec fn absorb<T: Value>(p: ProgramView<T>, line: LineView<T>, k: nat) -> Result<
    ProgramView<T>,
    ParseErrorView,
> {
    match line {
        LineView::Blank => Ok(p),
        LineView::Parsed(inst) => Ok(ProgramView { instructions: p.instructions.push(inst), ..p }),
        LineView::Label(label) => if label_lookup(p.labels, label) is Some {
            Err(ParseErrorView { line: k, error: ParseErrorKindView::DuplicatedLabel(label) })
        } else {
            Ok(ProgramView { labels: p.labels.push((label, p.instructions.len() as usize)), ..p })
        },
        LineView::Bad(kind) => Err(ParseErrorView { line: k, error: kind }),
    }
}

/// The program of the first `k` lines, or the first error among them.
pub open spec fn parse_prefix<T: Value>(lines: Seq<Seq<char>>, k: nat) -> Result<
    ProgramView<T>,
    ParseErrorView,
>
    decreases k,
{
    if k == 0 {
        Ok(ProgramView { instructions: Seq::empty(), labels: Seq::empty() })
    } else {
        match parse_prefix::<T>(lines, (k - 1) as nat) {
            Err(e) => Err(e),
            Ok(p) => absorb(p, line_spec::<T>(lines[k - 1]), (k - 1) as nat),
        }
    }
}

/// The program that `input` spells, or its first error.
pub open spec fn parse_spec<T: Value>(input: Seq<char>) -> Result<ProgramView<T>, ParseErrorView> {
    parse_prefix::<T>(lines_of(input), lines_of(input).len())
}

/// The first error stays the result, however many lines follow it.
pub proof fn lemma_first_error_stays<T: Value>(lines: Seq<Seq<char>>, k: nat, n: nat)
    requires
        k <= n,
    ensures
        parse_prefix::<T>(lines, k) is Err ==> parse_prefix::<T>(lines, n) == parse_prefix::<T>(
            lines,
            k,
        ),
    decreases n,
{
    if k < n {
        lemma_first_error_stays::<T>(lines, k, (n - 1) as nat);
    }
}

/// What the error says, in words.
pub open spec fn kind_text(kind: ParseErrorKindView) -> Seq<char> {
    match kind {
        ParseErrorKindView::UnknownCommand(cmd) => "Unknown command "@ + cmd,
        ParseErrorKindView::UnexpectedArgs(args) => "Unexpected args "@ + args,
        ParseErrorKindView::InvalidReadableExpr(expr) => "Invalid readable expression "@ + expr,
        ParseErrorKindView::InvalidWritableExpr(expr) => "Invalid writable expression "@ + expr,
        ParseErrorKindView::EmptyLabel => "Empty label"@,
        ParseErrorKindView::DuplicatedLabel(label) => "Duplicated label "@ + label,
    }
}

/// The report on `error`: the line's number, counted from one, the line
/// itself, and below it what is wrong.
pub open spec fn annotate_spec(input: Seq<char>, error: ParseErrorView) -> Seq<char> {
    let lines = lines_of(input);
    if error.line < lines.len() {
        "Line "@ + decimal(error.line + 1) + ": "@ + lines[error.line as int] + "\n"@ + kind_text(
            error.error,
        )
    } else {
        "Error at unknown line"@
    }
}

/// Attaches the line's number to what is wrong with the line.
fn add_line<'a, T>(line: usize, result: Result<T, ParseErrorKind<'a>>) -> (res: Result<
    T,
    ParseError<'a>,
>)
    ensures
        match (result, res) {
            (Ok(a), Ok(b)) => a == b,
            (Err(kind), Err(e)) => e == (ParseError { line, error: kind }),
            _ => false,
        },
{
    match result {
        Ok(v) => Ok(v),
        Err(error) => Err(ParseError { line, error }),
    }
}

/// Reads `chars[lo..hi]` as a register: `R` and its number.
fn parse_register(chars: &Vec<char>, lo: usize, hi: usize) -> (res: Option<u8>)
    requires
        lo <= hi <= chars.len(),
    ensures
        res == register_spec(chars@.subrange(lo as int, hi as int)),
{
    if lo < hi && chars[lo] == 'R' {
        assert(chars@.subrange(lo as int, hi as int).drop_first() =~= chars@.subrange(
            lo + 1,
            hi as int,
        ));
        parse_u8(chars, lo + 1, hi)
    } else {
        None
    }
}

/// Parses `input[lo..hi]` as a readable expression.
fn parse_readable_expr<'a, T: Value>(input: &'a str, chars: &Vec<char>, lo: usize, hi: usize) -> (res:
    Result<ReadableExpr<T>, ParseErrorKind<'a>>)
    requires
        chars@ == input@,
        lo <= hi <= chars.len(),
    ensures
        match res {
            Ok(expr) => readable_spec::<T>(chars@.subrange(lo as int, hi as int)) == Ok::<
                ReadableExpr<T>,
                ParseErrorKindView,
            >(expr),
            Err(kind) => readable_spec::<T>(chars@.subrange(lo as int, hi as int)) == Err::<
                ReadableExpr<T>,
                ParseErrorKindView,
            >(kind@),
        },
{
    let (a, b) = trim_range(chars, lo, hi);
    let text = input.substring_char(a, b);
    match T::parse(text) {
        Ok(value) => Ok(ReadableExpr::constant(value)),
        Err(_) => match parse_register(chars, a, b) {
            Some(r) => Ok(ReadableExpr::register(r)),
            None => Err(ParseErrorKind::InvalidReadableExpr(text)),
        },
    }
}

/// Parses `input[lo..hi]` as a writable expression.
fn parse_writable_expr<'a>(input: &'a str, chars: &Vec<char>, lo: usize, hi: usize) -> (res: Result<
    WritableExpr,
    ParseErrorKind<'a>,
>)
    requires
        chars@ == input@,
        lo <= hi <= chars.len(),
    ensures
        match res {
            Ok(expr) => writable_spec(chars@.subrange(lo as int, hi as int)) == Ok::<
                WritableExpr,
                ParseErrorKindView,
            >(expr),
            Err(kind) => writable_spec(chars@.subrange(lo as int, hi as int)) == Err::<
                WritableExpr,
                ParseErrorKindView,
            >(kind@),
        },
{
    let (a, b) = trim_range(chars, lo, hi);
    let text = input.substring_char(a, b);
    if a < b && chars[a] == 'R' {
        assert(chars@.subrange(a as int, b as int).drop_first() =~= chars@.subrange(
            a + 1,
            b as int,
        ));
        match parse_u8(chars, a + 1, b) {
            Some(r) => Ok(WritableExpr::register(r)),
            None => Err(ParseErrorKind::InvalidWritableExpr(text)),
        }
    } else {
        Err(ParseErrorKind::InvalidReadableExpr(text))
    }
}

/// Parses the two arguments `input[lo..hi]` of an instruction on line `line`.
fn parse_dest_src<'a, T: Value>(
    line: usize,
    input: &'a str,
    chars: &Vec<char>,
    lo: usize,
    hi: usize,
) -> (res: Result<(WritableExpr, ReadableExpr<T>), ParseError<'a>>)
    requires
        chars@ == input@,
        lo <= hi <= chars.len(),
    ensures
        match res {
            Ok(pair) => dest_src_spec::<T>(chars@.subrange(lo as int, hi as int)) == Ok::<
                (WritableExpr, ReadableExpr<T>),
                ParseErrorKindView,
            >(pair),
            Err(e) => e.line == line && dest_src_spec::<T>(chars@.subrange(lo as int, hi as int))
                == Err::<(WritableExpr, ReadableExpr<T>), ParseErrorKindView>(e.error@),
        },
{
    let (a, b) = trim_range(chars, lo, hi);
    let ghost t = chars@.subrange(a as int, b as int);
    let p = match find_char(chars, a, b, ',') {
        Some(p) => p,
        None => {
            return Err(ParseError::unexpected_args(line, input.substring_char(a, b)));
        },
    };
    proof {
        assert(t.take(p - a) =~= chars@.subrange(a as int, p as int));
        assert(t.skip(p - a + 1) =~= chars@.subrange(p + 1, b as int));
    }
    let src = match add_line(line, parse_readable_expr::<T>(input, chars, p + 1, b)) {
        Ok(src) => src,
        Err(e) => {
            return Err(e);
        },
    };
    let dest = match add_line(line, parse_writable_expr(input, chars, a, p)) {
        Ok(dest) => dest,
        Err(e) => {
            return Err(e);
        },
    };
    Ok((dest, src))
}

/// End of the part of `chars[lo..hi]` that stands before the first `c`.
fn end_before(chars: &Vec<char>, lo: usize, hi: usize, c: char) -> (end: usize)
    requires
        lo <= hi <= chars.len(),
    ensures
        lo <= end <= hi,
        chars@.subrange(lo as int, end as int) == before_char(
            chars@.subrange(lo as int, hi as int),
            c,
        ),
        (end < hi) == (index_of_char(chars@.subrange(lo as int, hi as int), c) < hi - lo),
        end - lo == index_of_char(chars@.subrange(lo as int, hi as int), c),
{
    let ghost s = chars@.subrange(lo as int, hi as int);
    match find_char(chars, lo, hi, c) {
        Some(p) => {
            assert(s.take(p - lo) =~= chars@.subrange(lo as int, p as int));
            p
        },
        None => hi,
    }
}

/// Parses the arguments `input[lo..hi]` of a conditional jump on line `line`.
fn parse_jump<'a, T: Value>(
    line: usize,
    input: &'a str,
    chars: &Vec<char>,
    lo: usize,
    hi: usize,
) -> (res: Result<Instruction<T>, ParseError<'a>>)
    requires
        chars@ == input@,
        lo <= hi <= chars.len(),
    ensures
        match res {
            Ok(inst) => jump_spec::<T>(chars@.subrange(lo as int, hi as int)) == LineView::Parsed(
                inst@,
            ),
            Err(e) => e.line == line && jump_spec::<T>(chars@.subrange(lo as int, hi as int))
                == LineView::<T>::Bad(e.error@),
        },
{
    let ghost args = chars@.subrange(lo as int, hi as int);
    let c = end_before(chars, lo, hi, ',');
    let src = match add_line(line, parse_readable_expr::<T>(input, chars, lo, c)) {
        Ok(src) => src,
        Err(e) => {
            return Err(e);
        },
    };
    if c >= hi {
        return Err(ParseError::unexpected_args(line, input.substring_char(lo, hi)));
    }
    proof {
        assert(args.skip(c - lo + 1) =~= chars@.subrange(c + 1, hi as int));
    }
    let c2 = end_before(chars, c + 1, hi, ',');
    let (a, b) = trim_range(chars, c + 1, c2);
    let label = String::from_str(input.substring_char(a, b));
    Ok(Instruction::JumpIfNotZero { src, label })
}

/// What a line that is not blank was parsed into.
enum LineItem<'a, T> {
    Inst(Instruction<T>),
    Label(&'a str),
}

/// The value that a parsed line stands for.
spec fn item_view<'a, T: Value>(item: LineItem<'a, T>) -> LineView<T> {
    match item {
        LineItem::Inst(inst) => LineView::Parsed(inst@),
        LineItem::Label(label) => LineView::Label(label@),
    }
}

/// Parses the label `input[a..p]`, which ends in a colon.
fn parse_label<'a>(k: usize, input: &'a str, chars: &Vec<char>, a: usize, p: usize) -> (res: Result<
    &'a str,
    ParseError<'a>,
>)
    requires
        chars@ == input@,
        a < p <= chars.len(),
    ensures
        match res {
            Ok(label) => label@.len() > 0 && label@ == strip_colons(
                chars@.subrange(a as int, p as int),
            ),
            Err(e) => strip_colons(chars@.subrange(a as int, p as int)).len() == 0 && e == (
            ParseError { line: k, error: ParseErrorKind::EmptyLabel }),
        },
{
    let ghost cmd = chars@.subrange(a as int, p as int);
    let mut e: usize = p;
    while e > a && chars[e - 1] == ':'
        invariant
            a <= e <= p <= chars.len(),
            cmd == chars@.subrange(a as int, p as int),
            strip_colons(cmd) == strip_colons(chars@.subrange(a as int, e as int)),
        decreases e,
    {
        assert(chars@.subrange(a as int, e as int).drop_last() =~= chars@.subrange(a as int, e - 1));
        e = e - 1;
    }
    if e == a {
        return Err(ParseError { line: k, error: ParseErrorKind::EmptyLabel });
    }
    Ok(input.substring_char(a, e))
}

/// Parses the line `input[a..b]`, which is trimmed and not empty.
fn parse_line<'a, T: Value>(k: usize, input: &'a str, chars: &Vec<char>, a: usize, b: usize) -> (res:
    Result<LineItem<'a, T>, ParseError<'a>>)
    requires
        chars@ == input@,
        a < b <= chars.len(),
        trimmed(chars@.subrange(a as int, b as int)) == chars@.subrange(a as int, b as int),
    ensures
        match res {
            Ok(item) => line_spec::<T>(chars@.subrange(a as int, b as int)) == item_view(item),
            Err(e) => e.line == k && line_spec::<T>(chars@.subrange(a as int, b as int))
                == LineView::<T>::Bad(e.error@),
        },
{
    let ghost line = chars@.subrange(a as int, b as int);
    let p = end_before(chars, a, b, ' ');
    let args_lo = if p < b {
        p + 1
    } else {
        b
    };
    proof {
        if p < b {
            assert(line.skip(p - a + 1) =~= chars@.subrange(args_lo as int, b as int));
        } else {
            assert(chars@.subrange(args_lo as int, b as int) =~= Seq::<char>::empty());
        }
    }
    let command = input.substring_char(a, p);
    if str_equal(command, "MOV") {
        match parse_dest_src::<T>(k, input, chars, args_lo, b) {
            Ok((dest, src)) => Ok(LineItem::Inst(Instruction::Move { src, dest })),
            Err(e) => Err(e),
        }
    } else if str_equal(command, "ADD") {
        match parse_dest_src::<T>(k, input, chars, args_lo, b) {
            Ok((dest, src)) => Ok(LineItem::Inst(Instruction::Add { src, dest })),
            Err(e) => Err(e),
        }
    } else if str_equal(command, "SUB") {
        match parse_dest_src::<T>(k, input, chars, args_lo, b) {
            Ok((dest, src)) => Ok(LineItem::Inst(Instruction::Sub { src, dest })),
            Err(e) => Err(e),
        }
    } else if str_equal(command, "PRINT") {
        match add_line(k, parse_readable_expr::<T>(input, chars, args_lo, b)) {
            Ok(expr) => Ok(LineItem::Inst(Instruction::Print { expr })),
            Err(e) => Err(e),
        }
    } else if str_equal(command, "JNZ") {
        match parse_jump::<T>(k, input, chars, args_lo, b) {
            Ok(inst) => Ok(LineItem::Inst(inst)),
            Err(e) => Err(e),
        }
    } else if p > a && chars[p - 1] == ':' {
        match parse_label(k, input, chars, a, p) {
            Ok(label) => Ok(LineItem::Label(label)),
            Err(e) => Err(e),
        }
    } else {
        Err(ParseError::unknown_cmd(k, command))
    }
}

/// Parses the line `input[lo..hi]`, which has the number `k`.
fn parse_raw_line<'a, T: Value>(
    k: usize,
    input: &'a str,
    chars: &Vec<char>,
    lo: usize,
    hi: usize,
) -> (res: Result<Option<LineItem<'a, T>>, ParseError<'a>>)
    requires
        chars@ == input@,
        lo <= hi <= chars.len(),
    ensures
        match res {
            Ok(Some(item)) => line_spec::<T>(chars@.subrange(lo as int, hi as int)) == item_view(
                item,
            ),
            Ok(None) => line_spec::<T>(chars@.subrange(lo as int, hi as int)) == LineView::<
                T,
            >::Blank,
            Err(e) => e.line == k && line_spec::<T>(chars@.subrange(lo as int, hi as int))
                == LineView::<T>::Bad(e.error@),
        },
{
    let (a, b) = trim_range(chars, lo, hi);
    proof {
        crate::text::lemma_trimmed_twice(chars@.subrange(lo as int, hi as int));
    }
    if a < b {
        match parse_line::<T>(k, input, chars, a, b) {
            Ok(item) => Ok(Some(item)),
            Err(e) => Err(e),
        }
    } else {
        Ok(None)
    }
}

/// Adds what a line holds to the program that is being built.
fn add_item<'a, T: Value>(
    k: usize,
    item: LineItem<'a, T>,
    instructions: &mut Vec<Instruction<T>>,
    labels: &mut Vec<(String, usize)>,
) -> (res: Result<(), ParseError<'a>>)
    ensures
        ({
            let before = ProgramView {
                instructions: instructions_view(old(instructions)@),
                labels: labels_view(old(labels)@),
            };
            let after = ProgramView {
                instructions: instructions_view(final(instructions)@),
                labels: labels_view(final(labels)@),
            };
            match res {
                Ok(()) => absorb(before, item_view(item), k as nat) == Ok::<
                    ProgramView<T>,
                    ParseErrorView,
                >(after),
                Err(e) => absorb(before, item_view(item), k as nat) == Err::<
                    ProgramView<T>,
                    ParseErrorView,
                >(e@),
            }
        }),
{
    let ghost old_instructions = instructions_view(instructions@);
    let ghost old_labels = labels_view(labels@);
    match item {
        LineItem::Inst(inst) => {
            instructions.push(inst);
            proof {
                assert(instructions_view(instructions@) =~= old_instructions.push(inst@));
            }
            Ok(())
        },
        LineItem::Label(label) => {
            if lookup_label(labels, label).is_some() {
                return Err(ParseError { line: k, error: ParseErrorKind::DuplicatedLabel(label) });
            }
            labels.push((String::from_str(label), instructions.len()));
            proof {
                assert(labels_view(labels@) =~= old_labels.push(
                    (label@, instructions.len() as usize),
                ));
            }
            Ok(())
        },
    }
}

/// Parses a program: one instruction or label per line, blank lines
/// allowed. Stops at the first line that cannot be parsed.
pub fn parse_program<'a, T: Value>(input: &'a str) -> (res: Result<Program<T>, ParseError<'a>>)
    ensures
        match res {
            Ok(program) => parse_spec::<T>(input@) == Ok::<ProgramView<T>, ParseErrorView>(program@),
            Err(e) => parse_spec::<T>(input@) == Err::<ProgramView<T>, ParseErrorView>(e@),
        },
{
    let chars = chars_of(input);
    let ranges = line_ranges(&chars);
    let ghost lines = lines_of(input@);
    let mut instructions: Vec<Instruction<T>> = Vec::new();
    let mut labels: Vec<(String, usize)> = Vec::new();
    let mut k: usize = 0;
    assert(instructions_view(instructions@) =~= Seq::<InstructionView<T>>::empty());
    assert(labels_view(labels@) =~= Seq::<(Seq<char>, usize)>::empty());
    while k < ranges.len()
        invariant
            k <= ranges.len(),
            chars@ == input@,
            lines == lines_of(input@),
            ranges.len() == lines.len(),
            forall|i: int|
                0 <= i < ranges.len() ==> (#[trigger] ranges[i]).0 <= ranges[i].1 <= chars.len()
                    && chars@.subrange(ranges[i].0 as int, ranges[i].1 as int) == lines[i],
            parse_prefix::<T>(lines, k as nat) == Ok::<ProgramView<T>, ParseErrorView>(
                ProgramView {
                    instructions: instructions_view(instructions@),
                    labels: labels_view(labels@),
                },
            ),
        decreases ranges.len() - k,
    {
        let (lo, hi) = ranges[k];
        assert(chars@.subrange(lo as int, hi as int) == lines[k as int]);
        proof {
            lemma_first_error_stays::<T>(lines, (k + 1) as nat, lines.len());
        }
        let item = match parse_raw_line::<T>(k, input, &chars, lo, hi) {
            Ok(item) => item,
            Err(e) => {
                return Err(e);
            },
        };
        match item {
            Some(item) => {
                match add_item(k, item, &mut instructions, &mut labels) {
                    Ok(()) => {},
                    Err(e) => {
                        return Err(e);
                    },
                }
            },
            None => {},
        }
        k = k + 1;
    }
    Ok(Program::new(instructions, labels))
}

/// Writes what the error says, in words.
fn kind_string(kind: ParseErrorKind) -> (text: String)
    ensures
        text@ == kind_text(kind@),
{
    match kind {
        ParseErrorKind::UnknownCommand(cmd) => String::from_str("Unknown command ").concat(cmd),
        ParseErrorKind::UnexpectedArgs(args) => String::from_str("Unexpected args ").concat(args),
        ParseErrorKind::InvalidReadableExpr(expr) => String::from_str(
            "Invalid readable expression ",
        ).concat(expr),
        ParseErrorKind::InvalidWritableExpr(expr) => String::from_str(
            "Invalid writable expression ",
        ).concat(expr),
        ParseErrorKind::EmptyLabel => String::from_str("Empty label"),
        ParseErrorKind::DuplicatedLabel(label) => String::from_str("Duplicated label ").concat(
            label,
        ),
    }
}

/// Writes the report on `error` for the program text `input`.
pub fn annotate_error(input: &str, error: ParseError) -> (report: String)
    ensures
        report@ == annotate_spec(input@, error@),
{
    let chars = chars_of(input);
    let ranges = line_ranges(&chars);
    if error.line >= ranges.len() {
        return String::from_str("Error at unknown line");
    }
    let (lo, hi) = ranges[error.line];
    let number = decimal_string(error.line + 1);
    let what = kind_string(error.error);
    let report = String::from_str("Line ").concat(number.as_str()).concat(": ").concat(
        input.substring_char(lo, hi),
    ).concat("\n").concat(what.as_str());
    report
}

} // verus!
