//! Instructions, programs, and what can go wrong when they run.
use crate::interpret::cpu::{ReadError, WriteError};
use crate::interpret::memory::{ReadableExpr, WritableExpr};
use vstd::prelude::*;
use vstd::string::StringExecFns;

verus! {

/// What the machine can do.
#[derive(Debug, PartialEq, Eq)]
pub enum Instruction<T> {
    /// Copy the value of `src` to `dest`.
    Move { dest: WritableExpr, src: ReadableExpr<T> },
    /// Print the value of `expr`.
    Print { expr: ReadableExpr<T> },
    /// Add the value of `src` to `dest`.
    Add { dest: WritableExpr, src: ReadableExpr<T> },
    /// Subtract the value of `src` from `dest`.
    Sub { dest: WritableExpr, src: ReadableExpr<T> },
    /// Continue at `label` unless the value of `src` is zero.
    JumpIfNotZero { src: ReadableExpr<T>, label: String },
}

/// Mathematical value of an [`Instruction`].
pub enum InstructionView<T> {
    Move { dest: WritableExpr, src: ReadableExpr<T> },
    Print { expr: ReadableExpr<T> },
    Add { dest: WritableExpr, src: ReadableExpr<T> },
    Sub { dest: WritableExpr, src: ReadableExpr<T> },
    JumpIfNotZero { src: ReadableExpr<T>, label: Seq<char> },
}

impl<T> View for Instruction<T> {
    type V = InstructionView<T>;

    open spec fn view(&self) -> InstructionView<T> {
        match self {
            Instruction::Move { dest, src } => InstructionView::Move { dest: *dest, src: *src },
            Instruction::Print { expr } => InstructionView::Print { expr: *expr },
            Instruction::Add { dest, src } => InstructionView::Add { dest: *dest, src: *src },
            Instruction::Sub { dest, src } => InstructionView::Sub { dest: *dest, src: *src },
            Instruction::JumpIfNotZero { src, label } => InstructionView::JumpIfNotZero {
                src: *src,
                label: label@,
            },
        }
    }
}

/// Why a program stopped before its end.
#[derive(Debug, PartialEq, Eq)]
pub enum ExecutionError {
    Read(ReadError),
    Write(WriteError),
    /// The instruction pointer cannot move past this position.
    InstructionOutOfBounds(u64),
    /// A jump names a label that the program does not have.
    InvalidLabel(String),
}

/// Mathematical value of an [`ExecutionError`].
pub enum ExecutionErrorView {
    Read(ReadError),
    Write(WriteError),
    InstructionOutOfBounds(u64),
    InvalidLabel(Seq<char>),
}

impl View for ExecutionError {
    type V = ExecutionErrorView;

    open spec fn view(&self) -> ExecutionErrorView {
        match self {
            ExecutionError::Read(e) => ExecutionErrorView::Read(*e),
            ExecutionError::Write(e) => ExecutionErrorView::Write(*e),
            ExecutionError::InstructionOutOfBounds(ip) => ExecutionErrorView::InstructionOutOfBounds(
                *ip,
            ),
            ExecutionError::InvalidLabel(label) => ExecutionErrorView::InvalidLabel(label@),
        }
    }
}

/// A program: its instructions, and its labels with the position of the
/// instruction that each stands before.
#[derive(Debug)]
pub struct Program<T> {
    pub instructions: Vec<Instruction<T>>,
    pub labels: Vec<(String, usize)>,
}

/// Mathematical value of a [`Program`].
pub struct ProgramView<T> {
    pub instructions: Seq<InstructionView<T>>,
    pub labels: Seq<(Seq<char>, usize)>,
}

/// The position that `label` stands for; where a label was given twice, the
/// later one counts.
pub open spec fn label_lookup(labels: Seq<(Seq<char>, usize)>, label: Seq<char>) -> Option<usize>
    decreases labels.len(),
{
    if labels.len() == 0 {
        None
    } else if labels.last().0 == label {
        Some(labels.last().1)
    } else {
        label_lookup(labels.drop_last(), label)
    }
}

/// Mathematical value of a list of labels.
pub open spec fn labels_view(labels: Seq<(String, usize)>) -> Seq<(Seq<char>, usize)> {
    Seq::new(labels.len(), |i: int| (labels[i].0@, labels[i].1))
}

/// Mathematical value of a list of instructions.
pub open spec fn instructions_view<T>(instructions: Seq<Instruction<T>>) -> Seq<InstructionView<T>> {
    Seq::new(instructions.len(), |i: int| instructions[i]@)
}

impl<T> View for Program<T> {
    type V = ProgramView<T>;

    open spec fn view(&self) -> ProgramView<T> {
        ProgramView {
            instructions: instructions_view(self.instructions@),
            labels: labels_view(self.labels@),
        }
    }
}

/// The position that `label` stands for in a list of labels.
pub fn lookup_label(labels: &Vec<(String, usize)>, label: &str) -> (res: Option<usize>)
    ensures
        res == label_lookup(labels_view(labels@), label@),
{
    let wanted = String::from_str(label);
    let ghost view = labels_view(labels@);
    let mut i: usize = labels.len();
    assert(view.take(i as int) =~= view);
    while i > 0
        invariant
            i <= labels.len(),
            view == labels_view(labels@),
            wanted@ == label@,
            label_lookup(view, label@) == label_lookup(view.take(i as int), label@),
        decreases i,
    {
        proof {
            assert(view.take(i as int).drop_last() =~= view.take(i - 1));
            assert(view.take(i as int).last() == view[i - 1]);
        }
        if labels[i - 1].0 == wanted {
            return Some(labels[i - 1].1);
        }
        i = i - 1;
    }
    None
}

impl<T> Program<T> {
    /// The program with these instructions and labels.
    pub fn new(instructions: Vec<Instruction<T>>, labels: Vec<(String, usize)>) -> (p: Program<T>)
        ensures
            p.instructions == instructions,
            p.labels == labels,
    {
        Program { instructions, labels }
    }

    /// The position of the instruction that `label` stands before.
    pub fn resolve_label(&self, label: &str) -> (res: Option<usize>)
        ensures
            res == label_lookup(self@.labels, label@),
    {
        lookup_label(&self.labels, label)
    }
}

} // verus!
