//! The machine: registers, memory and the instruction pointer.
use crate::interpret::memory::{AddressableExpr, MemoryCell, ReadableExpr, WritableExpr};
use crate::interpret::Value;
use vstd::prelude::*;

verus! {

/// Why a read failed.
#[derive(Clone, Copy, Debug, PartialEq, Eq, Structural)]
pub enum ReadError {
    /// The cell was never written.
    Undefined(AddressableExpr),
    /// There is no such cell.
    OutOfBounds(AddressableExpr),
}

/// Why a write failed.
#[derive(Clone, Copy, Debug, PartialEq, Eq, Structural)]
pub enum WriteError {
    /// There is no such cell.
    OutOfBounds(AddressableExpr),
}

/// Mathematical value of a [`Cpu`].
pub struct CpuView<T> {
    pub registers: Seq<MemoryCell<T>>,
    pub memory: Seq<MemoryCell<T>>,
    pub ip: u64,
}

/// The cell that `addr` names, if the machine has it.
pub open spec fn cell_at<T>(cpu: CpuView<T>, addr: AddressableExpr) -> Option<MemoryCell<T>> {
    match addr {
        AddressableExpr::Register(r) => if r < cpu.registers.len() {
            Some(cpu.registers[r as int])
        } else {
            None
        },
        AddressableExpr::Memory(a) => if a < cpu.memory.len() {
            Some(cpu.memory[a as int])
        } else {
            None
        },
    }
}

/// What reading `expr` gives.
pub open spec fn read_spec<T>(cpu: CpuView<T>, expr: ReadableExpr<T>) -> Result<T, ReadError> {
    match expr {
        ReadableExpr::Constant(value) => Ok(value),
        ReadableExpr::Addressable(addr) => match cell_at(cpu, addr) {
            Some(MemoryCell::Defined(value)) => Ok(value),
            Some(MemoryCell::Undefined) => Err(ReadError::Undefined(addr)),
            None => Err(ReadError::OutOfBounds(addr)),
        },
    }
}

/// The machine after `value` was written to `expr`, or why it cannot be.
pub open spec fn write_spec<T>(cpu: CpuView<T>, expr: WritableExpr, value: T) -> Result<
    CpuView<T>,
    WriteError,
> {
    match expr {
        WritableExpr::Addressable(addr) => match addr {
            AddressableExpr::Register(r) => if r < cpu.registers.len() {
                Ok(
                    CpuView {
                        registers: cpu.registers.update(r as int, MemoryCell::Defined(value)),
                        ..cpu
                    },
                )
            } else {
                Err(WriteError::OutOfBounds(addr))
            },
            AddressableExpr::Memory(a) => if a < cpu.memory.len() {
                Ok(
                    CpuView {
                        memory: cpu.memory.update(a as int, MemoryCell::Defined(value)),
                        ..cpu
                    },
                )
            } else {
                Err(WriteError::OutOfBounds(addr))
            },
        },
    }
}

/// Sets the sizes of a machine before it is built.
pub struct CpuBuilder {
    register_count: usize,
    memory_size: usize,
}

/// The machine.
pub struct Cpu<T> {
    registers: Vec<MemoryCell<T>>,
    memory: Vec<MemoryCell<T>>,
    instruction_pointer: u64,
}

impl<T> View for Cpu<T> {
    type V = CpuView<T>;

    closed spec fn view(&self) -> CpuView<T> {
        CpuView { registers: self.registers@, memory: self.memory@, ip: self.instruction_pointer }
    }
}

/// `n` cells that hold the value with which a machine starts.
fn initial_cells<T: Value>(n: usize) -> (cells: Vec<MemoryCell<T>>)
    ensures
        cells@ == Seq::new(n as nat, |i: int| MemoryCell::Defined(T::initial_spec())),
{
    let mut cells: Vec<MemoryCell<T>> = Vec::new();
    let mut i: usize = 0;
    while i < n
        invariant
            i <= n,
            cells.len() == i,
            forall|k: int| 0 <= k < i ==> cells[k] == MemoryCell::Defined(T::initial_spec()),
        decreases n - i,
    {
        cells.push(MemoryCell::Defined(T::initial()));
        i = i + 1;
    }
    assert(cells@ =~= Seq::new(n as nat, |i: int| MemoryCell::Defined(T::initial_spec())));
    cells
}

/// `n` cells that were never written.
fn undefined_cells<T>(n: usize) -> (cells: Vec<MemoryCell<T>>)
    ensures
        cells@ == Seq::new(n as nat, |i: int| MemoryCell::<T>::Undefined),
{
    let mut cells: Vec<MemoryCell<T>> = Vec::new();
    let mut i: usize = 0;
    while i < n
        invariant
            i <= n,
            cells.len() == i,
            forall|k: int| 0 <= k < i ==> cells[k] == MemoryCell::<T>::Undefined,
        decreases n - i,
    {
        cells.push(MemoryCell::Undefined);
        i = i + 1;
    }
    assert(cells@ =~= Seq::new(n as nat, |i: int| MemoryCell::<T>::Undefined));
    cells
}

impl CpuBuilder {
    /// The number of registers that will be built.
    pub closed spec fn registers(&self) -> nat {
        self.register_count as nat
    }

    /// The number of memory cells that will be built.
    pub closed spec fn cells(&self) -> nat {
        self.memory_size as nat
    }

    /// A builder for 16 registers and 1024 memory cells.
    pub fn new() -> (b: CpuBuilder)
        ensures
            b.registers() == 16,
            b.cells() == 1024,
    {
        CpuBuilder { register_count: 16, memory_size: 1024 }
    }

    /// The same builder with another number of registers.
    pub fn register_count(self, register_count: usize) -> (b: CpuBuilder)
        ensures
            b.registers() == register_count,
            b.cells() == self.cells(),
    {
        CpuBuilder { register_count, memory_size: self.memory_size }
    }

    /// The same builder with another number of memory cells.
    pub fn memory_size(self, memory_size: usize) -> (b: CpuBuilder)
        ensures
            b.registers() == self.registers(),
            b.cells() == memory_size,
    {
        CpuBuilder { register_count: self.register_count, memory_size }
    }

    /// A machine in which every cell holds the initial value of `T`, with
    /// the instruction pointer at the first instruction.
    pub fn default<T: Value>(self) -> (cpu: Cpu<T>)
        ensures
            cpu@.registers == Seq::new(
                self.registers(),
                |i: int| MemoryCell::Defined(T::initial_spec()),
            ),
            cpu@.memory == Seq::new(self.cells(), |i: int| MemoryCell::Defined(T::initial_spec())),
            cpu@.ip == 0,
    {
        Cpu {
            registers: initial_cells(self.register_count),
            memory: initial_cells(self.memory_size),
            instruction_pointer: 0,
        }
    }

    /// A machine in which every cell holds zero.
    pub fn zeroed(self) -> (cpu: Cpu<u8>)
        ensures
            cpu@.registers == Seq::new(self.registers(), |i: int| MemoryCell::Defined(0u8)),
            cpu@.memory == Seq::new(self.cells(), |i: int| MemoryCell::Defined(0u8)),
            cpu@.ip == 0,
    {
        self.default::<u8>()
    }

    /// A machine in which no cell was written yet, with the instruction
    /// pointer at the first instruction.
    pub fn undefined<T>(self) -> (cpu: Cpu<T>)
        ensures
            cpu@.registers == Seq::new(self.registers(), |i: int| MemoryCell::<T>::Undefined),
            cpu@.memory == Seq::new(self.cells(), |i: int| MemoryCell::<T>::Undefined),
            cpu@.ip == 0,
    {
        Cpu {
            registers: undefined_cells(self.register_count),
            memory: undefined_cells(self.memory_size),
            instruction_pointer: 0,
        }
    }
}

impl<T> Cpu<T> {
    /// The cell that `expr` names, if the machine has it.
    fn get_cell(&self, expr: AddressableExpr) -> (cell: Option<&MemoryCell<T>>)
        ensures
            match cell {
                Some(c) => cell_at(self@, expr) == Some(*c),
                None => cell_at(self@, expr) is None,
            },
    {
        match expr {
            AddressableExpr::Register(r) => {
                let index = r as usize;
                if index < self.registers.len() {
                    Some(&self.registers[index])
                } else {
                    None
                }
            },
            AddressableExpr::Memory(a) => {
                let index = a as usize;
                if index < self.memory.len() {
                    Some(&self.memory[index])
                } else {
                    None
                }
            },
        }
    }

    /// Reads `expr`.
    pub fn read(&self, expr: ReadableExpr<T>) -> (res: Result<T, ReadError>)
        where T: Value
        ensures
            res == read_spec(self@, expr),
    {
        match expr {
            ReadableExpr::Addressable(addr) => match self.get_cell(addr) {
                None => Err(ReadError::OutOfBounds(addr)),
                Some(MemoryCell::Defined(value)) => Ok(value.duplicate()),
                Some(MemoryCell::Undefined) => Err(ReadError::Undefined(addr)),
            },
            ReadableExpr::Constant(value) => Ok(value),
        }
    }

    /// Writes `value` to `expr`. Nothing changes when that fails.
    pub fn write(&mut self, expr: WritableExpr, value: T) -> (res: Result<(), WriteError>)
        ensures
            match res {
                Ok(()) => write_spec(old(self)@, expr, value) == Ok::<CpuView<T>, WriteError>(
                    final(self)@,
                ),
                Err(e) => write_spec(old(self)@, expr, value) == Err::<CpuView<T>, WriteError>(e)
                    && final(self)@ == old(self)@,
            },
    {
        match expr {
            WritableExpr::Addressable(AddressableExpr::Register(r)) => {
                let index = r as usize;
                if index < self.registers.len() {
                    self.registers.set(index, MemoryCell::Defined(value));
                    Ok(())
                } else {
                    Err(WriteError::OutOfBounds(AddressableExpr::Register(r)))
                }
            },
            WritableExpr::Addressable(AddressableExpr::Memory(a)) => {
                let index = a as usize;
                if index < self.memory.len() {
                    self.memory.set(index, MemoryCell::Defined(value));
                    Ok(())
                } else {
                    Err(WriteError::OutOfBounds(AddressableExpr::Memory(a)))
                }
            },
        }
    }

    /// The instruction pointer.
    pub fn get_ip(&self) -> (ip: u64)
        ensures
            ip == self@.ip,
    {
        self.instruction_pointer
    }

    /// Moves the instruction pointer.
    pub fn set_ip(&mut self, ip: u64)
        ensures
            final(self)@ == (CpuView { ip, ..old(self)@ }),
    {
        self.instruction_pointer = ip;
    }
}

} // verus!
