//! Cells, and the expressions that name what can be read and written.
use vstd::prelude::*;

verus! {

/// One cell of a register file or of memory.
pub enum MemoryCell<T> {
    /// Never written.
    Undefined,
    /// Holds a value.
    Defined(T),
}

/// A place that can be addressed.
#[derive(Clone, Copy, Debug, PartialEq, Eq, Structural)]
pub enum AddressableExpr {
    Register(u8),
    Memory(u32),
}

/// Something that can be written.
#[derive(Clone, Copy, Debug, PartialEq, Eq, Structural)]
pub enum WritableExpr {
    Addressable(AddressableExpr),
}

/// Something that can be read.
#[derive(Debug, PartialEq, Eq)]
pub enum ReadableExpr<T> {
    Addressable(AddressableExpr),
    Constant(T),
}

impl WritableExpr {
    /// The register number `index`.
    pub fn register(index: u8) -> (e: WritableExpr)
        ensures
            e == WritableExpr::Addressable(AddressableExpr::Register(index)),
    {
        WritableExpr::Addressable(AddressableExpr::Register(index))
    }

    /// The memory cell at `address`.
    pub fn memory(address: u32) -> (e: WritableExpr)
        ensures
            e == WritableExpr::Addressable(AddressableExpr::Memory(address)),
    {
        WritableExpr::Addressable(AddressableExpr::Memory(address))
    }

    /// The same place, as something to read.
    pub fn as_read<T>(&self) -> (e: ReadableExpr<T>)
        ensures
            e == readable::<T>(*self),
    {
        match self {
            WritableExpr::Addressable(addr) => ReadableExpr::Addressable(*addr),
        }
    }
}

/// The place `w`, as something to read.
pub open spec fn readable<T>(w: WritableExpr) -> ReadableExpr<T> {
    match w {
        WritableExpr::Addressable(addr) => ReadableExpr::Addressable(addr),
    }
}

impl<T> ReadableExpr<T> {
    /// The constant `value`.
    pub fn constant(value: T) -> (e: ReadableExpr<T>)
        ensures
            e == ReadableExpr::Constant(value),
    {
        ReadableExpr::Constant(value)
    }

    /// The register number `index`.
    pub fn register(index: u8) -> (e: ReadableExpr<T>)
        ensures
            e == ReadableExpr::<T>::Addressable(AddressableExpr::Register(index)),
    {
        ReadableExpr::Addressable(AddressableExpr::Register(index))
    }

    /// The memory cell at `address`.
    pub fn memory(address: u32) -> (e: ReadableExpr<T>)
        ensures
            e == ReadableExpr::<T>::Addressable(AddressableExpr::Memory(address)),
    {
        ReadableExpr::Addressable(AddressableExpr::Memory(address))
    }
}

} // verus!
