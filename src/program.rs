use vstd::prelude::*;

use crate::ast::Symbol;
use crate::chunk::Chunk;
use crate::chunk::Constant;
use crate::opcode::Opcode;

verus! {

/// How a closure obtains one captured variable when it is created: from a
/// local slot of the enclosing frame, or from an upvalue of the enclosing
/// closure.
#[derive(Debug, Clone, Copy, PartialEq, Eq, Structural)]
pub struct Upvalue {
    pub is_local: bool,
    pub local_index: usize,
    pub upvalue_index: usize,
    pub is_ref: bool,
}

/// A compiled function: its name (none for an anonymous closure), its number
/// of parameters, its code and the descriptors of the variables it captures.
#[derive(Debug)]
pub struct Function {
    pub name: Option<Symbol>,
    pub arity: usize,
    pub chunk: Chunk,
    pub upvalues: Vec<Upvalue>,
}

/// A function as the contracts see it.
pub struct FunctionData {
    pub name: Option<Symbol>,
    pub arity: usize,
    pub opcodes: Seq<Opcode>,
    pub constants: Seq<Constant>,
    pub upvalues: Seq<Upvalue>,
}

impl Function {
    pub open spec fn data(&self) -> FunctionData {
        FunctionData {
            name: self.name,
            arity: self.arity,
            opcodes: self.chunk.opcodes@,
            constants: self.chunk.constants@,
            upvalues: self.upvalues@,
        }
    }
}

/// An entry of a program's globals table.
#[derive(Debug)]
pub enum GlobalItem {
    Function(Function),
}

impl GlobalItem {
    pub open spec fn data(&self) -> FunctionData {
        match self {
            GlobalItem::Function(f) => f.data(),
        }
    }

    /// The item's name.
    pub fn name(&self) -> (r: Option<Symbol>)
        ensures
            r == self.data().name,
    {
        match self {
            GlobalItem::Function(function) => function.name,
        }
    }

    /// The function the item holds.
    pub fn as_function(&self) -> (r: &Function)
        ensures
            *self == GlobalItem::Function(*r),
    {
        match self {
            GlobalItem::Function(function) => function,
        }
    }
}

/// The output of code generation: the code run at the top level and the
/// functions it can reach through global pointers.
#[derive(Debug)]
pub struct Program {
    pub root: Chunk,
    pub globals: Vec<GlobalItem>,
}

} // verus!
