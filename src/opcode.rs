use vstd::prelude::*;

verus! {

/// One instruction of the stack machine.
///
/// Jump offsets are signed and relative to the instruction that follows the
/// jump.
#[derive(Debug, Clone, Copy, PartialEq, Eq, Structural)]
pub enum Opcode {
    /// Push the constant at the given pool index.
    Constant(usize),
    True,
    False,
    Null,
    Add,
    Sub,
    Mul,
    Div,
    Mod,
    Eq,
    Neq,
    Lt,
    Le,
    Gt,
    Ge,
    Not,
    Negate,
    /// Pop the condition; when it is falsy move the instruction pointer.
    Jif(isize),
    /// Unconditional relative jump.
    Jp(isize),
    /// Pop the block's value, discard that many slots below it, push the value back.
    Block(usize),
    /// Jump out of the enclosing loop, keeping the value on top of the stack.
    Break(isize),
    Return,
    /// Call the callee on top of the stack with that many arguments below it.
    Call(usize),
    /// Replace the memory address on top of the stack with the value it holds.
    Get,
    /// Pop a value and an address, store the value there and push it back.
    Asg,
    /// Pop a function pointer and that many upvalue addresses, push a closure.
    CreateClosure(usize),
    /// Pop that many (value, key) pairs, push a new object.
    CreateObject(usize),
    /// Pop the key and the target, push the property.
    GetProperty { bind_method: bool },
    /// Pop the value, the key and the target, store the property and push the value.
    SetProperty(usize),
    /// Discard the value on top of the stack.
    Pop,
}

impl Opcode {
    /// Jumps are the instructions whose offset is filled in later.
    pub open spec fn is_jump(self) -> bool {
        match self {
            Opcode::Jif(_) | Opcode::Jp(_) | Opcode::Break(_) => true,
            _ => false,
        }
    }

    /// The relative offset of a jump.
    pub open spec fn offset(self) -> int {
        match self {
            Opcode::Jif(o) => o as int,
            Opcode::Jp(o) => o as int,
            Opcode::Break(o) => o as int,
            _ => 0,
        }
    }

    /// The same jump with `offset` as its payload.
    pub open spec fn patch_spec(self, offset: isize) -> Opcode {
        match self {
            Opcode::Jif(_) => Opcode::Jif(offset),
            Opcode::Jp(_) => Opcode::Jp(offset),
            Opcode::Break(_) => Opcode::Break(offset),
            _ => self,
        }
    }

    /// The same jump with `offset` as its payload.
    pub fn patch(self, offset: isize) -> (r: Opcode)
        requires
            self.is_jump(),
        ensures
            r.is_jump(),
            r.offset() == offset as int,
            r == self.patch_spec(offset),
    {
        match self {
            Opcode::Jif(_) => Opcode::Jif(offset),
            Opcode::Jp(_) => Opcode::Jp(offset),
            _ => Opcode::Break(offset),
        }
    }
}

} // verus!
