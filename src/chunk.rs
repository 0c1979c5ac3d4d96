use vstd::prelude::*;

use crate::ast::Symbol;
use crate::opcode::Opcode;

verus! {

/// Where a variable lives at run time.
#[derive(Debug, Clone, Copy, PartialEq, Eq, Structural)]
pub enum Address {
    /// A slot of the current call frame, counted from the frame's base.
    Local(usize),
    /// A variable captured by the running closure; `is_ref` marks a binding
    /// shared with the frame it came from rather than a snapshot.
    Upvalue { index: usize, is_ref: bool },
    /// A named entry of the globals table.
    Global(Symbol),
}

/// An index into a program's table of global items.
pub type GlobalPointer = usize;

/// An immutable value of a chunk's constant pool.
#[derive(Debug, Clone, Copy, PartialEq, Eq, Structural)]
pub enum Constant {
    MemoryAddress(Address),
    Number(i64),
    String(Symbol),
    Bool(bool),
    GlobalPointer(GlobalPointer),
}

/// The code of one callable: its instruction stream and its constant pool.
#[derive(Debug, Clone)]
pub struct Chunk {
    pub opcodes: Vec<Opcode>,
    pub constants: Vec<Constant>,
}

/// Every `Constant(i)` of `ops` points into a pool of `n` constants.
pub open spec fn constants_in_range(ops: Seq<Opcode>, n: nat) -> bool {
    forall|k: int|
        0 <= k < ops.len() && (#[trigger] ops[k] is Constant) ==> ops[k]->Constant_0 < n
}

impl Chunk {
    /// Every constant reference of the stream is in bounds.
    pub open spec fn wf(&self) -> bool {
        constants_in_range(self.opcodes@, self.constants@.len())
    }

    pub fn new(opcodes: Vec<Opcode>, constants: Vec<Constant>) -> (r: Chunk)
        ensures
            r.opcodes@ == opcodes@,
            r.constants@ == constants@,
    {
        Chunk { opcodes, constants }
    }

    /// An empty chunk.
    pub fn empty() -> (r: Chunk)
        ensures
            r.opcodes@ == Seq::<Opcode>::empty(),
            r.constants@ == Seq::<Constant>::empty(),
            r.wf(),
    {
        Chunk { opcodes: Vec::new(), constants: Vec::new() }
    }

    /// The constant at `index` of the pool.
    pub fn read(&self, index: usize) -> (r: Constant)
        requires
            index < self.constants@.len(),
        ensures
            r == self.constants@[index as int],
    {
        self.constants[index]
    }

    /// Appends `constant` to the pool and an instruction that pushes it;
    /// returns the constant's index.
    pub fn write_constant(&mut self, constant: Constant) -> (r: usize)
        ensures
            r == old(self).constants@.len(),
            final(self).constants@ == old(self).constants@.push(constant),
            final(self).opcodes@ == old(self).opcodes@.push(Opcode::Constant(r)),
            old(self).wf() ==> final(self).wf(),
    {
        let index = self.constants.len();
        self.constants.push(constant);
        self.opcodes.push(Opcode::Constant(index));
        index
    }

    /// Appends `opcode` to the stream; returns its index.
    pub fn write_opcode(&mut self, opcode: Opcode) -> (r: usize)
        ensures
            r == old(self).opcodes@.len(),
            final(self).opcodes@ == old(self).opcodes@.push(opcode),
            final(self).constants@ == old(self).constants@,
    {
        let index = self.opcodes.len();
        self.opcodes.push(opcode);
        index
    }

    /// The instruction at `index` of the stream.
    pub fn read_opcode(&self, index: usize) -> (r: Opcode)
        requires
            index < self.opcodes@.len(),
        ensures
            r == self.opcodes@[index as int],
    {
        self.opcodes[index]
    }

    /// Points the jump at `index` to the end of the stream: its offset
    /// becomes the number of instructions written after it.
    pub fn patch(&mut self, index: usize)
        requires
            index < old(self).opcodes@.len(),
            old(self).opcodes@[index as int].is_jump(),
            old(self).opcodes@.len() - index - 1 <= isize::MAX,
        ensures
            final(self).opcodes@ == old(self).opcodes@.update(
                index as int,
                old(self).opcodes@[index as int].patch_spec((old(self).opcodes@.len() - index - 1) as isize),
            ),
            final(self).constants@ == old(self).constants@,
    {
        let offset = (self.opcodes.len() - index - 1) as isize;
        let patched = self.opcodes[index].patch(offset);
        self.opcodes.set(index, patched);
    }

    pub fn opcodes_len(&self) -> (r: usize)
        ensures
            r == self.opcodes@.len(),
    {
        self.opcodes.len()
    }
}

/// A constant of the pool and its index.
#[derive(Debug, Clone, Copy, PartialEq, Eq, Structural)]
pub struct PooledConstant {
    pub index: usize,
    pub value: Constant,
}

/// One line of a chunk's listing: an instruction and, beside it, the
/// constant at the same position of the pool, if there is one.
#[derive(Debug, Clone, Copy, PartialEq, Eq, Structural)]
pub struct ChunkRow {
    pub opcode: Opcode,
    pub constant: Option<PooledConstant>,
}

pub open spec fn row_at(chunk: &Chunk, i: int) -> ChunkRow {
    ChunkRow {
        opcode: chunk.opcodes@[i],
        constant: if i < chunk.constants@.len() {
            Some(PooledConstant { index: i as usize, value: chunk.constants@[i] })
        } else {
            None
        },
    }
}

/// The rows of a chunk's listing, one for each instruction.
pub fn chunk_into_rows(chunk: &Chunk) -> (r: Vec<ChunkRow>)
    ensures
        r@.len() == chunk.opcodes@.len(),
        forall|i: int| 0 <= i < r@.len() ==> r@[i] == row_at(chunk, i),
{
    let mut rows: Vec<ChunkRow> = Vec::new();
    let mut i: usize = 0;
    while i < chunk.opcodes.len()
        invariant
            i <= chunk.opcodes@.len(),
            rows@.len() == i,
            forall|j: int| 0 <= j < i ==> rows@[j] == row_at(chunk, j),
        decreases chunk.opcodes@.len() - i,
    {
        let constant = if i < chunk.constants.len() {
            Some(PooledConstant { index: i, value: chunk.constants[i] })
        } else {
            None
        };
        rows.push(ChunkRow { opcode: chunk.opcodes[i], constant });
        i += 1;
    }
    rows
}

/// One change a code generator makes to a chunk, as the methods of `Chunk`
/// state it.
pub enum ChunkWrite {
    /// `write_opcode`
    Opcode(Opcode),
    /// `write_constant`
    Constant(Constant),
    /// `patch` of the jump at this index
    Patch(usize),
}

/// The instructions and constants after applying `log` in order.
pub open spec fn replay(ops: Seq<Opcode>, consts: Seq<Constant>, log: Seq<ChunkWrite>) -> (Seq<Opcode>, Seq<Constant>)
    decreases log.len(),
{
    if log.len() == 0 {
        (ops, consts)
    } else {
        let (o, c) = replay(ops, consts, log.drop_last());
        match log.last() {
            ChunkWrite::Opcode(op) => (o.push(op), c),
            ChunkWrite::Constant(k) => (o.push(Opcode::Constant(c.len() as usize)), c.push(k)),
            ChunkWrite::Patch(i) => if i < o.len() && o[i as int].is_jump() {
                (o.update(i as int, o[i as int].patch_spec((o.len() - i - 1) as isize)), c)
            } else {
                (o, c)
            },
        }
    }
}

/// The number of entries of `log` that write an instruction.
pub open spec fn writes(log: Seq<ChunkWrite>) -> nat
    decreases log.len(),
{
    if log.len() == 0 {
        0
    } else {
        writes(log.drop_last()) + if log.last() is Patch {
            0nat
        } else {
            1nat
        }
    }
}

/// Patching rewrites instructions in place, so a chunk built from empty holds
/// exactly one instruction per write.
pub proof fn law_length_counts_writes(log: Seq<ChunkWrite>)
    ensures
        replay(seq![], seq![], log).0.len() == writes(log),
    decreases log.len(),
{
    if log.len() > 0 {
        law_length_counts_writes(log.drop_last());
    }
}

} // verus!
