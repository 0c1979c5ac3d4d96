use vstd::prelude::*;

use crate::ast::Symbol;
use crate::chunk::{Address, Constant};
use crate::chunk::Chunk;
use crate::generator::{find_global, find_global_index};
use crate::opcode::Opcode;
use crate::program::{FunctionData, GlobalItem, Program};

verus! {

/// A value the machine computes with.
#[derive(Debug, Clone, Copy, PartialEq, Eq, Structural)]
pub enum RuntimeValue {
    Number(i64),
    String(Symbol),
    Bool(bool),
    Null,
    MemoryAddress(Address),
    GlobalPointer(usize),
    HeapPointer(usize),
}

/// A variable captured by a closure: shared with a stack slot, or a copy
/// taken when the closure was made.
#[derive(Debug, Clone, Copy, PartialEq, Eq, Structural)]
pub enum Captured {
    Shared(usize),
    Snapshot(RuntimeValue),
}

/// What a heap pointer refers to. A closure's captured variables are the
/// entries `start..start + count` of the machine's capture table; an
/// object's properties are the entries of the property table that name it.
#[derive(Debug, Clone, Copy, PartialEq, Eq, Structural)]
pub enum HeapObject {
    Closure { function: usize, start: usize, count: usize },
    Object,
}

/// One property write: later entries for the same object and key win, and
/// the first entry of a key fixes its place in the object's order.
#[derive(Debug, Clone, Copy, PartialEq, Eq, Structural)]
pub struct PropertyEntry {
    pub object: usize,
    pub key: Symbol,
    pub value: RuntimeValue,
}

/// An active call: which code runs (none for the top level), the closure it
/// runs in, the next instruction and the stack index of slot 0.
#[derive(Debug, Clone, Copy, PartialEq, Eq, Structural)]
pub struct Frame {
    pub function: Option<usize>,
    pub closure: Option<usize>,
    pub ip: usize,
    pub base: usize,
}

/// Why execution stopped.
#[derive(Debug, Clone, Copy, PartialEq, Eq, Structural)]
pub enum RuntimeError {
    ExpectedAddressValue,
    ExpectedNumber,
    ExpectedCallable,
    ExpectedObject,
    ExpectedString,
    OutOfBounds,
    StackUnderflow,
    UnknownProperty,
    DivisionByZero,
    WrongArity,
    Overflow,
    InvalidJump,
    NoFrame,
    StepLimit,
}

impl RuntimeValue {
    pub fn as_global_pointer(self) -> (r: usize)
        requires
            self is GlobalPointer,
        ensures
            self == RuntimeValue::GlobalPointer(r),
    {
        match self {
            RuntimeValue::GlobalPointer(p) => p,
            _ => 0,
        }
    }

    pub fn as_heap_pointer(self) -> (r: usize)
        requires
            self is HeapPointer,
        ensures
            self == RuntimeValue::HeapPointer(r),
    {
        match self {
            RuntimeValue::HeapPointer(p) => p,
            _ => 0,
        }
    }

    pub fn as_address(self) -> (r: Address)
        requires
            self is MemoryAddress,
        ensures
            self == RuntimeValue::MemoryAddress(r),
    {
        match self {
            RuntimeValue::MemoryAddress(a) => a,
            _ => Address::Local(0),
        }
    }

    pub fn as_string(self) -> (r: Symbol)
        requires
            self is String,
        ensures
            self == RuntimeValue::String(r),
    {
        match self {
            RuntimeValue::String(s) => s,
            _ => 0,
        }
    }

    /// Everything but `null` and `false` counts as true.
    pub fn is_truthy(self) -> (r: bool)
        ensures
            r == truthy(self),
    {
        is_truthy(self)
    }

    /// The value a constant of the pool stands for.
    pub fn from_constant(c: Constant) -> (r: RuntimeValue)
        ensures
            r == value_of(c),
    {
        match c {
            Constant::MemoryAddress(a) => RuntimeValue::MemoryAddress(a),
            Constant::Number(n) => RuntimeValue::Number(n),
            Constant::String(s) => RuntimeValue::String(s),
            Constant::Bool(b) => RuntimeValue::Bool(b),
            Constant::GlobalPointer(p) => RuntimeValue::GlobalPointer(p),
        }
    }
}

pub open spec fn value_of(c: Constant) -> RuntimeValue {
    match c {
        Constant::MemoryAddress(a) => RuntimeValue::MemoryAddress(a),
        Constant::Number(n) => RuntimeValue::Number(n),
        Constant::String(s) => RuntimeValue::String(s),
        Constant::Bool(b) => RuntimeValue::Bool(b),
        Constant::GlobalPointer(p) => RuntimeValue::GlobalPointer(p),
    }
}

/// Only `null` and `false` are falsy.
pub open spec fn truthy(v: RuntimeValue) -> bool {
    !(v == RuntimeValue::Null || v == RuntimeValue::Bool(false))
}

/// The code the machine runs, as the contracts see it.
pub struct ProgramModel {
    pub root_opcodes: Seq<Opcode>,
    pub root_constants: Seq<Constant>,
    pub globals: Seq<FunctionData>,
}

pub open spec fn program_model(p: &Program) -> ProgramModel {
    ProgramModel {
        root_opcodes: p.root.opcodes@,
        root_constants: p.root.constants@,
        globals: p.globals@.map_values(|g: GlobalItem| g.data()),
    }
}

/// Everything that changes while the machine runs.
pub struct VmState {
    pub stack: Seq<RuntimeValue>,
    pub frames: Seq<Frame>,
    pub heap: Seq<HeapObject>,
    pub captures: Seq<Captured>,
    pub properties: Seq<PropertyEntry>,
}

/// The result of one instruction.
pub enum Step {
    Running(VmState),
    Finished(RuntimeValue),
    Failed(RuntimeError),
}

pub open spec fn initial_state() -> VmState {
    VmState {
        stack: seq![],
        frames: seq![Frame { function: None, closure: None, ip: 0, base: 0 }],
        heap: seq![],
        captures: seq![],
        properties: seq![],
    }
}

pub open spec fn push(s: VmState, v: RuntimeValue) -> VmState {
    VmState { stack: s.stack.push(v), ..s }
}

pub open spec fn pop(s: VmState) -> VmState {
    VmState { stack: s.stack.drop_last(), ..s }
}

pub open spec fn set_ip(s: VmState, ip: usize) -> VmState {
    VmState { frames: s.frames.update(s.frames.len() - 1, Frame { ip, ..s.frames.last() }), ..s }
}

/// The instructions and constants of the code a frame runs.
pub open spec fn code_of(p: ProgramModel, function: Option<usize>) -> Option<(Seq<Opcode>, Seq<Constant>)> {
    match function {
        None => Some((p.root_opcodes, p.root_constants)),
        Some(i) => if i < p.globals.len() {
            Some((p.globals[i as int].opcodes, p.globals[i as int].constants))
        } else {
            None
        },
    }
}

/// Moves the instruction pointer, already past the jump, by `offset`.
pub open spec fn jump(s: VmState, offset: isize) -> Step {
    let target = s.frames.last().ip + offset;
    if target < 0 || target > usize::MAX {
        Step::Failed(RuntimeError::InvalidJump)
    } else {
        Step::Running(set_ip(s, target as usize))
    }
}

/// Numeric and comparison operators on two numbers.
pub open spec fn arith(op: Opcode, a: i64, b: i64) -> Result<RuntimeValue, RuntimeError> {
    match op {
        Opcode::Add => match a.checked_add(b) {
            Some(r) => Ok(RuntimeValue::Number(r)),
            None => Err(RuntimeError::Overflow),
        },
        Opcode::Sub => match a.checked_sub(b) {
            Some(r) => Ok(RuntimeValue::Number(r)),
            None => Err(RuntimeError::Overflow),
        },
        Opcode::Mul => match a.checked_mul(b) {
            Some(r) => Ok(RuntimeValue::Number(r)),
            None => Err(RuntimeError::Overflow),
        },
        Opcode::Div => if b == 0 {
            Err(RuntimeError::DivisionByZero)
        } else {
            match a.checked_div(b) {
                Some(r) => Ok(RuntimeValue::Number(r)),
                None => Err(RuntimeError::Overflow),
            }
        },
        Opcode::Mod => if b == 0 {
            Err(RuntimeError::DivisionByZero)
        } else {
            match a.checked_rem(b) {
                Some(r) => Ok(RuntimeValue::Number(r)),
                None => Err(RuntimeError::Overflow),
            }
        },
        Opcode::Lt => Ok(RuntimeValue::Bool(a < b)),
        Opcode::Le => Ok(RuntimeValue::Bool(a <= b)),
        Opcode::Gt => Ok(RuntimeValue::Bool(a > b)),
        _ => Ok(RuntimeValue::Bool(a >= b)),
    }
}

/// A binary operator: pops the right operand, then the left, pushes the result.
pub open spec fn binary(s: VmState, op: Opcode) -> Step {
    if s.stack.len() < 2 {
        Step::Failed(RuntimeError::StackUnderflow)
    } else {
        let b = s.stack.last();
        let a = s.stack[s.stack.len() - 2];
        let rest = pop(pop(s));
        match op {
            Opcode::Eq => Step::Running(push(rest, RuntimeValue::Bool(a == b))),
            Opcode::Neq => Step::Running(push(rest, RuntimeValue::Bool(a != b))),
            _ => match (a, b) {
                (RuntimeValue::Number(x), RuntimeValue::Number(y)) => match arith(op, x, y) {
                    Ok(v) => Step::Running(push(rest, v)),
                    Err(e) => Step::Failed(e),
                },
                _ => Step::Failed(RuntimeError::ExpectedNumber),
            },
        }
    }
}

/// Where in the capture table the running closure keeps its variable `index`.
pub open spec fn upvalue_position(s: VmState, index: usize) -> Option<usize> {
    match s.frames.last().closure {
        Some(h) => if h < s.heap.len() {
            match s.heap[h as int] {
                HeapObject::Closure { start, count, .. } => if index < count && start + index
                    < s.captures.len() {
                    Some((start + index) as usize)
                } else {
                    None
                },
                _ => None,
            }
        } else {
            None
        },
        None => None,
    }
}

/// The captured variable `index` of the closure the current frame runs in.
pub open spec fn upvalue_of(s: VmState, index: usize) -> Option<Captured> {
    match upvalue_position(s, index) {
        Some(k) => Some(s.captures[k as int]),
        None => None,
    }
}

/// The value stored at `a`.
pub open spec fn read(p: ProgramModel, s: VmState, a: Address) -> Result<RuntimeValue, RuntimeError> {
    match a {
        Address::Local(i) => {
            let k = s.frames.last().base + i;
            if k < s.stack.len() {
                Ok(s.stack[k])
            } else {
                Err(RuntimeError::OutOfBounds)
            }
        },
        Address::Upvalue { index, .. } => match upvalue_of(s, index) {
            Some(Captured::Shared(k)) => if k < s.stack.len() {
                Ok(s.stack[k as int])
            } else {
                Err(RuntimeError::OutOfBounds)
            },
            Some(Captured::Snapshot(v)) => Ok(v),
            None => Err(RuntimeError::OutOfBounds),
        },
        Address::Global(name) => match find_global(p.globals, name) {
            Some(i) => Ok(RuntimeValue::GlobalPointer(i)),
            None => Err(RuntimeError::OutOfBounds),
        },
    }
}

/// Stores `v` at `a`.
pub open spec fn write(s: VmState, a: Address, v: RuntimeValue) -> Result<VmState, RuntimeError> {
    match a {
        Address::Local(i) => {
            let k = s.frames.last().base + i;
            if k < s.stack.len() {
                Ok(VmState { stack: s.stack.update(k, v), ..s })
            } else {
                Err(RuntimeError::OutOfBounds)
            }
        },
        Address::Upvalue { index, .. } => match upvalue_of(s, index) {
            Some(Captured::Shared(k)) => if k < s.stack.len() {
                Ok(VmState { stack: s.stack.update(k as int, v), ..s })
            } else {
                Err(RuntimeError::OutOfBounds)
            },
            Some(Captured::Snapshot(_)) => Ok(
                VmState {
                    captures: s.captures.update(
                        upvalue_position(s, index).unwrap() as int,
                        Captured::Snapshot(v),
                    ),
                    ..s
                },
            ),
            None => Err(RuntimeError::OutOfBounds),
        },
        Address::Global(_) => Err(RuntimeError::OutOfBounds),
    }
}

/// What one address popped by `CreateClosure` captures: a slot of the current
/// frame is shared, an upvalue of the current closure is passed on.
pub open spec fn capture_of(s: VmState, v: RuntimeValue) -> Option<Captured> {
    match v {
        RuntimeValue::MemoryAddress(Address::Local(i)) => {
            let k = s.frames.last().base + i;
            if k <= usize::MAX {
                Some(Captured::Shared(k as usize))
            } else {
                None
            }
        },
        RuntimeValue::MemoryAddress(Address::Upvalue { index, .. }) => upvalue_of(s, index),
        _ => None,
    }
}

/// The captures of all of `vs`, in order.
pub open spec fn captures_of(s: VmState, vs: Seq<RuntimeValue>) -> Option<Seq<Captured>>
    decreases vs.len(),
{
    if vs.len() == 0 {
        Some(seq![])
    } else {
        match (captures_of(s, vs.drop_last()), capture_of(s, vs.last())) {
            (Some(cs), Some(c)) => Some(cs.push(c)),
            _ => None,
        }
    }
}

/// `CreateClosure(n)`: pops `n` addresses and the function pointer below
/// them, pushes a pointer to a new closure.
pub open spec fn create_closure(p: ProgramModel, s: VmState, n: usize) -> Step {
    let len = s.stack.len();
    if len < n + 1 {
        Step::Failed(RuntimeError::StackUnderflow)
    } else {
        match s.stack[len - n - 1] {
            RuntimeValue::GlobalPointer(g) => if g >= p.globals.len() {
                Step::Failed(RuntimeError::OutOfBounds)
            } else {
                match captures_of(s, s.stack.subrange(len - n, len as int)) {
                    None => Step::Failed(RuntimeError::ExpectedAddressValue),
                    Some(cs) => Step::Running(
                        VmState {
                            stack: s.stack.subrange(0, len - n - 1).push(
                                RuntimeValue::HeapPointer(s.heap.len() as usize),
                            ),
                            heap: s.heap.push(
                                HeapObject::Closure {
                                    function: g,
                                    start: s.captures.len() as usize,
                                    count: n,
                                },
                            ),
                            captures: s.captures + cs,
                            ..s
                        },
                    ),
                }
            },
            _ => Step::Failed(RuntimeError::ExpectedCallable),
        }
    }
}

/// `Call(argc)`: pops the callee and enters it; its frame starts at the first
/// argument and the callee itself takes the slot after the arguments.
pub open spec fn call(p: ProgramModel, s: VmState, argc: usize) -> Step {
    if s.stack.len() < argc + 1 {
        Step::Failed(RuntimeError::StackUnderflow)
    } else {
        let callee = s.stack.last();
        let target: Option<(usize, Option<usize>)> = match callee {
            RuntimeValue::GlobalPointer(g) => Some((g, None)),
            RuntimeValue::HeapPointer(h) => if h < s.heap.len() {
                match s.heap[h as int] {
                    HeapObject::Closure { function, .. } => Some((function, Some(h))),
                    _ => None,
                }
            } else {
                None
            },
            _ => None,
        };
        match target {
            None => Step::Failed(RuntimeError::ExpectedCallable),
            Some((f, closure)) => if f >= p.globals.len() {
                Step::Failed(RuntimeError::OutOfBounds)
            } else if p.globals[f as int].arity != argc {
                Step::Failed(RuntimeError::WrongArity)
            } else {
                Step::Running(
                    VmState {
                        frames: s.frames.push(
                            Frame {
                                function: Some(f),
                                closure,
                                ip: 0,
                                base: (s.stack.len() - 1 - argc) as usize,
                            },
                        ),
                        ..s
                    },
                )
            },
        }
    }
}

/// A capture shared with stack slot `base` or above becomes a copy of the
/// slot's value: the slot is about to be discarded, and the closure keeps the
/// variable alive on its own.
pub open spec fn close(c: Captured, stack: Seq<RuntimeValue>, base: usize) -> Captured {
    match c {
        Captured::Shared(k) => if base <= k && k < stack.len() {
            Captured::Snapshot(stack[k as int])
        } else {
            c
        },
        _ => c,
    }
}

pub open spec fn close_all(cs: Seq<Captured>, stack: Seq<RuntimeValue>, base: usize) -> Seq<Captured> {
    cs.map_values(|c: Captured| close(c, stack, base))
}

/// `Return`: the returned value replaces the frame's slots, whose captured
/// variables are closed; from the top level it ends the run.
pub open spec fn ret(s: VmState) -> Step {
    if s.stack.len() == 0 {
        Step::Failed(RuntimeError::StackUnderflow)
    } else if s.frames.len() <= 1 {
        Step::Finished(s.stack.last())
    } else {
        let base = s.frames.last().base;
        if base > s.stack.len() - 1 {
            Step::Failed(RuntimeError::StackUnderflow)
        } else {
            Step::Running(
                VmState {
                    stack: s.stack.subrange(0, base as int).push(s.stack.last()),
                    frames: s.frames.drop_last(),
                    captures: close_all(s.captures, s.stack, base),
                    ..s
                },
            )
        }
    }
}

/// The properties stored by `CreateObject` for object `h`: the top `2n` values
/// are (value, key) pairs, the first pair lowest.
pub open spec fn object_entries(h: usize, vs: Seq<RuntimeValue>) -> Option<Seq<PropertyEntry>>
    decreases vs.len(),
{
    if vs.len() < 2 {
        Some(seq![])
    } else {
        match (object_entries(h, vs.subrange(0, vs.len() - 2)), vs.last()) {
            (Some(es), RuntimeValue::String(k)) => Some(
                es.push(PropertyEntry { object: h, key: k, value: vs[vs.len() - 2] }),
            ),
            (Some(_), _) => None,
            (None, _) => None,
        }
    }
}

pub open spec fn create_object(s: VmState, n: usize) -> Step {
    let len = s.stack.len();
    if len < 2 * n {
        Step::Failed(RuntimeError::StackUnderflow)
    } else {
        let h = s.heap.len() as usize;
        match object_entries(h, s.stack.subrange(len - 2 * n, len as int)) {
            None => Step::Failed(RuntimeError::ExpectedString),
            Some(es) => Step::Running(
                VmState {
                    stack: s.stack.subrange(0, len - 2 * n).push(RuntimeValue::HeapPointer(h)),
                    heap: s.heap.push(HeapObject::Object),
                    properties: s.properties + es,
                    ..s
                },
            ),
        }
    }
}

/// The latest value written to property `key` of object `h`.
pub open spec fn property_value(ps: Seq<PropertyEntry>, h: usize, key: Symbol) -> Option<RuntimeValue>
    decreases ps.len(),
{
    if ps.len() == 0 {
        None
    } else if ps.last().object == h && ps.last().key == key {
        Some(ps.last().value)
    } else {
        property_value(ps.drop_last(), h, key)
    }
}

/// The object a value points to.
pub open spec fn object_of(s: VmState, v: RuntimeValue) -> Option<usize> {
    match v {
        RuntimeValue::HeapPointer(h) => if h < s.heap.len() && s.heap[h as int] is Object {
            Some(h)
        } else {
            None
        },
        _ => None,
    }
}

/// `GetProperty`: pops the key, then the target object, pushes the property.
/// Its method-binding flag has no effect: the language has no method
/// receivers, so a function read this way is pushed as it is.
pub open spec fn get_property(s: VmState) -> Step {
    let len = s.stack.len();
    if len < 2 {
        Step::Failed(RuntimeError::StackUnderflow)
    } else {
        match (s.stack[len - 2], s.stack[len - 1]) {
            (t, RuntimeValue::String(k)) => match object_of(s, t) {
                Some(h) => match property_value(s.properties, h, k) {
                    Some(v) => Step::Running(push(pop(pop(s)), v)),
                    None => Step::Failed(RuntimeError::UnknownProperty),
                },
                None => Step::Failed(RuntimeError::ExpectedObject),
            },
            _ => Step::Failed(RuntimeError::ExpectedString),
        }
    }
}

/// `SetProperty`: pops the value, the key and the target object, stores the
/// property and pushes the value.
pub open spec fn set_property(s: VmState) -> Step {
    let len = s.stack.len();
    if len < 3 {
        Step::Failed(RuntimeError::StackUnderflow)
    } else {
        let v = s.stack[len - 1];
        match (s.stack[len - 3], s.stack[len - 2]) {
            (t, RuntimeValue::String(k)) => match object_of(s, t) {
                Some(h) => Step::Running(
                    VmState {
                        stack: s.stack.subrange(0, len - 3).push(v),
                        properties: s.properties.push(PropertyEntry { object: h, key: k, value: v }),
                        ..s
                    },
                ),
                None => Step::Failed(RuntimeError::ExpectedObject),
            },
            _ => Step::Failed(RuntimeError::ExpectedString),
        }
    }
}

/// `Get`: replaces the address on top of the stack by the value stored there.
pub open spec fn get(p: ProgramModel, s: VmState) -> Step {
    if s.stack.len() == 0 {
        Step::Failed(RuntimeError::StackUnderflow)
    } else {
        match s.stack.last() {
            RuntimeValue::MemoryAddress(a) => match read(p, pop(s), a) {
                Ok(v) => Step::Running(push(pop(s), v)),
                Err(e) => Step::Failed(e),
            },
            _ => Step::Failed(RuntimeError::ExpectedAddressValue),
        }
    }
}

/// `Asg`: pops the value and the address, stores the value, pushes it back.
pub open spec fn assign(s: VmState) -> Step {
    if s.stack.len() < 2 {
        Step::Failed(RuntimeError::StackUnderflow)
    } else {
        let v = s.stack.last();
        match s.stack[s.stack.len() - 2] {
            RuntimeValue::MemoryAddress(a) => match write(pop(pop(s)), a, v) {
                Ok(s2) => Step::Running(push(s2, v)),
                Err(e) => Step::Failed(e),
            },
            _ => Step::Failed(RuntimeError::ExpectedAddressValue),
        }
    }
}

/// `Block(n)`: pops the value, discards `n` values below it, pushes it back.
pub open spec fn block(s: VmState, n: usize) -> Step {
    if s.stack.len() < n + 1 {
        Step::Failed(RuntimeError::StackUnderflow)
    } else {
        let v = s.stack.last();
        let keep = s.stack.len() - 1 - n;
        Step::Running(
            VmState {
                stack: s.stack.subrange(0, keep).push(v),
                captures: close_all(s.captures, s.stack, keep as usize),
                ..s
            },
        )
    }
}

/// Executes one instruction of the active frame.
pub open spec fn step(p: ProgramModel, s: VmState) -> Step {
    if s.frames.len() == 0 {
        Step::Failed(RuntimeError::NoFrame)
    } else {
        let fr = s.frames.last();
        match code_of(p, fr.function) {
            None => Step::Failed(RuntimeError::OutOfBounds),
            Some((ops, consts)) => if fr.ip >= ops.len() {
                if s.frames.len() == 1 {
                    Step::Finished(
                        if s.stack.len() == 0 {
                            RuntimeValue::Null
                        } else {
                            s.stack.last()
                        },
                    )
                } else {
                    Step::Failed(RuntimeError::InvalidJump)
                }
            } else {
                let s1 = set_ip(s, (fr.ip + 1) as usize);
                match ops[fr.ip as int] {
                    Opcode::Constant(i) => if i < consts.len() {
                        Step::Running(push(s1, value_of(consts[i as int])))
                    } else {
                        Step::Failed(RuntimeError::OutOfBounds)
                    },
                    Opcode::True => Step::Running(push(s1, RuntimeValue::Bool(true))),
                    Opcode::False => Step::Running(push(s1, RuntimeValue::Bool(false))),
                    Opcode::Null => Step::Running(push(s1, RuntimeValue::Null)),
                    Opcode::Not => if s1.stack.len() == 0 {
                        Step::Failed(RuntimeError::StackUnderflow)
                    } else {
                        Step::Running(push(pop(s1), RuntimeValue::Bool(!truthy(s1.stack.last()))))
                    },
                    Opcode::Negate => if s1.stack.len() == 0 {
                        Step::Failed(RuntimeError::StackUnderflow)
                    } else {
                        match s1.stack.last() {
                            RuntimeValue::Number(n) => match 0i64.checked_sub(n) {
                                Some(r) => Step::Running(push(pop(s1), RuntimeValue::Number(r))),
                                None => Step::Failed(RuntimeError::Overflow),
                            },
                            _ => Step::Failed(RuntimeError::ExpectedNumber),
                        }
                    },
                    Opcode::Jif(o) => if s1.stack.len() == 0 {
                        Step::Failed(RuntimeError::StackUnderflow)
                    } else if truthy(s1.stack.last()) {
                        Step::Running(pop(s1))
                    } else {
                        jump(pop(s1), o)
                    },
                    Opcode::Jp(o) => jump(s1, o),
                    Opcode::Break(o) => jump(s1, o),
                    Opcode::Block(n) => block(s1, n),
                    Opcode::Pop => if s1.stack.len() == 0 {
                        Step::Failed(RuntimeError::StackUnderflow)
                    } else {
                        Step::Running(pop(s1))
                    },
                    Opcode::Return => ret(s1),
                    Opcode::Call(argc) => call(p, s1, argc),
                    Opcode::Get => get(p, s1),
                    Opcode::Asg => assign(s1),
                    Opcode::CreateClosure(n) => create_closure(p, s1, n),
                    Opcode::CreateObject(n) => create_object(s1, n),
                    Opcode::GetProperty { .. } => get_property(s1),
                    Opcode::SetProperty(_) => set_property(s1),
                    op => binary(s1, op),
                }
            },
        }
    }
}

/// The state in which a run of at most `fuel` instructions from `s` stops:
/// the state before the instruction that finished or failed, or the state
/// reached when the fuel ran out.
pub open spec fn run_state(p: ProgramModel, s: VmState, fuel: nat) -> VmState
    decreases fuel,
{
    if fuel == 0 {
        s
    } else {
        match step(p, s) {
            Step::Running(s2) => run_state(p, s2, (fuel - 1) as nat),
            _ => s,
        }
    }
}

/// Runs at most `fuel` instructions from state `s`.
pub open spec fn run_from(p: ProgramModel, s: VmState, fuel: nat) -> Result<RuntimeValue, RuntimeError>
    decreases fuel,
{
    if fuel == 0 {
        Err(RuntimeError::StepLimit)
    } else {
        match step(p, s) {
            Step::Running(s2) => run_from(p, s2, (fuel - 1) as nat),
            Step::Finished(v) => Ok(v),
            Step::Failed(e) => Err(e),
        }
    }
}

/// `b` differs from `a` at most in its operand stack.
pub open spec fn keeps_all_but_stack(a: VmState, b: VmState) -> bool {
    &&& b.frames == a.frames
    &&& b.heap == a.heap
    &&& b.captures == a.captures
    &&& b.properties == a.properties
}

/// The active frame has an instruction to run. A step that fails after this
/// point leaves the instruction pointer just past the failing instruction.
pub open spec fn fetched(p: ProgramModel, s: VmState) -> bool {
    &&& s.frames.len() > 0
    &&& code_of(p, s.frames.last().function) is Some
    &&& s.frames.last().ip < active_code(p, s).len()
}

/// `r` and the state `after` report what `expected` says one instruction does.
pub open spec fn reports(r: Option<Result<RuntimeValue, RuntimeError>>, after: VmState, expected: Step) -> bool {
    match expected {
        Step::Running(s2) => r is None && after == s2,
        Step::Finished(v) => r == Some(Ok::<RuntimeValue, RuntimeError>(v)),
        Step::Failed(e) => r == Some(Err::<RuntimeValue, RuntimeError>(e)),
    }
}

/// A stack machine running one program.
pub struct VM {
    program: Program,
    stack: Vec<RuntimeValue>,
    frames: Vec<Frame>,
    heap: Vec<HeapObject>,
    captures: Vec<Captured>,
    properties: Vec<PropertyEntry>,
}

impl VM {
    pub closed spec fn state(&self) -> VmState {
        VmState {
            stack: self.stack@,
            frames: self.frames@,
            heap: self.heap@,
            captures: self.captures@,
            properties: self.properties@,
        }
    }

    pub closed spec fn code(&self) -> ProgramModel {
        program_model(&self.program)
    }

    /// A machine about to run the top-level code of `program`.
    pub fn new(program: Program) -> (r: VM)
        ensures
            r.state() == initial_state(),
            r.code() == program_model(&program),
    {
        let r = VM {
            program,
            stack: Vec::new(),
            frames: vec![Frame { function: None, closure: None, ip: 0, base: 0 }],
            heap: Vec::new(),
            captures: Vec::new(),
            properties: Vec::new(),
        };
        assert(r.state().frames =~= initial_state().frames);
        assert(r.state().stack =~= initial_state().stack);
        assert(r.state().heap =~= initial_state().heap);
        assert(r.state().captures =~= initial_state().captures);
        assert(r.state().properties =~= initial_state().properties);
        r
    }

    /// The number of values on the operand stack.
    pub fn stack_len(&self) -> (r: usize)
        ensures
            r == self.state().stack.len(),
    {
        self.stack.len()
    }

    /// The instruction pointer of the active frame.
    pub fn ip(&self) -> (r: Option<usize>)
        ensures
            r == (if self.state().frames.len() == 0 {
                None
            } else {
                Some(self.state().frames.last().ip)
            }),
    {
        if self.frames.len() == 0 {
            None
        } else {
            Some(self.frames[self.frames.len() - 1].ip)
        }
    }

    fn chunk_of(&self, function: Option<usize>) -> (r: Option<&Chunk>)
        ensures
            match code_of(self.code(), function) {
                None => r is None,
                Some((ops, consts)) => r is Some && r->0.opcodes@ == ops && r->0.constants@ == consts,
            },
    {
        match function {
            None => Some(&self.program.root),
            Some(i) => if i < self.program.globals.len() {
                Some(&self.program.globals[i].as_function().chunk)
            } else {
                None
            },
        }
    }

    fn set_ip(&mut self, ip: usize)
        requires
            old(self).frames@.len() > 0,
        ensures
            final(self).state() == set_ip(old(self).state(), ip),
            final(self).code() == old(self).code(),
    {
        let n = self.frames.len();
        let fr = self.frames[n - 1];
        self.frames.set(n - 1, Frame { ip, ..fr });
    }

    fn jump(&mut self, offset: isize) -> (r: Option<Result<RuntimeValue, RuntimeError>>)
        requires
            old(self).frames@.len() > 0,
        ensures
            reports(r, final(self).state(), jump(old(self).state(), offset)),
            r matches Some(Err(_)) ==> keeps_all_but_stack(old(self).state(), final(self).state()),
            final(self).code() == old(self).code(),
    {
        let ip = self.frames[self.frames.len() - 1].ip;
        let target: i128 = ip as i128 + offset as i128;
        if target < 0 || target > usize::MAX as i128 {
            return Some(Err(RuntimeError::InvalidJump));
        }
        self.set_ip(target as usize);
        None
    }

    fn binary(&mut self, op: Opcode) -> (r: Option<Result<RuntimeValue, RuntimeError>>)
        ensures
            reports(r, final(self).state(), binary(old(self).state(), op)),
            r matches Some(Err(_)) ==> keeps_all_but_stack(old(self).state(), final(self).state()),
            final(self).code() == old(self).code(),
    {
        if self.stack.len() < 2 {
            return Some(Err(RuntimeError::StackUnderflow));
        }
        let b = self.stack.pop().unwrap();
        let a = self.stack.pop().unwrap();
        let v = match op {
            Opcode::Eq => RuntimeValue::Bool(a == b),
            Opcode::Neq => RuntimeValue::Bool(a != b),
            _ => match (a, b) {
                (RuntimeValue::Number(x), RuntimeValue::Number(y)) => match arith_exec(op, x, y) {
                    Ok(v) => v,
                    Err(e) => {
                        return Some(Err(e));
                    },
                },
                _ => {
                    return Some(Err(RuntimeError::ExpectedNumber));
                },
            },
        };
        self.stack.push(v);
        assert(self.state().stack =~= push(pop(pop(old(self).state())), v).stack);
        None
    }

    fn upvalue_position(&self, index: usize) -> (r: Option<usize>)
        requires
            self.frames@.len() > 0,
        ensures
            r == upvalue_position(self.state(), index),
    {
        match self.frames[self.frames.len() - 1].closure {
            Some(h) => if h < self.heap.len() {
                match self.heap[h] {
                    HeapObject::Closure { start, count, .. } => if index < count && start
                        < self.captures.len() && index < self.captures.len() - start {
                        Some(start + index)
                    } else {
                        None
                    },
                    _ => None,
                }
            } else {
                None
            },
            None => None,
        }
    }

    fn read(&self, a: Address) -> (r: Result<RuntimeValue, RuntimeError>)
        requires
            self.frames@.len() > 0,
        ensures
            r == read(self.code(), self.state(), a),
    {
        match a {
            Address::Local(i) => {
                let base = self.frames[self.frames.len() - 1].base;
                if i < self.stack.len() && base < self.stack.len() - i {
                    Ok(self.stack[base + i])
                } else {
                    Err(RuntimeError::OutOfBounds)
                }
            },
            Address::Upvalue { index, .. } => match self.upvalue_position(index) {
                Some(k) => match self.captures[k] {
                    Captured::Shared(slot) => if slot < self.stack.len() {
                        Ok(self.stack[slot])
                    } else {
                        Err(RuntimeError::OutOfBounds)
                    },
                    Captured::Snapshot(v) => Ok(v),
                },
                None => Err(RuntimeError::OutOfBounds),
            },
            Address::Global(name) => match find_global_index(&self.program.globals, name) {
                Some(i) => Ok(RuntimeValue::GlobalPointer(i)),
                None => Err(RuntimeError::OutOfBounds),
            },
        }
    }

    fn write(&mut self, a: Address, v: RuntimeValue) -> (r: Result<(), RuntimeError>)
        requires
            old(self).frames@.len() > 0,
        ensures
            final(self).code() == old(self).code(),
            match write(old(self).state(), a, v) {
                Ok(s2) => r is Ok && final(self).state() == s2,
                Err(e) => r == Err::<(), RuntimeError>(e) && final(self).state() == old(self).state(),
            },
    {
        match a {
            Address::Local(i) => {
                let base = self.frames[self.frames.len() - 1].base;
                if i < self.stack.len() && base < self.stack.len() - i {
                    self.stack.set(base + i, v);
                    Ok(())
                } else {
                    Err(RuntimeError::OutOfBounds)
                }
            },
            Address::Upvalue { index, .. } => match self.upvalue_position(index) {
                Some(k) => match self.captures[k] {
                    Captured::Shared(slot) => if slot < self.stack.len() {
                        self.stack.set(slot, v);
                        Ok(())
                    } else {
                        Err(RuntimeError::OutOfBounds)
                    },
                    Captured::Snapshot(_) => {
                        self.captures.set(k, Captured::Snapshot(v));
                        Ok(())
                    },
                },
                None => Err(RuntimeError::OutOfBounds),
            },
            Address::Global(_) => Err(RuntimeError::OutOfBounds),
        }
    }

    fn get(&mut self) -> (r: Option<Result<RuntimeValue, RuntimeError>>)
        requires
            old(self).frames@.len() > 0,
        ensures
            reports(r, final(self).state(), get(old(self).code(), old(self).state())),
            r matches Some(Err(_)) ==> keeps_all_but_stack(old(self).state(), final(self).state()),
            final(self).code() == old(self).code(),
    {
        if self.stack.len() == 0 {
            return Some(Err(RuntimeError::StackUnderflow));
        }
        match self.stack[self.stack.len() - 1] {
            RuntimeValue::MemoryAddress(a) => {
                self.stack.pop();
                match self.read(a) {
                    Ok(v) => {
                        self.stack.push(v);
                        None
                    },
                    Err(e) => Some(Err(e)),
                }
            },
            _ => Some(Err(RuntimeError::ExpectedAddressValue)),
        }
    }

    fn assign(&mut self) -> (r: Option<Result<RuntimeValue, RuntimeError>>)
        requires
            old(self).frames@.len() > 0,
        ensures
            reports(r, final(self).state(), assign(old(self).state())),
            r matches Some(Err(_)) ==> keeps_all_but_stack(old(self).state(), final(self).state()),
            final(self).code() == old(self).code(),
    {
        if self.stack.len() < 2 {
            return Some(Err(RuntimeError::StackUnderflow));
        }
        let v = self.stack[self.stack.len() - 1];
        match self.stack[self.stack.len() - 2] {
            RuntimeValue::MemoryAddress(a) => {
                self.stack.pop();
                self.stack.pop();
                match self.write(a, v) {
                    Ok(()) => {
                        self.stack.push(v);
                        None
                    },
                    Err(e) => Some(Err(e)),
                }
            },
            _ => Some(Err(RuntimeError::ExpectedAddressValue)),
        }
    }

    fn block(&mut self, n: usize) -> (r: Option<Result<RuntimeValue, RuntimeError>>)
        ensures
            reports(r, final(self).state(), block(old(self).state(), n)),
            r matches Some(Err(_)) ==> keeps_all_but_stack(old(self).state(), final(self).state()),
            final(self).code() == old(self).code(),
    {
        if n >= self.stack.len() {
            return Some(Err(RuntimeError::StackUnderflow));
        }
        let keep = self.stack.len() - 1 - n;
        self.close_captures(keep);
        let v = self.stack.pop().unwrap();
        self.stack.truncate(keep);
        self.stack.push(v);
        assert(self.state().stack =~= old(self).state().stack.subrange(
            0,
            old(self).state().stack.len() - 1 - n,
        ).push(v));
        None
    }

    /// Closes every capture shared with slot `base` or above.
    fn close_captures(&mut self, base: usize)
        ensures
            final(self).state() == (VmState {
                captures: close_all(old(self).state().captures, old(self).state().stack, base),
                ..old(self).state()
            }),
            final(self).code() == old(self).code(),
    {
        let ghost cs = self.captures@;
        let mut i: usize = 0;
        while i < self.captures.len()
            invariant
                self.captures@.len() == cs.len(),
                self.stack@ == old(self).stack@,
                self.frames@ == old(self).frames@,
                self.heap@ == old(self).heap@,
                self.properties@ == old(self).properties@,
                self.code() == old(self).code(),
                cs == old(self).captures@,
                i <= cs.len(),
                forall|j: int| 0 <= j < i ==> self.captures@[j] == close(cs[j], self.stack@, base),
                forall|j: int| i <= j < cs.len() ==> self.captures@[j] == cs[j],
            decreases cs.len() - i,
        {
            match self.captures[i] {
                Captured::Shared(k) => if base <= k && k < self.stack.len() {
                    let v = self.stack[k];
                    self.captures.set(i, Captured::Snapshot(v));
                },
                _ => {},
            }
            i += 1;
        }
        assert(self.captures@ =~= close_all(cs, self.stack@, base));
    }

    fn ret(&mut self) -> (r: Option<Result<RuntimeValue, RuntimeError>>)
        ensures
            reports(r, final(self).state(), ret(old(self).state())),
            r matches Some(Err(_)) ==> keeps_all_but_stack(old(self).state(), final(self).state()),
            r matches Some(Ok(_)) ==> final(self).state().stack == old(self).state().stack,
            final(self).code() == old(self).code(),
    {
        if self.stack.len() == 0 {
            return Some(Err(RuntimeError::StackUnderflow));
        }
        let v = self.stack[self.stack.len() - 1];
        if self.frames.len() <= 1 {
            return Some(Ok(v));
        }
        let base = self.frames[self.frames.len() - 1].base;
        if base > self.stack.len() - 1 {
            return Some(Err(RuntimeError::StackUnderflow));
        }
        self.close_captures(base);
        self.stack.truncate(base);
        self.stack.push(v);
        self.frames.pop();
        assert(self.state().stack =~= old(self).state().stack.subrange(0, base as int).push(v));
        None
    }

    fn call(&mut self, argc: usize) -> (r: Option<Result<RuntimeValue, RuntimeError>>)
        ensures
            reports(r, final(self).state(), call(old(self).code(), old(self).state(), argc)),
            r matches Some(Err(_)) ==> keeps_all_but_stack(old(self).state(), final(self).state()),
            final(self).code() == old(self).code(),
    {
        if argc >= self.stack.len() {
            return Some(Err(RuntimeError::StackUnderflow));
        }
        let target: Option<(usize, Option<usize>)> = match self.stack[self.stack.len() - 1] {
            RuntimeValue::GlobalPointer(g) => Some((g, None)),
            RuntimeValue::HeapPointer(h) => if h < self.heap.len() {
                match self.heap[h] {
                    HeapObject::Closure { function, .. } => Some((function, Some(h))),
                    _ => None,
                }
            } else {
                None
            },
            _ => None,
        };
        match target {
            None => Some(Err(RuntimeError::ExpectedCallable)),
            Some((f, closure)) => {
                if f >= self.program.globals.len() {
                    return Some(Err(RuntimeError::OutOfBounds));
                }
                if self.program.globals[f].as_function().arity != argc {
                    return Some(Err(RuntimeError::WrongArity));
                }
                let base = self.stack.len() - 1 - argc;
                self.frames.push(Frame { function: Some(f), closure, ip: 0, base });
                None
            },
        }
    }

    fn capture(&self, v: RuntimeValue) -> (r: Option<Captured>)
        requires
            self.frames@.len() > 0,
        ensures
            r == capture_of(self.state(), v),
    {
        match v {
            RuntimeValue::MemoryAddress(Address::Local(i)) => {
                let base = self.frames[self.frames.len() - 1].base;
                match base.checked_add(i) {
                    Some(k) => Some(Captured::Shared(k)),
                    None => None,
                }
            },
            RuntimeValue::MemoryAddress(Address::Upvalue { index, .. }) => match self.upvalue_position(index) {
                Some(k) => Some(self.captures[k]),
                None => None,
            },
            _ => None,
        }
    }

    fn create_closure(&mut self, n: usize) -> (r: Option<Result<RuntimeValue, RuntimeError>>)
        requires
            old(self).frames@.len() > 0,
        ensures
            reports(r, final(self).state(), create_closure(old(self).code(), old(self).state(), n)),
            r matches Some(Err(_)) ==> keeps_all_but_stack(old(self).state(), final(self).state()),
            final(self).code() == old(self).code(),
    {
        let len = self.stack.len();
        if n >= len {
            return Some(Err(RuntimeError::StackUnderflow));
        }
        let g = match self.stack[len - n - 1] {
            RuntimeValue::GlobalPointer(g) => g,
            _ => {
                return Some(Err(RuntimeError::ExpectedCallable));
            },
        };
        if g >= self.program.globals.len() {
            return Some(Err(RuntimeError::OutOfBounds));
        }
        let ghost vs = self.stack@.subrange(len - n, len as int);
        let mut cs: Vec<Captured> = Vec::new();
        let mut ok = true;
        let mut i: usize = 0;
        while i < n
            invariant
                len == self.stack@.len(),
                n < len,
                i <= n,
                vs == self.stack@.subrange(len - n, len as int),
                self.frames@.len() > 0,
                ok ==> captures_of(self.state(), vs.subrange(0, i as int)) == Some(cs@),
                !ok ==> captures_of(self.state(), vs.subrange(0, i as int)) is None,
            decreases n - i,
        {
            assert(vs.subrange(0, i + 1).drop_last() =~= vs.subrange(0, i as int));
            match self.capture(self.stack[len - n + i]) {
                Some(c) => cs.push(c),
                None => {
                    ok = false;
                },
            }
            i += 1;
        }
        assert(vs.subrange(0, n as int) =~= vs);
        if !ok {
            return Some(Err(RuntimeError::ExpectedAddressValue));
        }
        let ghost s0 = self.state();
        let start = self.captures.len();
        let h = self.heap.len();
        self.captures.append(&mut cs);
        self.heap.push(HeapObject::Closure { function: g, start, count: n });
        self.stack.truncate(len - n - 1);
        self.stack.push(RuntimeValue::HeapPointer(h));
        assert(self.state().stack =~= s0.stack.subrange(0, len - n - 1).push(RuntimeValue::HeapPointer(h)));
        None
    }

    fn create_object(&mut self, n: usize) -> (r: Option<Result<RuntimeValue, RuntimeError>>)
        ensures
            reports(r, final(self).state(), create_object(old(self).state(), n)),
            r matches Some(Err(_)) ==> keeps_all_but_stack(old(self).state(), final(self).state()),
            final(self).code() == old(self).code(),
    {
        let len = self.stack.len();
        let m = match n.checked_mul(2) {
            Some(m) => m,
            None => {
                return Some(Err(RuntimeError::StackUnderflow));
            },
        };
        if len < m {
            return Some(Err(RuntimeError::StackUnderflow));
        }
        let h = self.heap.len();
        let ghost vs = self.stack@.subrange(len - m, len as int);
        let mut es: Vec<PropertyEntry> = Vec::new();
        let mut ok = true;
        let mut j: usize = 0;
        while j < n
            invariant
                len == self.stack@.len(),
                m == 2 * n,
                m <= len,
                j <= n,
                vs == self.stack@.subrange(len - m, len as int),
                ok ==> object_entries(h, vs.subrange(0, 2 * j)) == Some(es@),
                !ok ==> object_entries(h, vs.subrange(0, 2 * j)) is None,
            decreases n - j,
        {
            let ghost pre = vs.subrange(0, 2 * j + 2);
            assert(pre.subrange(0, pre.len() - 2) =~= vs.subrange(0, 2 * j));
            let value = self.stack[len - m + 2 * j];
            match self.stack[len - m + 2 * j + 1] {
                RuntimeValue::String(k) => {
                    if ok {
                        es.push(PropertyEntry { object: h, key: k, value });
                    }
                },
                _ => {
                    ok = false;
                },
            }
            j += 1;
        }
        assert(vs.subrange(0, 2 * n) =~= vs);
        if !ok {
            return Some(Err(RuntimeError::ExpectedString));
        }
        let ghost s0 = self.state();
        self.properties.append(&mut es);
        self.heap.push(HeapObject::Object);
        self.stack.truncate(len - m);
        self.stack.push(RuntimeValue::HeapPointer(h));
        assert(self.state().stack =~= s0.stack.subrange(0, len - m).push(RuntimeValue::HeapPointer(h)));
        None
    }

    fn object_of(&self, v: RuntimeValue) -> (r: Option<usize>)
        ensures
            r == object_of(self.state(), v),
    {
        match v {
            RuntimeValue::HeapPointer(h) => if h < self.heap.len() && matches!(self.heap[h], HeapObject::Object) {
                Some(h)
            } else {
                None
            },
            _ => None,
        }
    }

    fn property_value(&self, h: usize, key: Symbol) -> (r: Option<RuntimeValue>)
        ensures
            r == property_value(self.state().properties, h, key),
    {
        let ghost ps = self.properties@;
        let mut i = self.properties.len();
        assert(ps.subrange(0, i as int) =~= ps);
        while i > 0
            invariant
                i <= ps.len(),
                ps == self.properties@,
                property_value(ps, h, key) == property_value(ps.subrange(0, i as int), h, key),
            decreases i,
        {
            assert(ps.subrange(0, i as int).drop_last() =~= ps.subrange(0, i - 1));
            let e = self.properties[i - 1];
            if e.object == h && e.key == key {
                return Some(e.value);
            }
            i -= 1;
        }
        None
    }

    fn get_property(&mut self) -> (r: Option<Result<RuntimeValue, RuntimeError>>)
        ensures
            reports(r, final(self).state(), get_property(old(self).state())),
            r matches Some(Err(_)) ==> keeps_all_but_stack(old(self).state(), final(self).state()),
            final(self).code() == old(self).code(),
    {
        let len = self.stack.len();
        if len < 2 {
            return Some(Err(RuntimeError::StackUnderflow));
        }
        match self.stack[len - 1] {
            RuntimeValue::String(k) => match self.object_of(self.stack[len - 2]) {
                Some(h) => match self.property_value(h, k) {
                    Some(v) => {
                        self.stack.pop();
                        self.stack.pop();
                        self.stack.push(v);
                        None
                    },
                    None => Some(Err(RuntimeError::UnknownProperty)),
                },
                None => Some(Err(RuntimeError::ExpectedObject)),
            },
            _ => Some(Err(RuntimeError::ExpectedString)),
        }
    }

    fn set_property(&mut self) -> (r: Option<Result<RuntimeValue, RuntimeError>>)
        ensures
            reports(r, final(self).state(), set_property(old(self).state())),
            r matches Some(Err(_)) ==> keeps_all_but_stack(old(self).state(), final(self).state()),
            final(self).code() == old(self).code(),
    {
        let len = self.stack.len();
        if len < 3 {
            return Some(Err(RuntimeError::StackUnderflow));
        }
        let v = self.stack[len - 1];
        match self.stack[len - 2] {
            RuntimeValue::String(k) => match self.object_of(self.stack[len - 3]) {
                Some(h) => {
                    self.properties.push(PropertyEntry { object: h, key: k, value: v });
                    self.stack.truncate(len - 3);
                    self.stack.push(v);
                    assert(self.state().stack =~= old(self).state().stack.subrange(0, len - 3).push(v));
                    None
                },
                None => Some(Err(RuntimeError::ExpectedObject)),
            },
            _ => Some(Err(RuntimeError::ExpectedString)),
        }
    }
}

impl VM {
    /// Executes one instruction: `None` while the program runs on, its result
    /// once it has finished, or the error that stopped it.
    pub fn step(&mut self) -> (r: Option<Result<RuntimeValue, RuntimeError>>)
        ensures
            reports(r, final(self).state(), step(old(self).code(), old(self).state())),
            r matches Some(Err(_)) ==> keeps_all_but_stack(
                if fetched(old(self).code(), old(self).state()) {
                    set_ip(old(self).state(), (old(self).state().frames.last().ip + 1) as usize)
                } else {
                    old(self).state()
                },
                final(self).state(),
            ),
            r matches Some(Ok(_)) ==> final(self).state().stack == old(self).state().stack,
            final(self).code() == old(self).code(),
    {
        if self.frames.len() == 0 {
            return Some(Err(RuntimeError::NoFrame));
        }
        let fr = self.frames[self.frames.len() - 1];
        let (op, constant) = match self.chunk_of(fr.function) {
            None => {
                return Some(Err(RuntimeError::OutOfBounds));
            },
            Some(chunk) => {
                if fr.ip >= chunk.opcodes.len() {
                    if self.frames.len() == 1 {
                        if self.stack.len() == 0 {
                            return Some(Ok(RuntimeValue::Null));
                        } else {
                            return Some(Ok(self.stack[self.stack.len() - 1]));
                        }
                    } else {
                        return Some(Err(RuntimeError::InvalidJump));
                    }
                }
                let op = chunk.opcodes[fr.ip];
                let constant = match op {
                    Opcode::Constant(i) => if i < chunk.constants.len() {
                        Some(chunk.constants[i])
                    } else {
                        None
                    },
                    _ => None,
                };
                (op, constant)
            },
        };
        self.set_ip(fr.ip + 1);
        match op {
            Opcode::Constant(_) => match constant {
                Some(c) => {
                    self.stack.push(RuntimeValue::from_constant(c));
                    None
                },
                None => Some(Err(RuntimeError::OutOfBounds)),
            },
            Opcode::True => {
                self.stack.push(RuntimeValue::Bool(true));
                None
            },
            Opcode::False => {
                self.stack.push(RuntimeValue::Bool(false));
                None
            },
            Opcode::Null => {
                self.stack.push(RuntimeValue::Null);
                None
            },
            Opcode::Not => {
                if self.stack.len() == 0 {
                    return Some(Err(RuntimeError::StackUnderflow));
                }
                let v = self.stack.pop().unwrap();
                self.stack.push(RuntimeValue::Bool(!is_truthy(v)));
                None
            },
            Opcode::Negate => {
                if self.stack.len() == 0 {
                    return Some(Err(RuntimeError::StackUnderflow));
                }
                match self.stack[self.stack.len() - 1] {
                    RuntimeValue::Number(n) => match 0i64.checked_sub(n) {
                        Some(r) => {
                            self.stack.pop();
                            self.stack.push(RuntimeValue::Number(r));
                            None
                        },
                        None => Some(Err(RuntimeError::Overflow)),
                    },
                    _ => Some(Err(RuntimeError::ExpectedNumber)),
                }
            },
            Opcode::Jif(o) => {
                if self.stack.len() == 0 {
                    return Some(Err(RuntimeError::StackUnderflow));
                }
                let c = self.stack.pop().unwrap();
                if is_truthy(c) {
                    None
                } else {
                    self.jump(o)
                }
            },
            Opcode::Jp(o) => self.jump(o),
            Opcode::Break(o) => self.jump(o),
            Opcode::Block(n) => self.block(n),
            Opcode::Pop => {
                if self.stack.len() == 0 {
                    return Some(Err(RuntimeError::StackUnderflow));
                }
                self.stack.pop();
                None
            },
            Opcode::Return => self.ret(),
            Opcode::Call(argc) => self.call(argc),
            Opcode::Get => self.get(),
            Opcode::Asg => self.assign(),
            Opcode::CreateClosure(n) => self.create_closure(n),
            Opcode::CreateObject(n) => self.create_object(n),
            Opcode::GetProperty { .. } => self.get_property(),
            Opcode::SetProperty(_) => self.set_property(),
            _ => self.binary(op),
        }
    }

    /// Runs until the program finishes or fails, for at most `fuel`
    /// instructions.
    pub fn run(&mut self, fuel: u64) -> (r: Result<RuntimeValue, RuntimeError>)
        ensures
            r == run_from(old(self).code(), old(self).state(), fuel as nat),
            r is Ok ==> final(self).state().stack == run_state(old(self).code(), old(self).state(), fuel as nat).stack,
    {
        let ghost p = self.code();
        let ghost s0 = self.state();
        let mut left = fuel;
        let mut result: Option<Result<RuntimeValue, RuntimeError>> = None;
        while left > 0 && result.is_none()
            invariant
                self.code() == p,
                result is None ==> run_from(p, s0, fuel as nat) == run_from(p, self.state(), left as nat),
                result is None ==> run_state(p, s0, fuel as nat) == run_state(p, self.state(), left as nat),
                result is Some ==> run_from(p, s0, fuel as nat) == result->0,
                result matches Some(Ok(_)) ==> self.state().stack == run_state(p, s0, fuel as nat).stack,
            decreases left,
        {
            result = self.step();
            left -= 1;
        }
        match result {
            Some(r) => r,
            None => Err(RuntimeError::StepLimit),
        }
    }
}

fn is_truthy(v: RuntimeValue) -> (r: bool)
    ensures
        r == truthy(v),
{
    !(v == RuntimeValue::Null || v == RuntimeValue::Bool(false))
}

/// Runs `program` from its first top-level instruction for at most `fuel`
/// instructions.
pub fn run(program: Program, fuel: u64) -> (r: Result<RuntimeValue, RuntimeError>)
    ensures
        r == run_from(program_model(&program), initial_state(), fuel as nat),
{
    let mut vm = VM::new(program);
    vm.run(fuel)
}

/// The instructions of the active frame.
pub open spec fn active_code(p: ProgramModel, s: VmState) -> Seq<Opcode> {
    match code_of(p, s.frames.last().function) {
        Some((ops, _)) => ops,
        None => seq![],
    }
}

/// A jump whose offset was set by patching it at index `k` towards target
/// `t` moves the instruction pointer to exactly `t` when it is taken; a
/// conditional jump is taken when the value on top of the stack is falsy.
pub proof fn law_patched_jump_lands(p: ProgramModel, s: VmState, t: usize)
    requires
        s.frames.len() > 0,
        code_of(p, s.frames.last().function) is Some,
        s.frames.last().ip < active_code(p, s).len(),
        s.frames.last().ip < usize::MAX,
        ({
            let op = active_code(p, s)[s.frames.last().ip as int];
            &&& op.is_jump()
            &&& op.offset() == crate::generator::jump_offset(s.frames.last().ip as int, t as int)
            &&& op is Jif ==> s.stack.len() > 0 && !truthy(s.stack.last())
        }),
    ensures
        step(p, s) is Running,
        step(p, s)->Running_0.frames.last().ip == t,
{
    let fr = s.frames.last();
    let s1 = set_ip(s, (fr.ip + 1) as usize);
    assert(s1.frames.last().ip == fr.ip + 1);
    assert(pop(s1).frames.last().ip == fr.ip + 1);
    let op = active_code(p, s)[fr.ip as int];
    match op {
        Opcode::Jif(o) => {
            assert(set_ip(pop(s1), t).frames.last().ip == t);
        },
        Opcode::Jp(o) => {
            assert(set_ip(s1, t).frames.last().ip == t);
        },
        _ => {
            assert(set_ip(s1, t).frames.last().ip == t);
        },
    }
}

/// `Block(n)` leaves the stack `n` values shorter: the block's value stays,
/// the `n` slots below it go.
pub proof fn law_block_shrinks_stack(p: ProgramModel, s: VmState, n: usize)
    requires
        s.frames.len() > 0,
        code_of(p, s.frames.last().function) is Some,
        s.frames.last().ip < active_code(p, s).len(),
        active_code(p, s)[s.frames.last().ip as int] == Opcode::Block(n),
        s.stack.len() > n,
    ensures
        step(p, s) is Running,
        step(p, s)->Running_0.stack.len() == s.stack.len() - n,
        step(p, s)->Running_0.stack.last() == s.stack.last(),
{
}

fn arith_exec(op: Opcode, a: i64, b: i64) -> (r: Result<RuntimeValue, RuntimeError>)
    ensures
        r == arith(op, a, b),
{
    match op {
        Opcode::Add => match a.checked_add(b) {
            Some(r) => Ok(RuntimeValue::Number(r)),
            None => Err(RuntimeError::Overflow),
        },
        Opcode::Sub => match a.checked_sub(b) {
            Some(r) => Ok(RuntimeValue::Number(r)),
            None => Err(RuntimeError::Overflow),
        },
        Opcode::Mul => match a.checked_mul(b) {
            Some(r) => Ok(RuntimeValue::Number(r)),
            None => Err(RuntimeError::Overflow),
        },
        Opcode::Div => if b == 0 {
            Err(RuntimeError::DivisionByZero)
        } else {
            match a.checked_div(b) {
                Some(r) => Ok(RuntimeValue::Number(r)),
                None => Err(RuntimeError::Overflow),
            }
        },
        Opcode::Mod => if b == 0 {
            Err(RuntimeError::DivisionByZero)
        } else {
            match a.checked_rem(b) {
                Some(r) => Ok(RuntimeValue::Number(r)),
                None => Err(RuntimeError::Overflow),
            }
        },
        Opcode::Lt => Ok(RuntimeValue::Bool(a < b)),
        Opcode::Le => Ok(RuntimeValue::Bool(a <= b)),
        Opcode::Gt => Ok(RuntimeValue::Bool(a > b)),
        _ => Ok(RuntimeValue::Bool(a >= b)),
    }
}

} // verus!
