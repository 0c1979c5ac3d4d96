use vstd::prelude::*;

use crate::ast::{
    AtomicValue, BinaryOperator, Expr, ExprKind, Property, Stmt, StmtKind, Symbol, UnaryOperator,
};
use crate::chunk::{Address, Chunk, Constant};
use crate::opcode::Opcode;
use crate::program::{Function, FunctionData, GlobalItem, Program, Upvalue};

verus! {

/// Why code generation stopped.
#[derive(Debug, Clone, Copy, PartialEq, Eq, Structural)]
pub enum GenError {
    /// A name that is neither a variable in scope nor a global.
    UnknownSymbol(Symbol),
    /// `break` or `continue` outside a loop of the current function.
    OutsideLoop,
    /// A construct the generator does not lower (classes, `this`, `super`).
    Unsupported,
    /// A count or an offset outgrew its machine integer.
    TooLarge,
    /// The generator's own bookkeeping disagreed with itself.
    Inconsistent,
}

/// A named local variable and its frame slot.
#[derive(Debug, Clone, Copy, PartialEq, Eq, Structural)]
pub struct Local {
    pub name: Symbol,
    pub slot: usize,
}

/// A scope being compiled: where its code starts, how many values the frame
/// held on entry, whether it is a loop, and how many locals and pending
/// breaks existed on entry.
#[derive(Debug, Clone, Copy, PartialEq, Eq, Structural)]
pub struct GenScope {
    pub starting_index: usize,
    pub depth: usize,
    pub is_loop: bool,
    pub locals_start: usize,
    pub breaks_start: usize,
}

/// A function being compiled, as the contracts see it. `depth` is the number
/// of values its frame holds on the path that falls through to the next
/// instruction.
pub struct FunctionModel {
    pub name: Option<Symbol>,
    pub arity: usize,
    pub opcodes: Seq<Opcode>,
    pub constants: Seq<Constant>,
    pub locals: Seq<Local>,
    pub depth: usize,
    pub scopes: Seq<GenScope>,
    pub breaks: Seq<usize>,
    pub upvalues: Seq<Upvalue>,
    pub captured: Seq<Symbol>,
}

/// The whole generator state: the functions being compiled (innermost last),
/// the finished ones and the first error met.
pub struct GenModel {
    pub functions: Seq<FunctionModel>,
    pub globals: Seq<FunctionData>,
    pub error: Option<GenError>,
}

pub open spec fn current(m: GenModel) -> FunctionModel {
    m.functions.last()
}

pub open spec fn with_current(m: GenModel, f: FunctionModel) -> GenModel {
    GenModel { functions: m.functions.update(m.functions.len() - 1, f), ..m }
}

pub open spec fn fail(m: GenModel, e: GenError) -> GenModel {
    if m.error is Some {
        m
    } else {
        GenModel { error: Some(e), ..m }
    }
}

/// Appends `op` to the current function; the frame loses `pops` values and
/// gains `pushes`.
pub open spec fn emit(m: GenModel, op: Opcode, pops: nat, pushes: nat) -> GenModel {
    let f = current(m);
    if m.error is Some {
        m
    } else if f.depth < pops {
        fail(m, GenError::Inconsistent)
    } else if f.opcodes.len() >= isize::MAX || f.depth - pops + pushes > usize::MAX {
        fail(m, GenError::TooLarge)
    } else {
        with_current(
            m,
            FunctionModel { opcodes: f.opcodes.push(op), depth: (f.depth - pops + pushes) as usize, ..f },
        )
    }
}

/// Adds `c` to the pool of the current function and an instruction pushing it.
pub open spec fn emit_constant(m: GenModel, c: Constant) -> GenModel {
    let f = current(m);
    if m.error is Some {
        m
    } else if f.opcodes.len() >= isize::MAX || f.depth >= usize::MAX {
        fail(m, GenError::TooLarge)
    } else {
        with_current(
            m,
            FunctionModel {
                opcodes: f.opcodes.push(Opcode::Constant(f.constants.len() as usize)),
                constants: f.constants.push(c),
                depth: (f.depth + 1) as usize,
                ..f
            },
        )
    }
}

/// The offset that makes the jump at `k` land on instruction `target`.
pub open spec fn jump_offset(k: int, target: int) -> int {
    target - k - 1
}

/// Points the jump at index `k` to the end of the current code.
pub open spec fn patch(m: GenModel, k: int) -> GenModel {
    let f = current(m);
    if m.error is Some {
        m
    } else if !(0 <= k < f.opcodes.len() && f.opcodes[k].is_jump()) {
        fail(m, GenError::Inconsistent)
    } else if jump_offset(k, f.opcodes.len() as int) > isize::MAX {
        fail(m, GenError::TooLarge)
    } else {
        with_current(
            m,
            FunctionModel {
                opcodes: f.opcodes.update(
                    k,
                    f.opcodes[k].patch_spec(jump_offset(k, f.opcodes.len() as int) as isize),
                ),
                ..f
            },
        )
    }
}

/// Patches each jump of `ks`, in order.
pub open spec fn patch_all(m: GenModel, ks: Seq<usize>) -> GenModel
    decreases ks.len(),
{
    if ks.len() == 0 {
        m
    } else {
        patch(patch_all(m, ks.drop_last()), ks.last() as int)
    }
}

/// A backward jump to `start`; the frame is counted as gaining `pushes` values.
pub open spec fn emit_jump_back(m: GenModel, start: usize, pushes: nat) -> GenModel {
    let f = current(m);
    if m.error is Some {
        m
    } else if start > f.opcodes.len() {
        fail(m, GenError::Inconsistent)
    } else {
        emit(m, Opcode::Jp(jump_offset(f.opcodes.len() as int, start as int) as isize), 0, pushes)
    }
}

/// Names the value on top of the frame.
pub open spec fn declare_local(m: GenModel, name: Symbol) -> GenModel {
    let f = current(m);
    if m.error is Some {
        m
    } else if f.depth == 0 {
        fail(m, GenError::Inconsistent)
    } else {
        with_current(
            m,
            FunctionModel { locals: f.locals.push(Local { name, slot: (f.depth - 1) as usize }), ..f },
        )
    }
}

pub open spec fn push_scope(m: GenModel, is_loop: bool) -> GenModel {
    let f = current(m);
    if m.error is Some {
        m
    } else {
        with_current(
            m,
            FunctionModel {
                scopes: f.scopes.push(
                    GenScope {
                        starting_index: f.opcodes.len() as usize,
                        depth: f.depth,
                        is_loop,
                        locals_start: f.locals.len() as usize,
                        breaks_start: f.breaks.len() as usize,
                    },
                ),
                ..f
            },
        )
    }
}

/// Leaves the innermost scope, forgetting its locals and, for a loop, its
/// pending breaks.
pub open spec fn pop_scope(m: GenModel) -> GenModel {
    let f = current(m);
    let s = f.scopes.last();
    if m.error is Some {
        m
    } else if f.scopes.len() == 0 || s.locals_start > f.locals.len() || s.breaks_start
        > f.breaks.len() {
        fail(m, GenError::Inconsistent)
    } else {
        with_current(
            m,
            FunctionModel {
                scopes: f.scopes.drop_last(),
                locals: f.locals.subrange(0, s.locals_start as int),
                breaks: if s.is_loop {
                    f.breaks.subrange(0, s.breaks_start as int)
                } else {
                    f.breaks
                },
                ..f
            },
        )
    }
}

/// The slot of the innermost local called `name`.
pub open spec fn find_local(locals: Seq<Local>, name: Symbol) -> Option<usize>
    decreases locals.len(),
{
    if locals.len() == 0 {
        None
    } else if locals.last().name == name {
        Some(locals.last().slot)
    } else {
        find_local(locals.drop_last(), name)
    }
}

/// The position of `name` in `names`, searching from the end.
pub open spec fn find_name(names: Seq<Symbol>, name: Symbol) -> Option<usize>
    decreases names.len(),
{
    if names.len() == 0 {
        None
    } else if names.last() == name {
        Some((names.len() - 1) as usize)
    } else {
        find_name(names.drop_last(), name)
    }
}

/// Records that `f` captures `name` as described by `u`.
pub open spec fn add_upvalue(f: FunctionModel, name: Symbol, u: Upvalue) -> FunctionModel {
    FunctionModel { upvalues: f.upvalues.push(u), captured: f.captured.push(name), ..f }
}

/// Whether upvalue `i` of `f` is shared with its frame of origin. Names and
/// descriptors are recorded together, so `i` is always in range.
pub open spec fn upvalue_is_ref(f: FunctionModel, i: usize) -> bool {
    if i < f.upvalues.len() {
        f.upvalues[i as int].is_ref
    } else {
        true
    }
}

/// Resolves `name` in the innermost of `fs`, adding upvalue descriptors along
/// the chain of enclosing functions when the name belongs to one of them.
pub open spec fn resolve(fs: Seq<FunctionModel>, name: Symbol) -> (Seq<FunctionModel>, Option<
    Address,
>)
    decreases fs.len(),
{
    if fs.len() == 0 {
        (fs, None)
    } else {
        let f = fs.last();
        match find_local(f.locals, name) {
            Some(slot) => (fs, Some(Address::Local(slot))),
            None => match find_name(f.captured, name) {
                Some(i) => (fs, Some(Address::Upvalue { index: i, is_ref: upvalue_is_ref(f, i) })),
                None => {
                    let (outer, found) = resolve(fs.drop_last(), name);
                    let index = f.upvalues.len() as usize;
                    match found {
                        Some(Address::Local(slot)) => (
                            outer.push(
                                add_upvalue(
                                    f,
                                    name,
                                    Upvalue {
                                        is_local: true,
                                        local_index: slot,
                                        upvalue_index: 0,
                                        is_ref: true,
                                    },
                                ),
                            ),
                            Some(Address::Upvalue { index, is_ref: true }),
                        ),
                        Some(Address::Upvalue { index: outer_index, is_ref }) => (
                            outer.push(
                                add_upvalue(
                                    f,
                                    name,
                                    Upvalue {
                                        is_local: false,
                                        local_index: 0,
                                        upvalue_index: outer_index,
                                        is_ref,
                                    },
                                ),
                            ),
                            Some(Address::Upvalue { index, is_ref }),
                        ),
                        _ => (outer.push(f), None),
                    }
                },
            },
        }
    }
}

/// The innermost global function called `name`.
pub open spec fn find_global(globals: Seq<FunctionData>, name: Symbol) -> Option<usize>
    decreases globals.len(),
{
    if globals.len() == 0 {
        None
    } else if globals.last().name == Some(name) {
        Some((globals.len() - 1) as usize)
    } else {
        find_global(globals.drop_last(), name)
    }
}

/// `resolve` on the generator state.
pub open spec fn resolve_name(m: GenModel, name: Symbol) -> (GenModel, Option<Address>) {
    let (fs, a) = resolve(m.functions, name);
    (GenModel { functions: fs, ..m }, a)
}

/// Pushes the value of variable `name`: its address and `Get`, or the global
/// function of that name.
pub open spec fn gen_read(m: GenModel, name: Symbol) -> GenModel {
    if m.error is Some {
        m
    } else {
        let (m1, a) = resolve_name(m, name);
        match a {
            Some(addr) => emit(emit_constant(m1, Constant::MemoryAddress(addr)), Opcode::Get, 1, 1),
            None => match find_global(m1.globals, name) {
                Some(i) => emit_constant(m1, Constant::GlobalPointer(i)),
                None => fail(m1, GenError::UnknownSymbol(name)),
            },
        }
    }
}

pub open spec fn binary_opcode(op: BinaryOperator) -> Opcode {
    match op {
        BinaryOperator::Add => Opcode::Add,
        BinaryOperator::Sub => Opcode::Sub,
        BinaryOperator::Mul => Opcode::Mul,
        BinaryOperator::Div => Opcode::Div,
        BinaryOperator::Mod => Opcode::Mod,
        BinaryOperator::Eq => Opcode::Eq,
        BinaryOperator::Neq => Opcode::Neq,
        BinaryOperator::Lt => Opcode::Lt,
        BinaryOperator::Le => Opcode::Le,
        BinaryOperator::Gt => Opcode::Gt,
        BinaryOperator::Ge => Opcode::Ge,
    }
}

pub open spec fn unary_opcode(op: UnaryOperator) -> Opcode {
    match op {
        UnaryOperator::Not => Opcode::Not,
        UnaryOperator::Negate => Opcode::Negate,
    }
}

/// The innermost loop scope among `scopes`.
pub open spec fn innermost_loop(scopes: Seq<GenScope>) -> Option<GenScope>
    decreases scopes.len(),
{
    if scopes.len() == 0 {
        None
    } else if scopes.last().is_loop {
        Some(scopes.last())
    } else {
        innermost_loop(scopes.drop_last())
    }
}

/// The locals of a fresh function: its parameters in slots `0..arity`, then
/// its own name, if it has one, in slot `arity`.
pub open spec fn entry_locals(name: Option<Symbol>, params: Seq<Symbol>) -> Seq<Local> {
    let ps = Seq::new(params.len(), |i: int| Local { name: params[i], slot: i as usize });
    match name {
        Some(n) => ps.push(Local { name: n, slot: params.len() as usize }),
        None => ps,
    }
}

/// A fresh function whose frame holds its parameters in slots `0..arity`
/// and itself in slot `arity`.
pub open spec fn fresh_function(name: Option<Symbol>, params: Seq<Symbol>) -> FunctionModel {
    FunctionModel {
        name,
        arity: params.len() as usize,
        opcodes: seq![],
        constants: seq![],
        locals: entry_locals(name, params),
        depth: (params.len() + 1) as usize,
        scopes: seq![],
        breaks: seq![],
        upvalues: seq![],
        captured: seq![],
    }
}

pub open spec fn begin_function(m: GenModel, name: Option<Symbol>, params: Seq<Symbol>) -> GenModel {
    if m.error is Some {
        m
    } else if params.len() >= usize::MAX {
        fail(m, GenError::TooLarge)
    } else {
        GenModel { functions: m.functions.push(fresh_function(name, params)), ..m }
    }
}

/// Moves the innermost function to the globals table.
pub open spec fn end_function(m: GenModel) -> GenModel {
    let f = current(m);
    if m.error is Some {
        m
    } else if m.functions.len() < 2 {
        fail(m, GenError::Inconsistent)
    } else {
        GenModel {
            functions: m.functions.drop_last(),
            globals: m.globals.push(
                FunctionData {
                    name: f.name,
                    arity: f.arity,
                    opcodes: f.opcodes,
                    constants: f.constants,
                    upvalues: f.upvalues,
                },
            ),
            ..m
        }
    }
}

/// The address a closure's creator pushes for one upvalue descriptor.
pub open spec fn upvalue_address(u: Upvalue) -> Address {
    if u.is_local {
        Address::Local(u.local_index)
    } else {
        Address::Upvalue { index: u.upvalue_index, is_ref: u.is_ref }
    }
}

pub open spec fn emit_upvalues(m: GenModel, ups: Seq<Upvalue>) -> GenModel
    decreases ups.len(),
{
    if ups.len() == 0 {
        m
    } else {
        emit_constant(emit_upvalues(m, ups.drop_last()), Constant::MemoryAddress(upvalue_address(ups.last())))
    }
}

pub open spec fn gen_opt(m: GenModel, e: Option<Expr>) -> GenModel
    decreases e,
{
    match e {
        Some(x) => gen_expr(m, x),
        None => emit(m, Opcode::Null, 0, 1),
    }
}

/// Code of a function body; it always ends in `Return`.
pub open spec fn gen_body(m: GenModel, body: Expr) -> GenModel
    decreases body, 1nat,
{
    match *body.kind {
        ExprKind::Block { stmts, return_expr } => emit(
            gen_opt(gen_stmts(m, stmts@), return_expr),
            Opcode::Return,
            1,
            0,
        ),
        _ => emit(gen_expr(m, body), Opcode::Return, 1, 0),
    }
}

/// Compiles a function and pushes a closure over it: the function's global
/// pointer, one address per upvalue descriptor, then `CreateClosure`.
pub open spec fn gen_closure(m: GenModel, name: Option<Symbol>, params: Seq<Symbol>, body: Expr) -> GenModel
    decreases body, 2nat,
{
    if m.error is Some {
        m
    } else {
        let m1 = gen_body(begin_function(m, name, params), body);
        let ups = current(m1).upvalues;
        let m2 = end_function(m1);
        emit_closure(m2, (m2.globals.len() - 1) as usize, ups)
    }
}

/// Pushes a closure over global function `ptr` capturing `ups`.
pub open spec fn emit_closure(m: GenModel, ptr: usize, ups: Seq<Upvalue>) -> GenModel {
    let m1 = emit_upvalues(emit_constant(m, Constant::GlobalPointer(ptr)), ups);
    emit(m1, Opcode::CreateClosure(ups.len() as usize), (ups.len() + 1) as nat, 1)
}

/// The code of expression `e`: on the path that falls through, it leaves
/// exactly one more value on the frame.
pub open spec fn gen_expr(m: GenModel, e: Expr) -> GenModel
    decreases e, 0nat,
{
    if m.error is Some {
        m
    } else {
        match *e.kind {
            ExprKind::Atom(AtomicValue::Boolean(b)) => emit(
                m,
                if b {
                    Opcode::True
                } else {
                    Opcode::False
                },
                0,
                1,
            ),
            ExprKind::Atom(AtomicValue::Number(n)) => emit_constant(m, Constant::Number(n)),
            ExprKind::Atom(AtomicValue::Text(s)) => emit_constant(m, Constant::String(s)),
            ExprKind::Atom(AtomicValue::Null) => emit(m, Opcode::Null, 0, 1),
            ExprKind::Atom(AtomicValue::Identifier(name)) => gen_read(m, name),
            ExprKind::Binary { lhs, op, rhs } => emit(
                gen_expr(gen_expr(m, lhs), rhs),
                binary_opcode(op),
                2,
                1,
            ),
            ExprKind::Unary { op, rhs } => emit(gen_expr(m, rhs), unary_opcode(op), 1, 1),
            ExprKind::Block { stmts, return_expr } => {
                let d = current(m).depth;
                let m1 = gen_opt(gen_stmts(push_scope(m, false), stmts@), return_expr);
                let n = current(m1).depth - 1 - d;
                if m1.error is None && n < 0 {
                    fail(m1, GenError::Inconsistent)
                } else {
                    pop_scope(emit(m1, Opcode::Block(n as usize), n as nat, 0))
                }
            },
            ExprKind::If { condition, body, else_expr } => {
                let m1 = gen_expr(m, condition);
                let jif = current(m1).opcodes.len();
                let m2 = gen_expr(emit(m1, Opcode::Jif(0), 1, 0), body);
                let jp = current(m2).opcodes.len();
                let m3 = patch(emit(m2, Opcode::Jp(0), 1, 0), jif as int);
                patch(gen_opt(m3, else_expr), jp as int)
            },
            ExprKind::While { condition, body } => {
                let start = current(m).opcodes.len() as usize;
                let m1 = gen_expr(push_scope(m, true), condition);
                let jif = current(m1).opcodes.len();
                let m2 = gen_expr(emit(m1, Opcode::Jif(0), 1, 0), body);
                let m3 = emit_jump_back(emit(m2, Opcode::Pop, 1, 0), start, 0);
                let m4 = emit(patch(m3, jif as int), Opcode::Null, 0, 1);
                let f = current(m4);
                let pending = f.breaks.subrange(f.scopes.last().breaks_start as int, f.breaks.len() as int);
                if m4.error is None && (f.scopes.len() == 0 || f.scopes.last().breaks_start > f.breaks.len()) {
                    fail(m4, GenError::Inconsistent)
                } else {
                    pop_scope(patch_all(m4, pending))
                }
            },
            ExprKind::Break { return_expr } => {
                let m1 = gen_opt(m, return_expr);
                let f = current(m1);
                match innermost_loop(f.scopes) {
                    None => fail(m1, GenError::OutsideLoop),
                    Some(s) => if m1.error is None && f.depth < s.depth + 1 {
                        fail(m1, GenError::Inconsistent)
                    } else {
                        let m2 = emit(m1, Opcode::Block((f.depth - 1 - s.depth) as usize), 0, 0);
                        let k = current(m2).opcodes.len() as usize;
                        let m3 = emit(m2, Opcode::Break(0), 0, 0);
                        let g = current(m3);
                        if m3.error is Some {
                            m3
                        } else {
                            with_current(m3, FunctionModel { breaks: g.breaks.push(k), ..g })
                        }
                    },
                }
            },
            ExprKind::Continue => {
                let f = current(m);
                match innermost_loop(f.scopes) {
                    None => fail(m, GenError::OutsideLoop),
                    Some(s) => if f.depth < s.depth {
                        fail(m, GenError::Inconsistent)
                    } else {
                        let n = (f.depth - s.depth) as usize;
                        let m1 = if n > 0 {
                            emit(emit(emit(m, Opcode::Null, 0, 0), Opcode::Block(n), 0, 0), Opcode::Pop, 0, 0)
                        } else {
                            m
                        };
                        emit_jump_back(m1, s.starting_index, 1)
                    },
                }
            },
            ExprKind::Call { callee, args } => emit(
                gen_expr(gen_exprs(m, args@), callee),
                Opcode::Call(args.len()),
                (args.len() + 1) as nat,
                1,
            ),
            ExprKind::Return { value } => emit(gen_opt(m, value), Opcode::Return, 0, 0),
            ExprKind::GetProperty { target, identifier, is_method_call } => emit(
                emit_constant(gen_expr(m, target), Constant::String(identifier)),
                Opcode::GetProperty { bind_method: is_method_call },
                2,
                1,
            ),
            ExprKind::SetProperty { target, identifier, value } => emit(
                gen_expr(emit_constant(gen_expr(m, target), Constant::String(identifier)), value),
                Opcode::SetProperty(1),
                3,
                1,
            ),
            ExprKind::ObjectLiteral { properties } => {
                let m1 = gen_properties(m, properties@);
                if m1.error is None && properties.len() > usize::MAX / 2 {
                    fail(m1, GenError::TooLarge)
                } else {
                    emit(m1, Opcode::CreateObject(properties.len()), (2 * properties.len()) as nat, 1)
                }
            },
            ExprKind::Assignment { target, value } => {
                let (m1, a) = resolve_name(m, target);
                match a {
                    Some(addr) => emit(
                        gen_expr(emit_constant(m1, Constant::MemoryAddress(addr)), value),
                        Opcode::Asg,
                        2,
                        1,
                    ),
                    None => fail(m1, GenError::UnknownSymbol(target)),
                }
            },
            ExprKind::Closure { params, body } => gen_closure(m, None, params@, body),
            ExprKind::This | ExprKind::Super => fail(m, GenError::Unsupported),
        }
    }
}

/// Each of `es` in order.
pub open spec fn gen_exprs(m: GenModel, es: Seq<Expr>) -> GenModel
    decreases es,
{
    if es.len() == 0 {
        m
    } else {
        gen_expr(gen_exprs(m, es.subrange(0, es.len() - 1)), es[es.len() - 1])
    }
}

/// For each property in order: its value, then its key.
pub open spec fn gen_properties(m: GenModel, ps: Seq<Property>) -> GenModel
    decreases ps,
{
    if ps.len() == 0 {
        m
    } else {
        let p = ps[ps.len() - 1];
        emit_constant(gen_expr(gen_properties(m, ps.subrange(0, ps.len() - 1)), p.value), Constant::String(p.key))
    }
}

/// The code of statement `s`. An expression statement's value is dropped,
/// unless `keep` asks for it as the program's result; a declaration names the
/// slot of its value. So the frame holds exactly the declared locals.
pub open spec fn gen_stmt(m: GenModel, s: Stmt, keep: bool) -> GenModel
    decreases s,
{
    match *s.kind {
        StmtKind::Expression { expr } => if keep {
            gen_expr(m, expr)
        } else {
            emit(gen_expr(m, expr), Opcode::Pop, 1, 0)
        },
        StmtKind::VariableDeclaration { name, expr } => declare_local(gen_expr(m, expr), name),
        StmtKind::FunctionDeclaration { name, params, body } => declare_local(
            gen_closure(m, Some(name), params@, body),
            name,
        ),
        StmtKind::ClassDeclaration { .. } => fail(m, GenError::Unsupported),
    }
}

pub open spec fn gen_stmts(m: GenModel, ss: Seq<Stmt>) -> GenModel
    decreases ss,
{
    if ss.len() == 0 {
        m
    } else {
        gen_stmt(gen_stmts(m, ss.subrange(0, ss.len() - 1)), ss[ss.len() - 1], false)
    }
}

/// The code of a program's top-level statements: as in a block, except that
/// the last statement's value stays on the stack as the program's result.
pub open spec fn gen_program(m: GenModel, ss: Seq<Stmt>) -> GenModel {
    if ss.len() == 0 {
        m
    } else {
        gen_stmt(gen_stmts(m, ss.subrange(0, ss.len() - 1)), ss[ss.len() - 1], true)
    }
}

/// The state code generation starts from: the top-level code, with an empty
/// frame.
pub open spec fn root_model() -> GenModel {
    GenModel {
        functions: seq![
            FunctionModel {
                name: None,
                arity: 0,
                opcodes: seq![],
                constants: seq![],
                locals: seq![],
                depth: 0,
                scopes: seq![],
                breaks: seq![],
                upvalues: seq![],
                captured: seq![],
            },
        ],
        globals: seq![],
        error: None,
    }
}

/// A function being compiled.
struct FunctionState {
    name: Option<Symbol>,
    arity: usize,
    chunk: Chunk,
    locals: Vec<Local>,
    depth: usize,
    scopes: Vec<GenScope>,
    breaks: Vec<usize>,
    upvalues: Vec<Upvalue>,
    captured: Vec<Symbol>,
}

impl FunctionState {
    spec fn model(&self) -> FunctionModel {
        FunctionModel {
            name: self.name,
            arity: self.arity,
            opcodes: self.chunk.opcodes@,
            constants: self.chunk.constants@,
            locals: self.locals@,
            depth: self.depth,
            scopes: self.scopes@,
            breaks: self.breaks@,
            upvalues: self.upvalues@,
            captured: self.captured@,
        }
    }
}

spec fn models(fs: Seq<FunctionState>) -> Seq<FunctionModel> {
    fs.map_values(|f: FunctionState| f.model())
}

proof fn lemma_models_push(fs: Seq<FunctionState>, f: FunctionState)
    ensures
        models(fs.push(f)) == models(fs).push(f.model()),
{
    assert(models(fs.push(f)) =~= models(fs).push(f.model()));
}

proof fn lemma_models_drop_last(fs: Seq<FunctionState>)
    requires
        fs.len() > 0,
    ensures
        models(fs.drop_last()) == models(fs).drop_last(),
        models(fs).last() == fs.last().model(),
{
    assert(models(fs.drop_last()) =~= models(fs).drop_last());
}

/// Lowers a checked syntax tree to bytecode.
pub struct BytecodeGenerator {
    functions: Vec<FunctionState>,
    globals: Vec<GlobalItem>,
    error: Option<GenError>,
}

impl BytecodeGenerator {
    pub closed spec fn model(&self) -> GenModel {
        GenModel {
            functions: models(self.functions@),
            globals: self.globals@.map_values(|g: GlobalItem| g.data()),
            error: self.error,
        }
    }

    pub closed spec fn wf(&self) -> bool {
        self.functions@.len() >= 1
    }

    /// A generator positioned at the start of the top-level code.
    pub fn new() -> (r: BytecodeGenerator)
        ensures
            r.wf(),
            r.model() == root_model(),
    {
        let root = FunctionState {
            name: None,
            arity: 0,
            chunk: Chunk::empty(),
            locals: Vec::new(),
            depth: 0,
            scopes: Vec::new(),
            breaks: Vec::new(),
            upvalues: Vec::new(),
            captured: Vec::new(),
        };
        let r = BytecodeGenerator { functions: vec![root], globals: Vec::new(), error: None };
        assert(r.model().functions =~= root_model().functions);
        assert(r.model().globals =~= root_model().globals);
        r
    }

    /// Replaces the innermost function by `f`.
    fn put_current(&mut self, f: FunctionState)
        requires
            old(self).wf(),
        ensures
            final(self).wf(),
            final(self).model() == with_current(old(self).model(), f.model()),
    {
        self.functions.pop();
        self.functions.push(f);
        assert(models(self.functions@) =~= models(old(self).functions@).update(
            old(self).functions@.len() - 1,
            f.model(),
        ));
    }

    fn take_current(&mut self) -> (r: FunctionState)
        requires
            old(self).wf(),
        ensures
            r.model() == current(old(self).model()),
            final(self).functions@ == old(self).functions@.drop_last(),
            final(self).globals == old(self).globals,
            final(self).error == old(self).error,
    {
        proof {
            lemma_models_drop_last(self.functions@);
        }
        self.functions.pop().unwrap()
    }

    fn set_error(&mut self, e: GenError)
        requires
            old(self).wf(),
        ensures
            final(self).wf(),
            final(self).model() == fail(old(self).model(), e),
            final(self).globals == old(self).globals,
    {
        if self.error.is_none() {
            self.error = Some(e);
        }
    }

    fn current_len(&self) -> (r: usize)
        requires
            self.wf(),
        ensures
            r == current(self.model()).opcodes.len(),
    {
        proof {
            lemma_models_drop_last(self.functions@);
        }
        self.functions[self.functions.len() - 1].chunk.opcodes.len()
    }

    fn current_depth(&self) -> (r: usize)
        requires
            self.wf(),
        ensures
            r == current(self.model()).depth,
    {
        proof {
            lemma_models_drop_last(self.functions@);
        }
        self.functions[self.functions.len() - 1].depth
    }

    fn emit(&mut self, op: Opcode, pops: usize, pushes: usize)
        requires
            old(self).wf(),
            pushes <= 1,
        ensures
            final(self).wf(),
            final(self).model() == emit(old(self).model(), op, pops as nat, pushes as nat),
            final(self).globals == old(self).globals,
    {
        if self.error.is_some() {
            return;
        }
        let len = self.current_len();
        let depth = self.current_depth();
        if depth < pops {
            self.set_error(GenError::Inconsistent);
            return;
        }
        if len >= isize::MAX as usize || depth - pops > usize::MAX - pushes {
            self.set_error(GenError::TooLarge);
            return;
        }
        let mut f = self.take_current();
        f.chunk.opcodes.push(op);
        f.depth = depth - pops + pushes;
        self.functions.push(f);
        proof {
            lemma_models_push(old(self).functions@.drop_last(), f);
        }
        assert(models(self.functions@) =~= models(old(self).functions@).update(
            old(self).functions@.len() - 1,
            f.model(),
        ));
    }

    fn emit_constant(&mut self, c: Constant)
        requires
            old(self).wf(),
        ensures
            final(self).wf(),
            final(self).model() == emit_constant(old(self).model(), c),
            final(self).globals == old(self).globals,
    {
        if self.error.is_some() {
            return;
        }
        let len = self.current_len();
        let depth = self.current_depth();
        if len >= isize::MAX as usize || depth >= usize::MAX {
            self.set_error(GenError::TooLarge);
            return;
        }
        let mut f = self.take_current();
        f.chunk.write_constant(c);
        f.depth = depth + 1;
        self.functions.push(f);
        assert(models(self.functions@) =~= models(old(self).functions@).update(
            old(self).functions@.len() - 1,
            f.model(),
        ));
    }

    fn patch(&mut self, k: usize)
        requires
            old(self).wf(),
        ensures
            final(self).wf(),
            final(self).model() == patch(old(self).model(), k as int),
    {
        if self.error.is_some() {
            return;
        }
        let len = self.current_len();
        proof {
            lemma_models_drop_last(self.functions@);
        }
        if k >= len || !is_jump(self.functions[self.functions.len() - 1].chunk.opcodes[k]) {
            self.set_error(GenError::Inconsistent);
            return;
        }
        if len - k - 1 > isize::MAX as usize {
            self.set_error(GenError::TooLarge);
            return;
        }
        let mut f = self.take_current();
        let patched = f.chunk.opcodes[k].patch((len - k - 1) as isize);
        f.chunk.opcodes.set(k, patched);
        self.functions.push(f);
        assert(models(self.functions@) =~= models(old(self).functions@).update(
            old(self).functions@.len() - 1,
            f.model(),
        ));
    }

    fn emit_jump_back(&mut self, start: usize, pushes: usize)
        requires
            old(self).wf(),
            pushes <= 1,
        ensures
            final(self).wf(),
            final(self).model() == emit_jump_back(old(self).model(), start, pushes as nat),
    {
        if self.error.is_some() {
            return;
        }
        let len = self.current_len();
        if start > len {
            self.set_error(GenError::Inconsistent);
            return;
        }
        if len >= isize::MAX as usize {
            self.set_error(GenError::TooLarge);
            return;
        }
        let offset: isize = -((len - start) as isize) - 1;
        self.emit(Opcode::Jp(offset), 0, pushes);
    }

    fn declare_local(&mut self, name: Symbol)
        requires
            old(self).wf(),
        ensures
            final(self).wf(),
            final(self).model() == declare_local(old(self).model(), name),
    {
        if self.error.is_some() {
            return;
        }
        let depth = self.current_depth();
        if depth == 0 {
            self.set_error(GenError::Inconsistent);
            return;
        }
        let mut f = self.take_current();
        f.locals.push(Local { name, slot: depth - 1 });
        self.put_back(f);
        assert(self.model().functions =~= declare_local(old(self).model(), name).functions);
    }

    /// Puts back the innermost function taken out by `take_current`.
    fn put_back(&mut self, f: FunctionState)
        ensures
            final(self).wf(),
            models(final(self).functions@) == models(old(self).functions@).push(f.model()),
            final(self).globals == old(self).globals,
            final(self).error == old(self).error,
    {
        self.functions.push(f);
        proof {
            lemma_models_push(old(self).functions@, f);
        }
    }

    fn begin_scope(&mut self, is_loop: bool)
        requires
            old(self).wf(),
        ensures
            final(self).wf(),
            final(self).model() == push_scope(old(self).model(), is_loop),
    {
        if self.error.is_some() {
            return;
        }
        let mut f = self.take_current();
        let scope = GenScope {
            starting_index: f.chunk.opcodes.len(),
            depth: f.depth,
            is_loop,
            locals_start: f.locals.len(),
            breaks_start: f.breaks.len(),
        };
        f.scopes.push(scope);
        self.put_back(f);
        assert(self.model().functions =~= push_scope(old(self).model(), is_loop).functions);
    }

    fn end_scope(&mut self)
        requires
            old(self).wf(),
        ensures
            final(self).wf(),
            final(self).model() == pop_scope(old(self).model()),
    {
        if self.error.is_some() {
            return;
        }
        let mut f = self.take_current();
        if f.scopes.len() == 0 {
            self.put_back(f);
            assert(self.model().functions =~= old(self).model().functions);
            self.set_error(GenError::Inconsistent);
            return;
        }
        let s = f.scopes[f.scopes.len() - 1];
        if s.locals_start > f.locals.len() || s.breaks_start > f.breaks.len() {
            self.put_back(f);
            assert(self.model().functions =~= old(self).model().functions);
            self.set_error(GenError::Inconsistent);
            return;
        }
        f.scopes.pop();
        f.locals.truncate(s.locals_start);
        if s.is_loop {
            f.breaks.truncate(s.breaks_start);
            assert(f.breaks@ =~= old(self).functions@.last().breaks@.subrange(0, s.breaks_start as int));
        }
        self.put_back(f);
        assert(f.locals@ =~= old(self).functions@.last().locals@.subrange(0, s.locals_start as int));
        assert(self.model().functions =~= pop_scope(old(self).model()).functions);
    }
}

fn is_jump(op: Opcode) -> (r: bool)
    ensures
        r == op.is_jump(),
{
    match op {
        Opcode::Jif(_) | Opcode::Jp(_) | Opcode::Break(_) => true,
        _ => false,
    }
}

fn find_local_slot(locals: &Vec<Local>, name: Symbol) -> (r: Option<usize>)
    ensures
        r == find_local(locals@, name),
{
    let mut i = locals.len();
    assert(locals@.subrange(0, i as int) =~= locals@);
    while i > 0
        invariant
            i <= locals@.len(),
            find_local(locals@, name) == find_local(locals@.subrange(0, i as int), name),
        decreases i,
    {
        assert(locals@.subrange(0, i as int).drop_last() =~= locals@.subrange(0, i - 1));
        if locals[i - 1].name == name {
            return Some(locals[i - 1].slot);
        }
        i -= 1;
    }
    None
}

fn find_name_index(names: &Vec<Symbol>, name: Symbol) -> (r: Option<usize>)
    ensures
        r == find_name(names@, name),
{
    let mut i = names.len();
    assert(names@.subrange(0, i as int) =~= names@);
    while i > 0
        invariant
            i <= names@.len(),
            find_name(names@, name) == find_name(names@.subrange(0, i as int), name),
        decreases i,
    {
        assert(names@.subrange(0, i as int).drop_last() =~= names@.subrange(0, i - 1));
        if names[i - 1] == name {
            return Some(i - 1);
        }
        i -= 1;
    }
    None
}

pub(crate) fn find_global_index(globals: &Vec<GlobalItem>, name: Symbol) -> (r: Option<usize>)
    ensures
        r == find_global(globals@.map_values(|g: GlobalItem| g.data()), name),
{
    let ghost gs = globals@.map_values(|g: GlobalItem| g.data());
    let mut i = globals.len();
    assert(gs.subrange(0, i as int) =~= gs);
    while i > 0
        invariant
            i <= globals@.len(),
            gs == globals@.map_values(|g: GlobalItem| g.data()),
            find_global(gs, name) == find_global(gs.subrange(0, i as int), name),
        decreases i,
    {
        assert(gs.subrange(0, i as int).drop_last() =~= gs.subrange(0, i - 1));
        if globals[i - 1].name() == Some(name) {
            return Some(i - 1);
        }
        i -= 1;
    }
    None
}

/// `resolve` on the functions being compiled.
fn resolve_in(fs: &mut Vec<FunctionState>, name: Symbol) -> (r: Option<Address>)
    ensures
        (models(final(fs)@), r) == resolve(models(old(fs)@), name),
        final(fs)@.len() == old(fs)@.len(),
    decreases old(fs)@.len(),
{
    if fs.len() == 0 {
        return None;
    }
    proof {
        lemma_models_drop_last(fs@);
    }
    let n = fs.len();
    match find_local_slot(&fs[n - 1].locals, name) {
        Some(slot) => {
            return Some(Address::Local(slot));
        },
        None => {},
    }
    match find_name_index(&fs[n - 1].captured, name) {
        Some(i) => {
            let is_ref = if i < fs[n - 1].upvalues.len() {
                fs[n - 1].upvalues[i].is_ref
            } else {
                true
            };
            return Some(Address::Upvalue { index: i, is_ref });
        },
        None => {},
    }
    let mut f = fs.pop().unwrap();
    let found = resolve_in(fs, name);
    let index = f.upvalues.len();
    let r = match found {
        Some(Address::Local(slot)) => {
            f.upvalues.push(Upvalue { is_local: true, local_index: slot, upvalue_index: 0, is_ref: true });
            f.captured.push(name);
            Some(Address::Upvalue { index, is_ref: true })
        },
        Some(Address::Upvalue { index: outer_index, is_ref }) => {
            f.upvalues.push(Upvalue { is_local: false, local_index: 0, upvalue_index: outer_index, is_ref });
            f.captured.push(name);
            Some(Address::Upvalue { index, is_ref })
        },
        _ => None,
    };
    proof {
        lemma_models_push(fs@, f);
    }
    fs.push(f);
    r
}

impl BytecodeGenerator {
    fn resolve(&mut self, name: Symbol) -> (r: Option<Address>)
        requires
            old(self).wf(),
        ensures
            final(self).wf(),
            (final(self).model(), r) == resolve_name(old(self).model(), name),
    {
        resolve_in(&mut self.functions, name)
    }

    fn gen_read(&mut self, name: Symbol)
        requires
            old(self).wf(),
        ensures
            final(self).wf(),
            final(self).model() == gen_read(old(self).model(), name),
    {
        if self.error.is_some() {
            return;
        }
        match self.resolve(name) {
            Some(addr) => {
                self.emit_constant(Constant::MemoryAddress(addr));
                self.emit(Opcode::Get, 1, 1);
            },
            None => match find_global_index(&self.globals, name) {
                Some(i) => self.emit_constant(Constant::GlobalPointer(i)),
                None => self.set_error(GenError::UnknownSymbol(name)),
            },
        }
    }

    fn begin_function(&mut self, name: Option<Symbol>, params: &Vec<Symbol>)
        requires
            old(self).wf(),
        ensures
            final(self).wf(),
            final(self).model() == begin_function(old(self).model(), name, params@),
    {
        if self.error.is_some() {
            return;
        }
        if params.len() >= usize::MAX {
            self.set_error(GenError::TooLarge);
            return;
        }
        let mut locals: Vec<Local> = Vec::new();
        let mut i: usize = 0;
        while i < params.len()
            invariant
                i <= params@.len(),
                locals@ =~= Seq::new(i as nat, |j: int| Local { name: params@[j], slot: j as usize }),
            decreases params@.len() - i,
        {
            locals.push(Local { name: params[i], slot: i });
            i += 1;
        }
        match name {
            Some(n) => locals.push(Local { name: n, slot: params.len() }),
            None => {},
        }
        assert(locals@ =~= entry_locals(name, params@));
        let f = FunctionState {
            name,
            arity: params.len(),
            chunk: Chunk::empty(),
            locals,
            depth: params.len() + 1,
            scopes: Vec::new(),
            breaks: Vec::new(),
            upvalues: Vec::new(),
            captured: Vec::new(),
        };
        assert(f.model() == fresh_function(name, params@));
        self.put_back(f);
    }

    /// Moves the innermost function to the globals table.
    fn end_function(&mut self)
        requires
            old(self).wf(),
        ensures
            final(self).wf(),
            final(self).model() == end_function(old(self).model()),
    {
        if self.error.is_some() {
            return;
        }
        if self.functions.len() < 2 {
            self.set_error(GenError::Inconsistent);
            return;
        }
        let f = self.take_current();
        let function = Function { name: f.name, arity: f.arity, chunk: f.chunk, upvalues: f.upvalues };
        self.globals.push(GlobalItem::Function(function));
        proof {
            lemma_models_drop_last(old(self).functions@);
        }
        assert(self.model().globals =~= end_function(old(self).model()).globals);
    }
}

proof fn lemma_emit_upvalues_error(m: GenModel, ups: Seq<Upvalue>)
    requires
        m.error is Some,
    ensures
        emit_upvalues(m, ups) == m,
    decreases ups.len(),
{
    if ups.len() > 0 {
        lemma_emit_upvalues_error(m, ups.drop_last());
    }
}

proof fn lemma_patch_all_error(m: GenModel, ks: Seq<usize>)
    requires
        m.error is Some,
    ensures
        patch_all(m, ks) == m,
    decreases ks.len(),
{
    if ks.len() > 0 {
        lemma_patch_all_error(m, ks.drop_last());
    }
}

fn innermost_loop_scope(scopes: &Vec<GenScope>) -> (r: Option<GenScope>)
    ensures
        r == innermost_loop(scopes@),
{
    let mut i = scopes.len();
    assert(scopes@.subrange(0, i as int) =~= scopes@);
    while i > 0
        invariant
            i <= scopes@.len(),
            innermost_loop(scopes@) == innermost_loop(scopes@.subrange(0, i as int)),
        decreases i,
    {
        assert(scopes@.subrange(0, i as int).drop_last() =~= scopes@.subrange(0, i - 1));
        if scopes[i - 1].is_loop {
            return Some(scopes[i - 1]);
        }
        i -= 1;
    }
    None
}

fn binary_op(op: BinaryOperator) -> (r: Opcode)
    ensures
        r == binary_opcode(op),
{
    match op {
        BinaryOperator::Add => Opcode::Add,
        BinaryOperator::Sub => Opcode::Sub,
        BinaryOperator::Mul => Opcode::Mul,
        BinaryOperator::Div => Opcode::Div,
        BinaryOperator::Mod => Opcode::Mod,
        BinaryOperator::Eq => Opcode::Eq,
        BinaryOperator::Neq => Opcode::Neq,
        BinaryOperator::Lt => Opcode::Lt,
        BinaryOperator::Le => Opcode::Le,
        BinaryOperator::Gt => Opcode::Gt,
        BinaryOperator::Ge => Opcode::Ge,
    }
}

fn unary_op(op: UnaryOperator) -> (r: Opcode)
    ensures
        r == unary_opcode(op),
{
    match op {
        UnaryOperator::Not => Opcode::Not,
        UnaryOperator::Negate => Opcode::Negate,
    }
}

impl BytecodeGenerator {
    fn current_scopes_loop(&self) -> (r: Option<GenScope>)
        requires
            self.wf(),
        ensures
            r == innermost_loop(current(self.model()).scopes),
    {
        proof {
            lemma_models_drop_last(self.functions@);
        }
        innermost_loop_scope(&self.functions[self.functions.len() - 1].scopes)
    }

    fn gen_opt(&mut self, e: &Option<Expr>)
        requires
            old(self).wf(),
        ensures
            final(self).wf(),
            final(self).model() == gen_opt(old(self).model(), *e),
        decreases e,
    {
        match e {
            Some(x) => self.gen_expr(x),
            None => self.emit(Opcode::Null, 0, 1),
        }
    }

    fn gen_body(&mut self, body: &Expr)
        requires
            old(self).wf(),
        ensures
            final(self).wf(),
            final(self).model() == gen_body(old(self).model(), *body),
        decreases body, 2nat,
    {
        match &*body.kind {
            ExprKind::Block { stmts, return_expr } => {
                self.gen_stmts(stmts);
                self.gen_opt(return_expr);
                self.emit(Opcode::Return, 1, 0);
            },
            _ => {
                self.gen_expr(body);
                self.emit(Opcode::Return, 1, 0);
            },
        }
    }

    fn gen_closure(&mut self, name: Option<Symbol>, params: &Vec<Symbol>, body: &Expr)
        requires
            old(self).wf(),
        ensures
            final(self).wf(),
            final(self).model() == gen_closure(old(self).model(), name, params@, *body),
        decreases body, 3nat,
    {
        if self.error.is_some() {
            return;
        }
        self.begin_function(name, params);
        self.gen_body(body);
        let ghost m1 = self.model();
        let ghost ups = current(m1).upvalues;
        self.end_function();
        if self.error.is_some() {
            proof {
                lemma_emit_upvalues_error(
                    emit_constant(self.model(), Constant::GlobalPointer((self.model().globals.len() - 1) as usize)),
                    ups,
                );
            }
            return;
        }
        let ptr = self.globals.len() - 1;
        self.emit_closure(ptr);
    }

    fn emit_closure(&mut self, ptr: usize)
        requires
            old(self).wf(),
            ptr < old(self).globals@.len(),
        ensures
            final(self).wf(),
            final(self).model() == emit_closure(
                old(self).model(),
                ptr,
                old(self).model().globals[ptr as int].upvalues,
            ),
    {
        let ghost ups = self.model().globals[ptr as int].upvalues;
        self.emit_constant(Constant::GlobalPointer(ptr));
        let ghost m3 = self.model();
        let count = self.globals[ptr].as_function().upvalues.len();
        let mut i: usize = 0;
        while i < count
            invariant
                self.wf(),
                ptr < self.globals@.len(),
                self.model().globals[ptr as int].upvalues == ups,
                self.globals@[ptr as int].data().upvalues == ups,
                count == ups.len(),
                i <= count,
                self.model() == emit_upvalues(m3, ups.subrange(0, i as int)),
            decreases count - i,
        {
            let u = self.globals[ptr].as_function().upvalues[i];
            let address = if u.is_local {
                Address::Local(u.local_index)
            } else {
                Address::Upvalue { index: u.upvalue_index, is_ref: u.is_ref }
            };
            assert(ups.subrange(0, i + 1).drop_last() =~= ups.subrange(0, i as int));
            self.emit_constant(Constant::MemoryAddress(address));
            i += 1;
        }
        assert(ups.subrange(0, count as int) =~= ups);
        if count >= usize::MAX {
            self.set_error(GenError::Inconsistent);
        } else {
            self.emit(Opcode::CreateClosure(count), count + 1, 1);
        }
    }

    fn gen_exprs(&mut self, es: &Vec<Expr>)
        requires
            old(self).wf(),
        ensures
            final(self).wf(),
            final(self).model() == gen_exprs(old(self).model(), es@),
        decreases es,
    {
        let ghost m0 = self.model();
        let mut i: usize = 0;
        while i < es.len()
            invariant
                self.wf(),
                i <= es@.len(),
                self.model() == gen_exprs(m0, es@.subrange(0, i as int)),
            decreases es@.len() - i,
        {
            assert(es@.subrange(0, i + 1).subrange(0, i as int) =~= es@.subrange(0, i as int));
            self.gen_expr(&es[i]);
            i += 1;
        }
        assert(es@.subrange(0, es@.len() as int) =~= es@);
    }

    fn gen_properties(&mut self, ps: &Vec<Property>)
        requires
            old(self).wf(),
        ensures
            final(self).wf(),
            final(self).model() == gen_properties(old(self).model(), ps@),
        decreases ps,
    {
        let ghost m0 = self.model();
        let mut i: usize = 0;
        while i < ps.len()
            invariant
                self.wf(),
                i <= ps@.len(),
                self.model() == gen_properties(m0, ps@.subrange(0, i as int)),
            decreases ps@.len() - i,
        {
            assert(ps@.subrange(0, i + 1).subrange(0, i as int) =~= ps@.subrange(0, i as int));
            self.gen_expr(&ps[i].value);
            self.emit_constant(Constant::String(ps[i].key));
            i += 1;
        }
        assert(ps@.subrange(0, ps@.len() as int) =~= ps@);
    }

    fn gen_stmt(&mut self, s: &Stmt, keep: bool)
        requires
            old(self).wf(),
        ensures
            final(self).wf(),
            final(self).model() == gen_stmt(old(self).model(), *s, keep),
        decreases s,
    {
        match &*s.kind {
            StmtKind::Expression { expr } => {
                self.gen_expr(expr);
                if !keep {
                    self.emit(Opcode::Pop, 1, 0);
                }
            },
            StmtKind::VariableDeclaration { name, expr } => {
                self.gen_expr(expr);
                self.declare_local(*name);
            },
            StmtKind::FunctionDeclaration { name, params, body } => {
                self.gen_closure(Some(*name), params, body);
                self.declare_local(*name);
            },
            StmtKind::ClassDeclaration { .. } => self.set_error(GenError::Unsupported),
        }
    }

    fn gen_stmts(&mut self, ss: &Vec<Stmt>)
        requires
            old(self).wf(),
        ensures
            final(self).wf(),
            final(self).model() == gen_stmts(old(self).model(), ss@),
        decreases ss,
    {
        let ghost m0 = self.model();
        let mut i: usize = 0;
        while i < ss.len()
            invariant
                self.wf(),
                i <= ss@.len(),
                self.model() == gen_stmts(m0, ss@.subrange(0, i as int)),
            decreases ss@.len() - i,
        {
            assert(ss@.subrange(0, i + 1).subrange(0, i as int) =~= ss@.subrange(0, i as int));
            self.gen_stmt(&ss[i], false);
            i += 1;
        }
        assert(ss@.subrange(0, ss@.len() as int) =~= ss@);
    }

    fn gen_program(&mut self, ss: &Vec<Stmt>)
        requires
            old(self).wf(),
        ensures
            final(self).wf(),
            final(self).model() == gen_program(old(self).model(), ss@),
    {
        if ss.len() == 0 {
            return;
        }
        let ghost m0 = self.model();
        let last = ss.len() - 1;
        let mut i: usize = 0;
        while i < last
            invariant
                self.wf(),
                last == ss@.len() - 1,
                i <= last,
                self.model() == gen_stmts(m0, ss@.subrange(0, i as int)),
            decreases last - i,
        {
            assert(ss@.subrange(0, i + 1).subrange(0, i as int) =~= ss@.subrange(0, i as int));
            self.gen_stmt(&ss[i], false);
            i += 1;
        }
        self.gen_stmt(&ss[last], true);
    }

    fn gen_expr(&mut self, e: &Expr)
        requires
            old(self).wf(),
        ensures
            final(self).wf(),
            final(self).model() == gen_expr(old(self).model(), *e),
        decreases e, 1nat,
    {
        if self.error.is_some() {
            return;
        }
        match &*e.kind {
            ExprKind::Atom(AtomicValue::Boolean(b)) => {
                self.emit(
                    if *b {
                        Opcode::True
                    } else {
                        Opcode::False
                    },
                    0,
                    1,
                )
            },
            ExprKind::Atom(AtomicValue::Number(n)) => self.emit_constant(Constant::Number(*n)),
            ExprKind::Atom(AtomicValue::Text(t)) => self.emit_constant(Constant::String(*t)),
            ExprKind::Atom(AtomicValue::Null) => self.emit(Opcode::Null, 0, 1),
            ExprKind::Atom(AtomicValue::Identifier(name)) => self.gen_read(*name),
            ExprKind::Binary { lhs, op, rhs } => {
                self.gen_expr(lhs);
                self.gen_expr(rhs);
                self.emit(binary_op(*op), 2, 1);
            },
            ExprKind::Unary { op, rhs } => {
                self.gen_expr(rhs);
                self.emit(unary_op(*op), 1, 1);
            },
            ExprKind::Block { .. } => self.gen_block(e),
            ExprKind::If { .. } => self.gen_if(e),
            ExprKind::While { .. } => self.gen_while(e),
            ExprKind::Break { .. } => self.gen_break(e),
            ExprKind::Continue => self.gen_continue(e),
            ExprKind::Call { .. } => self.gen_call(e),
            ExprKind::Return { value } => {
                self.gen_opt(value);
                self.emit(Opcode::Return, 0, 0);
            },
            ExprKind::GetProperty { .. } | ExprKind::SetProperty { .. } => self.gen_property(e),
            ExprKind::ObjectLiteral { .. } => self.gen_object(e),
            ExprKind::Assignment { .. } => self.gen_assignment(e),
            ExprKind::Closure { params, body } => self.gen_closure(None, params, body),
            ExprKind::This | ExprKind::Super => self.set_error(GenError::Unsupported),
        }
    }

    fn gen_block(&mut self, e: &Expr)
        requires
            old(self).wf(),
            old(self).error is None,
            *e.kind is Block,
        ensures
            final(self).wf(),
            final(self).model() == gen_expr(old(self).model(), *e),
        decreases e, 0nat,
    {
        if let ExprKind::Block { stmts, return_expr } = &*e.kind {
            let d = self.current_depth();
            self.begin_scope(false);
            self.gen_stmts(stmts);
            self.gen_opt(return_expr);
            if self.error.is_some() {
                return;
            }
            let top = self.current_depth();
            if top == 0 || top - 1 < d {
                self.set_error(GenError::Inconsistent);
                return;
            }
            let n = top - 1 - d;
            self.emit(Opcode::Block(n), n, 0);
            self.end_scope();
        }
    }

    fn gen_if(&mut self, e: &Expr)
        requires
            old(self).wf(),
            old(self).error is None,
            *e.kind is If,
        ensures
            final(self).wf(),
            final(self).model() == gen_expr(old(self).model(), *e),
        decreases e, 0nat,
    {
        if let ExprKind::If { condition, body, else_expr } = &*e.kind {
            self.gen_expr(condition);
            let jif = self.current_len();
            self.emit(Opcode::Jif(0), 1, 0);
            self.gen_expr(body);
            let jp = self.current_len();
            self.emit(Opcode::Jp(0), 1, 0);
            self.patch(jif);
            self.gen_opt(else_expr);
            self.patch(jp);
        }
    }

    fn gen_while(&mut self, e: &Expr)
        requires
            old(self).wf(),
            old(self).error is None,
            *e.kind is While,
        ensures
            final(self).wf(),
            final(self).model() == gen_expr(old(self).model(), *e),
        decreases e, 0nat,
    {
        if let ExprKind::While { condition, body } = &*e.kind {
            let start = self.current_len();
            self.begin_scope(true);
            self.gen_expr(condition);
            let jif = self.current_len();
            self.emit(Opcode::Jif(0), 1, 0);
            self.gen_expr(body);
            self.emit(Opcode::Pop, 1, 0);
            self.emit_jump_back(start, 0);
            self.patch(jif);
            self.emit(Opcode::Null, 0, 1);
            let ghost m4 = self.model();
            if self.error.is_some() {
                proof {
                    let f = current(m4);
                    lemma_patch_all_error(
                        m4,
                        f.breaks.subrange(f.scopes.last().breaks_start as int, f.breaks.len() as int),
                    );
                }
                return;
            }
            self.patch_breaks();
            self.end_scope();
        }
    }

    fn gen_break(&mut self, e: &Expr)
        requires
            old(self).wf(),
            old(self).error is None,
            *e.kind is Break,
        ensures
            final(self).wf(),
            final(self).model() == gen_expr(old(self).model(), *e),
        decreases e, 0nat,
    {
        if let ExprKind::Break { return_expr } = &*e.kind {
            self.gen_opt(return_expr);
            if self.error.is_some() {
                return;
            }
            match self.current_scopes_loop() {
                None => self.set_error(GenError::OutsideLoop),
                Some(s) => {
                    let depth = self.current_depth();
                    if depth == 0 || depth - 1 < s.depth {
                        self.set_error(GenError::Inconsistent);
                        return;
                    }
                    self.emit(Opcode::Block(depth - 1 - s.depth), 0, 0);
                    let k = self.current_len();
                    self.emit(Opcode::Break(0), 0, 0);
                    if self.error.is_some() {
                        return;
                    }
                    let ghost m3 = self.model();
                    let mut f = self.take_current();
                    f.breaks.push(k);
                    self.put_back(f);
                    assert(self.model().functions =~= m3.functions.update(
                        m3.functions.len() - 1,
                        f.model(),
                    ));
                },
            }
        }
    }

    fn gen_continue(&mut self, e: &Expr)
        requires
            old(self).wf(),
            old(self).error is None,
            *e.kind is Continue,
        ensures
            final(self).wf(),
            final(self).model() == gen_expr(old(self).model(), *e),
        decreases e, 0nat,
    {
        match self.current_scopes_loop() {
            None => self.set_error(GenError::OutsideLoop),
            Some(s) => {
                let depth = self.current_depth();
                if depth < s.depth {
                    self.set_error(GenError::Inconsistent);
                    return;
                }
                let n = depth - s.depth;
                if n > 0 {
                    self.emit(Opcode::Null, 0, 0);
                    self.emit(Opcode::Block(n), 0, 0);
                    self.emit(Opcode::Pop, 0, 0);
                }
                self.emit_jump_back(s.starting_index, 1);
            },
        }
    }

    fn gen_call(&mut self, e: &Expr)
        requires
            old(self).wf(),
            old(self).error is None,
            *e.kind is Call,
        ensures
            final(self).wf(),
            final(self).model() == gen_expr(old(self).model(), *e),
        decreases e, 0nat,
    {
        if let ExprKind::Call { callee, args } = &*e.kind {
            self.gen_exprs(args);
            self.gen_expr(callee);
            if args.len() >= usize::MAX {
                self.set_error(GenError::Inconsistent);
            } else {
                self.emit(Opcode::Call(args.len()), args.len() + 1, 1);
            }
        }
    }

    fn gen_property(&mut self, e: &Expr)
        requires
            old(self).wf(),
            old(self).error is None,
            *e.kind is GetProperty || *e.kind is SetProperty,
        ensures
            final(self).wf(),
            final(self).model() == gen_expr(old(self).model(), *e),
        decreases e, 0nat,
    {
        match &*e.kind {
            ExprKind::GetProperty { target, identifier, is_method_call } => {
                self.gen_expr(target);
                self.emit_constant(Constant::String(*identifier));
                self.emit(Opcode::GetProperty { bind_method: *is_method_call }, 2, 1);
            },
            ExprKind::SetProperty { target, identifier, value } => {
                self.gen_expr(target);
                self.emit_constant(Constant::String(*identifier));
                self.gen_expr(value);
                self.emit(Opcode::SetProperty(1), 3, 1);
            },
            _ => {},
        }
    }

    fn gen_object(&mut self, e: &Expr)
        requires
            old(self).wf(),
            old(self).error is None,
            *e.kind is ObjectLiteral,
        ensures
            final(self).wf(),
            final(self).model() == gen_expr(old(self).model(), *e),
        decreases e, 0nat,
    {
        if let ExprKind::ObjectLiteral { properties } = &*e.kind {
            self.gen_properties(properties);
            if self.error.is_none() && properties.len() > usize::MAX / 2 {
                self.set_error(GenError::TooLarge);
            } else if properties.len() <= usize::MAX / 2 {
                self.emit(Opcode::CreateObject(properties.len()), 2 * properties.len(), 1);
            }
        }
    }

    fn gen_assignment(&mut self, e: &Expr)
        requires
            old(self).wf(),
            old(self).error is None,
            *e.kind is Assignment,
        ensures
            final(self).wf(),
            final(self).model() == gen_expr(old(self).model(), *e),
        decreases e, 0nat,
    {
        if let ExprKind::Assignment { target, value } = &*e.kind {
            match self.resolve(*target) {
                Some(addr) => {
                    self.emit_constant(Constant::MemoryAddress(addr));
                    self.gen_expr(value);
                    self.emit(Opcode::Asg, 2, 1);
                },
                None => self.set_error(GenError::UnknownSymbol(*target)),
            }
        }
    }

    /// Points every break pending in the innermost loop to the end of the code.
    fn patch_breaks(&mut self)
        requires
            old(self).wf(),
            old(self).error is None,
        ensures
            final(self).wf(),
            ({
                let f = current(old(self).model());
                let pending = f.breaks.subrange(f.scopes.last().breaks_start as int, f.breaks.len() as int);
                if f.scopes.len() == 0 || f.scopes.last().breaks_start > f.breaks.len() {
                    final(self).model() == fail(old(self).model(), GenError::Inconsistent)
                } else {
                    final(self).model() == patch_all(old(self).model(), pending)
                }
            }),
    {
        let ghost m0 = self.model();
        let ghost f0 = current(m0);
        proof {
            lemma_models_drop_last(self.functions@);
        }
        let n = self.functions.len();
        if self.functions[n - 1].scopes.len() == 0 {
            self.set_error(GenError::Inconsistent);
            return;
        }
        let start = self.functions[n - 1].scopes[self.functions[n - 1].scopes.len() - 1].breaks_start;
        let end = self.functions[n - 1].breaks.len();
        if start > end {
            self.set_error(GenError::Inconsistent);
            return;
        }
        let ghost pending = f0.breaks.subrange(start as int, end as int);
        let mut j = start;
        while j < end
            invariant
                self.wf(),
                self.functions@.len() == n,
                start <= j <= end,
                end == f0.breaks.len(),
                pending == f0.breaks.subrange(start as int, end as int),
                current(self.model()).breaks == f0.breaks,
                self.model() == patch_all(m0, pending.subrange(0, j - start)),
            decreases end - j,
        {
            proof {
                lemma_models_drop_last(self.functions@);
            }
            let k = self.functions[n - 1].breaks[j];
            assert(pending.subrange(0, j + 1 - start).drop_last() =~= pending.subrange(0, j - start));
            self.patch(k);
            j += 1;
        }
        assert(pending.subrange(0, end - start) =~= pending);
    }

    /// Lowers the top-level statements of a checked program. Code that
    /// breaks the chunk invariants is an internal inconsistency and is
    /// reported as such rather than returned.
    pub fn generate(self, ast: &Vec<Stmt>) -> (r: Result<Program, GenError>)
        requires
            self.wf(),
            self.model() == root_model(),
        ensures
            match r {
                Ok(p) => {
                    let m = gen_program(root_model(), ast@);
                    &&& m.error is None
                    &&& program_ok(m)
                    &&& p.root.opcodes@ == current(m).opcodes
                    &&& p.root.constants@ == current(m).constants
                    &&& p.globals@.map_values(|g: GlobalItem| g.data()) == m.globals
                },
                Err(e) => {
                    let m = gen_program(root_model(), ast@);
                    m.error == Some(e) || (m.error is None && !program_ok(m) && e == GenError::Inconsistent)
                },
            },
    {
        let mut generator = self;
        generator.gen_program(ast);
        match generator.error {
            Some(e) => Err(e),
            None => {
                let ghost m = generator.model();
                let f = generator.take_current();
                let mut ok = code_is_sound(&f.chunk);
                let mut i: usize = 0;
                while i < generator.globals.len()
                    invariant
                        m.globals == generator.globals@.map_values(|g: GlobalItem| g.data()),
                        i <= m.globals.len(),
                        ok == (code_ok(current(m).opcodes, current(m).constants) && forall|j: int|
                            0 <= j < i ==> code_ok(#[trigger] m.globals[j].opcodes, m.globals[j].constants)),
                    decreases m.globals.len() - i,
                {
                    let sound = code_is_sound(&generator.globals[i].as_function().chunk);
                    assert(m.globals[i as int] == generator.globals@[i as int].data());
                    assert(code_ok(m.globals[i as int].opcodes, m.globals[i as int].constants) == sound);
                    proof {
                        if ok && sound {
                            assert forall|j: int| 0 <= j < i + 1 implies code_ok(
                                #[trigger] m.globals[j].opcodes,
                                m.globals[j].constants,
                            ) by {
                                if j == i {
                                }
                            }
                        }
                    }
                    ok = ok && sound;
                    i += 1;
                }
                if ok {
                    Ok(Program { root: f.chunk, globals: generator.globals })
                } else {
                    Err(GenError::Inconsistent)
                }
            },
        }
    }
}

/// Every jump of `ops` lands on an instruction of `ops` or just past its end.
pub open spec fn jumps_in_range(ops: Seq<Opcode>) -> bool {
    forall|k: int|
        0 <= k < ops.len() && (#[trigger] ops[k]).is_jump() ==> 0 <= k + 1 + ops[k].offset() <= ops.len()
}

/// The invariants of a chunk: constant references inside the pool, jumps
/// inside the code.
pub open spec fn code_ok(ops: Seq<Opcode>, consts: Seq<Constant>) -> bool {
    crate::chunk::constants_in_range(ops, consts.len()) && jumps_in_range(ops)
}

/// The top-level code and every finished function meet the chunk invariants.
pub open spec fn program_ok(m: GenModel) -> bool {
    &&& code_ok(current(m).opcodes, current(m).constants)
    &&& forall|j: int| 0 <= j < m.globals.len() ==> code_ok(#[trigger] m.globals[j].opcodes, m.globals[j].constants)
}

fn code_is_sound(chunk: &Chunk) -> (r: bool)
    ensures
        r == code_ok(chunk.opcodes@, chunk.constants@),
{
    let ops = &chunk.opcodes;
    let n = ops.len();
    let mut k: usize = 0;
    while k < n
        invariant
            n == ops@.len(),
            k <= n,
            ops == &chunk.opcodes,
            forall|j: int| 0 <= j < k ==> (#[trigger] ops@[j] is Constant ==> ops@[j]->Constant_0 < chunk.constants@.len()),
            forall|j: int| 0 <= j < k && (#[trigger] ops@[j]).is_jump() ==> 0 <= j + 1 + ops@[j].offset() <= n,
        decreases n - k,
    {
        let good = match ops[k] {
            Opcode::Constant(i) => i < chunk.constants.len(),
            Opcode::Jif(o) | Opcode::Jp(o) | Opcode::Break(o) => {
                let target: i128 = k as i128 + 1 + o as i128;
                0 <= target && target <= n as i128
            },
            _ => true,
        };
        if !good {
            assert(!code_ok(chunk.opcodes@, chunk.constants@)) by {
                if ops@[k as int] is Constant {
                    assert(!crate::chunk::constants_in_range(ops@, chunk.constants@.len()));
                } else {
                    assert(!jumps_in_range(ops@));
                }
            }
            return false;
        }
        k += 1;
    }
    true
}

/// Lowers a checked program to bytecode.
pub fn generate(ast: &Vec<Stmt>) -> (r: Result<Program, GenError>)
        ensures
            match r {
                Ok(p) => {
                    let m = gen_program(root_model(), ast@);
                    &&& m.error is None
                    &&& program_ok(m)
                    &&& p.root.opcodes@ == current(m).opcodes
                    &&& p.root.constants@ == current(m).constants
                    &&& p.globals@.map_values(|g: GlobalItem| g.data()) == m.globals
                },
                Err(e) => {
                    let m = gen_program(root_model(), ast@);
                    m.error == Some(e) || (m.error is None && !program_ok(m) && e == GenError::Inconsistent)
                },
            },
{
    BytecodeGenerator::new().generate(ast)
}

proof fn lemma_emit_upvalues_shape(m: GenModel, ups: Seq<Upvalue>)
    requires
        m.error is Some || m.functions.len() > 0,
    ensures
        emit_upvalues(m, ups).globals == m.globals,
        emit_upvalues(m, ups).functions.len() == m.functions.len(),
        m.error is Some ==> emit_upvalues(m, ups) == m,
    decreases ups.len(),
{
    if ups.len() > 0 {
        lemma_emit_upvalues_shape(m, ups.drop_last());
    }
}

/// Compiling a function ends with `CreateClosure(k)`, where `k` is the number
/// of upvalue descriptors of the function just added to the globals.
pub proof fn law_closure_creation(m: GenModel, name: Option<Symbol>, params: Seq<Symbol>, body: Expr)
    requires
        m.error is None,
        gen_closure(m, name, params, body).error is None,
    ensures
        ({
            let r = gen_closure(m, name, params, body);
            &&& r.globals.len() > 0
            &&& current(r).opcodes.last() == Opcode::CreateClosure(r.globals.last().upvalues.len() as usize)
        }),
{
    let m1 = gen_body(begin_function(m, name, params), body);
    let ups = current(m1).upvalues;
    let m2 = end_function(m1);
    let m3 = emit_constant(m2, Constant::GlobalPointer((m2.globals.len() - 1) as usize));
    let m4 = emit_upvalues(m3, ups);
    lemma_emit_upvalues_shape(m3, ups);
    if m2.error is Some {
        assert(m3 == m2);
    }
    assert(m2.globals.last().upvalues == ups);
}

/// The code that makes a closure over global function `ptr` with upvalue
/// descriptors `ups` pushes the pointer, then one address per descriptor,
/// then `CreateClosure(ups.len())`. A function with no descriptors (no free
/// variables) gets exactly `[Constant(i), CreateClosure(0)]`, where constant
/// `i` is the new last entry of the pool, `GlobalPointer(ptr)`.
pub proof fn law_closure_code(m: GenModel, ptr: usize, ups: Seq<Upvalue>)
    requires
        emit_closure(m, ptr, ups).error is None,
        m.error is Some || m.functions.len() > 0,
    ensures
        m.error is None,
        emit_closure(m, ptr, ups).globals == m.globals,
        current(emit_closure(m, ptr, ups)).opcodes.last() == Opcode::CreateClosure(ups.len() as usize),
        ups.len() == 0 ==> current(emit_closure(m, ptr, ups)).opcodes.len() >= 2,
        ups.len() == 0 ==> current(emit_closure(m, ptr, ups)).opcodes[current(emit_closure(m, ptr, ups)).opcodes.len() - 2]
            == Opcode::Constant(current(m).constants.len() as usize),
        ups.len() == 0 ==> current(emit_closure(m, ptr, ups)).constants == current(m).constants.push(Constant::GlobalPointer(ptr)),
{
    let m3 = emit_constant(m, Constant::GlobalPointer(ptr));
    let m4 = emit_upvalues(m3, ups);
    lemma_emit_upvalues_shape(m3, ups);
    if m.error is Some {
        assert(m3 == m);
    }
    lemma_emit_grows(m4, Opcode::CreateClosure(ups.len() as usize), (ups.len() + 1) as nat, 1);
    if ups.len() == 0 {
        assert(m4 == m3);
        let f = current(m);
        assert(current(m3).opcodes == f.opcodes.push(Opcode::Constant(f.constants.len() as usize)));
        assert(current(m3).constants == f.constants.push(Constant::GlobalPointer(ptr)));
        let r = emit(m3, Opcode::CreateClosure(0), 1, 1);
        assert(current(r).constants == current(m3).constants);
        assert(current(r).opcodes == current(m3).opcodes.push(Opcode::CreateClosure(0)));
        let ops = current(r).opcodes;
        assert(ops[ops.len() - 2] == Opcode::Constant(f.constants.len() as usize));
    }
}

/// The first reference from a function `f` to a local of the function around
/// it adds exactly one upvalue descriptor to `f`, of the local kind, naming
/// the local's slot, and resolves to that new upvalue.
pub proof fn law_capture_of_enclosing_local(outer: Seq<FunctionModel>, f: FunctionModel, x: Symbol)
    requires
        outer.len() > 0,
        find_local(f.locals, x) is None,
        find_name(f.captured, x) is None,
        find_local(outer.last().locals, x) is Some,
    ensures
        resolve(outer.push(f), x) == (
            outer.push(
                add_upvalue(
                    f,
                    x,
                    Upvalue {
                        is_local: true,
                        local_index: find_local(outer.last().locals, x)->0,
                        upvalue_index: 0,
                        is_ref: true,
                    },
                ),
            ),
            Some(Address::Upvalue { index: f.upvalues.len() as usize, is_ref: true }),
        ),
{
    assert(outer.push(f).drop_last() =~= outer);
    assert(resolve(outer, x) == (outer, Some(Address::Local(find_local(outer.last().locals, x)->0))));
}

/// `e` holds no loop, no `break` and no function: its code only appends to
/// the current function and patches jumps it emitted itself.
pub open spec fn flat(e: Expr) -> bool
    decreases e,
{
    match *e.kind {
        ExprKind::Atom(_) | ExprKind::Continue | ExprKind::This | ExprKind::Super => true,
        ExprKind::Binary { lhs, rhs, .. } => flat(lhs) && flat(rhs),
        ExprKind::Unary { rhs, .. } => flat(rhs),
        ExprKind::Block { stmts, return_expr } => flat_stmts(stmts@) && match return_expr {
            Some(r) => flat(r),
            None => true,
        },
        ExprKind::If { condition, body, else_expr } => flat(condition) && flat(body) && match else_expr {
            Some(x) => flat(x),
            None => true,
        },
        ExprKind::Call { callee, args } => flat(callee) && flat_exprs(args@),
        ExprKind::Return { value } => match value {
            Some(v) => flat(v),
            None => true,
        },
        ExprKind::GetProperty { target, .. } => flat(target),
        ExprKind::SetProperty { target, value, .. } => flat(target) && flat(value),
        ExprKind::ObjectLiteral { properties } => flat_properties(properties@),
        ExprKind::Assignment { value, .. } => flat(value),
        _ => false,
    }
}

pub open spec fn flat_exprs(es: Seq<Expr>) -> bool
    decreases es,
{
    if es.len() == 0 {
        true
    } else {
        flat_exprs(es.subrange(0, es.len() - 1)) && flat(es[es.len() - 1])
    }
}

pub open spec fn flat_properties(ps: Seq<Property>) -> bool
    decreases ps,
{
    if ps.len() == 0 {
        true
    } else {
        flat_properties(ps.subrange(0, ps.len() - 1)) && flat(ps[ps.len() - 1].value)
    }
}

pub open spec fn flat_stmts(ss: Seq<Stmt>) -> bool
    decreases ss,
{
    if ss.len() == 0 {
        true
    } else {
        flat_stmts(ss.subrange(0, ss.len() - 1)) && match *ss[ss.len() - 1].kind {
            StmtKind::Expression { expr } => flat(expr),
            StmtKind::VariableDeclaration { expr, .. } => flat(expr),
            _ => false,
        }
    }
}

/// `r` comes from `m` by appending to the current function's code and
/// rewriting nothing below `m`'s end of code.
pub open spec fn grows(m: GenModel, r: GenModel) -> bool {
    r.error is None ==> {
        &&& m.error is None
        &&& r.functions.len() == m.functions.len()
        &&& current(m).opcodes.len() <= current(r).opcodes.len()
        &&& current(r).opcodes.subrange(0, current(m).opcodes.len() as int) == current(m).opcodes
    }
}

/// A state the generator can work on: it has a current function, or it has
/// already failed.
pub open spec fn usable(m: GenModel) -> bool {
    m.error is Some || m.functions.len() > 0
}

proof fn lemma_grows_trans(a: GenModel, b: GenModel, c: GenModel)
    requires
        grows(a, b),
        grows(b, c),
    ensures
        grows(a, c),
{
    if c.error is None {
        let la = current(a).opcodes.len() as int;
        assert(current(c).opcodes.subrange(0, la) =~= current(c).opcodes.subrange(
            0,
            current(b).opcodes.len() as int,
        ).subrange(0, la));
    }
}

proof fn lemma_resolve_keeps_code(fs: Seq<FunctionModel>, x: Symbol)
    ensures
        resolve(fs, x).0.len() == fs.len(),
        fs.len() > 0 ==> resolve(fs, x).0.last().opcodes == fs.last().opcodes,
        fs.len() > 0 ==> resolve(fs, x).0.last().depth == fs.last().depth,
    decreases fs.len(),
{
    if fs.len() > 0 {
        lemma_resolve_keeps_code(fs.drop_last(), x);
    }
}

proof fn lemma_emit_grows(m: GenModel, op: Opcode, pops: nat, pushes: nat)
    requires
        usable(m),
    ensures
        grows(m, emit(m, op, pops, pushes)),
        usable(emit(m, op, pops, pushes)),
        emit(m, op, pops, pushes).error is None ==> current(emit(m, op, pops, pushes)).opcodes
            == current(m).opcodes.push(op),
{
    assert(current(m).opcodes.push(op).subrange(0, current(m).opcodes.len() as int) =~= current(m).opcodes);
}

proof fn lemma_constant_grows(m: GenModel, c: Constant)
    requires
        usable(m),
    ensures
        grows(m, emit_constant(m, c)),
        usable(emit_constant(m, c)),
{
    let f = current(m);
    assert(f.opcodes.push(Opcode::Constant(f.constants.len() as usize)).subrange(0, f.opcodes.len() as int) =~= f.opcodes);
}

proof fn lemma_same_code_grows(m: GenModel, x: Symbol, is_loop: bool)
    requires
        usable(m),
    ensures
        grows(m, declare_local(m, x)),
        usable(declare_local(m, x)),
        grows(m, push_scope(m, is_loop)),
        usable(push_scope(m, is_loop)),
        grows(m, pop_scope(m)),
        usable(pop_scope(m)),
        grows(m, resolve_name(m, x).0),
        usable(resolve_name(m, x).0),
{
    assert(current(m).opcodes.subrange(0, current(m).opcodes.len() as int) =~= current(m).opcodes);
    lemma_resolve_keeps_code(m.functions, x);
}

proof fn lemma_jump_back_grows(m: GenModel, start: usize, pushes: nat)
    requires
        usable(m),
    ensures
        grows(m, emit_jump_back(m, start, pushes)),
        usable(emit_jump_back(m, start, pushes)),
{
    let f = current(m);
    lemma_emit_grows(m, Opcode::Jp(jump_offset(f.opcodes.len() as int, start as int) as isize), 0, pushes);
}

/// Patching a jump at or after `m`'s end of code keeps `r` growing from `m`.
proof fn lemma_patch_grows(m: GenModel, r: GenModel, k: int)
    requires
        usable(m),
        grows(m, r),
        usable(r),
        r.error is None ==> k >= current(m).opcodes.len(),
    ensures
        grows(m, patch(r, k)),
        usable(patch(r, k)),
{
    let p = patch(r, k);
    if p.error is None {
        let l0 = current(m).opcodes.len() as int;
        assert(current(p).opcodes.subrange(0, l0) =~= current(r).opcodes.subrange(0, l0));
    }
}

proof fn lemma_flat_grows(m: GenModel, e: Expr)
    requires
        usable(m),
        flat(e),
    ensures
        grows(m, gen_expr(m, e)),
        usable(gen_expr(m, e)),
    decreases e, 2nat,
{
    if m.error is None {
        match *e.kind {
            ExprKind::If { .. } => lemma_flat_if_grows(m, e),
            ExprKind::Block { .. } => lemma_flat_block_grows(m, e),
            ExprKind::Continue => lemma_flat_continue_grows(m, e),
            _ => lemma_flat_other_grows(m, e),
        }
    }
}

proof fn lemma_flat_if_grows(m: GenModel, e: Expr)
    requires
        usable(m),
        m.error is None,
        flat(e),
        *e.kind is If,
    ensures
        grows(m, gen_expr(m, e)),
        usable(gen_expr(m, e)),
    decreases e, 1nat,
{
    if let ExprKind::If { condition, body, else_expr } = *e.kind {
        let m1 = gen_expr(m, condition);
        lemma_flat_grows(m, condition);
        let jif = current(m1).opcodes.len();
        let m2 = emit(m1, Opcode::Jif(0), 1, 0);
        lemma_emit_grows(m1, Opcode::Jif(0), 1, 0);
        lemma_grows_trans(m, m1, m2);
        let m3 = gen_expr(m2, body);
        lemma_flat_grows(m2, body);
        lemma_grows_trans(m, m2, m3);
        let jp = current(m3).opcodes.len();
        let m4 = emit(m3, Opcode::Jp(0), 1, 0);
        lemma_emit_grows(m3, Opcode::Jp(0), 1, 0);
        lemma_grows_trans(m, m3, m4);
        let m5 = patch(m4, jif as int);
        lemma_patch_grows(m, m4, jif as int);
        let m6 = gen_opt(m5, else_expr);
        lemma_flat_opt_grows(m5, else_expr);
        lemma_grows_trans(m, m5, m6);
        lemma_patch_grows(m, m6, jp as int);
    }
}

proof fn lemma_flat_block_grows(m: GenModel, e: Expr)
    requires
        usable(m),
        m.error is None,
        flat(e),
        *e.kind is Block,
    ensures
        grows(m, gen_expr(m, e)),
        usable(gen_expr(m, e)),
    decreases e, 1nat,
{
    if let ExprKind::Block { stmts, return_expr } = *e.kind {
        let m0 = push_scope(m, false);
        lemma_same_code_grows(m, 0, false);
        let m1 = gen_stmts(m0, stmts@);
        lemma_flat_stmts_grow(m0, stmts@);
        lemma_grows_trans(m, m0, m1);
        let m2 = gen_opt(m1, return_expr);
        lemma_flat_opt_grows(m1, return_expr);
        lemma_grows_trans(m, m1, m2);
        let n = current(m2).depth - 1 - current(m).depth;
        let m3 = emit(m2, Opcode::Block(n as usize), n as nat, 0);
        lemma_emit_grows(m2, Opcode::Block(n as usize), n as nat, 0);
        lemma_grows_trans(m, m2, m3);
        lemma_same_code_grows(m3, 0, false);
        lemma_grows_trans(m, m3, pop_scope(m3));
    }
}

proof fn lemma_flat_continue_grows(m: GenModel, e: Expr)
    requires
        usable(m),
        m.error is None,
        *e.kind is Continue,
    ensures
        grows(m, gen_expr(m, e)),
        usable(gen_expr(m, e)),
{
    let f = current(m);
    match innermost_loop(f.scopes) {
        None => {},
        Some(sc) => if f.depth >= sc.depth {
            let n = (f.depth - sc.depth) as usize;
            let a = emit(m, Opcode::Null, 0, 0);
            let b = emit(a, Opcode::Block(n), 0, 0);
            let c = emit(b, Opcode::Pop, 0, 0);
            lemma_emit_grows(m, Opcode::Null, 0, 0);
            lemma_emit_grows(a, Opcode::Block(n), 0, 0);
            lemma_emit_grows(b, Opcode::Pop, 0, 0);
            lemma_grows_trans(m, a, b);
            lemma_grows_trans(m, b, c);
            lemma_jump_back_grows(c, sc.starting_index, 1);
            lemma_grows_trans(m, c, emit_jump_back(c, sc.starting_index, 1));
            lemma_jump_back_grows(m, sc.starting_index, 1);
        },
    }
}

proof fn lemma_flat_opt_grows(m: GenModel, e: Option<Expr>)
    requires
        usable(m),
        match e {
            Some(x) => flat(x),
            None => true,
        },
    ensures
        grows(m, gen_opt(m, e)),
        usable(gen_opt(m, e)),
    decreases e,
{
    match e {
        Some(x) => lemma_flat_grows(m, x),
        None => lemma_emit_grows(m, Opcode::Null, 0, 1),
    }
}

proof fn lemma_flat_exprs_grow(m: GenModel, es: Seq<Expr>)
    requires
        usable(m),
        flat_exprs(es),
    ensures
        grows(m, gen_exprs(m, es)),
        usable(gen_exprs(m, es)),
    decreases es,
{
    if es.len() > 0 {
        let pre = es.subrange(0, es.len() - 1);
        lemma_flat_exprs_grow(m, pre);
        let m1 = gen_exprs(m, pre);
        lemma_flat_grows(m1, es[es.len() - 1]);
        lemma_grows_trans(m, m1, gen_expr(m1, es[es.len() - 1]));
        assert(gen_exprs(m, es) == gen_expr(m1, es[es.len() - 1]));
    } else {
        assert(current(m).opcodes.subrange(0, current(m).opcodes.len() as int) =~= current(m).opcodes);
    }
}

proof fn lemma_flat_properties_grow(m: GenModel, ps: Seq<Property>)
    requires
        usable(m),
        flat_properties(ps),
    ensures
        grows(m, gen_properties(m, ps)),
        usable(gen_properties(m, ps)),
    decreases ps,
{
    if ps.len() > 0 {
        let pre = ps.subrange(0, ps.len() - 1);
        let p = ps[ps.len() - 1];
        lemma_flat_properties_grow(m, pre);
        let m1 = gen_properties(m, pre);
        lemma_flat_grows(m1, p.value);
        let m2 = gen_expr(m1, p.value);
        lemma_constant_grows(m2, Constant::String(p.key));
        lemma_grows_trans(m, m1, m2);
        lemma_grows_trans(m, m2, emit_constant(m2, Constant::String(p.key)));
        assert(gen_properties(m, ps) == emit_constant(m2, Constant::String(p.key)));
    } else {
        assert(current(m).opcodes.subrange(0, current(m).opcodes.len() as int) =~= current(m).opcodes);
    }
}

proof fn lemma_flat_stmts_grow(m: GenModel, ss: Seq<Stmt>)
    requires
        usable(m),
        flat_stmts(ss),
    ensures
        grows(m, gen_stmts(m, ss)),
        usable(gen_stmts(m, ss)),
    decreases ss,
{
    if ss.len() > 0 {
        let pre = ss.subrange(0, ss.len() - 1);
        lemma_flat_stmts_grow(m, pre);
        let m1 = gen_stmts(m, pre);
        let s = ss[ss.len() - 1];
        assert(gen_stmts(m, ss) == gen_stmt(m1, s, false));
        match *s.kind {
            StmtKind::Expression { expr } => {
                lemma_flat_grows(m1, expr);
                let m2 = gen_expr(m1, expr);
                lemma_grows_trans(m, m1, m2);
                lemma_emit_grows(m2, Opcode::Pop, 1, 0);
                lemma_grows_trans(m, m2, emit(m2, Opcode::Pop, 1, 0));
            },
            StmtKind::VariableDeclaration { name, expr } => {
                lemma_flat_grows(m1, expr);
                let m2 = gen_expr(m1, expr);
                lemma_same_code_grows(m2, name, false);
                lemma_grows_trans(m, m1, m2);
                lemma_grows_trans(m, m2, declare_local(m2, name));
            },
            _ => {},
        }
    } else {
        assert(current(m).opcodes.subrange(0, current(m).opcodes.len() as int) =~= current(m).opcodes);
    }
}

proof fn lemma_flat_other_grows(m: GenModel, e: Expr)
    requires
        usable(m),
        m.error is None,
        flat(e),
        !(*e.kind is If || *e.kind is Block || *e.kind is Continue),
    ensures
        grows(m, gen_expr(m, e)),
        usable(gen_expr(m, e)),
    decreases e, 1nat,
{
    match *e.kind {
        ExprKind::Atom(AtomicValue::Identifier(name)) => {
            let (m1, a) = resolve_name(m, name);
            lemma_same_code_grows(m, name, false);
            match a {
                Some(addr) => {
                    let m2 = emit_constant(m1, Constant::MemoryAddress(addr));
                    lemma_constant_grows(m1, Constant::MemoryAddress(addr));
                    lemma_emit_grows(m2, Opcode::Get, 1, 1);
                    lemma_grows_trans(m, m1, m2);
                    lemma_grows_trans(m, m2, emit(m2, Opcode::Get, 1, 1));
                },
                None => match find_global(m1.globals, name) {
                    Some(i) => {
                        lemma_constant_grows(m1, Constant::GlobalPointer(i));
                        lemma_grows_trans(m, m1, emit_constant(m1, Constant::GlobalPointer(i)));
                    },
                    None => {},
                },
            }
        },
        ExprKind::Atom(AtomicValue::Number(n)) => lemma_constant_grows(m, Constant::Number(n)),
        ExprKind::Atom(AtomicValue::Text(t)) => lemma_constant_grows(m, Constant::String(t)),
        ExprKind::Atom(AtomicValue::Boolean(b)) => {
            lemma_emit_grows(m, Opcode::True, 0, 1);
            lemma_emit_grows(m, Opcode::False, 0, 1);
        },
        ExprKind::Atom(_) => lemma_emit_grows(m, Opcode::Null, 0, 1),
        ExprKind::Binary { lhs, op, rhs } => {
            let m1 = gen_expr(m, lhs);
            lemma_flat_grows(m, lhs);
            let m2 = gen_expr(m1, rhs);
            lemma_flat_grows(m1, rhs);
            lemma_grows_trans(m, m1, m2);
            lemma_emit_grows(m2, binary_opcode(op), 2, 1);
            lemma_grows_trans(m, m2, emit(m2, binary_opcode(op), 2, 1));
        },
        ExprKind::Unary { op, rhs } => {
            let m1 = gen_expr(m, rhs);
            lemma_flat_grows(m, rhs);
            lemma_emit_grows(m1, unary_opcode(op), 1, 1);
            lemma_grows_trans(m, m1, emit(m1, unary_opcode(op), 1, 1));
        },
        ExprKind::Call { callee, args } => {
            let m1 = gen_exprs(m, args@);
            lemma_flat_exprs_grow(m, args@);
            let m2 = gen_expr(m1, callee);
            lemma_flat_grows(m1, callee);
            lemma_grows_trans(m, m1, m2);
            lemma_emit_grows(m2, Opcode::Call(args.len()), (args.len() + 1) as nat, 1);
            lemma_grows_trans(m, m2, emit(m2, Opcode::Call(args.len()), (args.len() + 1) as nat, 1));
        },
        ExprKind::Return { value } => {
            let m1 = gen_opt(m, value);
            lemma_flat_opt_grows(m, value);
            lemma_emit_grows(m1, Opcode::Return, 0, 0);
            lemma_grows_trans(m, m1, emit(m1, Opcode::Return, 0, 0));
        },
        ExprKind::GetProperty { target, identifier, is_method_call } => {
            let m1 = gen_expr(m, target);
            lemma_flat_grows(m, target);
            let m2 = emit_constant(m1, Constant::String(identifier));
            lemma_constant_grows(m1, Constant::String(identifier));
            lemma_grows_trans(m, m1, m2);
            let op = Opcode::GetProperty { bind_method: is_method_call };
            lemma_emit_grows(m2, op, 2, 1);
            lemma_grows_trans(m, m2, emit(m2, op, 2, 1));
        },
        ExprKind::SetProperty { target, identifier, value } => {
            let m1 = gen_expr(m, target);
            lemma_flat_grows(m, target);
            let m2 = emit_constant(m1, Constant::String(identifier));
            lemma_constant_grows(m1, Constant::String(identifier));
            lemma_grows_trans(m, m1, m2);
            let m3 = gen_expr(m2, value);
            lemma_flat_grows(m2, value);
            lemma_grows_trans(m, m2, m3);
            lemma_emit_grows(m3, Opcode::SetProperty(1), 3, 1);
            lemma_grows_trans(m, m3, emit(m3, Opcode::SetProperty(1), 3, 1));
        },
        ExprKind::ObjectLiteral { properties } => {
            let m1 = gen_properties(m, properties@);
            lemma_flat_properties_grow(m, properties@);
            let op = Opcode::CreateObject(properties.len());
            lemma_emit_grows(m1, op, (2 * properties.len()) as nat, 1);
            lemma_grows_trans(m, m1, emit(m1, op, (2 * properties.len()) as nat, 1));
        },
        ExprKind::Assignment { target, value } => {
            let (m1, a) = resolve_name(m, target);
            lemma_same_code_grows(m, target, false);
            match a {
                Some(addr) => {
                    let m2 = emit_constant(m1, Constant::MemoryAddress(addr));
                    lemma_constant_grows(m1, Constant::MemoryAddress(addr));
                    lemma_grows_trans(m, m1, m2);
                    let m3 = gen_expr(m2, value);
                    lemma_flat_grows(m2, value);
                    lemma_grows_trans(m, m2, m3);
                    lemma_emit_grows(m3, Opcode::Asg, 2, 1);
                    lemma_grows_trans(m, m3, emit(m3, Opcode::Asg, 2, 1));
                },
                None => {},
            }
        },
        _ => {},
    }
}

/// `if c { A } else { B }` compiles to the code of `c`, then `Jif(|A| + 1)`,
/// the code of `A`, `Jp(|B|)` and the code of `B`, where `|X|` is the number
/// of instructions of X's code: the conditional jump skips `A` and the jump
/// after it, and that jump skips `B`. Stated for a condition and branches
/// without loops, breaks or functions.
#[verifier::rlimit(100)]
pub proof fn law_if_layout(m: GenModel, e: Expr)
    requires
        m.functions.len() > 0,
        m.error is None,
        match *e.kind {
            ExprKind::If { condition, body, else_expr: Some(x) } => flat(condition) && flat(body)
                && flat(x),
            _ => false,
        },
        gen_expr(m, e).error is None,
    ensures
        match *e.kind {
            ExprKind::If { condition, body, else_expr: Some(x) } => {
                let m1 = gen_expr(m, condition);
                let jif = current(m1).opcodes.len() as int;
                let m3 = gen_expr(emit(m1, Opcode::Jif(0), 1, 0), body);
                let jp = current(m3).opcodes.len() as int;
                let ops = current(gen_expr(m, e)).opcodes;
                let c_code = current(m1).opcodes.subrange(current(m).opcodes.len() as int, jif);
                let a_code = current(m3).opcodes.subrange(jif + 1, jp);
                let b_code = ops.subrange(jp + 1, ops.len() as int);
                ops == current(m).opcodes + c_code + seq![Opcode::Jif((a_code.len() + 1) as isize)]
                    + a_code + seq![Opcode::Jp(b_code.len() as isize)] + b_code
            },
            _ => true,
        },
{
    if let ExprKind::If { condition, body, else_expr } = *e.kind {
        let m1 = gen_expr(m, condition);
        let jif = current(m1).opcodes.len() as int;
        let m2 = emit(m1, Opcode::Jif(0), 1, 0);
        let m3 = gen_expr(m2, body);
        let jp = current(m3).opcodes.len() as int;
        let m4 = emit(m3, Opcode::Jp(0), 1, 0);
        let m5 = patch(m4, jif);
        let m6 = gen_opt(m5, else_expr);
        let r = patch(m6, jp);
        lemma_if_unfold(m, e);
        lemma_flat_grows(m, condition);
        lemma_emit_grows(m1, Opcode::Jif(0), 1, 0);
        lemma_flat_grows(m2, body);
        lemma_emit_grows(m3, Opcode::Jp(0), 1, 0);
        lemma_flat_opt_grows(m5, else_expr);
        let o3 = current(m3).opcodes;
        lemma_patch_result(m6, jp);
        lemma_patch_result(m4, jif);
        assert(current(m4).opcodes == o3.push(Opcode::Jp(0)));
        assert(o3.subrange(0, jif + 1)[jif] == o3[jif]);
        assert(current(m5).opcodes == o3.push(Opcode::Jp(0)).update(jif, Opcode::Jif((jp - jif) as isize)));
        assert(current(m6).opcodes.subrange(0, jp + 1) == current(m5).opcodes);
        assert(current(m5).opcodes[jp] == Opcode::Jp(0));
        assert(current(m6).opcodes.subrange(0, jp + 1)[jp] == current(m6).opcodes[jp]);
        assert(current(m6).opcodes[jp] == Opcode::Jp(0));
        assert(o3.subrange(0, jif + 1) == current(m2).opcodes);
        lemma_layout(current(m).opcodes, current(m1).opcodes, o3, current(m6).opcodes, current(r).opcodes, jif, jp);
    }
}

proof fn lemma_patch_result(m: GenModel, k: int)
    requires
        m.functions.len() > 0,
        patch(m, k).error is None,
    ensures
        m.error is None,
        patch(m, k).functions.len() == m.functions.len(),
        current(patch(m, k)).opcodes == current(m).opcodes.update(
            k,
            current(m).opcodes[k].patch_spec((current(m).opcodes.len() - k - 1) as isize),
        ),
{
}

proof fn lemma_if_unfold(m: GenModel, e: Expr)
    requires
        m.error is None,
        *e.kind is If,
    ensures
        match *e.kind {
            ExprKind::If { condition, body, else_expr } => {
                let m1 = gen_expr(m, condition);
                let jif = current(m1).opcodes.len();
                let m3 = gen_expr(emit(m1, Opcode::Jif(0), 1, 0), body);
                let jp = current(m3).opcodes.len();
                gen_expr(m, e) == patch(gen_opt(patch(emit(m3, Opcode::Jp(0), 1, 0), jif as int), else_expr), jp as int)
            },
            _ => true,
        },
{
}

proof fn lemma_layout(o0: Seq<Opcode>, o1: Seq<Opcode>, o3: Seq<Opcode>, o6: Seq<Opcode>, ops: Seq<Opcode>, jif: int, jp: int)
    requires
        o1.len() == jif,
        o0.len() <= jif,
        o1.subrange(0, o0.len() as int) == o0,
        o3.len() == jp,
        jif + 1 <= jp,
        o3.subrange(0, jif + 1) == o1.push(Opcode::Jif(0)),
        jp + 1 <= o6.len(),
        o6.subrange(0, jp + 1) == o3.push(Opcode::Jp(0)).update(jif, Opcode::Jif((jp - jif) as isize)),
        ops == o6.update(jp, Opcode::Jp((o6.len() - jp - 1) as isize)),
    ensures
        ({
            let c_code = o1.subrange(o0.len() as int, jif);
            let a_code = o3.subrange(jif + 1, jp);
            let b_code = ops.subrange(jp + 1, ops.len() as int);
            ops == o0 + c_code + seq![Opcode::Jif((a_code.len() + 1) as isize)] + a_code + seq![
                Opcode::Jp(b_code.len() as isize),
            ] + b_code
        }),
{
    let c_code = o1.subrange(o0.len() as int, jif);
    let a_code = o3.subrange(jif + 1, jp);
    let b_code = ops.subrange(jp + 1, ops.len() as int);
    let rhs = o0 + c_code + seq![Opcode::Jif((a_code.len() + 1) as isize)] + a_code + seq![
        Opcode::Jp(b_code.len() as isize),
    ] + b_code;
    assert forall|i: int| 0 <= i < ops.len() implies ops[i] == rhs[i] by {
        if i < o0.len() {
            assert(o1.subrange(0, o0.len() as int)[i] == o1[i]);
            assert(o3.subrange(0, jif + 1)[i] == o3[i]);
            assert(o6.subrange(0, jp + 1)[i] == o6[i]);
        } else if i < jif {
            assert(o3.subrange(0, jif + 1)[i] == o3[i]);
            assert(o6.subrange(0, jp + 1)[i] == o6[i]);
        } else if i == jif {
            assert(o6.subrange(0, jp + 1)[i] == o6[i]);
        } else if i < jp {
            assert(o6.subrange(0, jp + 1)[i] == o6[i]);
        } else if i == jp {
        } else {
        }
    }
    assert(ops =~= rhs);
}

/// The number of variables a sequence of statements declares.
pub open spec fn declarations(ss: Seq<Stmt>) -> nat
    decreases ss.len(),
{
    if ss.len() == 0 {
        0
    } else {
        declarations(ss.drop_last()) + if *ss.last().kind is Expression {
            0nat
        } else {
            1nat
        }
    }
}

/// When `r` has no error, its current frame holds `k` more values than `m`'s.
pub open spec fn deepens(m: GenModel, r: GenModel, k: int) -> bool {
    r.error is None ==> current(r).depth == current(m).depth + k
}

proof fn lemma_deepens_trans(a: GenModel, b: GenModel, c: GenModel, j: int, k: int)
    requires
        deepens(a, b, j),
        deepens(b, c, k),
        c.error is None ==> b.error is None,
    ensures
        deepens(a, c, j + k),
{
}

proof fn lemma_emit_depth(m: GenModel, op: Opcode, pops: nat, pushes: nat)
    requires
        usable(m),
    ensures
        deepens(m, emit(m, op, pops, pushes), pushes - pops),
{
}

proof fn lemma_constant_depth(m: GenModel, c: Constant)
    requires
        usable(m),
    ensures
        deepens(m, emit_constant(m, c), 1),
{
}

proof fn lemma_quiet_depth(m: GenModel, x: Symbol, k: int)
    requires
        usable(m),
    ensures
        deepens(m, declare_local(m, x), 0),
        deepens(m, push_scope(m, false), 0),
        deepens(m, pop_scope(m), 0),
        deepens(m, resolve_name(m, x).0, 0),
        deepens(m, patch(m, k), 0),
{
    lemma_resolve_keeps_code(m.functions, x);
}

proof fn lemma_jump_back_depth(m: GenModel, start: usize, pushes: nat)
    requires
        usable(m),
    ensures
        deepens(m, emit_jump_back(m, start, pushes), pushes as int),
{
}

proof fn lemma_flat_depth(m: GenModel, e: Expr)
    requires
        usable(m),
        flat(e),
    ensures
        deepens(m, gen_expr(m, e), 1),
    decreases e, 2nat,
{
    if m.error is None {
        match *e.kind {
            ExprKind::If { .. } => lemma_flat_if_depth(m, e),
            ExprKind::Block { .. } => lemma_flat_block_depth(m, e),
            ExprKind::Continue => lemma_flat_continue_depth(m, e),
            _ => lemma_flat_other_depth(m, e),
        }
    }
}

proof fn lemma_flat_opt_depth(m: GenModel, e: Option<Expr>)
    requires
        usable(m),
        match e {
            Some(x) => flat(x),
            None => true,
        },
    ensures
        deepens(m, gen_opt(m, e), 1),
    decreases e,
{
    match e {
        Some(x) => lemma_flat_depth(m, x),
        None => { lemma_emit_depth(m, Opcode::Null, 0, 1); },
    }
}

proof fn lemma_flat_if_depth(m: GenModel, e: Expr)
    requires
        usable(m),
        m.error is None,
        flat(e),
        *e.kind is If,
    ensures
        deepens(m, gen_expr(m, e), 1),
    decreases e, 1nat,
{
    if let ExprKind::If { condition, body, else_expr } = *e.kind {
        let m1 = gen_expr(m, condition);
        lemma_flat_grows(m, condition);
        lemma_flat_depth(m, condition);
        let jif = current(m1).opcodes.len();
        let m2 = emit(m1, Opcode::Jif(0), 1, 0);
        lemma_emit_grows(m1, Opcode::Jif(0), 1, 0);
        lemma_emit_depth(m1, Opcode::Jif(0), 1, 0);
        lemma_deepens_trans(m, m1, m2, 1, -1);
        let m3 = gen_expr(m2, body);
        lemma_flat_grows(m2, body);
        lemma_flat_depth(m2, body);
        lemma_deepens_trans(m, m2, m3, 0, 1);
        let jp = current(m3).opcodes.len();
        let m4 = emit(m3, Opcode::Jp(0), 1, 0);
        lemma_emit_grows(m3, Opcode::Jp(0), 1, 0);
        lemma_emit_depth(m3, Opcode::Jp(0), 1, 0);
        lemma_deepens_trans(m, m3, m4, 1, -1);
        let m5 = patch(m4, jif as int);
        lemma_grows_trans(m, m1, m2);
        lemma_grows_trans(m, m2, m3);
        lemma_grows_trans(m, m3, m4);
        lemma_quiet_depth(m4, 0, jif as int);
        lemma_deepens_trans(m, m4, m5, 0, 0);
        let m6 = gen_opt(m5, else_expr);
        lemma_patch_grows(m, m4, jif as int);
        lemma_flat_opt_grows(m5, else_expr);
        lemma_flat_opt_depth(m5, else_expr);
        lemma_deepens_trans(m, m5, m6, 0, 1);
        lemma_quiet_depth(m6, 0, jp as int);
        lemma_deepens_trans(m, m6, patch(m6, jp as int), 1, 0);
    }
}

proof fn lemma_flat_block_depth(m: GenModel, e: Expr)
    requires
        usable(m),
        m.error is None,
        flat(e),
        *e.kind is Block,
    ensures
        deepens(m, gen_expr(m, e), 1),
    decreases e, 1nat,
{
    if let ExprKind::Block { stmts, return_expr } = *e.kind {
        lemma_flat_block_grows(m, e);
        let m0 = push_scope(m, false);
        lemma_same_code_grows(m, 0, false);
        let m1 = gen_stmts(m0, stmts@);
        lemma_flat_stmts_grow(m0, stmts@);
        let m2 = gen_opt(m1, return_expr);
        lemma_flat_opt_grows(m1, return_expr);
        let n = current(m2).depth - 1 - current(m).depth;
        let m3 = emit(m2, Opcode::Block(n as usize), n as nat, 0);
        lemma_emit_grows(m2, Opcode::Block(n as usize), n as nat, 0);
        lemma_quiet_depth(m3, 0, 0);
    }
}

proof fn lemma_flat_continue_depth(m: GenModel, e: Expr)
    requires
        usable(m),
        m.error is None,
        *e.kind is Continue,
    ensures
        deepens(m, gen_expr(m, e), 1),
{
    let f = current(m);
    match innermost_loop(f.scopes) {
        None => {},
        Some(sc) => if f.depth >= sc.depth {
            let n = (f.depth - sc.depth) as usize;
            if n > 0 {
                let a = emit(m, Opcode::Null, 0, 0);
                let b = emit(a, Opcode::Block(n), 0, 0);
                let c = emit(b, Opcode::Pop, 0, 0);
                lemma_emit_grows(m, Opcode::Null, 0, 0);
                lemma_emit_grows(a, Opcode::Block(n), 0, 0);
                lemma_emit_grows(b, Opcode::Pop, 0, 0);
                lemma_quiet_depth(m, 0, 0);
                lemma_emit_depth(a, Opcode::Block(n), 0, 0);
                lemma_emit_depth(b, Opcode::Pop, 0, 0);
                lemma_jump_back_depth(c, sc.starting_index, 1);
                lemma_jump_back_grows(c, sc.starting_index, 1);
            } else {
                lemma_emit_depth(m, Opcode::Null, 0, 1);
                lemma_jump_back_depth(m, sc.starting_index, 1);
            }
        },
    }
}

proof fn lemma_flat_exprs_depth(m: GenModel, es: Seq<Expr>)
    requires
        usable(m),
        flat_exprs(es),
    ensures
        deepens(m, gen_exprs(m, es), es.len() as int),
    decreases es,
{
    if es.len() > 0 {
        let pre = es.subrange(0, es.len() - 1);
        lemma_flat_exprs_depth(m, pre);
        lemma_flat_exprs_grow(m, pre);
        let m1 = gen_exprs(m, pre);
        lemma_flat_grows(m1, es[es.len() - 1]);
        lemma_flat_depth(m1, es[es.len() - 1]);
        lemma_deepens_trans(m, m1, gen_expr(m1, es[es.len() - 1]), pre.len() as int, 1);
        assert(gen_exprs(m, es) == gen_expr(m1, es[es.len() - 1]));
    }
}

proof fn lemma_flat_properties_depth(m: GenModel, ps: Seq<Property>)
    requires
        usable(m),
        flat_properties(ps),
    ensures
        deepens(m, gen_properties(m, ps), (2 * ps.len()) as int),
    decreases ps,
{
    if ps.len() > 0 {
        let pre = ps.subrange(0, ps.len() - 1);
        let p = ps[ps.len() - 1];
        lemma_flat_properties_depth(m, pre);
        lemma_flat_properties_grow(m, pre);
        let m1 = gen_properties(m, pre);
        lemma_flat_grows(m1, p.value);
        lemma_flat_depth(m1, p.value);
        let m2 = gen_expr(m1, p.value);
        lemma_constant_grows(m2, Constant::String(p.key));
        lemma_constant_depth(m2, Constant::String(p.key));
        lemma_deepens_trans(m, m1, m2, (2 * pre.len()) as int, 1);
        lemma_deepens_trans(m, m2, emit_constant(m2, Constant::String(p.key)), (2 * pre.len() + 1) as int, 1);
        assert(gen_properties(m, ps) == emit_constant(m2, Constant::String(p.key)));
    }
}

/// Inside a block, flat statements leave exactly their declared variables on
/// the frame.
proof fn lemma_flat_stmts_depth(m: GenModel, ss: Seq<Stmt>)
    requires
        usable(m),
        flat_stmts(ss),
    ensures
        deepens(m, gen_stmts(m, ss), declarations(ss) as int),
    decreases ss,
{
    if ss.len() > 0 {
        let pre = ss.subrange(0, ss.len() - 1);
        assert(pre =~= ss.drop_last());
        lemma_flat_stmts_depth(m, pre);
        lemma_flat_stmts_grow(m, pre);
        let m1 = gen_stmts(m, pre);
        let s = ss[ss.len() - 1];
        assert(gen_stmts(m, ss) == gen_stmt(m1, s, false));
        match *s.kind {
            StmtKind::Expression { expr } => {
                lemma_flat_grows(m1, expr);
                lemma_flat_depth(m1, expr);
                let m2 = gen_expr(m1, expr);
                lemma_emit_grows(m2, Opcode::Pop, 1, 0);
                lemma_emit_depth(m2, Opcode::Pop, 1, 0);
                lemma_deepens_trans(m, m1, m2, declarations(pre) as int, 1);
                lemma_deepens_trans(m, m2, emit(m2, Opcode::Pop, 1, 0), (declarations(pre) + 1) as int, -1);
            },
            StmtKind::VariableDeclaration { name, expr } => {
                lemma_flat_grows(m1, expr);
                lemma_flat_depth(m1, expr);
                let m2 = gen_expr(m1, expr);
                lemma_same_code_grows(m2, name, false);
                lemma_quiet_depth(m2, name, 0);
                lemma_deepens_trans(m, m1, m2, declarations(pre) as int, 1);
                lemma_deepens_trans(m, m2, declare_local(m2, name), (declarations(pre) + 1) as int, 0);
            },
            _ => {},
        }
    }
}

proof fn lemma_flat_other_depth(m: GenModel, e: Expr)
    requires
        usable(m),
        m.error is None,
        flat(e),
        !(*e.kind is If || *e.kind is Block || *e.kind is Continue),
    ensures
        deepens(m, gen_expr(m, e), 1),
    decreases e, 1nat,
{
    match *e.kind {
        ExprKind::Atom(_) => lemma_flat_leaf_depth(m, e),
        ExprKind::Binary { .. } | ExprKind::Unary { .. } => lemma_flat_operator_depth(m, e),
        ExprKind::Call { .. } | ExprKind::Return { .. } => lemma_flat_call_depth(m, e),
        _ => lemma_flat_access_depth(m, e),
    }
}

proof fn lemma_flat_leaf_depth(m: GenModel, e: Expr)
    requires
        usable(m),
        m.error is None,
        flat(e),
        *e.kind is Atom,
    ensures
        deepens(m, gen_expr(m, e), 1),
    decreases e, 0nat,
{
    match *e.kind {
        ExprKind::Atom(AtomicValue::Identifier(name)) => {
            let (m1, a) = resolve_name(m, name);
            lemma_same_code_grows(m, name, false);
            lemma_quiet_depth(m, name, 0);
            match a {
                Some(addr) => {
                    let c = Constant::MemoryAddress(addr);
                    let m2 = emit_constant(m1, c);
                    lemma_constant_grows(m1, c);
                    lemma_emit_grows(m2, Opcode::Get, 1, 1);
                    lemma_constant_depth(m1, c);
                    lemma_emit_depth(m2, Opcode::Get, 1, 1);
                    lemma_deepens_trans(m, m1, m2, 0, 1);
                    lemma_deepens_trans(m, m2, emit(m2, Opcode::Get, 1, 1), 1, 0);
                },
                None => match find_global(m1.globals, name) {
                    Some(i) => {
                        let c = Constant::GlobalPointer(i);
                        lemma_constant_grows(m1, c);
                        lemma_constant_depth(m1, c);
                        lemma_deepens_trans(m, m1, emit_constant(m1, c), 0, 1);
                    },
                    None => {},
                },
            }
        },
        ExprKind::Atom(AtomicValue::Number(n)) => { lemma_constant_depth(m, Constant::Number(n)); },
        ExprKind::Atom(AtomicValue::Text(t)) => { lemma_constant_depth(m, Constant::String(t)); },
        ExprKind::Atom(AtomicValue::Boolean(b)) => {
            lemma_emit_depth(m, Opcode::True, 0, 1);
            lemma_emit_depth(m, Opcode::False, 0, 1);
        },
        ExprKind::Atom(_) => { lemma_emit_depth(m, Opcode::Null, 0, 1); },
        _ => {},
    }
}

proof fn lemma_flat_operator_depth(m: GenModel, e: Expr)
    requires
        usable(m),
        m.error is None,
        flat(e),
        *e.kind is Binary || *e.kind is Unary,
    ensures
        deepens(m, gen_expr(m, e), 1),
    decreases e, 0nat,
{
    match *e.kind {
        ExprKind::Binary { lhs, op, rhs } => {
            let m1 = gen_expr(m, lhs);
            lemma_flat_grows(m, lhs);
            lemma_flat_depth(m, lhs);
            let m2 = gen_expr(m1, rhs);
            lemma_flat_grows(m1, rhs);
            lemma_flat_depth(m1, rhs);
            lemma_deepens_trans(m, m1, m2, 1, 1);
            let o = binary_opcode(op);
            lemma_emit_grows(m2, o, 2, 1);
            lemma_emit_depth(m2, o, 2, 1);
            lemma_deepens_trans(m, m2, emit(m2, o, 2, 1), 2, -1);
            assert(gen_expr(m, e) == emit(m2, o, 2, 1));
        },
        ExprKind::Unary { op, rhs } => {
            let m1 = gen_expr(m, rhs);
            lemma_flat_grows(m, rhs);
            lemma_flat_depth(m, rhs);
            let o = unary_opcode(op);
            lemma_emit_grows(m1, o, 1, 1);
            lemma_emit_depth(m1, o, 1, 1);
            lemma_deepens_trans(m, m1, emit(m1, o, 1, 1), 1, 0);
        },
        _ => {},
    }
}

proof fn lemma_flat_call_depth(m: GenModel, e: Expr)
    requires
        usable(m),
        m.error is None,
        flat(e),
        *e.kind is Call || *e.kind is Return,
    ensures
        deepens(m, gen_expr(m, e), 1),
    decreases e, 0nat,
{
    match *e.kind {
        ExprKind::Call { callee, args } => {
            let m1 = gen_exprs(m, args@);
            lemma_flat_exprs_grow(m, args@);
            lemma_flat_exprs_depth(m, args@);
            let m2 = gen_expr(m1, callee);
            lemma_flat_grows(m1, callee);
            lemma_flat_depth(m1, callee);
            lemma_deepens_trans(m, m1, m2, args.len() as int, 1);
            let o = Opcode::Call(args.len());
            lemma_emit_grows(m2, o, (args.len() + 1) as nat, 1);
            lemma_emit_depth(m2, o, (args.len() + 1) as nat, 1);
            lemma_deepens_trans(m, m2, emit(m2, o, (args.len() + 1) as nat, 1), args.len() + 1, -(args.len() as int));
        },
        ExprKind::Return { value } => {
            let m1 = gen_opt(m, value);
            lemma_flat_opt_grows(m, value);
            lemma_flat_opt_depth(m, value);
            lemma_emit_depth(m1, Opcode::Return, 0, 0);
            lemma_deepens_trans(m, m1, emit(m1, Opcode::Return, 0, 0), 1, 0);
        },
        _ => {},
    }
}

proof fn lemma_flat_access_depth(m: GenModel, e: Expr)
    requires
        usable(m),
        m.error is None,
        flat(e),
        !(*e.kind is If || *e.kind is Block || *e.kind is Continue || *e.kind is Atom || *e.kind is Binary || *e.kind is Unary || *e.kind is Call || *e.kind is Return),
    ensures
        deepens(m, gen_expr(m, e), 1),
    decreases e, 0nat,
{
    match *e.kind {
        ExprKind::GetProperty { target, identifier, is_method_call } => {
            let m1 = gen_expr(m, target);
            lemma_flat_grows(m, target);
            lemma_flat_depth(m, target);
            let c = Constant::String(identifier);
            let m2 = emit_constant(m1, c);
            lemma_constant_grows(m1, c);
            lemma_constant_depth(m1, c);
            lemma_deepens_trans(m, m1, m2, 1, 1);
            let o = Opcode::GetProperty { bind_method: is_method_call };
            lemma_emit_grows(m2, o, 2, 1);
            lemma_emit_depth(m2, o, 2, 1);
            lemma_deepens_trans(m, m2, emit(m2, o, 2, 1), 2, -1);
            assert(gen_expr(m, e) == emit(m2, o, 2, 1));
        },
        ExprKind::SetProperty { target, identifier, value } => {
            let m1 = gen_expr(m, target);
            lemma_flat_grows(m, target);
            lemma_flat_depth(m, target);
            let c = Constant::String(identifier);
            let m2 = emit_constant(m1, c);
            lemma_constant_grows(m1, c);
            lemma_constant_depth(m1, c);
            lemma_deepens_trans(m, m1, m2, 1, 1);
            let m3 = gen_expr(m2, value);
            lemma_flat_grows(m2, value);
            lemma_flat_depth(m2, value);
            lemma_deepens_trans(m, m2, m3, 2, 1);
            let o = Opcode::SetProperty(1);
            lemma_emit_grows(m3, o, 3, 1);
            lemma_emit_depth(m3, o, 3, 1);
            lemma_deepens_trans(m, m3, emit(m3, o, 3, 1), 3, -2);
        },
        ExprKind::ObjectLiteral { properties } => {
            let m1 = gen_properties(m, properties@);
            lemma_flat_properties_grow(m, properties@);
            lemma_flat_properties_depth(m, properties@);
            let o = Opcode::CreateObject(properties.len());
            let k = (2 * properties.len()) as nat;
            lemma_emit_grows(m1, o, k, 1);
            lemma_emit_depth(m1, o, k, 1);
            lemma_deepens_trans(m, m1, emit(m1, o, k, 1), k as int, 1 - k);
        },
        ExprKind::Assignment { target, value } => {
            let (m1, a) = resolve_name(m, target);
            lemma_same_code_grows(m, target, false);
            lemma_quiet_depth(m, target, 0);
            match a {
                Some(addr) => {
                    let c = Constant::MemoryAddress(addr);
                    let m2 = emit_constant(m1, c);
                    lemma_constant_grows(m1, c);
                    lemma_constant_depth(m1, c);
                    lemma_deepens_trans(m, m1, m2, 0, 1);
                    let m3 = gen_expr(m2, value);
                    lemma_flat_grows(m2, value);
                    lemma_flat_depth(m2, value);
                    lemma_deepens_trans(m, m2, m3, 1, 1);
                    lemma_emit_grows(m3, Opcode::Asg, 2, 1);
                    lemma_emit_depth(m3, Opcode::Asg, 2, 1);
                    lemma_deepens_trans(m, m3, emit(m3, Opcode::Asg, 2, 1), 2, -1);
                },
                None => {},
            }
        },
        _ => {},
    }
}

/// A block ends with `Block(n)`, `n` being the number of variables its own
/// statements declare, and leaves the frame exactly one value deeper than
/// before it: its value stays, none of its slots do. Stated for statements
/// and a value without loops, breaks or functions.
pub proof fn law_block_discards_its_locals(m: GenModel, e: Expr)
    requires
        m.functions.len() > 0,
        m.error is None,
        match *e.kind {
            ExprKind::Block { stmts, return_expr } => flat_stmts(stmts@) && match return_expr {
                Some(r) => flat(r),
                None => true,
            },
            _ => false,
        },
        gen_expr(m, e).error is None,
    ensures
        match *e.kind {
            ExprKind::Block { stmts, .. } => {
                &&& current(gen_expr(m, e)).opcodes.last() == Opcode::Block(declarations(stmts@) as usize)
                &&& current(gen_expr(m, e)).depth == current(m).depth + 1
            },
            _ => true,
        },
{
    if let ExprKind::Block { stmts, return_expr } = *e.kind {
        let d = current(m).depth;
        let m0 = push_scope(m, false);
        lemma_same_code_grows(m, 0, false);
        lemma_quiet_depth(m, 0, 0);
        let m1 = gen_stmts(m0, stmts@);
        lemma_flat_stmts_grow(m0, stmts@);
        lemma_flat_stmts_depth(m0, stmts@);
        let m2 = gen_opt(m1, return_expr);
        lemma_flat_opt_grows(m1, return_expr);
        lemma_flat_opt_depth(m1, return_expr);
        let n = current(m2).depth - 1 - d;
        let m3 = emit(m2, Opcode::Block(n as usize), n as nat, 0);
        lemma_emit_grows(m2, Opcode::Block(n as usize), n as nat, 0);
        lemma_same_code_grows(m3, 0, false);
        lemma_quiet_depth(m3, 0, 0);
        assert(gen_expr(m, e) == pop_scope(m3));
        assert(n == declarations(stmts@));
    }
}

} // verus!
