use vstd::prelude::*;

use std::collections::HashMap;

use crate::ast::{AtomicValue, Expr, ExprKind, Method, Property, Span, Stmt, StmtKind, Symbol};

verus! {

broadcast use vstd::std_specs::hash::group_hash_axioms;

/// What introduced a scope.
#[derive(Debug, Clone, Copy, PartialEq, Eq, Structural)]
pub enum ScopeType {
    Global,
    Function,
    Loop,
    Block,
    Class,
}

/// Why a program was rejected before code generation.
#[derive(Debug, Clone, Copy, PartialEq, Eq, Structural)]
pub enum ErrorCause {
    NotDefined,
    UsedBeforeInitialization,
    UsedOutsideLoop,
    ReturnUsedOutsideFunction,
    UsedOutsideClass,
    CantInheritFromItself,
    SuperclassDoesntExist,
}

/// A static error with the source range of the offending node.
#[derive(Debug, Clone, Copy, PartialEq, Eq, Structural)]
pub struct AnalyzerError {
    pub span_start: usize,
    pub span_end: usize,
    pub cause: ErrorCause,
}

/// A scope as the analysis sees it: its kind and, for each name declared in
/// it, whether the name is initialized.
pub type ScopeModel = (ScopeType, Map<Symbol, bool>);

pub open spec fn error_at(span: Span, cause: ErrorCause) -> AnalyzerError {
    AnalyzerError { span_start: span.start, span_end: span.end, cause }
}

/// The error for reading or assigning `name` at `span`, if it is not an
/// initialized variable in scope.
pub open spec fn name_errors(sc: Seq<ScopeModel>, name: Symbol, span: Span) -> Seq<AnalyzerError> {
    match lookup(sc, name) {
        Some(true) => seq![],
        Some(false) => seq![error_at(span, ErrorCause::UsedBeforeInitialization)],
        None => seq![error_at(span, ErrorCause::NotDefined)],
    }
}

/// The error for `break` or `continue` at `span`, if no loop is in reach.
pub open spec fn loop_errors(sc: Seq<ScopeModel>, span: Span) -> Seq<AnalyzerError> {
    if loop_visible(sc) {
        seq![]
    } else {
        seq![error_at(span, ErrorCause::UsedOutsideLoop)]
    }
}

/// The initialization state of `name` in the innermost scope declaring it.
pub open spec fn lookup(sc: Seq<ScopeModel>, name: Symbol) -> Option<bool>
    decreases sc.len(),
{
    if sc.len() == 0 {
        None
    } else if sc.last().1.contains_key(name) {
        Some(sc.last().1[name])
    } else {
        lookup(sc.drop_last(), name)
    }
}

/// A loop is reached walking outward through block scopes only.
pub open spec fn loop_visible(sc: Seq<ScopeModel>) -> bool
    decreases sc.len(),
{
    if sc.len() == 0 {
        false
    } else {
        match sc.last().0 {
            ScopeType::Loop => true,
            ScopeType::Block => loop_visible(sc.drop_last()),
            _ => false,
        }
    }
}

/// Some scope of the stack has the given kind.
pub open spec fn has_scope(sc: Seq<ScopeModel>, kind: ScopeType) -> bool {
    exists|i: int| 0 <= i < sc.len() && (#[trigger] sc[i]).0 == kind
}

/// `name` is declared and initialized in the innermost scope: declaring it
/// again there shadows it, and the new value may still read the old one.
pub open spec fn initialized_here(sc: Seq<ScopeModel>, name: Symbol) -> bool {
    sc.len() > 0 && sc.last().1.contains_key(name) && sc.last().1[name]
}

/// Records `name` in the innermost scope.
pub open spec fn declare(sc: Seq<ScopeModel>, name: Symbol, initialized: bool) -> Seq<ScopeModel> {
    if sc.len() == 0 {
        sc
    } else {
        sc.update(sc.len() - 1, (sc.last().0, sc.last().1.insert(name, initialized)))
    }
}

/// Records each of `names`, initialized, in the innermost scope.
pub open spec fn declare_all(sc: Seq<ScopeModel>, names: Seq<Symbol>) -> Seq<ScopeModel>
    decreases names.len(),
{
    if names.len() == 0 {
        sc
    } else {
        declare(declare_all(sc, names.drop_last()), names.last(), true)
    }
}

pub open spec fn enter(sc: Seq<ScopeModel>, kind: ScopeType) -> Seq<ScopeModel> {
    sc.push((kind, Map::empty()))
}

/// The scope in which a function body with parameters `params` is checked.
pub open spec fn function_scope(sc: Seq<ScopeModel>, params: Seq<Symbol>) -> Seq<ScopeModel> {
    declare_all(enter(sc, ScopeType::Function), params)
}

/// Every static error of `e`, in the order a left-to-right walk meets them.
pub open spec fn check_expr(sc: Seq<ScopeModel>, e: Expr) -> Seq<AnalyzerError>
    decreases e,
{
    match *e.kind {
        ExprKind::Atom(AtomicValue::Identifier(name)) => name_errors(sc, name, e.span),
        ExprKind::Atom(_) => seq![],
        ExprKind::Binary { lhs, rhs, .. } => check_expr(sc, lhs) + check_expr(sc, rhs),
        ExprKind::Unary { rhs, .. } => check_expr(sc, rhs),
        ExprKind::Block { stmts, return_expr } => {
            let (inner, errs) = check_stmts(enter(sc, ScopeType::Block), stmts@);
            errs + match return_expr {
                Some(r) => check_expr(inner, r),
                None => seq![],
            }
        },
        ExprKind::If { condition, body, else_expr } => check_expr(sc, condition) + check_expr(sc, body)
            + match else_expr {
            Some(x) => check_expr(sc, x),
            None => seq![],
        },
        ExprKind::While { condition, body } => check_expr(sc, condition) + check_expr(
            enter(sc, ScopeType::Loop),
            body,
        ),
        ExprKind::Break { return_expr } => loop_errors(sc, e.span) + match return_expr {
            Some(r) => check_expr(sc, r),
            None => seq![],
        },
        ExprKind::Continue => loop_errors(sc, e.span),
        ExprKind::Call { callee, args } => check_expr(sc, callee) + check_exprs(sc, args@),
        ExprKind::Return { value } => (if has_scope(sc, ScopeType::Function) {
            seq![]
        } else {
            seq![error_at(e.span, ErrorCause::ReturnUsedOutsideFunction)]
        }) + match value {
            Some(v) => check_expr(sc, v),
            None => seq![],
        },
        ExprKind::GetProperty { target, .. } => check_expr(sc, target),
        ExprKind::SetProperty { target, value, .. } => check_expr(sc, target) + check_expr(sc, value),
        ExprKind::ObjectLiteral { properties } => check_properties(sc, properties@),
        ExprKind::Assignment { target, value } => name_errors(sc, target, e.span) + check_expr(
            sc,
            value,
        ),
        ExprKind::Closure { params, body } => check_expr(function_scope(sc, params@), body),
        ExprKind::This | ExprKind::Super => if has_scope(sc, ScopeType::Class) {
            seq![]
        } else {
            seq![error_at(e.span, ErrorCause::UsedOutsideClass)]
        },
    }
}

/// The errors of each of `es`, in order.
pub open spec fn check_exprs(sc: Seq<ScopeModel>, es: Seq<Expr>) -> Seq<AnalyzerError>
    decreases es,
{
    if es.len() == 0 {
        seq![]
    } else {
        check_exprs(sc, es.subrange(0, es.len() - 1)) + check_expr(sc, es[es.len() - 1])
    }
}

/// The errors of the values of `ps`, in order.
pub open spec fn check_properties(sc: Seq<ScopeModel>, ps: Seq<Property>) -> Seq<AnalyzerError>
    decreases ps,
{
    if ps.len() == 0 {
        seq![]
    } else {
        check_properties(sc, ps.subrange(0, ps.len() - 1)) + check_expr(sc, ps[ps.len() - 1].value)
    }
}

/// The errors of the bodies of `ms`, each checked in a function scope holding
/// its parameters.
pub open spec fn check_methods(sc: Seq<ScopeModel>, ms: Seq<Method>) -> Seq<AnalyzerError>
    decreases ms,
{
    if ms.len() == 0 {
        seq![]
    } else {
        let m = ms[ms.len() - 1];
        check_methods(sc, ms.subrange(0, ms.len() - 1)) + check_expr(function_scope(sc, m.params@), m.body)
    }
}

/// The errors of a class's superclass clause.
pub open spec fn superclass_errors(sc: Seq<ScopeModel>, name: Symbol, superclass: Option<Symbol>, span: Span) -> Seq<AnalyzerError> {
    match superclass {
        Some(sup) => if sup == name {
            seq![error_at(span, ErrorCause::CantInheritFromItself)]
        } else if lookup(sc, sup) is None {
            seq![error_at(span, ErrorCause::SuperclassDoesntExist)]
        } else {
            seq![]
        },
        None => seq![],
    }
}

/// The scopes after statement `s` and all its errors. A variable is
/// uninitialized while its initializer is checked and initialized after.
pub open spec fn check_stmt(sc: Seq<ScopeModel>, s: Stmt) -> (Seq<ScopeModel>, Seq<AnalyzerError>)
    decreases s,
{
    match *s.kind {
        StmtKind::Expression { expr } => (sc, check_expr(sc, expr)),
        StmtKind::VariableDeclaration { name, expr } => {
            let declared = if initialized_here(sc, name) {
                sc
            } else {
                declare(sc, name, false)
            };
            (declare(declared, name, true), check_expr(declared, expr))
        },
        StmtKind::FunctionDeclaration { name, params, body } => {
            let declared = declare(sc, name, true);
            (declared, check_expr(function_scope(declared, params@), body))
        },
        StmtKind::ClassDeclaration { name, superclass, methods } => {
            let declared = declare(sc, name, true);
            (
                declared,
                superclass_errors(sc, name, superclass, s.span) + check_methods(
                    enter(declared, ScopeType::Class),
                    methods@,
                ),
            )
        },
    }
}

/// Statements in order: the scopes after them and all their errors.
pub open spec fn check_stmts(sc: Seq<ScopeModel>, ss: Seq<Stmt>) -> (Seq<ScopeModel>, Seq<AnalyzerError>)
    decreases ss,
{
    if ss.len() == 0 {
        (sc, seq![])
    } else {
        let (before, errs) = check_stmts(sc, ss.subrange(0, ss.len() - 1));
        let (after, more) = check_stmt(before, ss[ss.len() - 1]);
        (after, errs + more)
    }
}

/// The scopes after a program's top-level statements and every static error
/// of the program, in source order.
pub open spec fn program_errors(sc: Seq<ScopeModel>, ss: Seq<Stmt>) -> (Seq<ScopeModel>, Seq<AnalyzerError>) {
    check_stmts(sc, ss)
}

/// Statements never change the scopes below the innermost one.
proof fn lemma_declare_all_frame(sc: Seq<ScopeModel>, names: Seq<Symbol>)
    requires
        sc.len() > 0,
    ensures
        declare_all(sc, names).len() == sc.len(),
        declare_all(sc, names).drop_last() == sc.drop_last(),
        declare_all(sc, names).last().0 == sc.last().0,
    decreases names.len(),
{
    if names.len() > 0 {
        lemma_declare_all_frame(sc, names.drop_last());
        let d = declare_all(sc, names.drop_last());
        assert(declare(d, names.last(), true).drop_last() =~= d.drop_last());
    }
}

proof fn lemma_stmt_frame(sc: Seq<ScopeModel>, s: Stmt)
    requires
        sc.len() > 0,
    ensures
        check_stmt(sc, s).0.len() == sc.len(),
        check_stmt(sc, s).0.drop_last() == sc.drop_last(),
        check_stmt(sc, s).0.last().0 == sc.last().0,
{
    lemma_declare_all_frame(sc, seq![]);
    let n = match *s.kind {
        StmtKind::Expression { .. } => 0,
        StmtKind::VariableDeclaration { name, .. } => name,
        StmtKind::FunctionDeclaration { name, .. } => name,
        StmtKind::ClassDeclaration { name, .. } => name,
    };
    let d = declare(sc, n, false);
    assert(d.drop_last() =~= sc.drop_last());
    assert(declare(d, n, true).drop_last() =~= sc.drop_last());
    assert(declare(sc, n, true).drop_last() =~= sc.drop_last());
    assert(d.last().0 == sc.last().0);
}

proof fn lemma_stmts_frame(sc: Seq<ScopeModel>, ss: Seq<Stmt>)
    requires
        sc.len() > 0,
    ensures
        check_stmts(sc, ss).0.len() == sc.len(),
        check_stmts(sc, ss).0.drop_last() == sc.drop_last(),
        check_stmts(sc, ss).0.last().0 == sc.last().0,
    decreases ss.len(),
{
    if ss.len() > 0 {
        lemma_stmts_frame(sc, ss.subrange(0, ss.len() - 1));
        let before = check_stmts(sc, ss.subrange(0, ss.len() - 1)).0;
        lemma_stmt_frame(before, ss[ss.len() - 1]);
    }
}

/// A scope of the analysis.
struct Scope {
    scope_type: ScopeType,
    variables: HashMap<Symbol, bool>,
}

/// Walks a syntax tree and collects its static errors.
pub struct Analyzer {
    scopes: Vec<Scope>,
}

pub open spec fn global_scope(names: Seq<Symbol>) -> Seq<ScopeModel> {
    declare_all(seq![(ScopeType::Global, Map::empty())], names)
}

fn error(span: Span, cause: ErrorCause) -> (r: AnalyzerError)
    ensures
        r == error_at(span, cause),
{
    AnalyzerError { span_start: span.start, span_end: span.end, cause }
}

impl Analyzer {
    /// The stack of scopes, innermost last.
    pub closed spec fn model(&self) -> Seq<ScopeModel> {
        self.scopes@.map_values(|s: Scope| (s.scope_type, s.variables@))
    }

    /// An analyzer whose global scope is empty.
    pub fn new() -> (r: Analyzer)
        ensures
            r.model() == global_scope(seq![]),
    {
        let r = Analyzer {
            scopes: vec![Scope { scope_type: ScopeType::Global, variables: HashMap::new() }],
        };
        assert(r.model() =~= global_scope(seq![]));
        r
    }

    /// An analyzer whose global scope holds `names`, initialized: the names
    /// of the native functions.
    pub fn with_globals(names: &Vec<Symbol>) -> (r: Analyzer)
        ensures
            r.model() == global_scope(names@),
    {
        let mut r = Analyzer::new();
        let mut i: usize = 0;
        while i < names.len()
            invariant
                i <= names@.len(),
                r.model() == global_scope(names@.subrange(0, i as int)),
            decreases names@.len() - i,
        {
            assert(names@.subrange(0, i + 1).drop_last() =~= names@.subrange(0, i as int));
            proof {
                lemma_declare_all_frame(seq![(ScopeType::Global, Map::empty())], names@.subrange(0, i as int));
            }
            r.declare_var(names[i], true);
            i += 1;
        }
        assert(names@.subrange(0, names@.len() as int) =~= names@);
        r
    }

    fn declare_var(&mut self, name: Symbol, initialized: bool)
        requires
            old(self).model().len() > 0,
        ensures
            final(self).model() == declare(old(self).model(), name, initialized),
    {
        let mut top = self.scopes.pop().unwrap();
        top.variables.insert(name, initialized);
        self.scopes.push(top);
        assert(self.model() =~= declare(old(self).model(), name, initialized));
    }

    fn find_var(&self, name: Symbol) -> (r: Option<bool>)
        ensures
            r == lookup(self.model(), name),
    {
        let mut i = self.scopes.len();
        assert(self.model().subrange(0, i as int) =~= self.model());
        while i > 0
            invariant
                i <= self.scopes@.len(),
                lookup(self.model(), name) == lookup(self.model().subrange(0, i as int), name),
            decreases i,
        {
            let ghost sub = self.model().subrange(0, i as int);
            assert(sub.drop_last() =~= self.model().subrange(0, i - 1));
            match self.scopes[i - 1].variables.get(&name) {
                Some(v) => {
                    return Some(*v);
                },
                None => {},
            }
            i -= 1;
        }
        None
    }

    fn initialized_here(&self, name: Symbol) -> (r: bool)
        ensures
            r == initialized_here(self.model(), name),
    {
        if self.scopes.len() == 0 {
            return false;
        }
        match self.scopes[self.scopes.len() - 1].variables.get(&name) {
            Some(v) => *v,
            None => false,
        }
    }

    fn loop_visible(&self) -> (r: bool)
        ensures
            r == loop_visible(self.model()),
    {
        let mut i = self.scopes.len();
        assert(self.model().subrange(0, i as int) =~= self.model());
        while i > 0
            invariant
                i <= self.scopes@.len(),
                loop_visible(self.model()) == loop_visible(self.model().subrange(0, i as int)),
            decreases i,
        {
            let ghost sub = self.model().subrange(0, i as int);
            assert(sub.drop_last() =~= self.model().subrange(0, i - 1));
            match self.scopes[i - 1].scope_type {
                ScopeType::Loop => {
                    return true;
                },
                ScopeType::Block => {},
                _ => {
                    return false;
                },
            }
            i -= 1;
        }
        false
    }

    fn has_scope(&self, kind: ScopeType) -> (r: bool)
        ensures
            r == has_scope(self.model(), kind),
    {
        let mut i: usize = 0;
        while i < self.scopes.len()
            invariant
                i <= self.scopes@.len(),
                forall|j: int| 0 <= j < i ==> (#[trigger] self.model()[j]).0 != kind,
            decreases self.scopes@.len() - i,
        {
            if self.scopes[i].scope_type == kind {
                assert(self.model()[i as int].0 == kind);
                return true;
            }
            i += 1;
        }
        false
    }

    fn enter_scope(&mut self, kind: ScopeType)
        ensures
            final(self).model() == enter(old(self).model(), kind),
    {
        self.scopes.push(Scope { scope_type: kind, variables: HashMap::new() });
        assert(self.model() =~= enter(old(self).model(), kind));
    }

    fn leave_scope(&mut self)
        requires
            old(self).model().len() > 0,
        ensures
            final(self).model() == old(self).model().drop_last(),
    {
        self.scopes.pop();
        assert(self.model() =~= old(self).model().drop_last());
    }

    /// Checks a function body in a new function scope holding `params`.
    fn visit_function(&mut self, params: &Vec<Symbol>, body: &Expr, errors: &mut Vec<AnalyzerError>)
        requires
            old(self).model().len() > 0,
        ensures
            final(self).model() == old(self).model(),
            final(errors)@ == old(errors)@ + check_expr(function_scope(old(self).model(), params@), *body),
        decreases body, 2nat,
    {
        let ghost sc = self.model();
        self.enter_scope(ScopeType::Function);
        let mut i: usize = 0;
        while i < params.len()
            invariant
                i <= params@.len(),
                self.model() == declare_all(enter(sc, ScopeType::Function), params@.subrange(0, i as int)),
            decreases params@.len() - i,
        {
            assert(params@.subrange(0, i + 1).drop_last() =~= params@.subrange(0, i as int));
            proof {
                lemma_declare_all_frame(enter(sc, ScopeType::Function), params@.subrange(0, i as int));
            }
            self.declare_var(params[i], true);
            i += 1;
        }
        assert(params@.subrange(0, params@.len() as int) =~= params@);
        proof {
            lemma_declare_all_frame(enter(sc, ScopeType::Function), params@);
        }
        self.visit_expr(body, errors);
        self.leave_scope();
        assert(enter(sc, ScopeType::Function).drop_last() =~= sc);
    }

    fn visit_identifier(&self, name: Symbol, span: Span, errors: &mut Vec<AnalyzerError>)
        ensures
            final(errors)@ == old(errors)@ + name_errors(self.model(), name, span),
    {
        match self.find_var(name) {
            Some(true) => {},
            Some(false) => errors.push(error(span, ErrorCause::UsedBeforeInitialization)),
            None => errors.push(error(span, ErrorCause::NotDefined)),
        }
        assert(errors@ =~= old(errors)@ + name_errors(self.model(), name, span));
    }

    /// Records the error at `span` with `cause` unless `ok`.
    fn report_unless(ok: bool, span: Span, cause: ErrorCause, errors: &mut Vec<AnalyzerError>)
        ensures
            final(errors)@ == old(errors)@ + (if ok {
                seq![]
            } else {
                seq![error_at(span, cause)]
            }),
    {
        if !ok {
            errors.push(error(span, cause));
        }
        assert(errors@ =~= old(errors)@ + (if ok {
            seq![]
        } else {
            seq![error_at(span, cause)]
        }));
    }

    fn visit_opt(&mut self, e: &Option<Expr>, errors: &mut Vec<AnalyzerError>)
        requires
            old(self).model().len() > 0,
        ensures
            final(self).model() == old(self).model(),
            final(errors)@ == old(errors)@ + match *e {
                Some(x) => check_expr(old(self).model(), x),
                None => seq![],
            },
        decreases e, 0nat,
    {
        match e {
            Some(x) => self.visit_expr(x, errors),
            None => {
                assert(errors@ =~= errors@ + Seq::<AnalyzerError>::empty());
            },
        }
    }

    /// Appends every static error of `e`; the scopes are left as they were.
    fn visit_expr(&mut self, e: &Expr, errors: &mut Vec<AnalyzerError>)
        requires
            old(self).model().len() > 0,
        ensures
            final(self).model() == old(self).model(),
            final(errors)@ == old(errors)@ + check_expr(old(self).model(), *e),
        decreases e, 1nat,
    {
        let ghost sc = self.model();
        let ghost e0 = errors@;
        match &*e.kind {
            ExprKind::Atom(AtomicValue::Identifier(name)) => self.visit_identifier(*name, e.span, errors),
            ExprKind::Atom(_) => {
                assert(errors@ =~= e0 + Seq::<AnalyzerError>::empty());
            },
            ExprKind::Binary { lhs, rhs, .. } => {
                self.visit_expr(lhs, errors);
                self.visit_expr(rhs, errors);
                assert(errors@ =~= e0 + (check_expr(sc, *lhs) + check_expr(sc, *rhs)));
            },
            ExprKind::Unary { rhs, .. } => self.visit_expr(rhs, errors),
            ExprKind::Block { stmts, return_expr } => {
                self.enter_scope(ScopeType::Block);
                self.visit_stmts(stmts, errors);
                proof {
                    lemma_stmts_frame(enter(sc, ScopeType::Block), stmts@);
                }
                self.visit_opt(return_expr, errors);
                self.leave_scope();
                assert(enter(sc, ScopeType::Block).drop_last() =~= sc);
                assert(errors@ =~= e0 + check_expr(sc, *e));
            },
            ExprKind::If { condition, body, else_expr } => {
                self.visit_expr(condition, errors);
                self.visit_expr(body, errors);
                self.visit_opt(else_expr, errors);
                assert(errors@ =~= e0 + check_expr(sc, *e));
            },
            ExprKind::While { condition, body } => {
                self.visit_expr(condition, errors);
                self.enter_scope(ScopeType::Loop);
                self.visit_expr(body, errors);
                self.leave_scope();
                assert(enter(sc, ScopeType::Loop).drop_last() =~= sc);
                assert(errors@ =~= e0 + check_expr(sc, *e));
            },
            ExprKind::Break { return_expr } => {
                let ok = self.loop_visible();
                Self::report_unless(ok, e.span, ErrorCause::UsedOutsideLoop, errors);
                self.visit_opt(return_expr, errors);
                assert(errors@ =~= e0 + check_expr(sc, *e));
            },
            ExprKind::Continue => {
                let ok = self.loop_visible();
                Self::report_unless(ok, e.span, ErrorCause::UsedOutsideLoop, errors);
            },
            ExprKind::Call { callee, args } => {
                self.visit_expr(callee, errors);
                self.visit_exprs(args, errors);
                assert(errors@ =~= e0 + check_expr(sc, *e));
            },
            ExprKind::Return { value } => {
                let ok = self.has_scope(ScopeType::Function);
                Self::report_unless(ok, e.span, ErrorCause::ReturnUsedOutsideFunction, errors);
                self.visit_opt(value, errors);
                assert(errors@ =~= e0 + check_expr(sc, *e));
            },
            ExprKind::GetProperty { target, .. } => self.visit_expr(target, errors),
            ExprKind::SetProperty { target, value, .. } => {
                self.visit_expr(target, errors);
                self.visit_expr(value, errors);
                assert(errors@ =~= e0 + check_expr(sc, *e));
            },
            ExprKind::ObjectLiteral { properties } => self.visit_properties(properties, errors),
            ExprKind::Assignment { target, value } => {
                self.visit_identifier(*target, e.span, errors);
                self.visit_expr(value, errors);
                assert(errors@ =~= e0 + check_expr(sc, *e));
            },
            ExprKind::Closure { params, body } => self.visit_function(params, body, errors),
            ExprKind::This | ExprKind::Super => {
                let ok = self.has_scope(ScopeType::Class);
                Self::report_unless(ok, e.span, ErrorCause::UsedOutsideClass, errors);
            },
        }
    }

    fn visit_exprs(&mut self, es: &Vec<Expr>, errors: &mut Vec<AnalyzerError>)
        requires
            old(self).model().len() > 0,
        ensures
            final(self).model() == old(self).model(),
            final(errors)@ == old(errors)@ + check_exprs(old(self).model(), es@),
        decreases es, 0nat,
    {
        let ghost sc = self.model();
        let ghost e0 = errors@;
        let mut i: usize = 0;
        assert(e0 =~= e0 + check_exprs(sc, es@.subrange(0, 0)));
        while i < es.len()
            invariant
                i <= es@.len(),
                self.model() == sc,
                sc.len() > 0,
                errors@ == e0 + check_exprs(sc, es@.subrange(0, i as int)),
            decreases es@.len() - i,
        {
            assert(es@.subrange(0, i + 1).subrange(0, i as int) =~= es@.subrange(0, i as int));
            self.visit_expr(&es[i], errors);
            assert(errors@ =~= e0 + check_exprs(sc, es@.subrange(0, i + 1)));
            i += 1;
        }
        assert(es@.subrange(0, es@.len() as int) =~= es@);
    }

    fn visit_properties(&mut self, ps: &Vec<Property>, errors: &mut Vec<AnalyzerError>)
        requires
            old(self).model().len() > 0,
        ensures
            final(self).model() == old(self).model(),
            final(errors)@ == old(errors)@ + check_properties(old(self).model(), ps@),
        decreases ps, 0nat,
    {
        let ghost sc = self.model();
        let ghost e0 = errors@;
        let mut i: usize = 0;
        assert(e0 =~= e0 + check_properties(sc, ps@.subrange(0, 0)));
        while i < ps.len()
            invariant
                i <= ps@.len(),
                self.model() == sc,
                sc.len() > 0,
                errors@ == e0 + check_properties(sc, ps@.subrange(0, i as int)),
            decreases ps@.len() - i,
        {
            assert(ps@.subrange(0, i + 1).subrange(0, i as int) =~= ps@.subrange(0, i as int));
            self.visit_expr(&ps[i].value, errors);
            assert(errors@ =~= e0 + check_properties(sc, ps@.subrange(0, i + 1)));
            i += 1;
        }
        assert(ps@.subrange(0, ps@.len() as int) =~= ps@);
    }

    fn visit_methods(&mut self, ms: &Vec<Method>, errors: &mut Vec<AnalyzerError>)
        requires
            old(self).model().len() > 0,
        ensures
            final(self).model() == old(self).model(),
            final(errors)@ == old(errors)@ + check_methods(old(self).model(), ms@),
        decreases ms, 0nat,
    {
        let ghost sc = self.model();
        let ghost e0 = errors@;
        let mut i: usize = 0;
        assert(e0 =~= e0 + check_methods(sc, ms@.subrange(0, 0)));
        while i < ms.len()
            invariant
                i <= ms@.len(),
                self.model() == sc,
                sc.len() > 0,
                errors@ == e0 + check_methods(sc, ms@.subrange(0, i as int)),
            decreases ms@.len() - i,
        {
            assert(ms@.subrange(0, i + 1).subrange(0, i as int) =~= ms@.subrange(0, i as int));
            self.visit_function(&ms[i].params, &ms[i].body, errors);
            assert(errors@ =~= e0 + check_methods(sc, ms@.subrange(0, i + 1)));
            i += 1;
        }
        assert(ms@.subrange(0, ms@.len() as int) =~= ms@);
    }

    /// Checks one statement; declarations stay in the innermost scope.
    fn visit_stmt(&mut self, s: &Stmt, errors: &mut Vec<AnalyzerError>)
        requires
            old(self).model().len() > 0,
        ensures
            final(self).model() == check_stmt(old(self).model(), *s).0,
            final(errors)@ == old(errors)@ + check_stmt(old(self).model(), *s).1,
        decreases s, 1nat,
    {
        let ghost sc = self.model();
        let ghost e0 = errors@;
        proof {
            lemma_declare_all_frame(sc, seq![]);
        }
        match &*s.kind {
            StmtKind::Expression { expr } => self.visit_expr(expr, errors),
            StmtKind::VariableDeclaration { name, expr } => {
                if !self.initialized_here(*name) {
                    self.declare_var(*name, false);
                }
                proof {
                    let d = declare(sc, *name, false);
                    assert(d.drop_last() =~= sc.drop_last());
                }
                self.visit_expr(expr, errors);
                self.declare_var(*name, true);
            },
            StmtKind::FunctionDeclaration { name, params, body } => {
                self.declare_var(*name, true);
                self.visit_function(params, body, errors);
            },
            StmtKind::ClassDeclaration { name, superclass, methods } => {
                match superclass {
                    Some(sup) => {
                        if *sup == *name {
                            errors.push(error(s.span, ErrorCause::CantInheritFromItself));
                        } else if self.find_var(*sup).is_none() {
                            errors.push(error(s.span, ErrorCause::SuperclassDoesntExist));
                        }
                    },
                    None => {},
                }
                let ghost e1 = errors@;
                assert(e1 =~= e0 + superclass_errors(sc, *name, *superclass, s.span));
                self.declare_var(*name, true);
                let ghost declared = self.model();
                self.enter_scope(ScopeType::Class);
                self.visit_methods(methods, errors);
                self.leave_scope();
                assert(enter(declared, ScopeType::Class).drop_last() =~= declared);
                assert(errors@ =~= e0 + check_stmt(sc, *s).1);
            },
        }
    }

    fn visit_stmts(&mut self, ss: &Vec<Stmt>, errors: &mut Vec<AnalyzerError>)
        requires
            old(self).model().len() > 0,
        ensures
            final(self).model() == check_stmts(old(self).model(), ss@).0,
            final(errors)@ == old(errors)@ + check_stmts(old(self).model(), ss@).1,
        decreases ss, 0nat,
    {
        let ghost sc = self.model();
        let ghost e0 = errors@;
        let mut i: usize = 0;
        assert(e0 =~= e0 + check_stmts(sc, ss@.subrange(0, 0)).1);
        while i < ss.len()
            invariant
                i <= ss@.len(),
                sc.len() > 0,
                self.model() == check_stmts(sc, ss@.subrange(0, i as int)).0,
                errors@ == e0 + check_stmts(sc, ss@.subrange(0, i as int)).1,
            decreases ss@.len() - i,
        {
            assert(ss@.subrange(0, i + 1).subrange(0, i as int) =~= ss@.subrange(0, i as int));
            proof {
                lemma_stmts_frame(sc, ss@.subrange(0, i as int));
            }
            self.visit_stmt(&ss[i], errors);
            assert(errors@ =~= e0 + check_stmts(sc, ss@.subrange(0, i + 1)).1);
            i += 1;
        }
        assert(ss@.subrange(0, ss@.len() as int) =~= ss@);
    }

    /// Checks the top-level statements of `ast` and returns every error
    /// found, in source order.
    pub fn analyze(&mut self, ast: &Vec<Stmt>) -> (r: Result<(), Vec<AnalyzerError>>)
        requires
            old(self).model().len() > 0,
        ensures
            final(self).model() == program_errors(old(self).model(), ast@).0,
            final(self).model().len() == old(self).model().len(),
            match r {
                Ok(()) => program_errors(old(self).model(), ast@).1.len() == 0,
                Err(errs) => errs@ == program_errors(old(self).model(), ast@).1 && errs@.len() > 0,
            },
    {
        proof {
            lemma_stmts_frame(self.model(), ast@);
        }
        let mut errors: Vec<AnalyzerError> = Vec::new();
        self.visit_stmts(ast, &mut errors);
        assert(errors@ =~= program_errors(old(self).model(), ast@).1);
        if errors.len() == 0 {
            Ok(())
        } else {
            Err(errors)
        }
    }
}

/// The static errors of a program, checked with an empty global scope.
pub fn analyze(ast: &Vec<Stmt>) -> (r: Result<(), Vec<AnalyzerError>>)
    ensures
        match r {
            Ok(()) => program_errors(global_scope(seq![]), ast@).1.len() == 0,
            Err(errs) => errs@ == program_errors(global_scope(seq![]), ast@).1 && errs@.len() > 0,
        },
{
    let mut analyzer = Analyzer::new();
    analyzer.analyze(ast)
}

proof fn lemma_contains_concat(a: Seq<AnalyzerError>, b: Seq<AnalyzerError>, x: AnalyzerError)
    requires
        a.contains(x) || b.contains(x),
    ensures
        (a + b).contains(x),
{
    if a.contains(x) {
        let i = choose|i: int| 0 <= i < a.len() && a[i] == x;
        assert((a + b)[i] == x);
    } else {
        let i = choose|i: int| 0 <= i < b.len() && b[i] == x;
        assert((a + b)[a.len() + i] == x);
    }
}

/// `e` reads variable `x` at source range `sp` in the scope it is checked in:
/// directly, or in an operand, callee, condition, property target or value,
/// assigned value, returned or break value, none of which opens a scope.
pub open spec fn reads_at(e: Expr, x: Symbol, sp: Span) -> bool
    decreases e,
{
    match *e.kind {
        ExprKind::Atom(AtomicValue::Identifier(n)) => n == x && e.span == sp,
        ExprKind::Binary { lhs, rhs, .. } => reads_at(lhs, x, sp) || reads_at(rhs, x, sp),
        ExprKind::Unary { rhs, .. } => reads_at(rhs, x, sp),
        ExprKind::Call { callee, .. } => reads_at(callee, x, sp),
        ExprKind::GetProperty { target, .. } => reads_at(target, x, sp),
        ExprKind::SetProperty { target, value, .. } => reads_at(target, x, sp) || reads_at(value, x, sp),
        ExprKind::Assignment { target, value } => (target == x && e.span == sp) || reads_at(value, x, sp),
        ExprKind::If { condition, .. } => reads_at(condition, x, sp),
        ExprKind::While { condition, .. } => reads_at(condition, x, sp),
        ExprKind::Return { value: Some(v) } => reads_at(v, x, sp),
        ExprKind::Break { return_expr: Some(v) } => reads_at(v, x, sp),
        _ => false,
    }
}

proof fn lemma_reads_uninitialized(sc: Seq<ScopeModel>, x: Symbol, e: Expr, sp: Span)
    requires
        lookup(sc, x) == Some(false),
        reads_at(e, x, sp),
    ensures
        check_expr(sc, e).contains(error_at(sp, ErrorCause::UsedBeforeInitialization)),
    decreases e,
{
    let err = error_at(sp, ErrorCause::UsedBeforeInitialization);
    match *e.kind {
        ExprKind::Atom(AtomicValue::Identifier(n)) => {
            assert(check_expr(sc, e)[0] == err);
        },
        ExprKind::Binary { lhs, rhs, .. } => {
            if reads_at(lhs, x, sp) {
                lemma_reads_uninitialized(sc, x, lhs, sp);
            } else {
                lemma_reads_uninitialized(sc, x, rhs, sp);
            }
            lemma_contains_concat(check_expr(sc, lhs), check_expr(sc, rhs), err);
        },
        ExprKind::Unary { rhs, .. } => lemma_reads_uninitialized(sc, x, rhs, sp),
        ExprKind::Call { callee, args } => {
            lemma_reads_uninitialized(sc, x, callee, sp);
            lemma_contains_concat(check_expr(sc, callee), check_exprs(sc, args@), err);
        },
        ExprKind::GetProperty { target, .. } => lemma_reads_uninitialized(sc, x, target, sp),
        ExprKind::SetProperty { target, value, .. } => {
            if reads_at(target, x, sp) {
                lemma_reads_uninitialized(sc, x, target, sp);
            } else {
                lemma_reads_uninitialized(sc, x, value, sp);
            }
            lemma_contains_concat(check_expr(sc, target), check_expr(sc, value), err);
        },
        ExprKind::Assignment { target, value } => {
            let n = name_errors(sc, target, e.span);
            if target == x && e.span == sp {
                assert(n[0] == err);
            } else {
                lemma_reads_uninitialized(sc, x, value, sp);
            }
            lemma_contains_concat(n, check_expr(sc, value), err);
        },
        ExprKind::If { condition, body, else_expr } => {
            lemma_reads_uninitialized(sc, x, condition, sp);
            let rest = match else_expr {
                Some(y) => check_expr(sc, y),
                None => seq![],
            };
            lemma_contains_concat(check_expr(sc, condition), check_expr(sc, body), err);
            lemma_contains_concat(check_expr(sc, condition) + check_expr(sc, body), rest, err);
        },
        ExprKind::While { condition, body } => {
            lemma_reads_uninitialized(sc, x, condition, sp);
            lemma_contains_concat(check_expr(sc, condition), check_expr(enter(sc, ScopeType::Loop), body), err);
        },
        ExprKind::Return { value } => {
            let v = value.unwrap();
            lemma_reads_uninitialized(sc, x, v, sp);
            let head = if has_scope(sc, ScopeType::Function) {
                seq![]
            } else {
                seq![error_at(e.span, ErrorCause::ReturnUsedOutsideFunction)]
            };
            lemma_contains_concat(head, check_expr(sc, v), err);
        },
        ExprKind::Break { return_expr } => {
            let v = return_expr.unwrap();
            lemma_reads_uninitialized(sc, x, v, sp);
            lemma_contains_concat(loop_errors(sc, e.span), check_expr(sc, v), err);
        },
        _ => {},
    }
}

/// A declaration whose initializer reads the variable being declared, at
/// source range `sp`, is reported with `UsedBeforeInitialization` at `sp`,
/// whatever other errors the statement has, unless it shadows a variable of
/// that name already initialized in the same scope.
pub proof fn law_self_reference_rejected(sc: Seq<ScopeModel>, s: Stmt, sp: Span)
    requires
        sc.len() > 0,
        match *s.kind {
            StmtKind::VariableDeclaration { name, expr } => reads_at(expr, name, sp) && !initialized_here(sc, name),
            _ => false,
        },
    ensures
        check_stmt(sc, s).1.contains(error_at(sp, ErrorCause::UsedBeforeInitialization)),
{
    if let StmtKind::VariableDeclaration { name, expr } = *s.kind {
        let d = declare(sc, name, false);
        assert(d.last().1.contains_key(name));
        lemma_reads_uninitialized(d, name, expr, sp);
    }
}

/// In a whole program, a top-level declaration whose initializer reads the
/// variable being declared at `sp` makes `analyze` report
/// `UsedBeforeInitialization` at `sp`, unless an earlier top-level
/// declaration of that name is initialized.
pub proof fn law_self_reference_in_program(ss: Seq<Stmt>, k: int, sp: Span)
    requires
        0 <= k < ss.len(),
        match *ss[k].kind {
            StmtKind::VariableDeclaration { name, expr } => reads_at(expr, name, sp) && !initialized_here(
                check_stmts(global_scope(seq![]), ss.subrange(0, k)).0,
                name,
            ),
            _ => false,
        },
    ensures
        program_errors(global_scope(seq![]), ss).1.contains(error_at(sp, ErrorCause::UsedBeforeInitialization)),
{
    let g = global_scope(seq![]);
    let before = check_stmts(g, ss.subrange(0, k)).0;
    lemma_stmts_frame(g, ss.subrange(0, k));
    law_self_reference_rejected(before, ss[k], sp);
    let errs = check_stmt(before, ss[k]).1;
    let err = error_at(sp, ErrorCause::UsedBeforeInitialization);
    let i = choose|i: int| 0 <= i < errs.len() && errs[i] == err;
    law_statement_errors_kept(g, ss, k, i);
}

/// A `break` or `continue` standing as a top-level statement makes `analyze`
/// report `UsedOutsideLoop` at its source range, whatever else the program
/// holds.
pub proof fn law_loop_control_in_program(ss: Seq<Stmt>, k: int)
    requires
        0 <= k < ss.len(),
        match *ss[k].kind {
            StmtKind::Expression { expr } => *expr.kind is Break || *expr.kind is Continue,
            _ => false,
        },
    ensures
        match *ss[k].kind {
            StmtKind::Expression { expr } => program_errors(global_scope(seq![]), ss).1.contains(
                error_at(expr.span, ErrorCause::UsedOutsideLoop),
            ),
            _ => true,
        },
{
    if let StmtKind::Expression { expr } = *ss[k].kind {
        let g = global_scope(seq![]);
        let before = check_stmts(g, ss.subrange(0, k)).0;
        lemma_stmts_frame(g, ss.subrange(0, k));
        assert(before.drop_last() =~= seq![]);
        assert(!loop_visible(before.drop_last()));
        assert(!loop_visible(before));
        law_loop_control_outside_loop(before, expr);
        law_statement_errors_kept(g, ss, k, 0);
    }
}

/// The errors of every statement of a sequence are among its errors.
pub proof fn law_statement_errors_kept(sc: Seq<ScopeModel>, ss: Seq<Stmt>, k: int, i: int)
    requires
        0 <= k < ss.len(),
        0 <= i < check_stmt(check_stmts(sc, ss.subrange(0, k)).0, ss[k]).1.len(),
    ensures
        check_stmts(sc, ss).1.contains(check_stmt(check_stmts(sc, ss.subrange(0, k)).0, ss[k]).1[i]),
    decreases ss.len(),
{
    let pre = ss.subrange(0, ss.len() - 1);
    let (before, errs) = check_stmts(sc, pre);
    let more = check_stmt(before, ss[ss.len() - 1]).1;
    assert(check_stmts(sc, ss).1 == errs + more);
    if k == ss.len() - 1 {
        assert(pre =~= ss.subrange(0, k));
        assert((errs + more)[errs.len() + i] == more[i]);
    } else {
        assert(pre.subrange(0, k) =~= ss.subrange(0, k));
        assert(pre[k] == ss[k]);
        law_statement_errors_kept(sc, pre, k, i);
        let err = check_stmt(check_stmts(sc, ss.subrange(0, k)).0, ss[k]).1[i];
        let j = choose|j: int| 0 <= j < errs.len() && errs[j] == err;
        assert((errs + more)[j] == err);
    }
}

/// `break` and `continue` are reported first with `UsedOutsideLoop` wherever
/// no loop is reached walking out through blocks.
pub proof fn law_loop_control_outside_loop(sc: Seq<ScopeModel>, e: Expr)
    requires
        !loop_visible(sc),
        *e.kind is Break || *e.kind is Continue,
    ensures
        check_expr(sc, e).len() > 0,
        check_expr(sc, e)[0] == error_at(e.span, ErrorCause::UsedOutsideLoop),
{
}

/// A function body never sees the loops around the function: `break` and
/// `continue` directly in it are reported even inside a loop.
pub proof fn law_function_hides_loops(sc: Seq<ScopeModel>, params: Seq<Symbol>, e: Expr)
    requires
        *e.kind is Break || *e.kind is Continue,
    ensures
        !loop_visible(function_scope(sc, params)),
        check_expr(function_scope(sc, params), e)[0] == error_at(e.span, ErrorCause::UsedOutsideLoop),
{
    lemma_declare_all_frame(enter(sc, ScopeType::Function), params);
}

} // verus!
