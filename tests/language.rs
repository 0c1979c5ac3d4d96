use gravitas::analyzer::{analyze, Analyzer, AnalyzerError, ErrorCause};
use gravitas::ast::{
    AtomicValue, BinaryOperator, Expr, ExprKind, Method, Span, Stmt, StmtKind, Symbol,
    UnaryOperator,
};
use gravitas::chunk::{Address, Constant};
use gravitas::generator::{generate, GenError};
use gravitas::opcode::Opcode;
use gravitas::program::{GlobalItem, Program};
use gravitas::vm::{RuntimeError, RuntimeValue, VM};
use gravitas::{run_compile, Failure};

const X: Symbol = 1;
const Y: Symbol = 2;
const I: Symbol = 3;
const MAKE: Symbol = 4;
const INC: Symbol = 5;
const C: Symbol = 6;
const FOO: Symbol = 7;
const METHOD: Symbol = 8;
const DOESNT_EXIST: Symbol = 9;
const KEY: Symbol = 10;
const FUEL: u64 = 100_000;

fn sp(start: usize, end: usize) -> Span {
    Span { start, end }
}

fn ex(kind: ExprKind) -> Expr {
    Expr::new(kind, sp(0, 0))
}

fn at(kind: ExprKind, start: usize, end: usize) -> Expr {
    Expr::new(kind, sp(start, end))
}

fn num(n: i64) -> Expr {
    ex(ExprKind::Atom(AtomicValue::Number(n)))
}

fn boolean(b: bool) -> Expr {
    ex(ExprKind::Atom(AtomicValue::Boolean(b)))
}

fn var(name: Symbol) -> Expr {
    ex(ExprKind::Atom(AtomicValue::Identifier(name)))
}

fn bin(lhs: Expr, op: BinaryOperator, rhs: Expr) -> Expr {
    ex(ExprKind::Binary { lhs, op, rhs })
}

fn block(stmts: Vec<Stmt>, return_expr: Option<Expr>) -> Expr {
    ex(ExprKind::Block { stmts, return_expr })
}

fn expr_stmt(expr: Expr) -> Stmt {
    Stmt::new(StmtKind::Expression { expr }, sp(0, 0))
}

fn let_stmt(name: Symbol, expr: Expr) -> Stmt {
    Stmt::new(StmtKind::VariableDeclaration { name, expr }, sp(0, 0))
}

fn fn_stmt(name: Symbol, params: Vec<Symbol>, body: Expr) -> Stmt {
    Stmt::new(StmtKind::FunctionDeclaration { name, params, body }, sp(0, 0))
}

fn call(callee: Expr, args: Vec<Expr>) -> Expr {
    ex(ExprKind::Call { callee, args })
}

fn first_cause(ast: &Vec<Stmt>) -> ErrorCause {
    analyze(ast).unwrap_err()[0].cause
}

fn compile(ast: &Vec<Stmt>) -> Program {
    assert!(analyze(ast).is_ok());
    generate(ast).expect("generation failed")
}

fn run_to_end(ast: &Vec<Stmt>) -> (RuntimeValue, usize) {
    let mut vm = VM::new(compile(ast));
    let v = vm.run(FUEL).expect("runtime error");
    (v, vm.stack_len())
}

fn root_code(ast: &Vec<Stmt>) -> (Vec<Opcode>, Vec<Constant>) {
    let p = compile(ast);
    (p.root.opcodes, p.root.constants)
}

#[test]
fn errors() {
    let ast = vec![expr_stmt(ex(ExprKind::Super))];
    assert_eq!(first_cause(&ast), ErrorCause::UsedOutsideClass);
    let ast = vec![expr_stmt(ex(ExprKind::This))];
    assert_eq!(first_cause(&ast), ErrorCause::UsedOutsideClass);
    let ast = vec![expr_stmt(ex(ExprKind::Continue))];
    assert_eq!(first_cause(&ast), ErrorCause::UsedOutsideLoop);
    let ast = vec![expr_stmt(ex(ExprKind::Break { return_expr: None }))];
    assert_eq!(first_cause(&ast), ErrorCause::UsedOutsideLoop);
    let ast = vec![let_stmt(X, bin(var(X), BinaryOperator::Add, num(1)))];
    assert_eq!(first_cause(&ast), ErrorCause::UsedBeforeInitialization);
    let ast = vec![expr_stmt(bin(var(X), BinaryOperator::Add, num(2)))];
    assert_eq!(first_cause(&ast), ErrorCause::NotDefined);
    let class = |superclass: Option<Symbol>, methods: Vec<Method>| {
        Stmt::new(StmtKind::ClassDeclaration { name: FOO, superclass, methods }, sp(0, 0))
    };
    let ast = vec![class(Some(FOO), vec![])];
    assert_eq!(first_cause(&ast), ErrorCause::CantInheritFromItself);
    let ast = vec![class(Some(DOESNT_EXIST), vec![])];
    assert_eq!(first_cause(&ast), ErrorCause::SuperclassDoesntExist);
    // evaluates errors inside blocks
    let ast = vec![expr_stmt(block(vec![expr_stmt(ex(ExprKind::Continue))], None))];
    assert_eq!(first_cause(&ast), ErrorCause::UsedOutsideLoop);
    // evaluates errors inside methods
    let method = Method {
        name: METHOD,
        params: vec![],
        body: block(vec![expr_stmt(ex(ExprKind::Continue))], None),
        span: sp(0, 0),
    };
    let ast = vec![class(None, vec![method])];
    assert_eq!(first_cause(&ast), ErrorCause::UsedOutsideLoop);
    // evaluates errors inside functions
    let ast = vec![fn_stmt(FOO, vec![], block(vec![expr_stmt(ex(ExprKind::Continue))], None))];
    assert_eq!(first_cause(&ast), ErrorCause::UsedOutsideLoop);
    let ast = vec![expr_stmt(ex(ExprKind::Return { value: None }))];
    assert_eq!(first_cause(&ast), ErrorCause::ReturnUsedOutsideFunction);
}

#[test]
fn undefined_identifier_is_reported_once_at_its_span() {
    // x + 2;
    let ast = vec![expr_stmt(bin(
        at(ExprKind::Atom(AtomicValue::Identifier(X)), 0, 1),
        BinaryOperator::Add,
        num(2),
    ))];
    let errs = analyze(&ast).unwrap_err();
    assert_eq!(
        errs,
        vec![AnalyzerError { span_start: 0, span_end: 1, cause: ErrorCause::NotDefined }]
    );
    match run_compile(&ast, FUEL) {
        Err(Failure::Analysis(e)) => assert_eq!(e.len(), 1),
        other => panic!("unexpected outcome {:?}", other),
    }
}

#[test]
fn return_outside_function_is_rejected() {
    // return 1;
    let ast = vec![expr_stmt(ex(ExprKind::Return { value: Some(num(1)) }))];
    assert_eq!(first_cause(&ast), ErrorCause::ReturnUsedOutsideFunction);
}

#[test]
fn errors_of_every_statement_are_collected() {
    let ast = vec![
        expr_stmt(var(X)),
        let_stmt(Y, num(1)),
        expr_stmt(ex(ExprKind::Continue)),
        expr_stmt(var(Y)),
    ];
    let causes: Vec<ErrorCause> = analyze(&ast).unwrap_err().iter().map(|e| e.cause).collect();
    assert_eq!(causes, vec![ErrorCause::NotDefined, ErrorCause::UsedOutsideLoop]);
}

#[test]
fn every_error_of_a_statement_is_collected() {
    // y + z;
    let ast = vec![expr_stmt(bin(
        at(ExprKind::Atom(AtomicValue::Identifier(Y)), 0, 1),
        BinaryOperator::Add,
        at(ExprKind::Atom(AtomicValue::Identifier(C)), 4, 5),
    ))];
    assert_eq!(
        analyze(&ast).unwrap_err(),
        vec![
            AnalyzerError { span_start: 0, span_end: 1, cause: ErrorCause::NotDefined },
            AnalyzerError { span_start: 4, span_end: 5, cause: ErrorCause::NotDefined },
        ]
    );
    // let x = y + x;
    let ast = vec![let_stmt(X, bin(var(Y), BinaryOperator::Add, var(X)))];
    let causes: Vec<ErrorCause> = analyze(&ast).unwrap_err().iter().map(|e| e.cause).collect();
    assert_eq!(causes, vec![ErrorCause::NotDefined, ErrorCause::UsedBeforeInitialization]);
    // { y; break; }
    let ast = vec![expr_stmt(block(
        vec![expr_stmt(var(Y)), expr_stmt(ex(ExprKind::Break { return_expr: None }))],
        None,
    ))];
    let causes: Vec<ErrorCause> = analyze(&ast).unwrap_err().iter().map(|e| e.cause).collect();
    assert_eq!(causes, vec![ErrorCause::NotDefined, ErrorCause::UsedOutsideLoop]);
}

#[test]
fn shadowing_is_not_self_reference() {
    // let x = 1; let x = x + 1; x;
    let ast = vec![
        let_stmt(X, num(1)),
        let_stmt(X, bin(var(X), BinaryOperator::Add, num(1))),
        expr_stmt(var(X)),
    ];
    assert!(analyze(&ast).is_ok());
    assert_eq!(run_to_end(&ast).0, RuntimeValue::Number(2));
}

#[test]
fn loop_control_inside_a_function_inside_a_loop_is_rejected() {
    // while (true) { fn f() { break; } }
    let f = fn_stmt(FOO, vec![], block(vec![expr_stmt(ex(ExprKind::Break { return_expr: None }))], None));
    let ast = vec![expr_stmt(ex(ExprKind::While { condition: boolean(true), body: block(vec![f], None) }))];
    assert_eq!(first_cause(&ast), ErrorCause::UsedOutsideLoop);
}

#[test]
fn arithmetic_honours_precedence() {
    // 2 + 3 * 4;
    let ast = vec![expr_stmt(bin(num(2), BinaryOperator::Add, bin(num(3), BinaryOperator::Mul, num(4))))];
    let (v, len) = run_to_end(&ast);
    assert_eq!(v, RuntimeValue::Number(14));
    assert_eq!(len, 1);
}

#[test]
fn block_scoping_leaves_no_slots() {
    // { let x = 1; let y = 2; x + y }
    let body = block(
        vec![let_stmt(X, num(1)), let_stmt(Y, num(2))],
        Some(bin(var(X), BinaryOperator::Add, var(Y))),
    );
    let ast = vec![expr_stmt(body)];
    let (v, len) = run_to_end(&ast);
    assert_eq!(v, RuntimeValue::Number(3));
    assert_eq!(len, 1);
}

#[test]
fn while_loop_counts_to_three() {
    // let i = 0; while (i < 3) { i = i + 1; } i;
    let body = block(
        vec![expr_stmt(ex(ExprKind::Assignment {
            target: I,
            value: bin(var(I), BinaryOperator::Add, num(1)),
        }))],
        None,
    );
    let ast = vec![
        let_stmt(I, num(0)),
        expr_stmt(ex(ExprKind::While { condition: bin(var(I), BinaryOperator::Lt, num(3)), body })),
        expr_stmt(var(I)),
    ];
    assert_eq!(run_to_end(&ast).0, RuntimeValue::Number(3));
}

#[test]
fn break_leaves_the_loop_with_the_stack_intact() {
    // let i = 0; while (true) { let j = i; i = i + 1; if i > 4 { break; } } i;
    let inner = block(
        vec![
            let_stmt(Y, var(I)),
            expr_stmt(ex(ExprKind::Assignment { target: I, value: bin(var(I), BinaryOperator::Add, num(1)) })),
            expr_stmt(ex(ExprKind::If {
                condition: bin(var(I), BinaryOperator::Gt, num(4)),
                body: block(vec![expr_stmt(ex(ExprKind::Break { return_expr: None }))], None),
                else_expr: None,
            })),
        ],
        None,
    );
    let ast = vec![
        let_stmt(I, num(0)),
        expr_stmt(ex(ExprKind::While { condition: boolean(true), body: inner })),
        expr_stmt(var(I)),
    ];
    let (v, len) = run_to_end(&ast);
    assert_eq!(v, RuntimeValue::Number(5));
    // the slot of `i` and the result; the loop's own value was dropped
    assert_eq!(len, 2);
}

#[test]
fn closure_captures_by_reference() {
    // fn make() { let c = 0; fn inc() => c = c + 1; inc() + inc() } make();
    let inc = fn_stmt(
        INC,
        vec![],
        ex(ExprKind::Assignment { target: C, value: bin(var(C), BinaryOperator::Add, num(1)) }),
    );
    let make = fn_stmt(
        MAKE,
        vec![],
        block(
            vec![let_stmt(C, num(0)), inc],
            Some(bin(call(var(INC), vec![]), BinaryOperator::Add, call(var(INC), vec![]))),
        ),
    );
    let ast = vec![make, expr_stmt(call(var(MAKE), vec![]))];
    assert_eq!(run_to_end(&ast).0, RuntimeValue::Number(3));
}

#[test]
fn closure_over_a_local_has_one_local_upvalue() {
    let inc = fn_stmt(INC, vec![], var(C));
    let make = fn_stmt(MAKE, vec![], block(vec![let_stmt(C, num(0)), inc], None));
    let p = compile(&vec![make]);
    let inc_fn = p.globals.iter().map(|g| g.as_function()).find(|f| f.name == Some(INC)).unwrap();
    assert_eq!(inc_fn.upvalues.len(), 1);
    assert!(inc_fn.upvalues[0].is_local);
    assert_eq!(inc_fn.upvalues[0].local_index, 1);
    let make_fn = p.globals[1].as_function();
    assert_eq!(p.globals[1].name(), Some(MAKE));
    assert!(make_fn.chunk.opcodes.contains(&Opcode::CreateClosure(1)));
    assert!(make_fn.chunk.constants.contains(&Constant::MemoryAddress(Address::Local(1))));
}

#[test]
fn function_without_free_variables_makes_an_empty_closure() {
    let ast = vec![fn_stmt(FOO, vec![X], var(X))];
    let (ops, constants) = root_code(&ast);
    assert_eq!(ops, vec![Opcode::Constant(0), Opcode::CreateClosure(0)]);
    assert_eq!(constants, vec![Constant::GlobalPointer(0)]);
    let p = compile(&ast);
    let GlobalItem::Function(f) = &p.globals[0];
    assert_eq!(f.arity, 1);
    assert_eq!(
        f.chunk.opcodes,
        vec![Opcode::Constant(0), Opcode::Get, Opcode::Return]
    );
}

#[test]
fn recursive_function_computes_factorial() {
    // fn fact(x) { if x < 2 { 1 } else { x * fact(x - 1) } } fact(5);
    let body = ex(ExprKind::If {
        condition: bin(var(X), BinaryOperator::Lt, num(2)),
        body: block(vec![], Some(num(1))),
        else_expr: Some(block(
            vec![],
            Some(bin(var(X), BinaryOperator::Mul, call(var(FOO), vec![bin(var(X), BinaryOperator::Sub, num(1))]))),
        )),
    });
    let ast = vec![fn_stmt(FOO, vec![X], body), expr_stmt(call(var(FOO), vec![num(5)]))];
    assert_eq!(run_to_end(&ast).0, RuntimeValue::Number(120));
}

#[test]
fn if_else_layout() {
    // if true { 1 } else { 2 }
    let ast = vec![expr_stmt(ex(ExprKind::If {
        condition: boolean(true),
        body: block(vec![], Some(num(1))),
        else_expr: Some(block(vec![], Some(num(2)))),
    }))];
    let (ops, _) = root_code(&ast);
    assert_eq!(
        ops,
        vec![
            Opcode::True,
            Opcode::Jif(3),
            Opcode::Constant(0),
            Opcode::Block(0),
            Opcode::Jp(2),
            Opcode::Constant(1),
            Opcode::Block(0),
        ]
    );
    assert_eq!(run_to_end(&ast).0, RuntimeValue::Number(1));
}

#[test]
fn generates_block_bytecode() {
    // If no return_expr is specified then block return null by default
    // Block also drops variables declared inside
    let ast = vec![expr_stmt(block(vec![let_stmt(FOO, num(0))], None))];
    let (ops, constants) = root_code(&ast);
    assert_eq!(ops, vec![Opcode::Constant(0), Opcode::Null, Opcode::Block(1)]);
    assert_eq!(constants, vec![Constant::Number(0)]);
    // Otherwise block returns the last expression
    let ast = vec![expr_stmt(block(vec![], Some(num(5))))];
    let (ops, constants) = root_code(&ast);
    assert_eq!(ops, vec![Opcode::Constant(0), Opcode::Block(0)]);
    assert_eq!(constants, vec![Constant::Number(5)]);
}

#[test]
fn expr_atom_boolean() {
    let (ops, _) = root_code(&vec![expr_stmt(boolean(true))]);
    assert_eq!(ops, vec![Opcode::True]);
    let (ops, _) = root_code(&vec![expr_stmt(boolean(false))]);
    assert_eq!(ops, vec![Opcode::False]);
}

#[test]
fn expr_atom_null() {
    let (ops, _) = root_code(&vec![expr_stmt(ex(ExprKind::Atom(AtomicValue::Null)))]);
    assert_eq!(ops, vec![Opcode::Null]);
}

#[test]
fn mod_expr_unary() {
    let unary = |op: UnaryOperator, rhs: Expr| ex(ExprKind::Unary { op, rhs });
    let (ops, constants) = root_code(&vec![expr_stmt(unary(UnaryOperator::Negate, num(10)))]);
    assert_eq!(ops, vec![Opcode::Constant(0), Opcode::Negate]);
    assert_eq!(constants[0], Constant::Number(10));

    let ast = vec![expr_stmt(unary(UnaryOperator::Negate, bin(num(10), BinaryOperator::Add, num(10))))];
    let (ops, constants) = root_code(&ast);
    assert_eq!(ops, vec![Opcode::Constant(0), Opcode::Constant(1), Opcode::Add, Opcode::Negate]);
    assert_eq!(constants[0], Constant::Number(10));
    assert_eq!(constants[1], Constant::Number(10));

    let (ops, _) = root_code(&vec![expr_stmt(unary(UnaryOperator::Not, boolean(true)))]);
    assert_eq!(ops, vec![Opcode::True, Opcode::Not]);

    let ast = vec![expr_stmt(unary(UnaryOperator::Not, bin(num(20), BinaryOperator::Add, num(10))))];
    let (ops, constants) = root_code(&ast);
    assert_eq!(ops, vec![Opcode::Constant(0), Opcode::Constant(1), Opcode::Add, Opcode::Not]);
    assert_eq!(constants[0], Constant::Number(20));
    assert_eq!(constants[1], Constant::Number(10));
}

#[test]
fn stmt_expr() {
    let (ops, constants) = root_code(&vec![expr_stmt(num(10))]);
    assert_eq!(ops, vec![Opcode::Constant(0)]);
    assert_eq!(constants[0], Constant::Number(10));
}

#[test]
fn objects_keep_their_properties() {
    // let o = { key: 1 }; o.key = o.key + 41; o.key;
    let obj = ex(ExprKind::ObjectLiteral {
        properties: vec![gravitas::ast::Property { key: KEY, value: num(1) }],
    });
    let get = || ex(ExprKind::GetProperty { target: var(X), identifier: KEY, is_method_call: false });
    let ast = vec![
        let_stmt(X, obj),
        expr_stmt(ex(ExprKind::SetProperty {
            target: var(X),
            identifier: KEY,
            value: bin(get(), BinaryOperator::Add, num(41)),
        })),
        expr_stmt(get()),
    ];
    assert_eq!(run_to_end(&ast).0, RuntimeValue::Number(42));
}

#[test]
fn runtime_errors_are_reported() {
    let ast = vec![expr_stmt(bin(num(1), BinaryOperator::Div, num(0)))];
    match run_compile(&ast, FUEL) {
        Err(Failure::Runtime(e)) => assert_eq!(e, RuntimeError::DivisionByZero),
        other => panic!("unexpected outcome {:?}", other),
    }
    let ast = vec![expr_stmt(bin(boolean(true), BinaryOperator::Sub, num(1)))];
    match run_compile(&ast, FUEL) {
        Err(f) => {
            assert_eq!(f.exit_code(), 3);
            assert!(matches!(f, Failure::Runtime(RuntimeError::ExpectedNumber)));
        },
        other => panic!("unexpected outcome {:?}", other),
    }
    let ast = vec![fn_stmt(FOO, vec![X], var(X)), expr_stmt(call(var(FOO), vec![]))];
    assert!(matches!(run_compile(&ast, FUEL), Err(Failure::Runtime(RuntimeError::WrongArity))));
    let ast = vec![expr_stmt(ex(ExprKind::While { condition: boolean(true), body: block(vec![], None) }))];
    assert!(matches!(run_compile(&ast, FUEL), Err(Failure::Runtime(RuntimeError::StepLimit))));
}

#[test]
fn generation_rejects_classes() {
    let ast = vec![Stmt::new(
        StmtKind::ClassDeclaration { name: FOO, superclass: None, methods: vec![] },
        sp(0, 0),
    )];
    assert!(analyze(&ast).is_ok());
    assert_eq!(generate(&ast).unwrap_err(), GenError::Unsupported);
    match run_compile(&ast, FUEL) {
        Err(f) => assert_eq!(f.exit_code(), 2),
        Ok(_) => panic!("classes are not lowered"),
    }
}

#[test]
fn capture_through_two_functions() {
    // fn outer() { let c = 5; fn mid() { fn inner() => c; inner() } mid() } outer();
    let inner = fn_stmt(INC, vec![], var(C));
    let mid = fn_stmt(FOO, vec![], block(vec![inner], Some(call(var(INC), vec![]))));
    let outer = fn_stmt(
        MAKE,
        vec![],
        block(vec![let_stmt(C, num(5)), mid], Some(call(var(FOO), vec![]))),
    );
    let ast = vec![outer, expr_stmt(call(var(MAKE), vec![]))];
    let p = compile(&ast);
    let by_name = |n: Symbol| p.globals.iter().map(|g| g.as_function()).find(|f| f.name == Some(n)).unwrap();
    let mid_fn = by_name(FOO);
    let inner_fn = by_name(INC);
    assert_eq!(mid_fn.upvalues.len(), 1);
    assert!(mid_fn.upvalues[0].is_local);
    assert_eq!(inner_fn.upvalues.len(), 1);
    assert!(!inner_fn.upvalues[0].is_local);
    assert_eq!(inner_fn.upvalues[0].upvalue_index, 0);
    assert_eq!(run_to_end(&ast).0, RuntimeValue::Number(5));
}

#[test]
fn native_names_are_defined() {
    const PRINT: Symbol = 40;
    let ast = vec![expr_stmt(call(var(PRINT), vec![num(1)]))];
    assert_eq!(first_cause(&ast), ErrorCause::NotDefined);
    let mut analyzer = Analyzer::with_globals(&vec![PRINT]);
    assert!(analyzer.analyze(&ast).is_ok());
}

#[test]
fn closure_outlives_its_frame() {
    // fn make() { let c = 0; fn inc() => c = c + 1; inc } let f = make(); f(); f();
    let inc = fn_stmt(
        INC,
        vec![],
        ex(ExprKind::Assignment { target: C, value: bin(var(C), BinaryOperator::Add, num(1)) }),
    );
    let make = fn_stmt(MAKE, vec![], block(vec![let_stmt(C, num(0)), inc], Some(var(INC))));
    let ast = vec![
        make,
        let_stmt(X, call(var(MAKE), vec![])),
        expr_stmt(call(var(X), vec![])),
        expr_stmt(call(var(X), vec![])),
    ];
    assert_eq!(run_to_end(&ast).0, RuntimeValue::Number(2));
}

#[test]
fn closure_made_in_a_block_keeps_its_variable() {
    // let f = { let c = 10; fn get() => c; get }; let d = 99; f();
    let get = fn_stmt(INC, vec![], var(C));
    let ast = vec![
        let_stmt(X, block(vec![let_stmt(C, num(10)), get], Some(var(INC)))),
        let_stmt(Y, num(99)),
        expr_stmt(call(var(X), vec![])),
    ];
    assert_eq!(run_to_end(&ast).0, RuntimeValue::Number(10));
}

#[test]
fn block_counts_only_declared_locals() {
    // { 1; }
    let ast = vec![expr_stmt(block(vec![expr_stmt(num(1))], None))];
    let (ops, _) = root_code(&ast);
    assert_eq!(ops, vec![Opcode::Constant(0), Opcode::Pop, Opcode::Null, Opcode::Block(0)]);
    // { let x = 1; 2; let y = 3; x + y }
    let ast = vec![expr_stmt(block(
        vec![let_stmt(X, num(1)), expr_stmt(num(2)), let_stmt(Y, num(3))],
        Some(bin(var(X), BinaryOperator::Add, var(Y))),
    ))];
    let (ops, _) = root_code(&ast);
    assert_eq!(ops.last(), Some(&Opcode::Block(2)));
    assert_eq!(run_to_end(&ast), (RuntimeValue::Number(4), 1));
}

#[test]
fn loop_body_block_discards_nothing_undeclared() {
    // let i = 0; while (i < 3) { i = i + 1; } i;
    let body = block(
        vec![expr_stmt(ex(ExprKind::Assignment { target: I, value: bin(var(I), BinaryOperator::Add, num(1)) }))],
        None,
    );
    let ast = vec![
        let_stmt(I, num(0)),
        expr_stmt(ex(ExprKind::While { condition: bin(var(I), BinaryOperator::Lt, num(3)), body })),
        expr_stmt(var(I)),
    ];
    let (ops, _) = root_code(&ast);
    assert!(ops.contains(&Opcode::Block(0)));
    assert!(!ops.contains(&Opcode::Block(1)));
    assert_eq!(run_to_end(&ast), (RuntimeValue::Number(3), 2));
}
