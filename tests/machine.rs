use gravitas::chunk::{chunk_into_rows, Address, Chunk, ChunkRow, Constant, PooledConstant};
use gravitas::token::{Affix, Token};
use gravitas::opcode::Opcode;
use gravitas::program::Program;
use gravitas::vm::{run, RuntimeError, RuntimeValue, VM};

fn program_of(opcodes: Vec<Opcode>, constants: Vec<Constant>) -> Program {
    Program { root: Chunk::new(opcodes, constants), globals: vec![] }
}

#[test]
fn read_from_chunk() {
    let chunk = Chunk {
        opcodes: vec![],
        constants: vec![Constant::Number(10), Constant::Bool(false), Constant::Bool(true)],
    };
    assert_eq!(chunk.read(0), Constant::Number(10));
    assert_eq!(chunk.read(1), Constant::Bool(false));
    assert_eq!(chunk.read(2), Constant::Bool(true));
}

#[test]
fn write_to_chunk() {
    let mut chunk = Chunk::empty();
    assert_eq!(chunk.write_constant(Constant::Bool(true)), 0);
    assert_eq!(chunk.write_constant(Constant::Number(32)), 1);
    assert_eq!(chunk.write_constant(Constant::Bool(false)), 2);
    assert_eq!(chunk.opcodes, vec![Opcode::Constant(0), Opcode::Constant(1), Opcode::Constant(2)]);
}

#[test]
fn write_and_read_opcodes() {
    let mut chunk = Chunk::empty();
    let first = chunk.write_opcode(Opcode::Add);
    assert_eq!(first, 0);
    assert_eq!(chunk.read_opcode(0), chunk.read_opcode(first));
    assert_eq!(chunk.read_opcode(0), Opcode::Add);
    assert_eq!(chunk.read_opcode(first), Opcode::Add);
    assert_eq!(chunk.opcodes_len(), 1);
}

#[test]
fn it_patches_opcodes() {
    let mut chunk = Chunk::empty();
    let index = chunk.write_opcode(Opcode::Jif(0));
    assert_eq!(index, 0);
    // Adding some opcodes to the chunk
    chunk.write_opcode(Opcode::Add);
    chunk.write_opcode(Opcode::Get);
    // We added some codes but the patched opcode remain the same
    assert_eq!(chunk.opcodes[index], Opcode::Jif(0));
    chunk.patch(index);
    // After the patch the jump skips the two new opcodes
    assert_eq!(chunk.opcodes[index], Opcode::Jif(2));
}

#[test]
fn patch_keeps_the_kind_of_jump() {
    assert_eq!(Opcode::Jp(0).patch(-4), Opcode::Jp(-4));
    assert_eq!(Opcode::Break(1).patch(7), Opcode::Break(7));
    assert_eq!(Opcode::Jif(3).patch(0), Opcode::Jif(0));
}

#[test]
fn patched_jump_lands_on_its_target() {
    // Jif at 1 patched to the end (index 4) skips the three pushes.
    let mut chunk = Chunk::empty();
    chunk.write_opcode(Opcode::False);
    let k = chunk.write_opcode(Opcode::Jif(0));
    chunk.write_opcode(Opcode::True);
    chunk.write_opcode(Opcode::True);
    chunk.write_opcode(Opcode::True);
    chunk.patch(k);
    let mut vm = VM::new(Program { root: chunk, globals: vec![] });
    assert_eq!(vm.step(), None);
    assert_eq!(vm.step(), None);
    assert_eq!(vm.ip(), Some(5));
    assert_eq!(vm.stack_len(), 0);
}

#[test]
fn op_jif() {
    let code = program_of(
        vec![Opcode::Constant(0), Opcode::Constant(1), Opcode::Jif(3)],
        vec![Constant::Number(127), Constant::Bool(false)],
    );
    let mut vm = VM::new(code);
    assert_eq!(vm.ip(), Some(0));
    assert_eq!(vm.run(100), Ok(RuntimeValue::Number(127)));
    // the jump at 2 leaves the pointer at 3 and moves it by 3 more
    assert_eq!(vm.ip(), Some(6));
}

#[test]
fn op_jf() {
    let code = program_of(vec![Opcode::Constant(0), Opcode::Jp(10)], vec![Constant::Number(127)]);
    let mut vm = VM::new(code);
    assert_eq!(vm.ip(), Some(0));
    assert_eq!(vm.run(100), Ok(RuntimeValue::Number(127)));
    assert_eq!(vm.ip(), Some(12));
}

#[test]
fn block_opcode_discards_slots_below_the_value() {
    let code = program_of(
        vec![Opcode::True, Opcode::True, Opcode::True, Opcode::Null, Opcode::Block(2)],
        vec![],
    );
    let mut vm = VM::new(code);
    for _ in 0..4 {
        assert_eq!(vm.step(), None);
    }
    assert_eq!(vm.stack_len(), 4);
    assert_eq!(vm.step(), None);
    assert_eq!(vm.stack_len(), 2);
    assert_eq!(vm.run(10), Ok(RuntimeValue::Null));
}

#[test]
fn standard_values_into_bool() {
    // We don't treat 0 or negative numbers as falsy values.
    assert!(RuntimeValue::Number(0).is_truthy());
    assert!(RuntimeValue::Number(-1).is_truthy());
    assert!(RuntimeValue::Bool(true).is_truthy());
    assert!(!RuntimeValue::Bool(false).is_truthy());
    assert!(!RuntimeValue::Null.is_truthy());
}

#[test]
fn fail_value_negation() {
    let negate = |c: Constant| run(program_of(vec![Opcode::Constant(0), Opcode::Negate], vec![c]), 10);
    assert_eq!(negate(Constant::Bool(false)), Err(RuntimeError::ExpectedNumber));
    assert_eq!(negate(Constant::Bool(true)), Err(RuntimeError::ExpectedNumber));
    assert_eq!(negate(Constant::Number(5)), Ok(RuntimeValue::Number(-5)));
    assert_eq!(negate(Constant::MemoryAddress(Address::Local(0))), Err(RuntimeError::ExpectedNumber));
    assert_eq!(negate(Constant::MemoryAddress(Address::Global(3))), Err(RuntimeError::ExpectedNumber));
    assert_eq!(negate(Constant::Number(i64::MIN)), Err(RuntimeError::Overflow));
    assert_eq!(run(program_of(vec![Opcode::Null, Opcode::Negate], vec![]), 10), Err(RuntimeError::ExpectedNumber));
}

#[test]
fn arithmetic_opcodes() {
    let op = |a: i64, o: Opcode, b: i64| {
        run(program_of(vec![Opcode::Constant(0), Opcode::Constant(1), o], vec![Constant::Number(a), Constant::Number(b)]), 10)
    };
    assert_eq!(op(7, Opcode::Sub, 10), Ok(RuntimeValue::Number(-3)));
    assert_eq!(op(-7, Opcode::Div, 2), Ok(RuntimeValue::Number(-3)));
    assert_eq!(op(-7, Opcode::Mod, 2), Ok(RuntimeValue::Number(-1)));
    assert_eq!(op(7, Opcode::Mod, 0), Err(RuntimeError::DivisionByZero));
    assert_eq!(op(i64::MAX, Opcode::Add, 1), Err(RuntimeError::Overflow));
    assert_eq!(op(2, Opcode::Le, 2), Ok(RuntimeValue::Bool(true)));
    assert_eq!(op(2, Opcode::Neq, 2), Ok(RuntimeValue::Bool(false)));
    assert_eq!(run(program_of(vec![Opcode::Add], vec![]), 10), Err(RuntimeError::StackUnderflow));
    assert_eq!(run(program_of(vec![Opcode::Constant(3)], vec![]), 10), Err(RuntimeError::OutOfBounds));
    assert_eq!(run(program_of(vec![], vec![]), 10), Ok(RuntimeValue::Null));
}

#[test]
fn runtime_value_accessors() {
    assert_eq!(RuntimeValue::GlobalPointer(3).as_global_pointer(), 3);
    assert_eq!(RuntimeValue::HeapPointer(4).as_heap_pointer(), 4);
    assert_eq!(RuntimeValue::MemoryAddress(Address::Local(2)).as_address(), Address::Local(2));
    assert_eq!(RuntimeValue::String(9).as_string(), 9);
    assert_eq!(RuntimeValue::from_constant(Constant::Number(8)), RuntimeValue::Number(8));
}

#[test]
fn finds_rule() {
    assert_eq!(Token::Minus.bp(Affix::Infix), 5);
    assert_eq!(Token::Minus.bp(Affix::Prefix), 7);
    assert_eq!(Token::Error.bp(Affix::Prefix), 0);
    assert!(Token::Star.bp(Affix::Infix) > Token::Plus.bp(Affix::Infix));
    assert!(Token::Function.is_stmt());
    assert!(!Token::Plus.is_stmt());
}

#[test]
fn chunk_listing_has_a_row_per_instruction() {
    let chunk = Chunk::new(
        vec![Opcode::Constant(0), Opcode::Negate, Opcode::Return],
        vec![Constant::Number(10)],
    );
    let rows = chunk_into_rows(&chunk);
    assert_eq!(
        rows,
        vec![
            ChunkRow { opcode: Opcode::Constant(0), constant: Some(PooledConstant { index: 0, value: Constant::Number(10) }) },
            ChunkRow { opcode: Opcode::Negate, constant: None },
            ChunkRow { opcode: Opcode::Return, constant: None },
        ]
    );
}

#[test]
fn failed_step_leaves_the_pointer_past_the_instruction() {
    let code = program_of(vec![Opcode::True, Opcode::Constant(0), Opcode::Sub], vec![Constant::Number(1)]);
    let mut vm = VM::new(code);
    assert_eq!(vm.step(), None);
    assert_eq!(vm.step(), None);
    assert_eq!(vm.step(), Some(Err(RuntimeError::ExpectedNumber)));
    assert_eq!(vm.ip(), Some(3));
    let mut vm = VM::new(program_of(vec![Opcode::Jif(0)], vec![]));
    assert_eq!(vm.step(), Some(Err(RuntimeError::StackUnderflow)));
    assert_eq!(vm.ip(), Some(1));
}
