use rlox::{
    compile, raise, Backpatch, Backpatcher, ChunkBuilder, Declaration, ErrorCode, Expression, FunctionBuilder, Heap,
    InfixPrecedence, Instruction, JumpKind, Literal, Span, Spanned, Stack, Statement, Step, Value,
    VirtualMachine,
};

#[test]
fn define_reuses_index_for_equal_values() {
    let mut chunk = ChunkBuilder::new();
    let a = chunk.define(Value::Number(1.5f64.to_bits()));
    let b = chunk.define(Value::Boolean(true));
    let c = chunk.define(Value::Number(1.5f64.to_bits()));
    assert_eq!(a, 0);
    assert_eq!(b, 1);
    assert_eq!(c, a);
    assert_eq!(chunk.constants.len(), 2);
    assert_eq!(chunk.constants[a], Value::Number(1.5f64.to_bits()));
}

#[test]
fn interning_shares_handles() {
    let mut heap = Heap::new();
    let a = heap.spawn_string("hello".to_string());
    let b = heap.spawn_string("world".to_string());
    let c = heap.spawn_string("hello".to_string());
    assert_eq!(a, c);
    assert_ne!(a, b);
    assert_eq!(heap.string(a), "hello");
    assert_eq!(heap.string(b), "world");
}

#[test]
fn equal_string_literals_share_pool_index() {
    let mut heap = Heap::new();
    let mut chunk = ChunkBuilder::new();
    let first = heap.spawn_string("k".to_string());
    let i = chunk.define(Value::String(first));
    let second = heap.spawn_string("k".to_string());
    let j = chunk.define(Value::String(second));
    assert_eq!(i, j);
}

#[test]
fn backpatch_sets_offset_from_jump_index() {
    let mut chunk = ChunkBuilder::new();
    chunk.write(Instruction::True, Span::new(0, 4));
    let patch: Backpatcher = chunk.append_backpatch(JumpKind::JumpIfFalse);
    assert_eq!(patch.index, 1);
    assert_eq!(chunk.instructions[1], Instruction::JumpIfFalse(0));
    chunk.append(Instruction::Pop);
    chunk.append(Instruction::Nil);
    patch.backpatch(&mut chunk);
    assert_eq!(chunk.instructions[1], Instruction::JumpIfFalse(3));
    let back = chunk.append_backpatch(JumpKind::Jump);
    back.backpatch_by(&mut chunk, 0);
    assert_eq!(chunk.instructions[4], Instruction::Jump(-4));
    assert_eq!(chunk.len(), 5);
}

#[test]
fn append_reuses_last_span() {
    let mut chunk = ChunkBuilder::new();
    chunk.append(Instruction::Nil);
    chunk.write(Instruction::True, Span::new(3, 7));
    chunk.append(Instruction::Pop);
    assert_eq!(chunk.spans, vec![Span::new(0, 0), Span::new(3, 7), Span::new(3, 7)]);
    assert_eq!(chunk.spans.len(), chunk.instructions.len());
}

#[test]
fn stack_reports_overflow_and_underflow() {
    let mut stack: Stack<u8, 2> = Stack::new();
    assert!(stack.push(1, Span::new(0, 1)).is_ok());
    assert!(stack.push(2, Span::new(0, 1)).is_ok());
    let d = stack.push(3, Span::new(5, 6)).unwrap_err();
    assert_eq!(d.code, ErrorCode::StackOverflow);
    assert_eq!(d.span, Span::new(5, 6));
    assert_eq!(stack.len(), 2);
    assert_eq!(stack.pop(Span::new(0, 0)).unwrap(), 2);
    assert_eq!(stack.try_pop(), Some(1));
    assert_eq!(stack.try_pop(), None);
    let d = stack.pop(Span::new(8, 9)).unwrap_err();
    assert_eq!(d.code, ErrorCode::StackUnderflow);
}

#[test]
fn error_codes_have_fixed_text() {
    assert_eq!(ErrorCode::UnrecognizedToken.code(), "E0001");
    assert_eq!(ErrorCode::InvalidIdentifier.code(), "E0010");
    assert_eq!(ErrorCode::ArityMismatch.code(), "E0016");
    assert_eq!(ErrorCode::UndefinedVariable.message(), "Undefined variable");
    let d = raise(ErrorCode::StackUnderflow, Span::new(1, 2));
    assert_eq!(d.code, ErrorCode::StackUnderflow);
    assert!(d.notes.is_empty());
}

#[test]
fn precedence_increases_to_impossible() {
    assert_eq!(InfixPrecedence::Assignment.increase(), InfixPrecedence::ConditionalOr);
    assert_eq!(InfixPrecedence::Property.increase(), InfixPrecedence::Impossible);
    assert_eq!(InfixPrecedence::Impossible.increase(), InfixPrecedence::Impossible);
    assert_eq!(InfixPrecedence::Multiplicative.level(), 7);
}

fn run_built(builder: FunctionBuilder, heap: Heap) -> Result<Step, rlox::Diagnostic> {
    let mut vm = VirtualMachine::new(heap, builder.build());
    loop {
        match vm.step() {
            Ok(Step::Continue) => {}
            other => return other,
        }
    }
}

#[test]
fn defining_a_global_with_a_non_string_name_fails() {
    let mut builder = FunctionBuilder::new();
    builder.chunk.write(Instruction::Nil, Span::new(0, 1));
    builder.chunk.append(Instruction::Nil);
    builder.chunk.write(Instruction::DefineGlobal, Span::new(2, 3));
    builder.chunk.append(Instruction::Return);
    let d = run_built(builder, Heap::new()).unwrap_err();
    assert_eq!(d.code, ErrorCode::InvalidIdentifier);
    assert_eq!(d.span, Span::new(2, 3));
}

#[test]
fn popping_an_empty_stack_underflows() {
    let mut builder = FunctionBuilder::new();
    builder.chunk.write(Instruction::Pop, Span::new(4, 5));
    builder.chunk.append(Instruction::Return);
    let d = run_built(builder, Heap::new()).unwrap_err();
    assert_eq!(d.code, ErrorCode::StackUnderflow);
    assert_eq!(d.code.code(), "E0007");
}

#[test]
fn reading_a_missing_local_underflows() {
    let mut builder = FunctionBuilder::new();
    builder.chunk.write(Instruction::GetLocal(0), Span::new(0, 1));
    builder.chunk.append(Instruction::Return);
    let d = run_built(builder, Heap::new()).unwrap_err();
    assert_eq!(d.code, ErrorCode::StackUnderflow);
}

#[test]
fn define_global_adds_exactly_one() {
    let mut heap = Heap::new();
    let name = Spanned::new("a".to_string(), Span::new(4, 5));
    let init = Expression::Literal(Spanned::new(Literal::Boolean(true), Span::new(8, 12)));
    let program = vec![Declaration::Var { name, initializer: Some(init) }];
    let function = compile(&mut heap, program).unwrap();
    let mut vm = VirtualMachine::new(heap, function);
    assert_eq!(vm.globals_len(), 0);
    loop {
        match vm.step().unwrap() {
            Step::Halted => break,
            _ => {}
        }
    }
    assert_eq!(vm.globals_len(), 1);
    assert!(vm.halted());
}

#[test]
fn compiled_script_ends_with_nil_and_return() {
    let mut heap = Heap::new();
    let print = Statement::Print(Expression::Literal(Spanned::new(Literal::Nil, Span::new(6, 9))));
    let function = compile(&mut heap, vec![Declaration::Statement(print)]).unwrap();
    let chunk = function.chunk();
    assert_eq!(chunk.len(), 4);
    assert_eq!(chunk.instruction(0), Instruction::Nil);
    assert_eq!(chunk.instruction(1), Instruction::Print);
    assert_eq!(chunk.instruction(2), Instruction::Nil);
    assert_eq!(chunk.instruction(3), Instruction::Return);
    assert_eq!(chunk.spans().len(), 4);
    assert_eq!(chunk.span(0), Span::new(6, 9));
    assert_eq!(function.arity(), 0);
}

#[test]
fn equal_number_literals_share_pool_index() {
    let mut heap = Heap::new();
    let number = |s: usize| Expression::Literal(Spanned::new(Literal::Number(2f64.to_bits()), Span::new(s, s + 1)));
    let program = vec![
        Declaration::Statement(Statement::Print(number(6))),
        Declaration::Statement(Statement::Print(number(15))),
    ];
    let function = compile(&mut heap, program).unwrap();
    let chunk = function.chunk();
    assert_eq!(chunk.instruction(0), Instruction::LoadConstant(0));
    assert_eq!(chunk.instruction(2), Instruction::LoadConstant(0));
    assert_eq!(chunk.constants().len(), 1);
    assert_eq!(chunk.constant(0), Value::Number(2f64.to_bits()));
}
