use vstd::prelude::*;
use crate::ast::{
    assignment_parts, assignable, declaration_supported, expression_supported, statement_supported,
    BinaryOperator, Declaration, Expression, ForLoopInitializer, Literal, Statement, UnaryOperator,
    declaration_compiles, expression_compiles, statement_compiles,
};
use crate::chunk::{Backpatch, ChunkBuilder, JumpKind};
use crate::diagnostic::{Diagnostic, ErrorCode, raise};
use crate::function::{Function, FunctionBuilder};
use crate::heap::Heap;
use crate::instruction::Instruction;
use crate::lowering::{
    Emit, lemma_resolves_concat, lemma_resolves_grow, lemma_resolves_update, lemma_slot_of, lower_decl,
    lower_decls, lower_expr, lower_literal, lower_program, lower_stmt, lower_store, lower_args, operator_emits, pops,
    resolves, slot_of,
};
use crate::span::{Span, Spanned};
use crate::value::{Reference, Value};

verus! {

/// A local variable in scope: its name and the block depth it was declared at.
pub struct Local {
    pub name: String,
    pub depth: usize,
}

/// Scope marks never decrease and none exceeds the number of locals.
pub open spec fn scopes_wf(scopes: Seq<usize>, locals_len: nat) -> bool {
    &&& forall|k: int| 0 <= k < scopes.len() ==> #[trigger] scopes[k] <= locals_len
    &&& forall|i: int, j: int| 0 <= i <= j < scopes.len() ==> scopes[i] <= scopes[j]
}

/// Each local's depth is the number of open blocks it was declared within:
/// at most the depth, and above `j` exactly when the local comes at or after
/// the mark of block `j`.
pub open spec fn depths_match(locals: Seq<Local>, scopes: Seq<usize>) -> bool {
    &&& forall|k: int| 0 <= k < locals.len() ==> #[trigger] locals[k].depth <= scopes.len()
    &&& forall|j: int, k: int|
        #![trigger scopes[j], locals[k]]
        0 <= j < scopes.len() && 0 <= k < locals.len() ==> (k >= scopes[j] <==> locals[k].depth > j)
}

/// `code[j]` and `code[j + 1]` hold the test of `A and B` whose code ends at
/// `end`: a conditional jump to `end`, then `Pop`.
pub open spec fn and_shape(code: Seq<Instruction>, j: int, end: int) -> bool {
    &&& 0 <= j
    &&& j + 1 < end <= code.len()
    &&& code[j] == Instruction::JumpIfFalse((end - j) as isize)
    &&& code[j + 1] == Instruction::Pop
}

/// `code[j]` to `code[j + 2]` hold the test of `A or B` whose code ends at
/// `end`: a conditional jump over the next instruction, a jump to `end`, then `Pop`.
pub open spec fn or_shape(code: Seq<Instruction>, j: int, end: int) -> bool {
    &&& 0 <= j
    &&& j + 2 < end <= code.len()
    &&& code[j] == Instruction::JumpIfFalse(2)
    &&& code[j + 1] == Instruction::Jump((end - (j + 1)) as isize)
    &&& code[j + 2] == Instruction::Pop
}

/// The codes a compilation can fail with: an invalid assignment target
/// (`E0013`), an invalid callee (`E0014`), or a construct without bytecode
/// (`E0005`: a class, a property access, `this`, `super`).
pub open spec fn lowering_failure(c: ErrorCode) -> bool {
    c == ErrorCode::InvalidAssignmentTarget || c == ErrorCode::InvalidCallee || c == ErrorCode::UnexpectedToken
}

/// The codes a compilation of supported source can fail with: an invalid
/// assignment target (`E0013`) or an invalid callee (`E0014`).
pub open spec fn supported_failure(c: ErrorCode) -> bool {
    c == ErrorCode::InvalidAssignmentTarget || c == ErrorCode::InvalidCallee
}

/// The names of a function's parameters, in order.
pub open spec fn parameter_names(parameters: Seq<Spanned<String>>) -> Seq<Seq<char>> {
    parameters.map_values(|p: Spanned<String>| p.value@)
}

/// Lowers declarations into the code of one function.
///
/// `scopes` holds, for each open block, the number of locals when it was
/// entered; the block depth is the number of open blocks.
pub struct Compiler {
    pub function: FunctionBuilder,
    pub locals: Vec<Local>,
    pub scopes: Vec<usize>,
}

/// The code of `c` appended since `old`.
pub open spec fn emitted(c: &Compiler, old: &Compiler) -> Seq<Instruction> {
    c.code().subrange(old.code().len() as int, c.code().len() as int)
}

/// The code of `c` appended since `old` is the lowering `e`, over the pool of
/// `c` and the strings of `heap`.
pub open spec fn resolved(c: &Compiler, old: &Compiler, e: Seq<Emit>, heap: &Heap) -> bool {
    resolves(emitted(c, old), e, c.function.chunk.constants@, heap.strings())
}

/// Two pieces of code, one after the other, resolve to their lowerings joined.
pub proof fn lemma_chain(a: &Compiler, b: &Compiler, c: &Compiler, hb: &Heap, hc: &Heap, e1: Seq<Emit>, e2: Seq<Emit>)
    requires
        b.function.chunk.extends(&a.function.chunk),
        c.function.chunk.extends(&b.function.chunk),
        hc.extends(hb),
        resolved(b, a, e1, hb),
        resolved(c, b, e2, hc),
    ensures
        resolved(c, a, e1 + e2, hc),
        c.function.chunk.extends(&a.function.chunk),
{
    lemma_resolves_grow(emitted(b, a), e1, b.function.chunk.constants@, hb.strings(), c.function.chunk.constants@, hc.strings());
    assert(emitted(c, a) =~= emitted(b, a) + emitted(c, b));
    lemma_resolves_concat(emitted(b, a), e1, emitted(c, b), e2, c.function.chunk.constants@, hc.strings());
}

/// One instruction appended resolves to itself.
pub proof fn lemma_push(a: &Compiler, b: &Compiler, h: &Heap, x: Instruction)
    requires
        b.code() == a.code().push(x),
    ensures
        resolved(b, a, seq![Emit::Op(x)], h),
{
    assert(emitted(b, a) =~= seq![x]);
}

/// Instructions appended as they stand resolve to themselves.
pub proof fn lemma_ops(a: &Compiler, b: &Compiler, h: &Heap, xs: Seq<Instruction>)
    requires
        b.code() == a.code() + xs,
    ensures
        resolved(b, a, xs.map_values(|i: Instruction| Emit::Op(i)), h),
{
    assert(emitted(b, a) =~= xs);
}

/// Nothing appended resolves to nothing.
pub proof fn lemma_nothing(a: &Compiler, b: &Compiler, h: &Heap)
    requires
        b.code() == a.code(),
    ensures
        resolved(b, a, seq![], h),
{
    assert(emitted(b, a) =~= seq![]);
}

/// A resolved piece followed by one instruction resolves to its lowering
/// followed by that instruction.
pub proof fn lemma_then_op(a: &Compiler, b: &Compiler, c: &Compiler, h: &Heap, e: Seq<Emit>, x: Instruction)
    requires
        resolved(b, a, e, h),
        b.function.chunk.extends(&a.function.chunk),
        c.function.chunk.extends(&b.function.chunk),
        c.code() == b.code().push(x),
    ensures
        resolved(c, a, e.push(Emit::Op(x)), h),
        c.function.chunk.extends(&a.function.chunk),
{
    lemma_push(b, c, h, x);
    lemma_chain(a, b, c, h, h, e, seq![Emit::Op(x)]);
    assert(e + seq![Emit::Op(x)] =~= e.push(Emit::Op(x)));
}

/// Filling in the placeholder at `idx` of a resolved piece fills in its emit.
pub proof fn lemma_patch(a: &Compiler, b: &Compiler, c: &Compiler, h: &Heap, es: Seq<Emit>, idx: int, x: Instruction)
    requires
        resolved(b, a, es, h),
        a.code().len() <= b.code().len(),
        0 <= idx < es.len(),
        c.code() == b.code().update(a.code().len() + idx, x),
        c.function.chunk.constants@ == b.function.chunk.constants@,
    ensures
        resolved(c, a, es.update(idx, Emit::Op(x)), h),
{
    assert(emitted(c, a) =~= emitted(b, a).update(idx, x));
    lemma_resolves_update(emitted(b, a), es, b.function.chunk.constants@, h.strings(), idx, x);
}

/// The span that identifies an expression in a diagnostic.
pub fn expression_span(e: &Expression) -> (r: Span)
    decreases e,
{
    match e {
        Expression::Assignment { span, .. } => *span,
        Expression::Binary { operator, .. } => operator.span,
        Expression::Unary { operator, .. } => operator.span,
        Expression::Invocation { expression, .. } => expression_span(expression),
        Expression::Literal(l) => l.span,
    }
}

impl Compiler {
    pub open spec fn wf(&self) -> bool {
        &&& self.function.chunk.wf()
        &&& scopes_wf(self.scopes@, self.locals@.len())
        &&& depths_match(self.locals@, self.scopes@)
    }

    /// The code of `self` extends that of `old`, with the same locals and scopes.
    pub open spec fn grows(&self, old: &Compiler) -> bool {
        &&& self.function.chunk.extends(&old.function.chunk)
        &&& self.locals@ == old.locals@
        &&& self.scopes@ == old.scopes@
    }

    /// The state after emitting code from `old` with heap `old_heap`: both stay
    /// well formed, the heap keeps what it held, the pool refers only to heap
    /// allocations, and the code was only appended to.
    pub open spec fn after_code(&self, old: &Compiler, heap: &Heap, old_heap: &Heap) -> bool {
        &&& self.wf()
        &&& heap.wf()
        &&& heap.extends(old_heap)
        &&& heap.pool_in(self.function.chunk.constants@)
        &&& self.function.chunk.extends(&old.function.chunk)
        &&& self.function.arity == old.function.arity
        &&& self.function.name == old.function.name
    }

    /// As `after_code`, with the locals and the scopes unchanged.
    pub open spec fn after(&self, old: &Compiler, heap: &Heap, old_heap: &Heap) -> bool {
        &&& self.after_code(old, heap, old_heap)
        &&& self.locals@ == old.locals@
        &&& self.scopes@ == old.scopes@
    }

    /// The compiler and the heap may be used together.
    pub open spec fn ready(&self, heap: &Heap) -> bool {
        &&& self.wf()
        &&& heap.wf()
        &&& heap.pool_in(self.function.chunk.constants@)
    }

    /// The names of the locals in scope, from the bottom slot up.
    pub open spec fn names(&self) -> Seq<Seq<char>> {
        self.locals@.map_values(|l: Local| l.name@)
    }

    pub open spec fn code(&self) -> Seq<Instruction> {
        self.function.chunk.instructions@
    }

    /// A compiler for the top-level script.
    pub fn new() -> (r: Compiler)
        ensures
            r.wf(),
            r.code().len() == 0,
            r.locals@.len() == 0,
            r.scopes@.len() == 0,
            r.function.arity == 0,
            r.function.chunk.constants@.len() == 0,
    {
        Compiler { function: FunctionBuilder::new(), locals: Vec::new(), scopes: Vec::new() }
    }

    /// The slot of the innermost local named `name`: its position from the bottom.
    pub fn search_local(&self, name: &String) -> (r: Option<usize>)
        ensures
            r matches Some(k) ==> slot_of(self.names(), name@) == Some(k as int),
            r is None ==> slot_of(self.names(), name@) is None,
    {
        let ghost names = self.names();
        proof {
            lemma_slot_of(names, name@);
        }
        let mut i: usize = self.locals.len();
        while i > 0
            invariant
                i <= self.locals@.len(),
                names == self.names(),
                slot_of(names, name@) matches Some(k) ==> 0 <= k < names.len() && names[k] == name@ && forall|j: int|
                    k < j < names.len() ==> #[trigger] names[j] != name@,
                slot_of(names, name@) is None ==> forall|j: int| 0 <= j < names.len() ==> #[trigger] names[j] != name@,
                forall|j: int| i <= j < names.len() ==> #[trigger] names[j] != name@,
            decreases i,
        {
            if self.locals[i - 1].name == *name {
                proof {
                    assert(names[i - 1] == name@);
                }
                return Some(i - 1);
            }
            proof {
                assert(names[i - 1] != name@);
            }
            i = i - 1;
        }
        None
    }

    /// Enters a block, marking the locals declared so far.
    pub fn begin_scope(&mut self)
        requires
            old(self).wf(),
        ensures
            final(self).wf(),
            final(self).function == old(self).function,
            final(self).locals@ == old(self).locals@,
            final(self).scopes@ == old(self).scopes@.push(old(self).locals@.len() as usize),
    {
        let mark = self.locals.len();
        self.scopes.push(mark);
    }

    /// Leaves a block: every local declared in it, that is deeper than the
    /// depth that remains, is dropped, with a `Pop` emitted for each.
    pub fn end_scope(&mut self)
        requires
            old(self).wf(),
            old(self).scopes@.len() > 0,
        ensures
            final(self).wf(),
            final(self).scopes@ == old(self).scopes@.drop_last(),
            final(self).function.chunk.extends(&old(self).function.chunk),
            final(self).function.arity == old(self).function.arity,
            final(self).function.name == old(self).function.name,
            final(self).function.chunk.constants@ == old(self).function.chunk.constants@,
            forall|j: int|
                final(self).locals@.len() <= j < old(self).locals@.len() ==> #[trigger] old(self).locals@[j].depth
                    > final(self).scopes@.len(),
            forall|k: int|
                0 <= k < final(self).locals@.len() ==> #[trigger] final(self).locals@[k].depth
                    <= final(self).scopes@.len(),
            ({
                let n = old(self).scopes@.last() as int;
                &&& final(self).locals@ == old(self).locals@.subrange(0, n)
                &&& final(self).code() == old(self).code() + Seq::new(
                    (old(self).locals@.len() - n) as nat,
                    |i: int| Instruction::Pop,
                )
            }),
    {
        let mark = match self.scopes.pop() {
            Some(m) => m,
            None => 0,
        };
        while self.locals.len() > mark
            invariant
                self.function.chunk.wf(),
                mark == old(self).scopes@.last(),
                mark <= self.locals@.len() <= old(self).locals@.len(),
                self.scopes@ == old(self).scopes@.drop_last(),
                scopes_wf(old(self).scopes@, old(self).locals@.len()),
                self.locals@ == old(self).locals@.subrange(0, self.locals@.len() as int),
                self.function.chunk.extends(&old(self).function.chunk),
                self.function.arity == old(self).function.arity,
                self.function.name == old(self).function.name,
                self.function.chunk.constants@ == old(self).function.chunk.constants@,
                self.code() == old(self).code() + Seq::new(
                    (old(self).locals@.len() - self.locals@.len()) as nat,
                    |i: int| Instruction::Pop,
                ),
            decreases self.locals@.len(),
        {
            self.locals.pop();
            self.function.chunk.append(Instruction::Pop);
            proof {
                assert(self.code() =~= old(self).code() + Seq::new(
                    (old(self).locals@.len() - self.locals@.len()) as nat,
                    |i: int| Instruction::Pop,
                ));
            }
        }
        proof {
            let m = old(self).scopes@.len() - 1;
            assert forall|k: int| 0 <= k < self.scopes@.len() implies #[trigger] self.scopes@[k]
                <= self.locals@.len() by {
                assert(old(self).scopes@[k] <= old(self).scopes@[m]);
            }
        }
    }

    /// Emits the load of `name` as an interned string constant.
    pub fn prepare_identifier(&mut self, heap: &mut Heap, name: String, span: Span)
        requires
            old(self).ready(old(heap)),
        ensures
            forall|k: int|
                old(self).code().len() <= k < final(self).code().len() ==> #[trigger] final(self).function.chunk.spans@[k] == span,
            final(self).function.chunk.spans@[old(self).code().len() as int] == span,
            final(self).after(old(self), final(heap), old(heap)),
            final(self).code().len() == old(self).code().len() + 1,
            resolved(final(self), old(self), seq![Emit::Text(name@)], final(heap)),
            ({
                let c = final(self).code().last();
                &&& c is LoadConstant
                &&& final(self).function.chunk.constants@[c->LoadConstant_0 as int] matches Value::String(r)
                &&& r.index < final(heap).strings().len()
                &&& final(heap).strings()[r.index as int] == name@
            }),
    {
        let reference = heap.spawn_string(name);
        let index = self.function.chunk.define(Value::String(reference));
        self.function.chunk.write(Instruction::LoadConstant(index), span);
        proof {
            assert(self.code().last() == Instruction::LoadConstant(index));
            self.lemma_pool_grows(old(self), heap, old(heap));
            assert(emitted(self, old(self)) =~= seq![Instruction::LoadConstant(index)]);
        }
    }

    /// The pool stays within a heap that grew, after values of it were added.
    pub proof fn lemma_pool_grows(&self, old: &Compiler, heap: &Heap, old_heap: &Heap)
        requires
            heap.extends(old_heap),
            old_heap.pool_in(old.function.chunk.constants@),
            self.function.chunk.extends(&old.function.chunk),
            forall|i: int|
                old.function.chunk.constants@.len() <= i < self.function.chunk.constants@.len()
                    ==> heap.value_in(#[trigger] self.function.chunk.constants@[i]),
        ensures
            heap.pool_in(self.function.chunk.constants@),
    {
        crate::heap::lemma_growth_keeps_values(old_heap, heap);
        let p = self.function.chunk.constants@;
        assert forall|i: int| 0 <= i < p.len() implies #[trigger] heap.value_in(p[i]) by {
            if i < old.function.chunk.constants@.len() {
                assert(p[i] == old.function.chunk.constants@[i]);
                assert(old_heap.value_in(old.function.chunk.constants@[i]));
            }
        }
    }
}


/// The instructions that a (non-short-circuit, non-assigning) binary operator
/// lowers to; `!=`, `>=` and `<=` negate `==`, `<` and `>`.
pub open spec fn operator_code(op: BinaryOperator) -> Seq<Instruction> {
    match op {
        BinaryOperator::Add => seq![Instruction::Add],
        BinaryOperator::Subtract => seq![Instruction::Subtract],
        BinaryOperator::Multiply => seq![Instruction::Multiply],
        BinaryOperator::Divide => seq![Instruction::Divide],
        BinaryOperator::Equal => seq![Instruction::Equal],
        BinaryOperator::Greater => seq![Instruction::Greater],
        BinaryOperator::Less => seq![Instruction::Less],
        BinaryOperator::NotEqual => seq![Instruction::Equal, Instruction::Not],
        BinaryOperator::GreaterEqual => seq![Instruction::Less, Instruction::Not],
        BinaryOperator::LessEqual => seq![Instruction::Greater, Instruction::Not],
        _ => seq![],
    }
}

/// An operator that `operator_code` lowers.
pub open spec fn plain_operator(op: BinaryOperator) -> bool {
    !(op is Assign || op is And || op is Or || op is PropertyAccess)
}

impl Compiler {
    /// Emits the instructions of a plain binary operator, the first with `span`.
    pub fn compile_binary_operator(&mut self, operator: BinaryOperator, span: Span)
        requires
            old(self).wf(),
            plain_operator(operator),
        ensures
            forall|k: int|
                old(self).code().len() <= k < final(self).code().len() ==> #[trigger] final(self).function.chunk.spans@[k] == span,
            final(self).function.chunk.spans@[old(self).code().len() as int] == span,
            final(self).wf(),
            final(self).grows(old(self)),
            final(self).function.arity == old(self).function.arity,
            final(self).function.name == old(self).function.name,
            final(self).function.chunk.constants@ == old(self).function.chunk.constants@,
            final(self).code() == old(self).code() + operator_code(operator),
    {
        let chunk = &mut self.function.chunk;
        match operator {
            BinaryOperator::Add => chunk.write(Instruction::Add, span),
            BinaryOperator::Subtract => chunk.write(Instruction::Subtract, span),
            BinaryOperator::Multiply => chunk.write(Instruction::Multiply, span),
            BinaryOperator::Divide => chunk.write(Instruction::Divide, span),
            BinaryOperator::Equal => chunk.write(Instruction::Equal, span),
            BinaryOperator::Greater => chunk.write(Instruction::Greater, span),
            BinaryOperator::Less => chunk.write(Instruction::Less, span),
            BinaryOperator::NotEqual => {
                chunk.write(Instruction::Equal, span);
                chunk.append(Instruction::Not);
            },
            BinaryOperator::GreaterEqual => {
                chunk.write(Instruction::Less, span);
                chunk.append(Instruction::Not);
            },
            BinaryOperator::LessEqual => {
                chunk.write(Instruction::Greater, span);
                chunk.append(Instruction::Not);
            },
            _ => {},
        }
        proof {
            assert(self.code() =~= old(self).code() + operator_code(operator));
        }
    }

    /// Emits `Not` or `Negate` with `span`.
    pub fn compile_unary_operator(&mut self, operator: UnaryOperator, span: Span)
        requires
            old(self).wf(),
        ensures
            forall|k: int|
                old(self).code().len() <= k < final(self).code().len() ==> #[trigger] final(self).function.chunk.spans@[k] == span,
            final(self).function.chunk.spans@[old(self).code().len() as int] == span,
            final(self).wf(),
            final(self).grows(old(self)),
            final(self).function.arity == old(self).function.arity,
            final(self).function.name == old(self).function.name,
            final(self).function.chunk.constants@ == old(self).function.chunk.constants@,
            final(self).code() == old(self).code().push(
                match operator {
                    UnaryOperator::Not => Instruction::Not,
                    UnaryOperator::Negate => Instruction::Negate,
                },
            ),
    {
        match operator {
            UnaryOperator::Not => self.function.chunk.write(Instruction::Not, span),
            UnaryOperator::Negate => self.function.chunk.write(Instruction::Negate, span),
        }
    }

    /// Emits the code of a literal: a constant load, a literal instruction, or
    /// the read of a local slot or of a global by name.
    pub fn compile_literal(&mut self, heap: &mut Heap, literal: &Literal, span: Span) -> (r: Result<(), Diagnostic>)
        requires
            old(self).ready(old(heap)),
        ensures
            r is Ok ==> forall|k: int|
                old(self).code().len() <= k < final(self).code().len() ==> #[trigger] final(self).function.chunk.spans@[k] == span,
            r is Ok ==> final(self).function.chunk.spans@[old(self).code().len() as int] == span,
            r is Ok <==> !(literal is This) && !(literal is Super),
            r is Ok ==> final(self).after(old(self), final(heap), old(heap)),
            r matches Err(d) ==> d.code == ErrorCode::UnexpectedToken && d.span == span,
            r is Ok ==> resolved(final(self), old(self), lower_literal(*literal, old(self).names()), final(heap)),
    {
        match literal {
            Literal::Nil => {
                self.function.chunk.write(Instruction::Nil, span);
                proof { lemma_push(old(self), self, heap, Instruction::Nil); }
            },
            Literal::Boolean(b) => {
                if *b {
                    self.function.chunk.write(Instruction::True, span);
                    proof { lemma_push(old(self), self, heap, Instruction::True); }
                } else {
                    self.function.chunk.write(Instruction::False, span);
                    proof { lemma_push(old(self), self, heap, Instruction::False); }
                }
            },
            Literal::Number(bits) => {
                let index = self.function.chunk.define(Value::Number(*bits));
                self.function.chunk.write(Instruction::LoadConstant(index), span);
                proof {
                    self.lemma_pool_grows(old(self), heap, old(heap));
                    assert(emitted(self, old(self)) =~= seq![Instruction::LoadConstant(index)]);
                }
            },
            Literal::String(text) => {
                let reference = heap.spawn_string(text.clone());
                let index = self.function.chunk.define(Value::String(reference));
                self.function.chunk.write(Instruction::LoadConstant(index), span);
                proof {
                    self.lemma_pool_grows(old(self), heap, old(heap));
                    assert(emitted(self, old(self)) =~= seq![Instruction::LoadConstant(index)]);
                }
            },
            Literal::Identifier(name) => {
                match self.search_local(name) {
                    Some(slot) => {
                        self.function.chunk.write(Instruction::GetLocal(slot), span);
                        proof { lemma_push(old(self), self, heap, Instruction::GetLocal(slot)); }
                    },
                    None => {
                        self.prepare_identifier(heap, name.clone(), span);
                        let ghost mid = *self;
                        self.function.chunk.append(Instruction::GetGlobal);
                        proof {
                            lemma_push(&mid, self, heap, Instruction::GetGlobal);
                            lemma_chain(old(self), &mid, self, heap, heap, seq![Emit::Text(name@)], seq![Emit::Op(Instruction::GetGlobal)]);
                            assert(seq![Emit::Text(name@)] + seq![Emit::Op(Instruction::GetGlobal)] =~= lower_literal(*literal, old(self).names()));
                        }
                    },
                }
            },
            _ => {
                return Err(raise(ErrorCode::UnexpectedToken, span));
            },
        }
        Ok(())
    }
}

/// `e` assigns: an `Assignment`, or a binary `=`.
pub open spec fn is_assignment(e: Expression) -> bool {
    e is Assignment || (e matches Expression::Binary { operator, .. } && operator.value is Assign)
}

/// `e` is a binary expression with operator `op`.
pub open spec fn is_binary(e: Expression, op: BinaryOperator) -> bool {
    e matches Expression::Binary { operator, .. } && operator.value == op
}

impl Compiler {
    /// Emits the code of an expression, which leaves its value on the stack.
    pub fn compile_expression(&mut self, heap: &mut Heap, e: &Expression) -> (r: Result<(), Diagnostic>)
        requires
            old(self).ready(old(heap)),
        ensures
            expression_supported(*e) ==> (r matches Err(x) ==> supported_failure(x.code)),
            r is Ok ==> match *e {
                Expression::Binary { operator, .. } => plain_operator(operator.value) ==> final(self).function.chunk.spans@[
                    final(self).code().len() - operator_code(operator.value).len()] == operator.span,
                Expression::Unary { operator, .. } => final(self).function.chunk.spans@[final(self).code().len() - 1]
                    == operator.span,
                _ => true,
            },
            r is Ok <==> expression_compiles(*e),
            r matches Err(d) ==> lowering_failure(d.code),
            r is Ok ==> final(self).after(old(self), final(heap), old(heap)),
            r is Ok ==> resolved(final(self), old(self), lower_expr(*e, old(self).names()), final(heap)),
        decreases e, 1nat,
    {
        match e {
            Expression::Assignment { .. } => self.compile_assignment(heap, e),
            Expression::Binary { left, operator, right } => {
                match operator.value {
                    BinaryOperator::Assign => self.compile_assignment(heap, e),
                    BinaryOperator::And => self.compile_conditional_and(heap, e),
                    BinaryOperator::Or => self.compile_conditional_or(heap, e),
                    BinaryOperator::PropertyAccess => Err(
                        raise(ErrorCode::UnexpectedToken, operator.span),
                    ),
                    _ => {
                        match self.compile_expression(heap, left) {
                            Ok(()) => {},
                            Err(d) => return Err(d),
                        }
                        let ghost (s1, h1) = (*self, *heap);
                        match self.compile_expression(heap, right) {
                            Ok(()) => {},
                            Err(d) => return Err(d),
                        }
                        let ghost s2 = *self;
                        self.compile_binary_operator(operator.value, operator.span);
                        proof {
                            let names = old(self).names();
                            lemma_chain(old(self), &s1, &s2, &h1, heap, lower_expr(**left, names), lower_expr(**right, names));
                            lemma_ops(&s2, self, heap, operator_code(operator.value));
                            lemma_chain(old(self), &s2, self, heap, heap, lower_expr(**left, names) + lower_expr(**right, names), operator_emits(operator.value));
                        }
                        Ok(())
                    },
                }
            },
            Expression::Unary { operator, expression } => {
                match self.compile_expression(heap, expression) {
                    Ok(()) => {},
                    Err(d) => return Err(d),
                }
                let ghost s1 = *self;
                self.compile_unary_operator(operator.value, operator.span);
                proof {
                    let x = match operator.value {
                        UnaryOperator::Not => Instruction::Not,
                        UnaryOperator::Negate => Instruction::Negate,
                    };
                    lemma_push(&s1, self, heap, x);
                    lemma_chain(old(self), &s1, self, heap, heap, lower_expr(**expression, old(self).names()), seq![Emit::Op(x)]);
                }
                Ok(())
            },
            Expression::Invocation { .. } => self.compile_invocation(heap, e),
            Expression::Literal(l) => self.compile_literal(heap, &l.value, l.span),
        }
    }

    /// Emits an assignment: the value, then `SetLocal` of the innermost local
    /// of that name, or the name and `SetGlobal`. The value stays on the stack.
    pub fn compile_assignment(&mut self, heap: &mut Heap, e: &Expression) -> (r: Result<(), Diagnostic>)
        requires
            old(self).ready(old(heap)),
            is_assignment(*e),
        ensures
            expression_compiles(assignment_parts(*e).0) && !assignable(assignment_parts(*e).1) ==> (r matches Err(d)
                && d.code == ErrorCode::InvalidAssignmentTarget),
            expression_supported(*e) ==> (r matches Err(x) ==> supported_failure(x.code)),
            r is Ok <==> expression_compiles(*e),
            r matches Err(d) ==> lowering_failure(d.code),
            r is Ok ==> final(self).after(old(self), final(heap), old(heap)),
            r matches Err(d) ==> expression_compiles(*e) == false,
            r is Ok ==> resolved(final(self), old(self), lower_expr(*e, old(self).names()), final(heap)),
        decreases e, 0nat,
    {
        let (left, span, right) = match e {
            Expression::Assignment { left, span, right } => (left, *span, right),
            Expression::Binary { left, operator, right } => (left, operator.span, right),
            _ => {
                proof {
                    assert(false);
                }
                return Ok(());
            },
        };
        match self.compile_expression(heap, right) {
            Ok(()) => {},
            Err(d) => return Err(d),
        }
        let ghost (s1, h1) = (*self, *heap);
        match &**left {
            Expression::Literal(l) => match &l.value {
                Literal::Identifier(name) => {
                    match self.search_local(name) {
                        Some(slot) => {
                            self.function.chunk.append(Instruction::SetLocal(slot));
                            proof {
                                lemma_push(&s1, self, heap, Instruction::SetLocal(slot));
                                lemma_chain(old(self), &s1, self, heap, heap, lower_expr(**right, old(self).names()), seq![Emit::Op(Instruction::SetLocal(slot))]);
                            }
                        },
                        None => {
                            self.prepare_identifier(heap, name.clone(), l.span);
                            let ghost (s2, h2) = (*self, *heap);
                            self.function.chunk.append(Instruction::SetGlobal);
                            proof {
                                lemma_push(&s2, self, heap, Instruction::SetGlobal);
                                lemma_chain(&s1, &s2, self, heap, heap, seq![Emit::Text(name@)], seq![Emit::Op(Instruction::SetGlobal)]);
                                lemma_chain(old(self), &s1, self, &h1, heap, lower_expr(**right, old(self).names()), seq![Emit::Text(name@)] + seq![Emit::Op(Instruction::SetGlobal)]);
                                assert(seq![Emit::Text(name@)] + seq![Emit::Op(Instruction::SetGlobal)] =~= lower_store(**left, old(self).names()));
                            }
                        },
                    }
                    Ok(())
                },
                _ => Err(raise(ErrorCode::InvalidAssignmentTarget, l.span)),
            },
            _ => Err(raise(ErrorCode::InvalidAssignmentTarget, span)),
        }
    }

    /// Emits `A and B`: A, a conditional jump past B that keeps the falsy A,
    /// `Pop`, then B.
    pub fn compile_conditional_and(&mut self, heap: &mut Heap, e: &Expression) -> (r: Result<(), Diagnostic>)
        requires
            old(self).ready(old(heap)),
            is_binary(*e, BinaryOperator::And),
        ensures
            expression_supported(*e) ==> (r matches Err(x) ==> supported_failure(x.code)),
            r is Ok <==> expression_compiles(*e),
            r matches Err(d) ==> lowering_failure(d.code),
            r is Ok ==> final(self).after(old(self), final(heap), old(heap)),
            r is Ok ==> exists|j: int|
                old(self).code().len() <= j && and_shape(final(self).code(), j, final(self).code().len() as int),
            r is Ok ==> resolved(final(self), old(self), lower_expr(*e, old(self).names()), final(heap)),
        decreases e, 0nat,
    {
        let (left, right) = match e {
            Expression::Binary { left, right, .. } => (left, right),
            _ => {
                proof {
                    assert(false);
                }
                return Ok(());
            },
        };
        match self.compile_expression(heap, left) {
            Ok(()) => {},
            Err(d) => return Err(d),
        }
        let ghost (s1, h1) = (*self, *heap);
        let patch = self.function.chunk.append_backpatch(JumpKind::JumpIfFalse);
        let ghost s2 = *self;
        self.function.chunk.append(Instruction::Pop);
        let ghost s3 = *self;
        match self.compile_expression(heap, right) {
            Ok(()) => {},
            Err(d) => return Err(d),
        }
        let ghost s4 = *self;
        let ghost before_patch = self.code();
        patch.backpatch(&mut self.function.chunk);
        proof {
            let j = patch.index as int;
            assert(before_patch[j + 1] == Instruction::Pop);
            assert(and_shape(self.code(), j, self.code().len() as int));
            let names = old(self).names();
            let la = lower_expr(**left, names);
            let lb = lower_expr(**right, names);
            let t = seq![Emit::Op(Instruction::JumpIfFalse(0)), Emit::Op(Instruction::Pop)];
            lemma_push(&s1, &s2, &h1, Instruction::JumpIfFalse(0));
            lemma_push(&s2, &s3, &h1, Instruction::Pop);
            lemma_chain(&s1, &s2, &s3, &h1, &h1, seq![Emit::Op(Instruction::JumpIfFalse(0))], seq![Emit::Op(Instruction::Pop)]);
            lemma_chain(old(self), &s1, &s3, &h1, &h1, la, t);
            lemma_chain(old(self), &s3, &s4, &h1, heap, la + t, lb);
            lemma_patch(old(self), &s4, self, heap, la + t + lb, la.len() as int, self.code()[j]);
            assert((la + t + lb).update(la.len() as int, Emit::Op(self.code()[j])) =~= lower_expr(*e, names));
        }
        Ok(())
    }

    /// Emits `A or B`: A, a conditional jump over an unconditional jump past B,
    /// `Pop`, then B.
    pub fn compile_conditional_or(&mut self, heap: &mut Heap, e: &Expression) -> (r: Result<(), Diagnostic>)
        requires
            old(self).ready(old(heap)),
            is_binary(*e, BinaryOperator::Or),
        ensures
            expression_supported(*e) ==> (r matches Err(x) ==> supported_failure(x.code)),
            r is Ok <==> expression_compiles(*e),
            r matches Err(d) ==> lowering_failure(d.code),
            r is Ok ==> final(self).after(old(self), final(heap), old(heap)),
            r is Ok ==> exists|j: int|
                old(self).code().len() <= j && or_shape(final(self).code(), j, final(self).code().len() as int),
            r is Ok ==> resolved(final(self), old(self), lower_expr(*e, old(self).names()), final(heap)),
        decreases e, 0nat,
    {
        let (left, right) = match e {
            Expression::Binary { left, right, .. } => (left, right),
            _ => {
                proof {
                    assert(false);
                }
                return Ok(());
            },
        };
        match self.compile_expression(heap, left) {
            Ok(()) => {},
            Err(d) => return Err(d),
        }
        let ghost (s1, h1) = (*self, *heap);
        let right_patch = self.function.chunk.append_backpatch(JumpKind::JumpIfFalse);
        let end_patch = self.function.chunk.append_backpatch(JumpKind::Jump);
        right_patch.backpatch(&mut self.function.chunk);
        self.function.chunk.append(Instruction::Pop);
        let ghost s3 = *self;
        let ghost mid = self.code();
        match self.compile_expression(heap, right) {
            Ok(()) => {},
            Err(d) => return Err(d),
        }
        let ghost s4 = *self;
        let ghost before_patch = self.code();
        end_patch.backpatch(&mut self.function.chunk);
        proof {
            let names = old(self).names();
            let la = lower_expr(**left, names);
            let lb = lower_expr(**right, names);
            let jj = right_patch.index as int;
            let t3 = seq![Instruction::JumpIfFalse(2), Instruction::Jump(0), Instruction::Pop];
            assert(s3.code() =~= s1.code() + t3);
            lemma_ops(&s1, &s3, &h1, t3);
            lemma_chain(old(self), &s1, &s3, &h1, &h1, la, t3.map_values(|i: Instruction| Emit::Op(i)));
            lemma_chain(old(self), &s3, &s4, &h1, heap, la + t3.map_values(|i: Instruction| Emit::Op(i)), lb);
            lemma_patch(old(self), &s4, self, heap, la + t3.map_values(|i: Instruction| Emit::Op(i)) + lb, la.len() + 1int, self.code()[jj + 1]);
            assert((la + t3.map_values(|i: Instruction| Emit::Op(i)) + lb).update(la.len() + 1int, Emit::Op(self.code()[jj + 1])) =~= lower_expr(*e, names));
            let j = right_patch.index as int;
            assert(mid[j] == Instruction::JumpIfFalse(2));
            assert(before_patch[j] == mid[j]);
            assert(before_patch[j + 2] == mid[j + 2]);
            assert(or_shape(self.code(), j, self.code().len() as int));
        }
        Ok(())
    }

    /// Emits a call: `PrepareInvoke`, each argument in order, the callee's name,
    /// then `Invoke`. The callee must be a bare name.
    pub fn compile_invocation(&mut self, heap: &mut Heap, e: &Expression) -> (r: Result<(), Diagnostic>)
        requires
            old(self).ready(old(heap)),
            e is Invocation,
        ensures
            !assignable(crate::ast::callee_of(*e)) ==> (r matches Err(d) && d.code == ErrorCode::InvalidCallee),
            expression_supported(*e) ==> (r matches Err(x) ==> supported_failure(x.code)),
            r is Ok <==> expression_compiles(*e),
            r matches Err(d) ==> lowering_failure(d.code),
            r is Ok ==> final(self).after(old(self), final(heap), old(heap)),
            r is Ok ==> resolved(final(self), old(self), lower_expr(*e, old(self).names()), final(heap)),
        decreases e, 0nat,
    {
        let (callee, arguments) = match e {
            Expression::Invocation { expression, arguments } => (expression, arguments),
            _ => {
                proof {
                    assert(false);
                }
                return Ok(());
            },
        };
        let (name, span) = match &**callee {
            Expression::Literal(l) => match &l.value {
                Literal::Identifier(name) => (name, l.span),
                _ => return Err(raise(ErrorCode::InvalidCallee, l.span)),
            },
            _ => return Err(raise(ErrorCode::InvalidCallee, expression_span(callee))),
        };
        self.function.chunk.write(Instruction::PrepareInvoke, span);
        proof {
            lemma_push(old(self), self, heap, Instruction::PrepareInvoke);
            assert(seq![Emit::Op(Instruction::PrepareInvoke)] =~= seq![Emit::Op(Instruction::PrepareInvoke)] + lower_args(*e, 0, old(self).names()));
        }
        let ghost at = old(self).code().len() as int;
        let mut i: usize = 0;
        while i < arguments.len()
            invariant
                resolved(self, old(self), seq![Emit::Op(Instruction::PrepareInvoke)] + lower_args(*e, i as nat, old(self).names()), heap),
                old(self).ready(old(heap)),
                self.after(old(self), heap, old(heap)),
                assignable(crate::ast::callee_of(*e)),
                at == old(self).code().len(),
                self.code().len() > at,
                self.code()[at] == Instruction::PrepareInvoke,
                i <= arguments@.len(),
                forall|k: int| 0 <= k < i ==> expression_compiles(#[trigger] arguments@[k]),
                e matches Expression::Invocation { expression, arguments: args } && args == arguments,
            decreases arguments@.len() - i,
        {
            let ghost (before, hb) = (*self, *heap);
            match self.compile_expression(heap, &arguments[i]) {
                Ok(()) => {},
                Err(d) => return Err(d),
            }
            proof {
                assert(self.function.chunk.instructions@[at] == before.function.chunk.instructions@[at]);
                let names = old(self).names();
                let p = seq![Emit::Op(Instruction::PrepareInvoke)] + lower_args(*e, i as nat, names);
                lemma_chain(old(self), &before, self, &hb, heap, p, lower_expr(arguments@[i as int], names));
                assert(p + lower_expr(arguments@[i as int], names) =~= seq![Emit::Op(Instruction::PrepareInvoke)] + lower_args(*e, (i + 1) as nat, names));
            }
            i = i + 1;
        }
        let ghost (s1, h1) = (*self, *heap);
        self.prepare_identifier(heap, name.clone(), span);
        let ghost s2 = *self;
        self.function.chunk.append(Instruction::Invoke);
        proof {
            let names = old(self).names();
            let p = seq![Emit::Op(Instruction::PrepareInvoke)] + lower_args(*e, arguments@.len(), names);
            lemma_push(&s2, self, heap, Instruction::Invoke);
            lemma_chain(&s1, &s2, self, heap, heap, seq![Emit::Text(name@)], seq![Emit::Op(Instruction::Invoke)]);
            lemma_chain(old(self), &s1, self, &h1, heap, p, seq![Emit::Text(name@)] + seq![Emit::Op(Instruction::Invoke)]);
            assert(p + (seq![Emit::Text(name@)] + seq![Emit::Op(Instruction::Invoke)]) =~= lower_expr(*e, names));
        }
        Ok(())
    }
}

impl Compiler {
    /// The state after compiling a declaration from `old`: as `after_code`,
    /// with the same scopes and the locals of `old` kept, one at most added.
    pub open spec fn after_declaration(&self, old: &Compiler, heap: &Heap, old_heap: &Heap) -> bool {
        &&& self.after_code(old, heap, old_heap)
        &&& self.scopes@ == old.scopes@
        &&& old.locals@.len() <= self.locals@.len() <= old.locals@.len() + 1
        &&& self.locals@.subrange(0, old.locals@.len() as int) == old.locals@
    }

    /// Emits the code of a statement; the stack is as high after it as before.
    pub fn compile_statement(&mut self, heap: &mut Heap, s: &Statement) -> (r: Result<(), Diagnostic>)
        requires
            old(self).ready(old(heap)),
        ensures
            statement_supported(*s) ==> (r matches Err(x) ==> supported_failure(x.code)),
            r is Ok <==> statement_compiles(*s),
            r matches Err(d) ==> lowering_failure(d.code),
            r is Ok ==> final(self).after(old(self), final(heap), old(heap)),
            r is Ok ==> resolved(final(self), old(self), lower_stmt(*s, old(self).names(), old(self).scopes@.len()), final(heap)),
        decreases s, 2nat,
    {
        match s {
            Statement::Expression(e) => {
                match self.compile_expression(heap, e) {
                    Ok(()) => {},
                    Err(d) => return Err(d),
                }
                let ghost s1 = *self;
                self.function.chunk.append(Instruction::Pop);
                proof {
                    lemma_then_op(old(self), &s1, self, heap, lower_expr(*e, old(self).names()), Instruction::Pop);
                    assert(lower_expr(*e, old(self).names()).push(Emit::Op(Instruction::Pop)) =~= lower_stmt(*s, old(self).names(), old(self).scopes@.len()));
                }
                Ok(())
            },
            Statement::Print(e) => {
                match self.compile_expression(heap, e) {
                    Ok(()) => {},
                    Err(d) => return Err(d),
                }
                let ghost s1 = *self;
                self.function.chunk.append(Instruction::Print);
                proof {
                    lemma_then_op(old(self), &s1, self, heap, lower_expr(*e, old(self).names()), Instruction::Print);
                    assert(lower_expr(*e, old(self).names()).push(Emit::Op(Instruction::Print)) =~= lower_stmt(*s, old(self).names(), old(self).scopes@.len()));
                }
                Ok(())
            },
            Statement::Return(e) => {
                let ghost c = match e {
                    Some(e) => lower_expr(*e, old(self).names()),
                    None => seq![Emit::Op(Instruction::Nil)],
                };
                match e {
                    Some(e) => match self.compile_expression(heap, e) {
                        Ok(()) => {},
                        Err(d) => return Err(d),
                    },
                    None => {
                        self.function.chunk.append(Instruction::Nil);
                        proof {
                            lemma_push(old(self), self, heap, Instruction::Nil);
                        }
                    },
                }
                let ghost s1 = *self;
                self.function.chunk.append(Instruction::Return);
                proof {
                    lemma_then_op(old(self), &s1, self, heap, c, Instruction::Return);
                    assert(c.push(Emit::Op(Instruction::Return)) =~= lower_stmt(*s, old(self).names(), old(self).scopes@.len()));
                }
                Ok(())
            },
            Statement::Block(declarations) => self.compile_block(heap, s),
            Statement::If { .. } => self.compile_if(heap, s),
            Statement::While { .. } => self.compile_while(heap, s),
            Statement::For { .. } => self.compile_for(heap, s),
        }
    }

    /// Emits a block: its declarations in a scope of their own.
    pub fn compile_block(&mut self, heap: &mut Heap, s: &Statement) -> (r: Result<(), Diagnostic>)
        requires
            old(self).ready(old(heap)),
            s is Block,
        ensures
            statement_supported(*s) ==> (r matches Err(x) ==> supported_failure(x.code)),
            r is Ok <==> statement_compiles(*s),
            r matches Err(d) ==> lowering_failure(d.code),
            r is Ok ==> final(self).after(old(self), final(heap), old(heap)),
            r is Ok ==> resolved(final(self), old(self), lower_stmt(*s, old(self).names(), old(self).scopes@.len()), final(heap)),
        decreases s, 1nat,
    {
        let declarations = match s {
            Statement::Block(declarations) => declarations,
            _ => {
                proof {
                    assert(false);
                }
                return Ok(());
            },
        };
        let n = self.locals.len();
        self.begin_scope();
        let ghost names = old(self).names();
        let ghost depth = (old(self).scopes@.len() + 1) as nat;
        proof {
            lemma_nothing(old(self), self, heap);
        }
        let mut i: usize = 0;
        while i < declarations.len()
            invariant
                old(self).ready(old(heap)),
                self.after_code(old(self), heap, old(heap)),
                self.scopes@ == old(self).scopes@.push(n),
                n == old(self).locals@.len(),
                depth == old(self).scopes@.len() + 1,
                names == old(self).names(),
                n <= self.locals@.len(),
                self.locals@.subrange(0, n as int) == old(self).locals@,
                i <= declarations@.len(),
                forall|k: int| 0 <= k < i ==> declaration_compiles(#[trigger] declarations@[k]),
                s matches Statement::Block(ds) && ds == declarations,
                resolved(self, old(self), lower_decls(*s, i as nat, names, depth).0, heap),
                self.names() == lower_decls(*s, i as nat, names, depth).1,
            decreases declarations@.len() - i,
        {
            let ghost (before, hb) = (*self, *heap);
            proof {
                assert(before.scopes@.len() == depth);
                assert(before.names() == lower_decls(*s, i as nat, names, depth).1);
            }
            match self.compile_declaration(heap, &declarations[i]) {
                Ok(()) => {},
                Err(d) => return Err(d),
            }
            proof {
                assert(self.locals@.subrange(0, n as int) =~= before.locals@.subrange(0, n as int));
                let prev = lower_decls(*s, i as nat, names, depth);
                lemma_chain(old(self), &before, self, &hb, heap, prev.0, lower_decl(declarations@[i as int], prev.1, depth).0);
            }
            i = i + 1;
        }
        let ghost before_end = *self;
        self.end_scope();
        proof {
            assert(self.scopes@ =~= old(self).scopes@);
            let fin = lower_decls(*s, declarations@.len(), names, depth);
            let k = (before_end.locals@.len() - n) as nat;
            let xs = Seq::new(k, |j: int| Instruction::Pop);
            assert(self.code() == before_end.code() + xs);
            lemma_ops(&before_end, self, heap, xs);
            assert(xs.map_values(|i: Instruction| Emit::Op(i)) =~= pops(k));
            assert(fin.1.len() == before_end.locals@.len());
            assert(names.len() == n);
            lemma_chain(old(self), &before_end, self, heap, heap, fin.0, pops(k));
        }
        Ok(())
    }

    /// Emits `if`: the condition, a conditional jump to the `else` part, `Pop`,
    /// the `then` part, a jump past the `else` part, `Pop`, the `else` part.
    pub fn compile_if(&mut self, heap: &mut Heap, s: &Statement) -> (r: Result<(), Diagnostic>)
        requires
            old(self).ready(old(heap)),
            s is If,
        ensures
            statement_supported(*s) ==> (r matches Err(x) ==> supported_failure(x.code)),
            r is Ok <==> statement_compiles(*s),
            r matches Err(d) ==> lowering_failure(d.code),
            r is Ok ==> final(self).after(old(self), final(heap), old(heap)),
            r is Ok ==> resolved(final(self), old(self), lower_stmt(*s, old(self).names(), old(self).scopes@.len()), final(heap)),
        decreases s, 1nat,
    {
        let (condition, then, otherwise) = match s {
            Statement::If { condition, then, otherwise } => (condition, then, otherwise),
            _ => {
                proof {
                    assert(false);
                }
                return Ok(());
            },
        };
        let ghost names = old(self).names();
        let ghost depth = old(self).scopes@.len();
        let ghost ec = lower_expr(*condition, names);
        let ghost et = lower_stmt(**then, names, depth);
        let ghost eo = match otherwise {
            Some(o) => lower_stmt(**o, names, depth),
            None => seq![],
        };
        match self.compile_expression(heap, condition) {
            Ok(()) => {},
            Err(d) => return Err(d),
        }
        let ghost (s1, h1) = (*self, *heap);
        let else_patch = self.function.chunk.append_backpatch(JumpKind::JumpIfFalse);
        let ghost s2 = *self;
        self.function.chunk.append(Instruction::Pop);
        let ghost s3 = *self;
        proof {
            lemma_then_op(old(self), &s1, &s2, &h1, ec, Instruction::JumpIfFalse(0));
            lemma_then_op(old(self), &s2, &s3, &h1, ec.push(Emit::Op(Instruction::JumpIfFalse(0))), Instruction::Pop);
        }
        match self.compile_statement(heap, then) {
            Ok(()) => {},
            Err(d) => return Err(d),
        }
        let ghost (s4, h4) = (*self, *heap);
        let end_patch = self.function.chunk.append_backpatch(JumpKind::Jump);
        let ghost s5 = *self;
        let ghost e3 = ec.push(Emit::Op(Instruction::JumpIfFalse(0))).push(Emit::Op(Instruction::Pop));
        proof {
            lemma_chain(old(self), &s3, &s4, &h1, &h4, e3, et);
            lemma_then_op(old(self), &s4, &s5, &h4, e3 + et, Instruction::Jump(0));
        }
        else_patch.backpatch(&mut self.function.chunk);
        let ghost s6 = *self;
        let ghost e6 = (e3 + et).push(Emit::Op(Instruction::Jump(0))).update(ec.len() as int, Emit::Op(s6.code()[else_patch.index as int]));
        proof {
            lemma_patch(old(self), &s5, &s6, &h4, (e3 + et).push(Emit::Op(Instruction::Jump(0))), ec.len() as int, s6.code()[else_patch.index as int]);
            assert(s6.function.chunk.extends(&old(self).function.chunk));
        }
        self.function.chunk.append(Instruction::Pop);
        let ghost s7 = *self;
        proof {
            lemma_then_op(old(self), &s6, &s7, &h4, e6, Instruction::Pop);
        }
        match otherwise {
            Some(o) => match self.compile_statement(heap, o) {
                Ok(()) => {},
                Err(d) => return Err(d),
            },
            None => {
                proof {
                    lemma_nothing(&s7, self, heap);
                }
            },
        }
        let ghost s8 = *self;
        proof {
            lemma_chain(old(self), &s7, &s8, &h4, heap, e6.push(Emit::Op(Instruction::Pop)), eo);
        }
        end_patch.backpatch(&mut self.function.chunk);
        proof {
            let e8 = e6.push(Emit::Op(Instruction::Pop)) + eo;
            let idx = (ec.len() + 2 + et.len()) as int;
            lemma_patch(old(self), &s8, self, heap, e8, idx, self.code()[end_patch.index as int]);
            assert(e8.update(idx, Emit::Op(self.code()[end_patch.index as int])) =~= lower_stmt(*s, names, depth));
        }
        Ok(())
    }

    /// Emits `while`: the condition, a conditional exit, `Pop`, the body, a
    /// jump back to the condition, and at the exit `Pop`.
    pub fn compile_while(&mut self, heap: &mut Heap, s: &Statement) -> (r: Result<(), Diagnostic>)
        requires
            old(self).ready(old(heap)),
            s is While,
        ensures
            statement_supported(*s) ==> (r matches Err(x) ==> supported_failure(x.code)),
            r is Ok <==> statement_compiles(*s),
            r matches Err(d) ==> lowering_failure(d.code),
            r is Ok ==> final(self).after(old(self), final(heap), old(heap)),
            r is Ok ==> resolved(final(self), old(self), lower_stmt(*s, old(self).names(), old(self).scopes@.len()), final(heap)),
        decreases s, 1nat,
    {
        let (condition, body) = match s {
            Statement::While { condition, body } => (condition, body),
            _ => {
                proof {
                    assert(false);
                }
                return Ok(());
            },
        };
        let ghost names = old(self).names();
        let ghost depth = old(self).scopes@.len();
        let ghost ec = lower_expr(*condition, names);
        let ghost eb = lower_stmt(**body, names, depth);
        let top = self.function.chunk.len();
        match self.compile_expression(heap, condition) {
            Ok(()) => {},
            Err(d) => return Err(d),
        }
        let ghost (s1, h1) = (*self, *heap);
        let exit_patch = self.function.chunk.append_backpatch(JumpKind::JumpIfFalse);
        let ghost s2 = *self;
        self.function.chunk.append(Instruction::Pop);
        let ghost s3 = *self;
        let ghost e3 = ec.push(Emit::Op(Instruction::JumpIfFalse(0))).push(Emit::Op(Instruction::Pop));
        proof {
            lemma_then_op(old(self), &s1, &s2, &h1, ec, Instruction::JumpIfFalse(0));
            lemma_then_op(old(self), &s2, &s3, &h1, ec.push(Emit::Op(Instruction::JumpIfFalse(0))), Instruction::Pop);
        }
        match self.compile_statement(heap, body) {
            Ok(()) => {},
            Err(d) => return Err(d),
        }
        let ghost s4 = *self;
        let back = self.function.chunk.append_backpatch(JumpKind::Jump);
        let ghost s5 = *self;
        proof {
            lemma_chain(old(self), &s3, &s4, &h1, heap, e3, eb);
            lemma_then_op(old(self), &s4, &s5, heap, e3 + eb, Instruction::Jump(0));
        }
        back.backpatch_by(&mut self.function.chunk, top);
        let ghost s6 = *self;
        let ghost e5 = (e3 + eb).push(Emit::Op(Instruction::Jump(0)));
        let ghost e6 = e5.update((ec.len() + 2 + eb.len()) as int, Emit::Op(s6.code()[back.index as int]));
        proof {
            lemma_patch(old(self), &s5, &s6, heap, e5, (ec.len() + 2 + eb.len()) as int, s6.code()[back.index as int]);
        }
        exit_patch.backpatch(&mut self.function.chunk);
        let ghost s7 = *self;
        let ghost e7 = e6.update(ec.len() as int, Emit::Op(s7.code()[exit_patch.index as int]));
        proof {
            lemma_patch(old(self), &s6, &s7, heap, e6, ec.len() as int, s7.code()[exit_patch.index as int]);
            assert(s7.function.chunk.extends(&old(self).function.chunk));
        }
        self.function.chunk.append(Instruction::Pop);
        proof {
            lemma_then_op(old(self), &s7, self, heap, e7, Instruction::Pop);
            assert(e7.push(Emit::Op(Instruction::Pop)) =~= lower_stmt(*s, names, depth));
        }
        Ok(())
    }

    /// Emits `for` in a scope of its own: the initializer once, then the
    /// condition (or `true`) as the loop head with a conditional exit, `Pop`,
    /// the body, the increment and its `Pop`, a jump back to the head, and at
    /// the exit `Pop`.
    #[verifier::rlimit(100)]
    #[verifier::spinoff_prover]
    pub fn compile_for(&mut self, heap: &mut Heap, s: &Statement) -> (r: Result<(), Diagnostic>)
        requires
            old(self).ready(old(heap)),
            s is For,
        ensures
            statement_supported(*s) ==> (r matches Err(x) ==> supported_failure(x.code)),
            r is Ok <==> statement_compiles(*s),
            r matches Err(d) ==> lowering_failure(d.code),
            r is Ok ==> final(self).after(old(self), final(heap), old(heap)),
            r is Ok ==> resolved(final(self), old(self), lower_stmt(*s, old(self).names(), old(self).scopes@.len()), final(heap)),
        decreases s, 1nat,
    {
        let (initializer, condition, incrementer, body) = match s {
            Statement::For { initializer, condition, incrementer, body } => (
                initializer,
                condition,
                incrementer,
                body,
            ),
            _ => {
                proof {
                    assert(false);
                }
                return Ok(());
            },
        };
        let n = self.locals.len();
        self.begin_scope();
        let ghost names = old(self).names();
        let ghost depth = old(self).scopes@.len();
        let ghost (einit, env) = match initializer {
            Some(ForLoopInitializer::VarDeclaration(d)) => lower_decl(**d, names, depth + 1),
            Some(ForLoopInitializer::VarInitialization(e)) => (
                lower_expr(**e, names) + seq![Emit::Op(Instruction::Pop)],
                names,
            ),
            None => (seq![], names),
        };
        proof {
            lemma_nothing(old(self), self, heap);
        }
        match initializer {
            Some(ForLoopInitializer::VarDeclaration(d)) => {
                match self.compile_declaration(heap, d) {
                    Ok(()) => {},
                    Err(d) => return Err(d),
                }
            },
            Some(ForLoopInitializer::VarInitialization(e)) => {
                match self.compile_expression(heap, e) {
                    Ok(()) => {},
                    Err(d) => return Err(d),
                }
                let ghost s1 = *self;
                self.function.chunk.append(Instruction::Pop);
                proof {
                    lemma_then_op(old(self), &s1, self, heap, lower_expr(**e, names), Instruction::Pop);
                    assert(lower_expr(**e, names).push(Emit::Op(Instruction::Pop)) =~= einit);
                }
            },
            None => {},
        }
        proof {
            assert(self.locals@.subrange(0, n as int) =~= old(self).locals@);
        }
        let ghost (s1, h1) = (*self, *heap);
        proof {
            assert(self.names() == env);
        }
        match self.compile_for_loop(heap, s) {
            Ok(()) => {},
            Err(d) => return Err(d),
        }
        let ghost s10 = *self;
        proof {
            lemma_chain(old(self), &s1, &s10, &h1, heap, einit, crate::lowering::lower_for_loop(*s, env, depth + 1));
        }
        self.end_scope();
        proof {
            assert(self.scopes@ =~= old(self).scopes@);
            let k = (s10.locals@.len() - n) as nat;
            let xs = Seq::new(k, |j: int| Instruction::Pop);
            lemma_ops(&s10, self, heap, xs);
            assert(xs.map_values(|i: Instruction| Emit::Op(i)) =~= pops(k));
            assert(env.len() == s10.locals@.len());
            let el = einit + crate::lowering::lower_for_loop(*s, env, depth + 1);
            lemma_chain(old(self), &s10, self, heap, heap, el, pops(k));
        }
        Ok(())
    }

    /// Emits the loop of a `for` statement, after its initializer: the
    /// condition (or `true`) as the head, a conditional exit, `Pop`, the body,
    /// the increment and its `Pop`, a jump back to the head, and at the exit `Pop`.
    #[verifier::rlimit(100)]
    pub fn compile_for_loop(&mut self, heap: &mut Heap, s: &Statement) -> (r: Result<(), Diagnostic>)
        requires
            old(self).ready(old(heap)),
            s is For,
        ensures
            statement_supported(*s) ==> (r matches Err(x) ==> supported_failure(x.code)),
            r is Ok <==> (*s matches Statement::For { condition, incrementer, body, .. } && crate::ast::optional_compiles(condition)
                && crate::ast::optional_compiles(incrementer) && statement_compiles(*body)),
            r matches Err(d) ==> lowering_failure(d.code),
            r is Ok ==> final(self).after(old(self), final(heap), old(heap)),
            r is Ok ==> resolved(final(self), old(self), crate::lowering::lower_for_loop(*s, old(self).names(), old(self).scopes@.len()), final(heap)),
        decreases s, 0nat,
    {
        let (condition, incrementer, body) = match s {
            Statement::For { condition, incrementer, body, .. } => (condition, incrementer, body),
            _ => {
                proof {
                    assert(false);
                }
                return Ok(());
            },
        };
        let ghost names = old(self).names();
        let ghost depth = old(self).scopes@.len();
        let ghost eh = match condition {
            Some(c) => lower_expr(*c, names),
            None => seq![Emit::Op(Instruction::True)],
        };
        let ghost eb = lower_stmt(**body, names, depth);
        let ghost ei = match incrementer {
            Some(x) => lower_expr(*x, names) + seq![Emit::Op(Instruction::Pop)],
            None => seq![],
        };
        let ghost env = names;
        proof {
            lemma_nothing(old(self), self, heap);
        }
        let ghost (s1, h1) = (*self, *heap);
        let top = self.function.chunk.len();
        match condition {
            Some(c) => match self.compile_expression(heap, c) {
                Ok(()) => {},
                Err(d) => return Err(d),
            },
            None => {
                self.function.chunk.append(Instruction::True);
                proof {
                    lemma_push(&s1, self, heap, Instruction::True);
                }
            },
        }
        let ghost (s2, h2) = (*self, *heap);
        proof {
            lemma_chain(old(self), &s1, &s2, &h1, &h2, seq![], eh);
            assert(seq![] + eh =~= eh);
        }
        let exit_patch = self.function.chunk.append_backpatch(JumpKind::JumpIfFalse);
        let ghost s3 = *self;
        self.function.chunk.append(Instruction::Pop);
        let ghost s4 = *self;
        let ghost e4 = (eh).push(Emit::Op(Instruction::JumpIfFalse(0))).push(Emit::Op(Instruction::Pop));
        proof {
            lemma_then_op(old(self), &s2, &s3, &h2, eh, Instruction::JumpIfFalse(0));
            lemma_then_op(old(self), &s3, &s4, &h2, (eh).push(Emit::Op(Instruction::JumpIfFalse(0))), Instruction::Pop);
        }
        match self.compile_statement(heap, body) {
            Ok(()) => {},
            Err(d) => return Err(d),
        }
        let ghost (s5, h5) = (*self, *heap);
        proof {
            lemma_chain(old(self), &s4, &s5, &h2, &h5, e4, eb);
        }
        match incrementer {
            Some(e) => {
                match self.compile_expression(heap, e) {
                    Ok(()) => {},
                    Err(d) => return Err(d),
                }
                let ghost m = *self;
                self.function.chunk.append(Instruction::Pop);
                proof {
                    lemma_then_op(&s5, &m, self, heap, lower_expr(*e, env), Instruction::Pop);
                    assert(lower_expr(*e, env).push(Emit::Op(Instruction::Pop)) =~= ei);
                }
            },
            None => {
                proof {
                    lemma_nothing(&s5, self, heap);
                }
            },
        }
        let ghost (s6, h6) = (*self, *heap);
        proof {
            lemma_chain(old(self), &s5, &s6, &h5, &h6, e4 + eb, ei);
        }
        let back = self.function.chunk.append_backpatch(JumpKind::Jump);
        let ghost s7 = *self;
        let ghost e7 = (e4 + eb + ei).push(Emit::Op(Instruction::Jump(0)));
        proof {
            lemma_then_op(old(self), &s6, &s7, &h6, e4 + eb + ei, Instruction::Jump(0));
        }
        back.backpatch_by(&mut self.function.chunk, top);
        let ghost s8 = *self;
        let ghost i8 = (eh.len() + 2 + eb.len() + ei.len()) as int;
        let ghost e8 = e7.update(i8, Emit::Op(s8.code()[back.index as int]));
        proof {
            lemma_patch(old(self), &s7, &s8, &h6, e7, i8, s8.code()[back.index as int]);
        }
        exit_patch.backpatch(&mut self.function.chunk);
        let ghost s9 = *self;
        let ghost i9 = eh.len() as int;
        let ghost e9 = e8.update(i9, Emit::Op(s9.code()[exit_patch.index as int]));
        proof {
            lemma_patch(old(self), &s8, &s9, &h6, e8, i9, s9.code()[exit_patch.index as int]);
            assert(s9.function.chunk.extends(&old(self).function.chunk));
        }
        self.function.chunk.append(Instruction::Pop);
        let ghost s10 = *self;
        proof {
            lemma_then_op(old(self), &s9, &s10, &h6, e9, Instruction::Pop);
            assert(e9.push(Emit::Op(Instruction::Pop)) =~= crate::lowering::lower_for_loop(*s, names, depth));
        }
        Ok(())
    }

    /// Emits a declaration. A variable at depth zero is bound as a global by
    /// name; deeper, its initial value stays on the stack as a new local.
    pub fn compile_declaration(&mut self, heap: &mut Heap, d: &Declaration) -> (r: Result<(), Diagnostic>)
        requires
            old(self).ready(old(heap)),
        ensures
            r is Ok ==> match *d {
                Declaration::Var { name, initializer } => {
                    &&& initializer is None ==> final(self).function.chunk.spans@[old(self).code().len() as int] == name.span
                    &&& old(self).scopes@.len() == 0 ==> {
                        &&& final(self).function.chunk.spans@[final(self).code().len() - 2] == name.span
                        &&& final(self).function.chunk.spans@[final(self).code().len() - 1] == name.span
                    }
                },
                _ => true,
            },
            declaration_supported(*d) ==> (r matches Err(x) ==> supported_failure(x.code)),
            r is Ok <==> declaration_compiles(*d),
            r matches Err(d) ==> lowering_failure(d.code),
            r is Ok ==> final(self).after_declaration(old(self), final(heap), old(heap)),
            r is Ok && d is Var && old(self).scopes@.len() > 0 ==> final(self).locals@.len()
                == old(self).locals@.len() + 1 && final(self).locals@.last().name@ == d->Var_name.value@
                && final(self).locals@.last().depth == old(self).scopes@.len(),
            r is Ok && d is Var && old(self).scopes@.len() == 0 ==> final(self).code().last()
                == Instruction::DefineGlobal && final(self).locals@ == old(self).locals@,
            r is Ok ==> resolved(final(self), old(self), lower_decl(*d, old(self).names(), old(self).scopes@.len()).0, final(heap)),
            r is Ok ==> final(self).names() == lower_decl(*d, old(self).names(), old(self).scopes@.len()).1,
        decreases d, 2nat,
    {
        match d {
            Declaration::Var { name, initializer } => {
                let ghost c = match initializer {
                    Some(e) => lower_expr(*e, old(self).names()),
                    None => seq![Emit::Op(Instruction::Nil)],
                };
                match initializer {
                    Some(e) => match self.compile_expression(heap, e) {
                        Ok(()) => {},
                        Err(d) => return Err(d),
                    },
                    None => {
                        self.function.chunk.write(Instruction::Nil, name.span);
                        proof {
                            lemma_push(old(self), self, heap, Instruction::Nil);
                        }
                    },
                }
                let ghost (s1, h1) = (*self, *heap);
                if self.scopes.len() == 0 {
                    self.prepare_identifier(heap, name.value.clone(), name.span);
                    let ghost s2 = *self;
                    self.function.chunk.append(Instruction::DefineGlobal);
                    proof {
                        lemma_then_op(&s1, &s2, self, heap, seq![Emit::Text(name.value@)], Instruction::DefineGlobal);
                        lemma_chain(old(self), &s1, self, &h1, heap, c, seq![Emit::Text(name.value@)].push(Emit::Op(Instruction::DefineGlobal)));
                        assert(c + seq![Emit::Text(name.value@)].push(Emit::Op(Instruction::DefineGlobal)) =~= lower_decl(*d, old(self).names(), old(self).scopes@.len()).0);
                    }
                } else {
                    let depth = self.scopes.len();
                    self.locals.push(Local { name: name.value.clone(), depth });
                    proof {
                        assert(self.names() =~= old(self).names().push(name.value@));
                    }
                }
                proof {
                    assert(self.locals@.subrange(0, old(self).locals@.len() as int)
                        =~= old(self).locals@);
                }
                Ok(())
            },
            Declaration::Statement(s) => {
                let r = self.compile_statement(heap, s);
                proof {
                    if r is Ok {
                        assert(self.locals@.subrange(0, old(self).locals@.len() as int) =~= self.locals@);
                    }
                }
                r
            },
            Declaration::Function { .. } => {
                let r = self.compile_function(heap, d);
                proof {
                    if r is Ok {
                        lemma_nothing(old(self), self, heap);
                        assert(self.locals@.subrange(0, old(self).locals@.len() as int) =~= self.locals@);
                    }
                }
                r
            },
            Declaration::Class { name, .. } => Err(raise(ErrorCode::UnexpectedToken, name.span)),
        }
    }

    /// Compiles a function declaration into a function of its own, with its
    /// parameters as its first locals, allocates it on the heap, and places it
    /// in the pool of the enclosing code.
    pub fn compile_function(&mut self, heap: &mut Heap, d: &Declaration) -> (r: Result<(), Diagnostic>)
        requires
            old(self).ready(old(heap)),
            d is Function,
        ensures
            declaration_supported(*d) ==> (r matches Err(x) ==> supported_failure(x.code)),
            r is Ok <==> declaration_compiles(*d),
            r matches Err(d) ==> lowering_failure(d.code),
            r is Ok ==> final(self).after(old(self), final(heap), old(heap)),
            r is Ok ==> final(heap).functions().len() > old(heap).functions().len(),
            r is Ok ==> final(self).code() == old(self).code(),
            r is Ok ==> match *d {
                Declaration::Function { name, parameters, body } => {
                    let k = final(heap).functions().len() - 1;
                    let f = final(heap).functions()[k];
                    &&& f.name@ == name.value@
                    &&& f.arity == parameters@.len()
                    &&& resolves(
                        f.chunk.code(),
                        lower_stmt(*body, parameter_names(parameters@), 1) + seq![
                            Emit::Op(Instruction::Nil),
                            Emit::Op(Instruction::Return),
                        ],
                        f.chunk.pool(),
                        final(heap).strings(),
                    )
                    &&& final(self).function.chunk.constants@.contains(Value::Function(Reference { index: k as usize }))
                },
                _ => true,
            },
        decreases d, 1nat,
    {
        let (name, parameters, body) = match d {
            Declaration::Function { name, parameters, body } => (name, parameters, body),
            _ => {
                proof {
                    assert(false);
                }
                return Ok(());
            },
        };
        let mut inner = Compiler::new();
        inner.function.arity = parameters.len();
        inner.function.name = name.value.clone();
        inner.begin_scope();
        let mut i: usize = 0;
        while i < parameters.len()
            invariant
                inner.wf(),
                inner.scopes@.len() == 1,
                inner.function.chunk.constants@.len() == 0,
                inner.code().len() == 0,
                inner.function.arity == parameters@.len(),
                inner.function.name@ == name.value@,
                i <= parameters@.len(),
                inner.names() == parameter_names(parameters@.subrange(0, i as int)),
                inner.locals@.len() == i,
            decreases parameters@.len() - i,
        {
            inner.locals.push(Local { name: parameters[i].value.clone(), depth: 1 });
            proof {
                let ps = parameters@.subrange(0, i + 1);
                assert(inner.names().len() == parameter_names(ps).len());
                assert forall|j: int| 0 <= j < inner.names().len() implies inner.names()[j] == parameter_names(ps)[j] by {
                    if j < i {
                        assert(parameter_names(ps)[j] == parameter_names(parameters@.subrange(0, i as int))[j]);
                    }
                }
                assert(inner.names() =~= parameter_names(ps));
            }
            i = i + 1;
        }
        proof {
            assert(parameters@.subrange(0, parameters@.len() as int) =~= parameters@);
        }
        let ghost start = inner;
        proof {
            assert(heap.pool_in(inner.function.chunk.constants@));
        }
        match inner.compile_statement(heap, body) {
            Ok(()) => {},
            Err(d) => return Err(d),
        }
        let ghost done = inner;
        let function = inner.finish();
        proof {
            let lb = lower_stmt(**body, parameter_names(parameters@), 1);
            assert(emitted(&done, &start) =~= done.code());
            let tail = seq![Instruction::Nil, Instruction::Return];
            assert(resolves(tail, tail.map_values(|i: Instruction| Emit::Op(i)), done.function.chunk.constants@, heap.strings()));
            crate::lowering::lemma_resolves_concat(done.code(), lb, tail, tail.map_values(|i: Instruction| Emit::Op(i)), done.function.chunk.constants@, heap.strings());
            assert(tail.map_values(|i: Instruction| Emit::Op(i)) =~= seq![Emit::Op(Instruction::Nil), Emit::Op(Instruction::Return)]);
        }
        let reference = heap.spawn(function);
        let index = self.function.chunk.define(Value::Function(reference));
        proof {
            assert(self.function.chunk.constants@[index as int] == Value::Function(reference));
            crate::heap::lemma_growth_keeps_values(old(heap), heap);
            self.lemma_pool_grows(old(self), heap, old(heap));
        }
        Ok(())
    }

    /// Ends the code with `Nil` and `Return` and freezes it.
    pub fn finish(self) -> (r: Function)
        requires
            self.wf(),
        ensures
            r.chunk.runnable(),
            r.chunk.pool() == self.function.chunk.constants@,
            r.arity == self.function.arity,
            r.name@ == self.function.name@,
            r.chunk.code() == self.code() + seq![Instruction::Nil, Instruction::Return],
    {
        let mut function = self.function;
        let ghost before = function.chunk.instructions@;
        function.chunk.append(Instruction::Nil);
        function.chunk.append(Instruction::Return);
        let n = function.chunk.len();
        proof {
            let code = function.chunk.instructions@;
            assert(code =~= before + seq![Instruction::Nil, Instruction::Return]);
            assert forall|k: int| 0 <= k < code.len() implies #[trigger] crate::instruction::instruction_wf(
                code[k],
                k,
                function.chunk.constants@.len(),
                code.len() - 1,
            ) by {
                if k < before.len() {
                    assert(code[k] == before[k]);
                }
            }
        }
        function.build()
    }
}

/// Compiles a script: each declaration in order, then `Nil` and `Return`.
///
/// Fails exactly when some declaration has no bytecode (an invalid assignment
/// target, an invalid callee, a class, a property access, `this` or `super`).
/// The functions that the script declares are allocated on `heap`.
pub fn compile(heap: &mut Heap, program: Vec<Declaration>) -> (r: Result<Function, Diagnostic>)
    requires
        old(heap).wf(),
    ensures
        r is Ok <==> forall|i: int| 0 <= i < program@.len() ==> declaration_compiles(#[trigger] program@[i]),
        r matches Ok(f) ==> {
            &&& final(heap).wf()
            &&& final(heap).extends(old(heap))
            &&& final(heap).function_ok(f)
            &&& f.arity == 0
            &&& f.chunk.code().len() >= 2
            &&& f.chunk.code()[f.chunk.code().len() - 2] == Instruction::Nil
            &&& resolves(
                f.chunk.code(),
                lower_program(program@, program@.len()) + seq![
                    Emit::Op(Instruction::Nil),
                    Emit::Op(Instruction::Return),
                ],
                f.chunk.pool(),
                final(heap).strings(),
            )
        },
        r matches Err(d) ==> lowering_failure(d.code),
        (forall|i: int| 0 <= i < program@.len() ==> declaration_supported(#[trigger] program@[i])) ==> (r matches Err(
            x,
        ) ==> supported_failure(x.code)),
{
    let mut compiler = Compiler::new();
    let ghost start = compiler;
    proof {
        lemma_nothing(&start, &compiler, heap);
    }
    let mut i: usize = 0;
    while i < program.len()
        invariant
            start.code().len() == 0,
            compiler.locals@.len() == 0,
            compiler.function.chunk.extends(&start.function.chunk),
            resolved(&compiler, &start, lower_program(program@, i as nat), heap),
            old(heap).wf(),
            compiler.ready(heap),
            heap.extends(old(heap)),
            compiler.scopes@.len() == 0,
            compiler.function.arity == 0,
            i <= program@.len(),
            forall|k: int| 0 <= k < i ==> declaration_compiles(#[trigger] program@[k]),
        decreases program@.len() - i,
    {
        let ghost (before, hb) = (compiler, *heap);
        proof {
            assert(before.names() =~= seq![]);
        }
        match compiler.compile_declaration(heap, &program[i]) {
            Ok(()) => {},
            Err(d) => return Err(d),
        }
        proof {
            lemma_chain(&start, &before, &compiler, &hb, heap, lower_program(program@, i as nat), lower_decl(program@[i as int], seq![], 0).0);
            assert(compiler.names().len() == 0);
        }
        i = i + 1;
    }
    let ghost done = compiler;
    let function = compiler.finish();
    proof {
        let lp = lower_program(program@, program@.len());
        assert(emitted(&done, &start) =~= done.code());
        let tail = seq![Instruction::Nil, Instruction::Return];
        assert(resolves(tail, tail.map_values(|i: Instruction| Emit::Op(i)), done.function.chunk.constants@, heap.strings()));
        crate::lowering::lemma_resolves_concat(done.code(), lp, tail, tail.map_values(|i: Instruction| Emit::Op(i)), done.function.chunk.constants@, heap.strings());
        assert(tail.map_values(|i: Instruction| Emit::Op(i)) =~= seq![Emit::Op(Instruction::Nil), Emit::Op(Instruction::Return)]);
    }
    Ok(function)
}

/// `a` and `b` are the same literal: numbers with the same bit pattern, or
/// strings with the same content in `heap`.
pub open spec fn same_literal(heap: &Heap, a: Value, b: Value) -> bool {
    match (a, b) {
        (Value::Number(x), Value::Number(y)) => x == y,
        (Value::String(x), Value::String(y)) => heap.strings()[x.index as int] == heap.strings()[y.index as int],
        _ => false,
    }
}

/// Equal literals share one pool index: in a well-formed pool over a heap,
/// two slots holding the same number or strings of the same content are one slot.
pub proof fn equal_literals_share_index(chunk: &ChunkBuilder, heap: &Heap, i: int, j: int)
    requires
        chunk.wf(),
        heap.wf(),
        heap.pool_in(chunk.constants@),
        0 <= i < chunk.constants@.len(),
        0 <= j < chunk.constants@.len(),
        same_literal(heap, chunk.constants@[i], chunk.constants@[j]),
    ensures
        i == j,
{
    assert(heap.value_in(chunk.constants@[i]));
    assert(heap.value_in(chunk.constants@[j]));
}

/// A function that `compile` returns holds one span per instruction.
pub proof fn compiled_spans_match(heap: &Heap, f: &Function)
    requires
        heap.function_ok(*f),
    ensures
        f.chunk.span_list().len() == f.chunk.code().len(),
{
}
/// A script without `return` compiles to code whose only `Return` is the last
/// instruction, so the machine ends exactly at the end of the script.
pub proof fn script_returns_only_at_end(program: Seq<Declaration>, f: &Function, pool_strings: Seq<Seq<char>>)
    requires
        forall|i: int| 0 <= i < program.len() ==> crate::lowering::decl_returns_nowhere(#[trigger] program[i]),
        resolves(
            f.chunk.code(),
            lower_program(program, program.len()) + seq![Emit::Op(Instruction::Nil), Emit::Op(Instruction::Return)],
            f.chunk.pool(),
            pool_strings,
        ),
    ensures
        f.chunk.code().last() == Instruction::Return,
        forall|k: int| 0 <= k < f.chunk.code().len() - 1 ==> #[trigger] f.chunk.code()[k] != Instruction::Return,
{
    let lp = lower_program(program, program.len());
    let es = lp + seq![Emit::Op(Instruction::Nil), Emit::Op(Instruction::Return)];
    crate::lowering::lemma_program_no_return(program, program.len());
    let code = f.chunk.code();
    assert(crate::lowering::emit_ok(code[code.len() - 1], es[es.len() - 1], f.chunk.pool(), pool_strings));
    assert forall|k: int| 0 <= k < code.len() - 1 implies #[trigger] code[k] != Instruction::Return by {
        assert(crate::lowering::emit_ok(code[k], es[k], f.chunk.pool(), pool_strings));
        if k < lp.len() {
            assert(es[k] == lp[k]);
            assert(lp[k] != Emit::Op(Instruction::Return));
        }
    }
}

/// Equal literals load one pool index: in code that resolves its lowering over
/// a pool without duplicates and an interning heap, two loads of the same
/// number, or of strings with the same content, are the same instruction.
pub proof fn equal_literals_load_same_index(
    code: Seq<Instruction>,
    es: Seq<Emit>,
    pool: Seq<Value>,
    heap: &Heap,
    i: int,
    j: int,
)
    requires
        resolves(code, es, pool, heap.strings()),
        crate::chunk::pool_distinct(pool),
        heap.wf(),
        0 <= i < code.len(),
        0 <= j < code.len(),
        es[i] == es[j],
        es[i] is Number || es[i] is Text,
    ensures
        code[i] == code[j],
{
    assert(crate::lowering::emit_ok(code[i], es[i], pool, heap.strings()));
    assert(crate::lowering::emit_ok(code[j], es[j], pool, heap.strings()));
    let a = code[i]->LoadConstant_0 as int;
    let b = code[j]->LoadConstant_0 as int;
    if a != b {
        assert(pool[a] != pool[b]);
    }
}

} // verus!
