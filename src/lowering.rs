use vstd::prelude::*;
use crate::ast::{BinaryOperator, Declaration, Expression, ForLoopInitializer, Literal, Statement, UnaryOperator};
use crate::instruction::Instruction;
use crate::value::Value;

verus! {

/// One instruction of a lowering, with constants named by what they hold: the
/// pool index that a constant gets depends on the pool it is defined in.
pub enum Emit {
    /// This instruction, as it stands.
    Op(Instruction),
    /// A load of the number with this bit pattern.
    Number(u64),
    /// A load of the interned string with this content.
    Text(Seq<char>),
}

/// `ins` is the instruction that `em` stands for, over `pool` and the string
/// contents `strings` of a heap.
pub open spec fn emit_ok(ins: Instruction, em: Emit, pool: Seq<Value>, strings: Seq<Seq<char>>) -> bool {
    match em {
        Emit::Op(i) => ins == i,
        Emit::Number(b) => ins matches Instruction::LoadConstant(c) && c < pool.len() && pool[c as int]
            == Value::Number(b),
        Emit::Text(t) => ins matches Instruction::LoadConstant(c) && c < pool.len() && text_at(pool[c as int], strings, t),
    }
}

/// `v` is a string whose content in `strings` is `t`.
pub open spec fn text_at(v: Value, strings: Seq<Seq<char>>, t: Seq<char>) -> bool {
    v matches Value::String(h) && h.index < strings.len() && strings[h.index as int] == t
}

/// `code` is the lowering `emits`, instruction by instruction.
pub open spec fn resolves(code: Seq<Instruction>, emits: Seq<Emit>, pool: Seq<Value>, strings: Seq<Seq<char>>) -> bool {
    &&& code.len() == emits.len()
    &&& forall|k: int| 0 <= k < code.len() ==> #[trigger] emit_ok(code[k], emits[k], pool, strings)
}

/// Lowerings concatenate.
pub proof fn lemma_resolves_concat(
    c1: Seq<Instruction>,
    e1: Seq<Emit>,
    c2: Seq<Instruction>,
    e2: Seq<Emit>,
    pool: Seq<Value>,
    strings: Seq<Seq<char>>,
)
    requires
        resolves(c1, e1, pool, strings),
        resolves(c2, e2, pool, strings),
    ensures
        resolves(c1 + c2, e1 + e2, pool, strings),
{
    assert forall|k: int| 0 <= k < (c1 + c2).len() implies #[trigger] emit_ok((c1 + c2)[k], (e1 + e2)[k], pool, strings) by {
        if k < c1.len() {
            assert(emit_ok(c1[k], e1[k], pool, strings));
        } else {
            assert(emit_ok(c2[k - c1.len()], e2[k - c1.len()], pool, strings));
        }
    }
}

/// A lowering stays resolved as the pool and the heap grow.
pub proof fn lemma_resolves_grow(
    code: Seq<Instruction>,
    emits: Seq<Emit>,
    pool_before: Seq<Value>,
    strings_before: Seq<Seq<char>>,
    pool_after: Seq<Value>,
    strings_after: Seq<Seq<char>>,
)
    requires
        resolves(code, emits, pool_before, strings_before),
        pool_before.len() <= pool_after.len(),
        forall|k: int| 0 <= k < pool_before.len() ==> #[trigger] pool_after[k] == pool_before[k],
        strings_before.len() <= strings_after.len(),
        forall|k: int| 0 <= k < strings_before.len() ==> #[trigger] strings_after[k] == strings_before[k],
    ensures
        resolves(code, emits, pool_after, strings_after),
{
    assert forall|k: int| 0 <= k < code.len() implies #[trigger] emit_ok(code[k], emits[k], pool_after, strings_after) by {
        assert(emit_ok(code[k], emits[k], pool_before, strings_before));
        match emits[k] {
            Emit::Number(b) => {
                let c = code[k]->LoadConstant_0;
                assert(pool_after[c as int] == pool_before[c as int]);
            },
            Emit::Text(t) => {
                let c = code[k]->LoadConstant_0;
                assert(pool_after[c as int] == pool_before[c as int]);
                let h = pool_before[c as int]->String_0;
                assert(strings_after[h.index as int] == strings_before[h.index as int]);
            },
            _ => {},
        }
    }
}

/// Changing one instruction changes one emit.
pub proof fn lemma_resolves_update(
    code: Seq<Instruction>,
    emits: Seq<Emit>,
    pool: Seq<Value>,
    strings: Seq<Seq<char>>,
    k: int,
    ins: Instruction,
)
    requires
        resolves(code, emits, pool, strings),
        0 <= k < code.len(),
    ensures
        resolves(code.update(k, ins), emits.update(k, Emit::Op(ins)), pool, strings),
{
    assert forall|j: int| 0 <= j < code.len() implies #[trigger] emit_ok(code.update(k, ins)[j], emits.update(k, Emit::Op(ins))[j], pool, strings) by {
        if j != k {
            assert(emit_ok(code[j], emits[j], pool, strings));
        }
    }
}

/// The slot of the innermost of `names` equal to `n`: its index from the bottom.
pub open spec fn slot_of(names: Seq<Seq<char>>, n: Seq<char>) -> Option<int>
    decreases names.len(),
{
    if names.len() == 0 {
        None
    } else if names.last() == n {
        Some(names.len() - 1)
    } else {
        slot_of(names.drop_last(), n)
    }
}

/// `slot_of` finds the last index holding `n`, and nothing when none does.
pub proof fn lemma_slot_of(names: Seq<Seq<char>>, n: Seq<char>)
    ensures
        slot_of(names, n) matches Some(k) ==> 0 <= k < names.len() && names[k] == n && forall|j: int|
            k < j < names.len() ==> #[trigger] names[j] != n,
        slot_of(names, n) is None ==> forall|j: int| 0 <= j < names.len() ==> #[trigger] names[j] != n,
    decreases names.len(),
{
    if names.len() > 0 && names.last() != n {
        lemma_slot_of(names.drop_last(), n);
        assert forall|j: int| 0 <= j < names.len() - 1 implies names.drop_last()[j] == #[trigger] names[j] by {}
    }
}

/// `n` pops.
pub open spec fn pops(n: nat) -> Seq<Emit> {
    Seq::new(n, |i: int| Emit::Op(Instruction::Pop))
}

/// The instructions of a plain binary operator, as emits.
pub open spec fn operator_emits(op: BinaryOperator) -> Seq<Emit> {
    crate::compiler::operator_code(op).map_values(|i: Instruction| Emit::Op(i))
}

/// The lowering of a literal.
pub open spec fn lower_literal(l: Literal, names: Seq<Seq<char>>) -> Seq<Emit> {
    match l {
        Literal::Nil => seq![Emit::Op(Instruction::Nil)],
        Literal::Boolean(b) => seq![Emit::Op(if b { Instruction::True } else { Instruction::False })],
        Literal::Number(bits) => seq![Emit::Number(bits)],
        Literal::String(t) => seq![Emit::Text(t@)],
        Literal::Identifier(n) => match slot_of(names, n@) {
            Some(k) => seq![Emit::Op(Instruction::GetLocal(k as usize))],
            None => seq![Emit::Text(n@), Emit::Op(Instruction::GetGlobal)],
        },
        _ => seq![],
    }
}

/// The store into an assignment target, after the value.
pub open spec fn lower_store(target: Expression, names: Seq<Seq<char>>) -> Seq<Emit> {
    match target {
        Expression::Literal(l) => match l.value {
            Literal::Identifier(n) => match slot_of(names, n@) {
                Some(k) => seq![Emit::Op(Instruction::SetLocal(k as usize))],
                None => seq![Emit::Text(n@), Emit::Op(Instruction::SetGlobal)],
            },
            _ => seq![],
        },
        _ => seq![],
    }
}

/// The lowering of an expression with locals `names` in scope: its code leaves
/// the expression's value on the stack.
pub open spec fn lower_expr(e: Expression, names: Seq<Seq<char>>) -> Seq<Emit>
    decreases e, 1nat, 0nat,
{
    match e {
        Expression::Assignment { left, span, right } => lower_expr(*right, names) + lower_store(*left, names),
        Expression::Binary { left, operator, right } => match operator.value {
            BinaryOperator::Assign => lower_expr(*right, names) + lower_store(*left, names),
            BinaryOperator::And => {
                let a = lower_expr(*left, names);
                let b = lower_expr(*right, names);
                a + seq![
                    Emit::Op(Instruction::JumpIfFalse((b.len() + 2) as isize)),
                    Emit::Op(Instruction::Pop),
                ] + b
            },
            BinaryOperator::Or => {
                let a = lower_expr(*left, names);
                let b = lower_expr(*right, names);
                a + seq![
                    Emit::Op(Instruction::JumpIfFalse(2)),
                    Emit::Op(Instruction::Jump((b.len() + 2) as isize)),
                    Emit::Op(Instruction::Pop),
                ] + b
            },
            BinaryOperator::PropertyAccess => seq![],
            _ => lower_expr(*left, names) + lower_expr(*right, names) + operator_emits(operator.value),
        },
        Expression::Unary { operator, expression } => lower_expr(*expression, names) + seq![
            Emit::Op(
                match operator.value {
                    UnaryOperator::Not => Instruction::Not,
                    UnaryOperator::Negate => Instruction::Negate,
                },
            ),
        ],
        Expression::Invocation { expression, arguments } => match *expression {
            Expression::Literal(l) => match l.value {
                Literal::Identifier(n) => seq![Emit::Op(Instruction::PrepareInvoke)] + lower_args(
                    e,
                    arguments@.len(),
                    names,
                ) + seq![Emit::Text(n@), Emit::Op(Instruction::Invoke)],
                _ => seq![],
            },
            _ => seq![],
        },
        Expression::Literal(l) => lower_literal(l.value, names),
    }
}

/// The lowerings of the first `n` arguments of the call `e`, in order.
pub open spec fn lower_args(e: Expression, n: nat, names: Seq<Seq<char>>) -> Seq<Emit>
    decreases e, 0nat, n,
{
    match e {
        Expression::Invocation { expression, arguments } => if n == 0 || n > arguments.len() {
            seq![]
        } else {
            lower_args(e, (n - 1) as nat, names) + lower_expr(arguments[n - 1], names)
        },
        _ => seq![],
    }
}

/// The lowering of a statement with locals `names` in scope at block depth
/// `depth`; its code leaves the stack as it found it.
pub open spec fn lower_stmt(s: Statement, names: Seq<Seq<char>>, depth: nat) -> Seq<Emit>
    decreases s, 1nat, 0nat,
{
    match s {
        Statement::Expression(e) => lower_expr(e, names) + seq![Emit::Op(Instruction::Pop)],
        Statement::Print(e) => lower_expr(e, names) + seq![Emit::Op(Instruction::Print)],
        Statement::Return(e) => match e {
            Some(e) => lower_expr(e, names) + seq![Emit::Op(Instruction::Return)],
            None => seq![Emit::Op(Instruction::Nil), Emit::Op(Instruction::Return)],
        },
        Statement::Block(ds) => {
            let (c, env) = lower_decls(s, ds@.len(), names, depth + 1);
            c + pops((env.len() - names.len()) as nat)
        },
        Statement::If { condition, then, otherwise } => {
            let c = lower_expr(condition, names);
            let t = lower_stmt(*then, names, depth);
            let o = match otherwise {
                Some(o) => lower_stmt(*o, names, depth),
                None => seq![],
            };
            c + seq![
                Emit::Op(Instruction::JumpIfFalse((t.len() + 3) as isize)),
                Emit::Op(Instruction::Pop),
            ] + t + seq![
                Emit::Op(Instruction::Jump((o.len() + 2) as isize)),
                Emit::Op(Instruction::Pop),
            ] + o
        },
        Statement::While { condition, body } => {
            let c = lower_expr(condition, names);
            let b = lower_stmt(*body, names, depth);
            c + seq![
                Emit::Op(Instruction::JumpIfFalse((b.len() + 3) as isize)),
                Emit::Op(Instruction::Pop),
            ] + b + seq![
                Emit::Op(Instruction::Jump((-(c.len() + b.len() + 2)) as isize)),
                Emit::Op(Instruction::Pop),
            ]
        },
        Statement::For { initializer, condition, incrementer, body } => {
            let (init, env) = match initializer {
                Some(ForLoopInitializer::VarDeclaration(d)) => lower_decl(*d, names, depth + 1),
                Some(ForLoopInitializer::VarInitialization(e)) => (
                    lower_expr(*e, names) + seq![Emit::Op(Instruction::Pop)],
                    names,
                ),
                None => (seq![], names),
            };
            init + lower_for_loop(s, env, depth + 1) + pops((env.len() - names.len()) as nat)
        },
    }
}

/// The loop of the `for` statement `s`, after its initializer, with locals
/// `names` in scope at depth `depth`: the condition (or `true`) as its head, a
/// conditional exit, `Pop`, the body, the increment and its `Pop`, a jump back
/// to the head, and at the exit `Pop`.
pub open spec fn lower_for_loop(s: Statement, names: Seq<Seq<char>>, depth: nat) -> Seq<Emit>
    decreases s, 0nat, 0nat,
{
    match s {
        Statement::For { initializer, condition, incrementer, body } => {
            let h = match condition {
                Some(c) => lower_expr(c, names),
                None => seq![Emit::Op(Instruction::True)],
            };
            let b = lower_stmt(*body, names, depth);
            let i = match incrementer {
                Some(x) => lower_expr(x, names) + seq![Emit::Op(Instruction::Pop)],
                None => seq![],
            };
            h + seq![
                Emit::Op(Instruction::JumpIfFalse((b.len() + i.len() + 3) as isize)),
                Emit::Op(Instruction::Pop),
            ] + b + i + seq![
                Emit::Op(Instruction::Jump((-(h.len() + b.len() + i.len() + 2)) as isize)),
                Emit::Op(Instruction::Pop),
            ]
        },
        _ => seq![],
    }
}

/// The lowering of a declaration and the locals in scope after it. A variable
/// at depth zero is a global, bound by name; deeper, it becomes a local. A
/// function declaration emits nothing here: it gets a function of its own.
pub open spec fn lower_decl(d: Declaration, names: Seq<Seq<char>>, depth: nat) -> (Seq<Emit>, Seq<Seq<char>>)
    decreases d, 1nat, 0nat,
{
    match d {
        Declaration::Var { name, initializer } => {
            let i = match initializer {
                Some(e) => lower_expr(e, names),
                None => seq![Emit::Op(Instruction::Nil)],
            };
            if depth == 0 {
                (i + seq![Emit::Text(name.value@), Emit::Op(Instruction::DefineGlobal)], names)
            } else {
                (i, names.push(name.value@))
            }
        },
        Declaration::Statement(s) => (lower_stmt(s, names, depth), names),
        _ => (seq![], names),
    }
}

/// The lowering of the first `n` declarations of the block `s`, and the
/// locals in scope after them.
pub open spec fn lower_decls(s: Statement, n: nat, names: Seq<Seq<char>>, depth: nat) -> (Seq<Emit>, Seq<Seq<char>>)
    decreases s, 0nat, n,
{
    match s {
        Statement::Block(ds) => if n == 0 || n > ds.len() {
            (seq![], names)
        } else {
            let (c, env) = lower_decls(s, (n - 1) as nat, names, depth);
            let (c2, env2) = lower_decl(ds[n - 1], env, depth);
            (c + c2, env2)
        },
        _ => (seq![], names),
    }
}

/// The lowering of the first `n` declarations of a script.
pub open spec fn lower_program(ds: Seq<Declaration>, n: nat) -> Seq<Emit>
    decreases n,
{
    if n == 0 || n > ds.len() {
        seq![]
    } else {
        lower_program(ds, (n - 1) as nat) + lower_decl(ds[n - 1], seq![], 0).0
    }
}

/// No emit of `es` is `Return`.
pub open spec fn no_return(es: Seq<Emit>) -> bool {
    forall|k: int| 0 <= k < es.len() ==> #[trigger] es[k] != Emit::Op(Instruction::Return)
}

/// The statement holds no `return`.
pub open spec fn stmt_returns_nowhere(s: Statement) -> bool
    decreases s,
{
    match s {
        Statement::Return(_) => false,
        Statement::If { condition, then, otherwise } => stmt_returns_nowhere(*then) && match otherwise {
            Some(o) => stmt_returns_nowhere(*o),
            None => true,
        },
        Statement::While { condition, body } => stmt_returns_nowhere(*body),
        Statement::For { initializer, condition, incrementer, body } => (match initializer {
            Some(ForLoopInitializer::VarDeclaration(d)) => decl_returns_nowhere(*d),
            _ => true,
        }) && stmt_returns_nowhere(*body),
        Statement::Block(ds) => forall|i: int| 0 <= i < ds.len() ==> decl_returns_nowhere(#[trigger] ds[i]),
        _ => true,
    }
}

/// The declaration holds no `return` outside the functions it declares.
pub open spec fn decl_returns_nowhere(d: Declaration) -> bool
    decreases d,
{
    match d {
        Declaration::Statement(s) => stmt_returns_nowhere(s),
        _ => true,
    }
}

proof fn lemma_no_return_concat(a: Seq<Emit>, b: Seq<Emit>)
    requires
        no_return(a),
        no_return(b),
    ensures
        no_return(a + b),
{
    assert forall|k: int| 0 <= k < (a + b).len() implies #[trigger] (a + b)[k] != Emit::Op(Instruction::Return) by {
        if k < a.len() {
            assert((a + b)[k] == a[k]);
        } else {
            assert((a + b)[k] == b[k - a.len()]);
        }
    }
}

/// An expression's lowering holds no `Return`.
pub proof fn lemma_expr_no_return(e: Expression, names: Seq<Seq<char>>)
    ensures
        no_return(lower_expr(e, names)),
    decreases e, 1nat, 0nat,
{
    match e {
        Expression::Assignment { left, span, right } => {
            lemma_expr_no_return(*right, names);
            lemma_no_return_concat(lower_expr(*right, names), lower_store(*left, names));
        },
        Expression::Binary { left, operator, right } => {
            lemma_expr_no_return(*left, names);
            lemma_expr_no_return(*right, names);
            let a = lower_expr(*left, names);
            let b = lower_expr(*right, names);
            match operator.value {
                BinaryOperator::Assign => lemma_no_return_concat(b, lower_store(*left, names)),
                BinaryOperator::And => {
                    let t = seq![Emit::Op(Instruction::JumpIfFalse((b.len() + 2) as isize)), Emit::Op(Instruction::Pop)];
                    lemma_no_return_concat(a, t);
                    lemma_no_return_concat(a + t, b);
                },
                BinaryOperator::Or => {
                    let t = seq![
                        Emit::Op(Instruction::JumpIfFalse(2)),
                        Emit::Op(Instruction::Jump((b.len() + 2) as isize)),
                        Emit::Op(Instruction::Pop),
                    ];
                    lemma_no_return_concat(a, t);
                    lemma_no_return_concat(a + t, b);
                },
                BinaryOperator::PropertyAccess => {},
                _ => {
                    lemma_no_return_concat(a, b);
                    lemma_no_return_concat(a + b, operator_emits(operator.value));
                },
            }
        },
        Expression::Unary { operator, expression } => {
            lemma_expr_no_return(*expression, names);
            let x = seq![Emit::Op(match operator.value {
                UnaryOperator::Not => Instruction::Not,
                UnaryOperator::Negate => Instruction::Negate,
            })];
            lemma_no_return_concat(lower_expr(*expression, names), x);
        },
        Expression::Invocation { expression, arguments } => {
            lemma_args_no_return(e, arguments@.len(), names);
            match *expression {
                Expression::Literal(l) => match l.value {
                    Literal::Identifier(n) => {
                        let p = seq![Emit::Op(Instruction::PrepareInvoke)];
                        let q = seq![Emit::Text(n@), Emit::Op(Instruction::Invoke)];
                        lemma_no_return_concat(p, lower_args(e, arguments@.len(), names));
                        lemma_no_return_concat(p + lower_args(e, arguments@.len(), names), q);
                    },
                    _ => {},
                },
                _ => {},
            }
        },
        Expression::Literal(l) => {},
    }
}

/// The lowering of the first `n` arguments of a call holds no `Return`.
pub proof fn lemma_args_no_return(e: Expression, n: nat, names: Seq<Seq<char>>)
    ensures
        no_return(lower_args(e, n, names)),
    decreases e, 0nat, n,
{
    match e {
        Expression::Invocation { expression, arguments } => if n == 0 || n > arguments.len() {
        } else {
            lemma_args_no_return(e, (n - 1) as nat, names);
            lemma_expr_no_return(arguments[n - 1], names);
            lemma_no_return_concat(lower_args(e, (n - 1) as nat, names), lower_expr(arguments[n - 1], names));
        },
        _ => {},
    }
}

/// A statement without `return` lowers to code without `Return`.
pub proof fn lemma_stmt_no_return(s: Statement, names: Seq<Seq<char>>, depth: nat)
    requires
        stmt_returns_nowhere(s),
    ensures
        no_return(lower_stmt(s, names, depth)),
    decreases s, 1nat, 0nat,
{
    match s {
        Statement::Expression(e) => {
            lemma_expr_no_return(e, names);
            lemma_no_return_concat(lower_expr(e, names), seq![Emit::Op(Instruction::Pop)]);
        },
        Statement::Print(e) => {
            lemma_expr_no_return(e, names);
            lemma_no_return_concat(lower_expr(e, names), seq![Emit::Op(Instruction::Print)]);
        },
        Statement::Return(_) => {},
        Statement::Block(ds) => {
            lemma_decls_no_return(s, ds@.len(), names, depth + 1);
            let (c, env) = lower_decls(s, ds@.len(), names, depth + 1);
            lemma_no_return_concat(c, pops((env.len() - names.len()) as nat));
        },
        Statement::If { condition, then, otherwise } => {
            let c = lower_expr(condition, names);
            let t = lower_stmt(*then, names, depth);
            let o = match otherwise {
                Some(o) => lower_stmt(*o, names, depth),
                None => seq![],
            };
            lemma_expr_no_return(condition, names);
            lemma_stmt_no_return(*then, names, depth);
            match otherwise {
                Some(x) => lemma_stmt_no_return(*x, names, depth),
                None => {},
            }
            let j1 = seq![Emit::Op(Instruction::JumpIfFalse((t.len() + 3) as isize)), Emit::Op(Instruction::Pop)];
            let j2 = seq![Emit::Op(Instruction::Jump((o.len() + 2) as isize)), Emit::Op(Instruction::Pop)];
            lemma_no_return_concat(c, j1);
            lemma_no_return_concat(c + j1, t);
            lemma_no_return_concat(c + j1 + t, j2);
            lemma_no_return_concat(c + j1 + t + j2, o);
        },
        Statement::While { condition, body } => {
            let c = lower_expr(condition, names);
            let b = lower_stmt(*body, names, depth);
            lemma_expr_no_return(condition, names);
            lemma_stmt_no_return(*body, names, depth);
            let j1 = seq![Emit::Op(Instruction::JumpIfFalse((b.len() + 3) as isize)), Emit::Op(Instruction::Pop)];
            let j2 = seq![Emit::Op(Instruction::Jump((-(c.len() + b.len() + 2)) as isize)), Emit::Op(Instruction::Pop)];
            lemma_no_return_concat(c, j1);
            lemma_no_return_concat(c + j1, b);
            lemma_no_return_concat(c + j1 + b, j2);
        },
        Statement::For { initializer, condition, incrementer, body } => {
            let (init, env) = match initializer {
                Some(ForLoopInitializer::VarDeclaration(d)) => lower_decl(*d, names, depth + 1),
                Some(ForLoopInitializer::VarInitialization(e)) => (
                    lower_expr(*e, names) + seq![Emit::Op(Instruction::Pop)],
                    names,
                ),
                None => (seq![], names),
            };
            match initializer {
                Some(ForLoopInitializer::VarDeclaration(d)) => lemma_decl_no_return(*d, names, depth + 1),
                Some(ForLoopInitializer::VarInitialization(e)) => {
                    lemma_expr_no_return(*e, names);
                    lemma_no_return_concat(lower_expr(*e, names), seq![Emit::Op(Instruction::Pop)]);
                },
                None => {},
            }
            lemma_for_loop_no_return(s, env, depth + 1);
            lemma_no_return_concat(init, lower_for_loop(s, env, depth + 1));
            lemma_no_return_concat(init + lower_for_loop(s, env, depth + 1), pops((env.len() - names.len()) as nat));
        },
    }
}

/// The loop of a `for` without `return` in its body holds no `Return`.
pub proof fn lemma_for_loop_no_return(s: Statement, names: Seq<Seq<char>>, depth: nat)
    requires
        stmt_returns_nowhere(s),
    ensures
        no_return(lower_for_loop(s, names, depth)),
    decreases s, 0nat, 0nat,
{
    match s {
        Statement::For { initializer, condition, incrementer, body } => {
            let h = match condition {
                Some(c) => lower_expr(c, names),
                None => seq![Emit::Op(Instruction::True)],
            };
            let b = lower_stmt(*body, names, depth);
            let i = match incrementer {
                Some(x) => lower_expr(x, names) + seq![Emit::Op(Instruction::Pop)],
                None => seq![],
            };
            match condition {
                Some(c) => lemma_expr_no_return(c, names),
                None => {},
            }
            match incrementer {
                Some(x) => {
                    lemma_expr_no_return(x, names);
                    lemma_no_return_concat(lower_expr(x, names), seq![Emit::Op(Instruction::Pop)]);
                },
                None => {},
            }
            lemma_stmt_no_return(*body, names, depth);
            let j1 = seq![Emit::Op(Instruction::JumpIfFalse((b.len() + i.len() + 3) as isize)), Emit::Op(Instruction::Pop)];
            let j2 = seq![Emit::Op(Instruction::Jump((-(h.len() + b.len() + i.len() + 2)) as isize)), Emit::Op(Instruction::Pop)];
            lemma_no_return_concat(h, j1);
            lemma_no_return_concat(h + j1, b);
            lemma_no_return_concat(h + j1 + b, i);
            lemma_no_return_concat(h + j1 + b + i, j2);
        },
        _ => {},
    }
}

/// A declaration without `return` lowers to code without `Return`.
pub proof fn lemma_decl_no_return(d: Declaration, names: Seq<Seq<char>>, depth: nat)
    requires
        decl_returns_nowhere(d),
    ensures
        no_return(lower_decl(d, names, depth).0),
    decreases d, 1nat, 0nat,
{
    match d {
        Declaration::Var { name, initializer } => {
            let i = match initializer {
                Some(e) => lower_expr(e, names),
                None => seq![Emit::Op(Instruction::Nil)],
            };
            match initializer {
                Some(e) => lemma_expr_no_return(e, names),
                None => {},
            }
            lemma_no_return_concat(i, seq![Emit::Text(name.value@), Emit::Op(Instruction::DefineGlobal)]);
        },
        Declaration::Statement(s) => lemma_stmt_no_return(s, names, depth),
        _ => {},
    }
}

/// The first `n` declarations of a block without `return` hold no `Return`.
pub proof fn lemma_decls_no_return(s: Statement, n: nat, names: Seq<Seq<char>>, depth: nat)
    requires
        stmt_returns_nowhere(s),
    ensures
        no_return(lower_decls(s, n, names, depth).0),
    decreases s, 0nat, n,
{
    match s {
        Statement::Block(ds) => if n == 0 || n > ds.len() {
        } else {
            lemma_decls_no_return(s, (n - 1) as nat, names, depth);
            let (c, env) = lower_decls(s, (n - 1) as nat, names, depth);
            lemma_decl_no_return(ds[n - 1], env, depth);
            lemma_no_return_concat(c, lower_decl(ds[n - 1], env, depth).0);
        },
        _ => {},
    }
}

/// A script without `return` lowers to code without `Return`.
pub proof fn lemma_program_no_return(ds: Seq<Declaration>, n: nat)
    requires
        forall|i: int| 0 <= i < ds.len() ==> decl_returns_nowhere(#[trigger] ds[i]),
    ensures
        no_return(lower_program(ds, n)),
    decreases n,
{
    if n == 0 || n > ds.len() {
    } else {
        lemma_program_no_return(ds, (n - 1) as nat);
        lemma_decl_no_return(ds[n - 1], seq![], 0);
        lemma_no_return_concat(lower_program(ds, (n - 1) as nat), lower_decl(ds[n - 1], seq![], 0).0);
    }
}

} // verus!
