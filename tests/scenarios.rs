use rlox::{compile, parse, Diagnostic, ErrorCode, Heap, Instruction, Lexeme, Numeric, Printed, Span, Spanned, Step, Token, Value, VirtualMachine};
use rlox::Instruction::{False, GetLocal, Jump, JumpIfFalse, LoadConstant, Multiply, Nil, Pop, Print, Return, Subtract, True};

fn keyword(word: &str) -> Option<Lexeme> {
    Some(match word {
        "and" => Lexeme::And,
        "class" => Lexeme::Class,
        "else" => Lexeme::Else,
        "false" => Lexeme::False,
        "for" => Lexeme::For,
        "fun" => Lexeme::Fun,
        "if" => Lexeme::If,
        "nil" => Lexeme::Nil,
        "or" => Lexeme::Or,
        "print" => Lexeme::Print,
        "return" => Lexeme::Return,
        "super" => Lexeme::Super,
        "this" => Lexeme::This,
        "true" => Lexeme::True,
        "var" => Lexeme::Var,
        "while" => Lexeme::While,
        _ => return None,
    })
}

fn lex(source: &str) -> Vec<Token> {
    let bytes = source.as_bytes();
    let mut tokens = Vec::new();
    let mut i = 0;
    while i < bytes.len() {
        let c = bytes[i] as char;
        let start = i;
        if c.is_ascii_whitespace() {
            i += 1;
            continue;
        }
        if c.is_ascii_alphabetic() || c == '_' {
            while i < bytes.len() && ((bytes[i] as char).is_ascii_alphanumeric() || bytes[i] == b'_') {
                i += 1;
            }
            let word = &source[start..i];
            let lexeme = keyword(word).unwrap_or_else(|| Lexeme::Identifier(word.to_string()));
            tokens.push(Spanned::new(lexeme, Span::new(start, i)));
            continue;
        }
        if c.is_ascii_digit() {
            while i < bytes.len() && ((bytes[i] as char).is_ascii_digit() || bytes[i] == b'.') {
                i += 1;
            }
            let number: f64 = source[start..i].parse().unwrap();
            tokens.push(Spanned::new(Lexeme::Number(number.to_bits()), Span::new(start, i)));
            continue;
        }
        if c == '"' {
            i += 1;
            while bytes[i] != b'"' {
                i += 1;
            }
            i += 1;
            let text = source[start + 1..i - 1].to_string();
            tokens.push(Spanned::new(Lexeme::String(text), Span::new(start, i)));
            continue;
        }
        let two = if i + 1 < bytes.len() { &source[i..i + 2] } else { "" };
        let (lexeme, width) = match two {
            "!=" => (Lexeme::BangEqual, 2),
            "==" => (Lexeme::EqualEqual, 2),
            ">=" => (Lexeme::GreaterEqual, 2),
            "<=" => (Lexeme::LessEqual, 2),
            _ => (
                match c {
                    '(' => Lexeme::LeftParenthesis,
                    ')' => Lexeme::RightParenthesis,
                    '{' => Lexeme::LeftBrace,
                    '}' => Lexeme::RightBrace,
                    ',' => Lexeme::Comma,
                    '.' => Lexeme::Dot,
                    '-' => Lexeme::Minus,
                    '+' => Lexeme::Plus,
                    ';' => Lexeme::Semicolon,
                    '/' => Lexeme::Slash,
                    '*' => Lexeme::Star,
                    '!' => Lexeme::Bang,
                    '=' => Lexeme::Equal,
                    '>' => Lexeme::Greater,
                    '<' => Lexeme::Less,
                    _ => panic!("unexpected character {c}"),
                },
                1,
            ),
        };
        i += width;
        tokens.push(Spanned::new(lexeme, Span::new(start, i)));
    }
    tokens
}

fn compute(work: Numeric) -> Value {
    let n = f64::from_bits;
    match work {
        Numeric::Add(a, b) => Value::Number((n(a) + n(b)).to_bits()),
        Numeric::Subtract(a, b) => Value::Number((n(a) - n(b)).to_bits()),
        Numeric::Multiply(a, b) => Value::Number((n(a) * n(b)).to_bits()),
        Numeric::Divide(a, b) => Value::Number((n(a) / n(b)).to_bits()),
        Numeric::Negate(a) => Value::Number((-n(a)).to_bits()),
        Numeric::Greater(a, b) => Value::Boolean(n(a) > n(b)),
        Numeric::Less(a, b) => Value::Boolean(n(a) < n(b)),
        Numeric::Equal(a, b) => Value::Boolean((n(a) - n(b)).abs() < f64::EPSILON),
    }
}

/// Runs `source`; returns what it printed and the diagnostic it ended with.
fn run(source: &str) -> (String, Option<Diagnostic>) {
    let mut output = String::new();
    let program = match parse(lex(source)) {
        Ok(p) => p,
        Err(d) => return (output, Some(d)),
    };
    let mut heap = Heap::new();
    let function = match compile(&mut heap, program) {
        Ok(f) => f,
        Err(d) => return (output, Some(d)),
    };
    let mut vm = VirtualMachine::new(heap, function);
    loop {
        match vm.step() {
            Ok(Step::Continue) => {}
            Ok(Step::Print(Printed::Text(t))) => {
                output.push_str(&t);
                output.push('\n');
            }
            Ok(Step::Print(Printed::Number(bits))) => {
                output.push_str(&format!("{}\n", f64::from_bits(bits)));
            }
            Ok(Step::Compute(work)) => {
                if let Err(d) = vm.resume(compute(work)) {
                    return (output, Some(d));
                }
            }
            Ok(Step::Clock) => {
                if let Err(d) = vm.resume(Value::Number(0f64.to_bits())) {
                    return (output, Some(d));
                }
            }
            Ok(Step::Halted) => return (output, None),
            Err(d) => return (output, Some(d)),
        }
    }
}

fn prints(source: &str) -> String {
    let (output, error) = run(source);
    assert!(error.is_none(), "unexpected diagnostic {:?}", error);
    output
}

fn fails_with(source: &str) -> (String, Diagnostic) {
    let (output, error) = run(source);
    (output, error.expect("a diagnostic"))
}

#[test]
fn arithmetic_precedence() {
    assert_eq!(prints("print 1 + 2 * 3;"), "7\n");
}

#[test]
fn string_concatenation() {
    assert_eq!(prints("var a = \"hi, \";\nvar b = \"world\";\nprint a + b;"), "hi, world\n");
}

#[test]
fn for_loop_sums() {
    assert_eq!(prints("var x = 0;\nfor (var i = 0; i < 3; i = i + 1) { x = x + i; }\nprint x;"), "3\n");
}

#[test]
fn local_shadows_global() {
    assert_eq!(prints("var a = 1;\n{ var a = 2; print a; }\nprint a;"), "2\n1\n");
}

#[test]
fn function_call_returns_square() {
    assert_eq!(prints("fun sq(n) { return n * n; }\nprint sq(7);"), "49\n");
}

#[test]
fn undefined_variable_reports_identifier_span() {
    let (output, d) = fails_with("print undefined_var;");
    assert_eq!(output, "");
    assert_eq!(d.code, ErrorCode::UndefinedVariable);
    assert_eq!(d.code.code(), "E0012");
    assert_eq!(d.span, Span::new(6, 19));
}

#[test]
fn adding_string_and_number_fails() {
    let (_, d) = fails_with("print \"a\" + 1;");
    assert_eq!(d.code, ErrorCode::InvalidAddition);
    assert_eq!(d.code.code(), "E0009");
}

#[test]
fn global_redefinition_fails_at_second() {
    let (_, d) = fails_with("var a = 1; var a = 2;");
    assert_eq!(d.code, ErrorCode::MultipleDefinition);
    assert_eq!(d.code.code(), "E0011");
    assert_eq!(d.span, Span::new(15, 16));
}

#[test]
fn or_yields_first_truthy() {
    assert_eq!(prints("print false or 5;"), "5\n");
    assert_eq!(prints("print 0 or 5;"), "0\n");
}

#[test]
fn locals_shadow_in_same_scope() {
    assert_eq!(prints("{ var a = 1; var a = 2; print a; }"), "2\n");
}

#[test]
fn and_skips_right_operand_when_falsy() {
    assert_eq!(prints("print false and undefined_var;"), "false\n");
    assert_eq!(prints("print nil and undefined_var;"), "nil\n");
    assert_eq!(prints("print 1 and 2;"), "2\n");
}

#[test]
fn or_skips_right_operand_when_truthy() {
    assert_eq!(prints("print true or undefined_var;"), "true\n");
    assert_eq!(prints("print nil or false;"), "false\n");
}

#[test]
fn not_equal_negates_equal() {
    assert_eq!(prints("print 1 != 2;"), "true\n");
    assert_eq!(prints("print 1 != 1;"), "false\n");
    assert_eq!(prints("print nil != nil;"), "false\n");
    assert_eq!(prints("print \"a\" != \"a\";"), "false\n");
    assert_eq!(prints("print \"a\" != \"b\";"), "true\n");
    assert_eq!(prints("print true != 1;"), "true\n");
}

#[test]
fn comparisons_and_derived_operators() {
    assert_eq!(prints("print 2 >= 2;"), "true\n");
    assert_eq!(prints("print 3 <= 2;"), "false\n");
    assert_eq!(prints("print 1 < 2;"), "true\n");
    assert_eq!(prints("print 1 > 2;"), "false\n");
    assert_eq!(prints("print 1 == 1;"), "true\n");
}

#[test]
fn unary_operators() {
    assert_eq!(prints("print -3;"), "-3\n");
    assert_eq!(prints("print !nil;"), "true\n");
    assert_eq!(prints("print !0;"), "false\n");
}

#[test]
fn division_gives_fraction() {
    assert_eq!(prints("print 1 / 2;"), "0.5\n");
    assert_eq!(prints("print 7 - 10;"), "-3\n");
}

#[test]
fn if_else_and_while() {
    assert_eq!(prints("if (1 < 2) print 1; else print 2;"), "1\n");
    assert_eq!(prints("if (nil) print 1; else print 2;"), "2\n");
    assert_eq!(prints("if (false) print 1;"), "");
    assert_eq!(prints("var i = 0; while (i < 3) { print i; i = i + 1; }"), "0\n1\n2\n");
}

#[test]
fn assignment_is_an_expression() {
    assert_eq!(prints("var a = 1; var b = 2; a = b = 5; print a; print b;"), "5\n5\n");
    assert_eq!(prints("{ var a = 1; print a = 3; print a; }"), "3\n3\n");
}

#[test]
fn function_without_return_yields_nil() {
    assert_eq!(prints("fun f() {} print f();"), "nil\n");
    assert_eq!(prints("var s = \"x\"; print s;"), "x\n");
}

#[test]
fn recursion_through_calls() {
    assert_eq!(
        prints("fun fib(n) { if (n < 2) return n; return fib(n - 1) + fib(n - 2); } print fib(10);"),
        "55\n"
    );
}

#[test]
fn clock_native_returns_a_number() {
    assert_eq!(prints("print clock();"), "0\n");
}

#[test]
fn negating_a_string_is_arithmetic_error() {
    let (_, d) = fails_with("print -\"a\";");
    assert_eq!(d.code, ErrorCode::InvalidArithmetic);
    assert_eq!(d.code.code(), "E0008");
    let (_, d) = fails_with("print \"a\" * 2;");
    assert_eq!(d.code, ErrorCode::InvalidArithmetic);
}

#[test]
fn invalid_assignment_target() {
    let (_, d) = fails_with("1 = 2;");
    assert_eq!(d.code, ErrorCode::InvalidAssignmentTarget);
    assert_eq!(d.code.code(), "E0013");
}

#[test]
fn invalid_callee() {
    let (_, d) = fails_with("1();");
    assert_eq!(d.code, ErrorCode::InvalidCallee);
    assert_eq!(d.code.code(), "E0014");
}

#[test]
fn unknown_function() {
    let (_, d) = fails_with("print nothing();");
    assert_eq!(d.code, ErrorCode::UnknownFunction);
    assert_eq!(d.code.code(), "E0015");
}

#[test]
fn arity_mismatch() {
    let (_, d) = fails_with("fun f(a) { return a; } print f();");
    assert_eq!(d.code, ErrorCode::ArityMismatch);
    assert_eq!(d.code.code(), "E0016");
}

#[test]
fn runaway_recursion_overflows() {
    let (_, d) = fails_with("fun f() { return f(); } f();");
    assert_eq!(d.code, ErrorCode::StackOverflow);
    assert_eq!(d.code.code(), "E0006");
}

#[test]
fn early_end_of_input() {
    let (_, d) = fails_with("print 1");
    assert_eq!(d.code, ErrorCode::EarlyEof);
    assert_eq!(d.code.code(), "E0003");
}

#[test]
fn invalid_prefix() {
    let (_, d) = fails_with("print ;");
    assert_eq!(d.code, ErrorCode::InvalidPrefix);
    assert_eq!(d.code.code(), "E0004");
}

#[test]
fn unexpected_token() {
    let (_, d) = fails_with("var 1;");
    assert_eq!(d.code, ErrorCode::UnexpectedToken);
    assert_eq!(d.code.code(), "E0005");
}

#[test]
fn classes_have_no_bytecode() {
    let (_, d) = fails_with("class A {}");
    assert_eq!(d.code, ErrorCode::UnexpectedToken);
}

#[test]
fn set_undefined_global_fails() {
    let (_, d) = fails_with("x = 1;");
    assert_eq!(d.code, ErrorCode::UndefinedVariable);
}

fn code_of(source: &str) -> Vec<Instruction> {
    let mut heap = Heap::new();
    let function = compile(&mut heap, parse(lex(source)).unwrap()).unwrap();
    let chunk = function.chunk();
    (0..chunk.len()).map(|i| chunk.instruction(i)).collect()
}

#[test]
fn if_else_lowering() {
    assert_eq!(
        code_of("if (true) print 1; else print 2;"),
        vec![True, JumpIfFalse(5), Pop, LoadConstant(0), Print, Jump(4), Pop, LoadConstant(1), Print, Nil, Return]
    );
}

#[test]
fn while_lowering() {
    assert_eq!(
        code_of("while (false) print 1;"),
        vec![False, JumpIfFalse(5), Pop, LoadConstant(0), Print, Jump(-5), Pop, Nil, Return]
    );
}

#[test]
fn and_or_lowering() {
    assert_eq!(code_of("print nil and true;"), vec![Nil, JumpIfFalse(3), Pop, True, Print, Nil, Return]);
    assert_eq!(code_of("print nil or true;"), vec![Nil, JumpIfFalse(2), Jump(3), Pop, True, Print, Nil, Return]);
}

#[test]
fn block_locals_lowering() {
    assert_eq!(
        code_of("{ var a = 1; var a = 2; print a; }"),
        vec![LoadConstant(0), LoadConstant(1), GetLocal(1), Print, Pop, Pop, Nil, Return]
    );
}

#[test]
fn subtraction_is_left_associative_below_multiplication() {
    assert_eq!(
        code_of("print 1 - 2 - 3 * 4;"),
        vec![
            LoadConstant(0),
            LoadConstant(1),
            Subtract,
            LoadConstant(2),
            LoadConstant(3),
            Multiply,
            Subtract,
            Print,
            Nil,
            Return
        ]
    );
    assert_eq!(prints("print 1 - 2 - 3 * 4;"), "-13\n");
}
