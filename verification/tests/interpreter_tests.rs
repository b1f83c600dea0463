use lib::ast::{BinaryOp, Program};
use lib::interpreter::{Action, Event, Interpreter};
use lib::parser::Parser;
use lib::token::{Token, TokenKind};
use lib::value::{RuntimeError, Value};

fn tok(kind: TokenKind) -> Token {
    Token { kind, lexeme: String::new(), pos: 0 }
}

fn num(x: f64) -> TokenKind {
    TokenKind::Number(x.to_bits())
}

fn ident(name: &str) -> TokenKind {
    TokenKind::Ident(name.to_string())
}

fn string(s: &str) -> TokenKind {
    TokenKind::String(s.to_string())
}

fn program(kinds: Vec<TokenKind>) -> Program {
    let mut tokens: Vec<Token> = kinds.into_iter().map(tok).collect();
    tokens.push(tok(TokenKind::Eof));
    Parser::new(tokens).parse_program().expect("the test program parses")
}

fn show(v: &Value) -> String {
    match v {
        Value::Number(bits) => format!("{}", f64::from_bits(*bits)),
        Value::String(s) => s.clone(),
        Value::Bool(b) => format!("{}", b),
        Value::List(items) => format!("[{}]", items.iter().map(show).collect::<Vec<_>>().join(", ")),
        Value::Function { .. } => "<function>".to_string(),
    }
}

/// Drives the machine to the end of the loaded program: computes the
/// arithmetic and index conversions it asks for and records what it prints.
fn drive(interpreter: &mut Interpreter) -> (Result<Value, RuntimeError>, Vec<String>) {
    let mut printed = Vec::new();
    let mut event = Event::Continue;
    loop {
        match interpreter.step(event) {
            Action::Continue => event = Event::Continue,
            Action::Arith { op, left, right } => {
                let (a, b) = (f64::from_bits(left), f64::from_bits(right));
                let r = match op {
                    BinaryOp::Add => a + b,
                    BinaryOp::Subtract => a - b,
                    BinaryOp::Multiply => a * b,
                    BinaryOp::Divide => a / b,
                    _ => unreachable!(),
                };
                event = Event::Number(r.to_bits());
            }
            Action::ToIndex(bits) => event = Event::Index(f64::from_bits(bits) as usize),
            Action::Print(v) => {
                printed.push(show(&v));
                event = Event::Continue;
            }
            Action::Done(r) => return (r, printed),
            Action::Idle => panic!("no program loaded"),
        }
    }
}

fn run(kinds: Vec<TokenKind>) -> (Result<Value, RuntimeError>, Vec<String>) {
    let p = program(kinds);
    let mut interpreter = Interpreter::new();
    interpreter.run(&p);
    drive(&mut interpreter)
}

fn value_of(kinds: Vec<TokenKind>) -> String {
    match run(kinds).0 {
        Ok(v) => show(&v),
        Err(e) => panic!("unexpected run-time error {:?}", e),
    }
}

fn error_of(kinds: Vec<TokenKind>) -> RuntimeError {
    match run(kinds).0 {
        Ok(v) => panic!("expected an error, got {}", show(&v)),
        Err(e) => e,
    }
}

#[test]
fn empty_program_is_zero() {
    assert_eq!(value_of(vec![]), "0");
}

#[test]
fn arithmetic_follows_precedence() {
    let v = value_of(vec![
        TokenKind::Let,
        ident("x"),
        TokenKind::Equal,
        num(1.0),
        TokenKind::Plus,
        num(2.0),
        TokenKind::Star,
        num(3.0),
        TokenKind::Semicolon,
        ident("x"),
        TokenKind::Slash,
        num(2.0),
        TokenKind::Minus,
        num(1.0),
        TokenKind::Semicolon,
    ]);
    assert_eq!(v, "2.5");
}

#[test]
fn print_hands_values_to_the_driver() {
    let (r, printed) = run(vec![
        TokenKind::Print,
        num(1.0),
        TokenKind::Semicolon,
        TokenKind::Print,
        string("a"),
        TokenKind::Print,
        TokenKind::LBracket,
        num(1.0),
        TokenKind::Comma,
        TokenKind::True,
        TokenKind::RBracket,
    ]);
    assert_eq!(printed, vec!["1", "a", "[1, true]"]);
    assert_eq!(show(&r.unwrap()), "[1, true]");
}

#[test]
fn comparisons_give_one_or_zero() {
    assert_eq!(value_of(vec![num(3.0), TokenKind::Greater, num(2.0), TokenKind::Semicolon]), "1");
    assert_eq!(value_of(vec![num(2.0), TokenKind::GreaterEqual, num(3.0), TokenKind::Semicolon]), "0");
    assert_eq!(value_of(vec![num(2.0), TokenKind::LessEqual, num(2.0), TokenKind::Semicolon]), "1");
    assert_eq!(value_of(vec![num(2.0), TokenKind::Less, num(2.0), TokenKind::Semicolon]), "0");
}

#[test]
fn ordering_needs_numbers() {
    let e = error_of(vec![string("a"), TokenKind::Less, num(2.0), TokenKind::Semicolon]);
    assert!(matches!(e, RuntimeError::ExpectedNumber));
}

#[test]
fn equality_compares_structure() {
    let v = value_of(vec![
        TokenKind::LBracket,
        num(1.0),
        TokenKind::Comma,
        string("a"),
        TokenKind::RBracket,
        TokenKind::EqualEqual,
        TokenKind::LBracket,
        num(1.0),
        TokenKind::Comma,
        string("a"),
        TokenKind::RBracket,
        TokenKind::Semicolon,
    ]);
    assert_eq!(v, "1");
    assert_eq!(value_of(vec![num(1.0), TokenKind::EqualEqual, string("1"), TokenKind::Semicolon]), "0");
    assert_eq!(value_of(vec![num(1.0), TokenKind::BangEqual, num(2.0), TokenKind::Semicolon]), "1");
}

#[test]
fn zero_equals_negative_zero_and_nan_equals_nothing() {
    assert_eq!(
        value_of(vec![num(0.0), TokenKind::EqualEqual, TokenKind::Minus, num(0.0), TokenKind::Semicolon]),
        "1"
    );
    let nan = vec![
        num(0.0),
        TokenKind::Slash,
        num(0.0),
        TokenKind::EqualEqual,
        num(0.0),
        TokenKind::Slash,
        num(0.0),
        TokenKind::Semicolon,
    ];
    assert_eq!(value_of(nan), "0");
}

#[test]
fn lists_concatenate() {
    let v = value_of(vec![
        TokenKind::LBracket,
        num(1.0),
        TokenKind::RBracket,
        TokenKind::Plus,
        TokenKind::LBracket,
        num(2.0),
        TokenKind::Comma,
        num(3.0),
        TokenKind::RBracket,
        TokenKind::Semicolon,
    ]);
    assert_eq!(v, "[1, 2, 3]");
}

#[test]
fn addition_of_mixed_operands_fails() {
    let e = error_of(vec![num(1.0), TokenKind::Plus, string("a"), TokenKind::Semicolon]);
    assert!(matches!(e, RuntimeError::AdditionOperands));
}

#[test]
fn arithmetic_needs_numbers() {
    let e = error_of(vec![string("a"), TokenKind::Minus, num(1.0), TokenKind::Semicolon]);
    assert!(matches!(e, RuntimeError::ExpectedNumber));
    let e = error_of(vec![TokenKind::Minus, string("a"), TokenKind::Semicolon]);
    assert!(matches!(e, RuntimeError::ExpectedNumber));
    assert_eq!(value_of(vec![TokenKind::Minus, num(5.0), TokenKind::Semicolon]), "-5");
    assert_eq!(value_of(vec![TokenKind::Plus, num(5.0), TokenKind::Semicolon]), "5");
}

#[test]
fn undefined_variable_is_an_error() {
    let e = error_of(vec![ident("y"), TokenKind::Semicolon]);
    assert!(matches!(e, RuntimeError::UndefinedVariable(ref n) if n == "y"));
}

#[test]
fn assignment_needs_an_existing_variable() {
    let e = error_of(vec![ident("y"), TokenKind::Equal, num(1.0), TokenKind::Semicolon]);
    assert!(matches!(e, RuntimeError::UndefinedVariable(ref n) if n == "y"));
    let v = value_of(vec![
        TokenKind::Let,
        ident("y"),
        TokenKind::Equal,
        num(1.0),
        ident("y"),
        TokenKind::Equal,
        num(2.0),
        ident("y"),
        TokenKind::Semicolon,
    ]);
    assert_eq!(v, "2");
}

#[test]
fn if_follows_truthiness() {
    let prog = |cond: TokenKind| {
        vec![
            TokenKind::If,
            cond,
            TokenKind::LBrace,
            string("yes"),
            TokenKind::Semicolon,
            TokenKind::RBrace,
            TokenKind::Else,
            TokenKind::LBrace,
            string("no"),
            TokenKind::Semicolon,
            TokenKind::RBrace,
        ]
    };
    assert_eq!(value_of(prog(string(""))), "no");
    assert_eq!(value_of(prog(string("x"))), "yes");
    assert_eq!(value_of(prog(num(0.0))), "no");
    assert_eq!(value_of(prog(num(2.0))), "yes");
    assert_eq!(value_of(prog(TokenKind::False)), "no");
    let without_else = vec![TokenKind::If, TokenKind::False, TokenKind::LBrace, TokenKind::RBrace];
    assert_eq!(value_of(without_else), "0");
}

#[test]
fn while_loop_counts() {
    let v = value_of(vec![
        TokenKind::Let,
        ident("i"),
        TokenKind::Equal,
        num(0.0),
        TokenKind::Let,
        ident("s"),
        TokenKind::Equal,
        num(0.0),
        TokenKind::While,
        ident("i"),
        TokenKind::Less,
        num(5.0),
        TokenKind::LBrace,
        ident("s"),
        TokenKind::Equal,
        ident("s"),
        TokenKind::Plus,
        ident("i"),
        ident("i"),
        TokenKind::Equal,
        ident("i"),
        TokenKind::Plus,
        num(1.0),
        TokenKind::RBrace,
        ident("s"),
        TokenKind::Semicolon,
    ]);
    assert_eq!(v, "10");
}

#[test]
fn for_loop_binds_each_element_in_turn() {
    let v = value_of(vec![
        TokenKind::Let,
        ident("s"),
        TokenKind::Equal,
        num(0.0),
        TokenKind::For,
        ident("v"),
        TokenKind::In,
        TokenKind::LBracket,
        num(1.0),
        TokenKind::Comma,
        num(2.0),
        TokenKind::Comma,
        num(3.0),
        TokenKind::RBracket,
        TokenKind::LBrace,
        ident("s"),
        TokenKind::Equal,
        ident("s"),
        TokenKind::Plus,
        ident("v"),
        TokenKind::RBrace,
        TokenKind::LBracket,
        ident("s"),
        TokenKind::Comma,
        ident("v"),
        TokenKind::RBracket,
        TokenKind::Semicolon,
    ]);
    assert_eq!(v, "[6, 3]");
}

#[test]
fn for_loop_needs_a_list() {
    let e = error_of(vec![TokenKind::For, ident("v"), TokenKind::In, num(3.0), TokenKind::LBrace, TokenKind::RBrace]);
    assert!(matches!(e, RuntimeError::CanOnlyIterateLists));
}

#[test]
fn indexing_truncates_the_number() {
    let list = || vec![TokenKind::LBracket, num(10.0), TokenKind::Comma, num(20.0), TokenKind::RBracket];
    let mut p = list();
    p.extend(vec![TokenKind::LBracket, num(1.7), TokenKind::RBracket, TokenKind::Semicolon]);
    assert_eq!(value_of(p), "20");
    let mut p = list();
    p.extend(vec![TokenKind::LBracket, TokenKind::Minus, num(1.0), TokenKind::RBracket, TokenKind::Semicolon]);
    assert_eq!(value_of(p), "10");
    let mut p = list();
    p.extend(vec![TokenKind::LBracket, num(5.0), TokenKind::RBracket, TokenKind::Semicolon]);
    assert!(matches!(error_of(p), RuntimeError::IndexOutOfBounds(5)));
}

#[test]
fn only_lists_can_be_indexed() {
    let e = error_of(vec![num(5.0), TokenKind::LBracket, num(0.0), TokenKind::RBracket, TokenKind::Semicolon]);
    assert!(matches!(e, RuntimeError::CanOnlyIndexLists));
    let e = error_of(vec![
        TokenKind::LBracket,
        TokenKind::RBracket,
        TokenKind::LBracket,
        string("a"),
        TokenKind::RBracket,
        TokenKind::Semicolon,
    ]);
    assert!(matches!(e, RuntimeError::ExpectedNumber));
}

fn add_function() -> Vec<TokenKind> {
    vec![
        TokenKind::Fn,
        ident("add"),
        TokenKind::LParen,
        ident("a"),
        TokenKind::Comma,
        ident("b"),
        TokenKind::RParen,
        TokenKind::LBrace,
        TokenKind::Return,
        ident("a"),
        TokenKind::Plus,
        ident("b"),
        TokenKind::Semicolon,
        TokenKind::RBrace,
    ]
}

#[test]
fn function_call_returns_its_value() {
    let mut p = add_function();
    p.extend(vec![ident("add"), TokenKind::LParen, num(2.0), TokenKind::Comma, num(3.0), TokenKind::RParen, TokenKind::Semicolon]);
    assert_eq!(value_of(p), "5");
}

#[test]
fn function_definition_is_zero() {
    assert_eq!(value_of(add_function()), "0");
}

#[test]
fn recursion_with_else() {
    // fn fib(n) { if n < 2 { return n; } else { return fib(n - 1) + fib(n - 2); } } fib(10);
    let mut p = vec![
        TokenKind::Fn,
        ident("fib"),
        TokenKind::LParen,
        ident("n"),
        TokenKind::RParen,
        TokenKind::LBrace,
        TokenKind::If,
        ident("n"),
        TokenKind::Less,
        num(2.0),
        TokenKind::LBrace,
        TokenKind::Return,
        ident("n"),
        TokenKind::Semicolon,
        TokenKind::RBrace,
        TokenKind::Else,
        TokenKind::LBrace,
        TokenKind::Return,
        ident("fib"),
        TokenKind::LParen,
        ident("n"),
        TokenKind::Minus,
        num(1.0),
        TokenKind::RParen,
        TokenKind::Plus,
        ident("fib"),
        TokenKind::LParen,
        ident("n"),
        TokenKind::Minus,
        num(2.0),
        TokenKind::RParen,
        TokenKind::Semicolon,
        TokenKind::RBrace,
        TokenKind::RBrace,
    ];
    p.extend(vec![ident("fib"), TokenKind::LParen, num(10.0), TokenKind::RParen, TokenKind::Semicolon]);
    assert_eq!(value_of(p), "55");
}

#[test]
fn return_inside_if_ends_only_the_if() {
    // fn f() { if true { return 1; } return 2; } f();
    let v = value_of(vec![
        TokenKind::Fn,
        ident("f"),
        TokenKind::LParen,
        TokenKind::RParen,
        TokenKind::LBrace,
        TokenKind::If,
        TokenKind::True,
        TokenKind::LBrace,
        TokenKind::Return,
        num(1.0),
        TokenKind::Semicolon,
        TokenKind::RBrace,
        TokenKind::Return,
        num(2.0),
        TokenKind::Semicolon,
        TokenKind::RBrace,
        ident("f"),
        TokenKind::LParen,
        TokenKind::RParen,
        TokenKind::Semicolon,
    ]);
    assert_eq!(v, "2");
}

#[test]
fn return_inside_while_stops_the_loop() {
    // let i = 0; while true { i = i + 1; return i; } ;
    let v = value_of(vec![
        TokenKind::Let,
        ident("i"),
        TokenKind::Equal,
        num(0.0),
        TokenKind::While,
        TokenKind::True,
        TokenKind::LBrace,
        ident("i"),
        TokenKind::Equal,
        ident("i"),
        TokenKind::Plus,
        num(1.0),
        TokenKind::Return,
        ident("i"),
        TokenKind::RBrace,
    ]);
    assert_eq!(v, "1");
}

#[test]
fn call_errors() {
    let e = error_of(vec![ident("g"), TokenKind::LParen, TokenKind::RParen, TokenKind::Semicolon]);
    assert!(matches!(e, RuntimeError::UndefinedFunction(ref n) if n == "g"));
    let e = error_of(vec![
        TokenKind::Let,
        ident("g"),
        TokenKind::Equal,
        num(1.0),
        ident("g"),
        TokenKind::LParen,
        TokenKind::RParen,
        TokenKind::Semicolon,
    ]);
    assert!(matches!(e, RuntimeError::NotAFunction(ref n) if n == "g"));
    let mut p = add_function();
    p.extend(vec![ident("add"), TokenKind::LParen, num(2.0), TokenKind::RParen, TokenKind::Semicolon]);
    assert!(matches!(error_of(p), RuntimeError::ArityMismatch { expected: 2, got: 1 }));
}

#[test]
fn call_leaves_caller_variables_alone() {
    // let x = 1; fn f() { x = 5; return x; } [f(), x];
    let v = value_of(vec![
        TokenKind::Let,
        ident("x"),
        TokenKind::Equal,
        num(1.0),
        TokenKind::Fn,
        ident("f"),
        TokenKind::LParen,
        TokenKind::RParen,
        TokenKind::LBrace,
        ident("x"),
        TokenKind::Equal,
        num(5.0),
        TokenKind::Return,
        ident("x"),
        TokenKind::RBrace,
        TokenKind::LBracket,
        ident("f"),
        TokenKind::LParen,
        TokenKind::RParen,
        TokenKind::Comma,
        ident("x"),
        TokenKind::RBracket,
        TokenKind::Semicolon,
    ]);
    assert_eq!(v, "[5, 1]");
}

#[test]
fn called_function_sees_variables_of_the_caller() {
    // fn g() { return y; } let y = 4; g();
    let v = value_of(vec![
        TokenKind::Fn,
        ident("g"),
        TokenKind::LParen,
        TokenKind::RParen,
        TokenKind::LBrace,
        TokenKind::Return,
        ident("y"),
        TokenKind::RBrace,
        TokenKind::Let,
        ident("y"),
        TokenKind::Equal,
        num(4.0),
        ident("g"),
        TokenKind::LParen,
        TokenKind::RParen,
        TokenKind::Semicolon,
    ]);
    assert_eq!(v, "4");
}

#[test]
fn let_then_read_gives_the_value() {
    let v = value_of(vec![
        TokenKind::Let,
        ident("x"),
        TokenKind::Equal,
        string("hello"),
        ident("x"),
        TokenKind::Semicolon,
    ]);
    assert_eq!(v, "hello");
}

#[test]
fn variables_survive_between_runs() {
    let mut interpreter = Interpreter::new();
    interpreter.run(&program(vec![TokenKind::Let, ident("x"), TokenKind::Equal, num(5.0)]));
    assert_eq!(show(&drive(&mut interpreter).0.unwrap()), "5");
    interpreter.run(&program(vec![ident("x"), TokenKind::Star, num(2.0), TokenKind::Semicolon]));
    assert_eq!(show(&drive(&mut interpreter).0.unwrap()), "10");
}

#[test]
fn new_interpreter_is_idle() {
    let mut interpreter = Interpreter::new();
    assert!(matches!(interpreter.step(Event::Continue), Action::Idle));
}

#[test]
fn finished_run_stays_finished() {
    let mut interpreter = Interpreter::new();
    interpreter.run(&program(vec![num(3.0), TokenKind::Semicolon]));
    let (r, _) = drive(&mut interpreter);
    assert_eq!(show(&r.unwrap()), "3");
    for event in [Event::Continue, Event::Number(0), Event::Index(1)] {
        match interpreter.step(event) {
            Action::Done(Ok(v)) => assert_eq!(show(&v), "3"),
            other => panic!("expected the same outcome, got {:?}", other),
        }
    }
}

#[test]
fn wrong_answer_asks_again() {
    let mut interpreter = Interpreter::new();
    interpreter.run(&program(vec![num(1.0), TokenKind::Plus, num(2.0), TokenKind::Semicolon]));
    let mut action = interpreter.step(Event::Continue);
    while matches!(action, Action::Continue) {
        action = interpreter.step(Event::Continue);
    }
    assert!(matches!(action, Action::Arith { op: BinaryOp::Add, .. }));
    let again = interpreter.step(Event::Index(0));
    match again {
        Action::Arith { op, left, right } => {
            assert!(matches!(op, BinaryOp::Add));
            assert_eq!(f64::from_bits(left), 1.0);
            assert_eq!(f64::from_bits(right), 2.0);
        }
        other => panic!("expected the same request, got {:?}", other),
    }
    let done = interpreter.step(Event::Number(3.0f64.to_bits()));
    assert!(matches!(done, Action::Continue));
    let (r, _) = drive(&mut interpreter);
    assert_eq!(show(&r.unwrap()), "3");
}

#[test]
fn division_is_left_to_the_driver() {
    assert_eq!(value_of(vec![num(1.0), TokenKind::Slash, num(0.0), TokenKind::Semicolon]), "inf");
}

fn literal(i: usize) -> Vec<TokenKind> {
    match i {
        0 => vec![num(0.0)],
        1 => vec![string("1")],
        2 => vec![TokenKind::True],
        3 => vec![TokenKind::LBracket, num(1.0), TokenKind::RBracket],
        4 => vec![TokenKind::LBracket, num(0.0), TokenKind::Slash, num(0.0), TokenKind::RBracket],
        _ => vec![TokenKind::Minus, num(0.0)],
    }
}

#[test]
fn equality_is_symmetric() {
    for i in 0..6 {
        for j in 0..6 {
            let mut ab = literal(i);
            ab.push(TokenKind::EqualEqual);
            ab.extend(literal(j));
            ab.push(TokenKind::Semicolon);
            let mut ba = literal(j);
            ba.push(TokenKind::EqualEqual);
            ba.extend(literal(i));
            ba.push(TokenKind::Semicolon);
            let expected = if i == j && i != 4 || (i == 0 && j == 5) || (i == 5 && j == 0) { "1" } else { "0" };
            assert_eq!(value_of(ab), expected, "{} == {}", i, j);
            assert_eq!(value_of(ba), expected, "{} == {}", j, i);
        }
    }
}

fn failing_function() -> Vec<TokenKind> {
    // fn f(p) { let z = 1; nope; }
    vec![
        TokenKind::Fn,
        ident("f"),
        TokenKind::LParen,
        ident("p"),
        TokenKind::RParen,
        TokenKind::LBrace,
        TokenKind::Let,
        ident("z"),
        TokenKind::Equal,
        num(1.0),
        ident("nope"),
        TokenKind::Semicolon,
        TokenKind::RBrace,
    ]
}

fn defined(interpreter: &mut Interpreter, name: &str) -> bool {
    interpreter.run(&program(vec![ident(name), TokenKind::Semicolon]));
    drive(interpreter).0.is_ok()
}

#[test]
fn error_inside_call_leaves_caller_variables() {
    let mut interpreter = Interpreter::new();
    let mut p = failing_function();
    p.extend(vec![
        TokenKind::Let,
        ident("x"),
        TokenKind::Equal,
        num(2.0),
        TokenKind::Let,
        ident("y"),
        TokenKind::Equal,
        ident("f"),
        TokenKind::LParen,
        num(7.0),
        TokenKind::RParen,
    ]);
    interpreter.run(&program(p));
    let (r, _) = drive(&mut interpreter);
    assert!(matches!(r, Err(RuntimeError::UndefinedVariable(ref n)) if n == "nope"));
    assert!(defined(&mut interpreter, "x"));
    assert!(defined(&mut interpreter, "f"));
    assert!(!defined(&mut interpreter, "z"));
    assert!(!defined(&mut interpreter, "p"));
    assert!(!defined(&mut interpreter, "y"));
}

#[test]
fn error_inside_nested_call_restores_outermost_caller() {
    // fn g() { let w = 3; f(1); } g();
    let mut interpreter = Interpreter::new();
    let mut p = failing_function();
    p.extend(vec![
        TokenKind::Fn,
        ident("g"),
        TokenKind::LParen,
        TokenKind::RParen,
        TokenKind::LBrace,
        TokenKind::Let,
        ident("w"),
        TokenKind::Equal,
        num(3.0),
        ident("f"),
        TokenKind::LParen,
        num(1.0),
        TokenKind::RParen,
        TokenKind::Semicolon,
        TokenKind::RBrace,
        ident("g"),
        TokenKind::LParen,
        TokenKind::RParen,
        TokenKind::Semicolon,
    ]);
    interpreter.run(&program(p));
    assert!(drive(&mut interpreter).0.is_err());
    assert!(!defined(&mut interpreter, "w"));
    assert!(!defined(&mut interpreter, "z"));
    assert!(defined(&mut interpreter, "g"));
}

#[test]
fn top_level_bindings_before_an_error_stay() {
    let mut interpreter = Interpreter::new();
    interpreter.run(&program(vec![
        TokenKind::Let,
        ident("a"),
        TokenKind::Equal,
        num(1.0),
        ident("missing"),
        TokenKind::Semicolon,
    ]));
    assert!(drive(&mut interpreter).0.is_err());
    assert!(defined(&mut interpreter, "a"));
}
