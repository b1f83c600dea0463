use lib::ast::{BinaryOp, Expr, Program, Stmt, UnaryOp};
use lib::parser::{ParseError, Parser};
use lib::token::{Token, TokenKind};

fn tok(kind: TokenKind) -> Token {
    Token { kind, lexeme: String::new(), pos: 0 }
}

fn num(x: f64) -> TokenKind {
    TokenKind::Number(x.to_bits())
}

fn ident(name: &str) -> TokenKind {
    TokenKind::Ident(name.to_string())
}

fn parse(kinds: Vec<TokenKind>) -> Result<Program, ParseError> {
    let mut tokens: Vec<Token> = kinds.into_iter().map(tok).collect();
    tokens.push(tok(TokenKind::Eof));
    let mut parser = Parser::new(tokens);
    parser.parse_program()
}

fn op_name(op: BinaryOp) -> &'static str {
    match op {
        BinaryOp::Add => "+",
        BinaryOp::Subtract => "-",
        BinaryOp::Multiply => "*",
        BinaryOp::Divide => "/",
        BinaryOp::Equal => "==",
        BinaryOp::NotEqual => "!=",
        BinaryOp::Greater => ">",
        BinaryOp::GreaterEqual => ">=",
        BinaryOp::Less => "<",
        BinaryOp::LessEqual => "<=",
    }
}

fn show_list(items: &[Expr]) -> String {
    items.iter().map(show).collect::<Vec<_>>().join(" ")
}

fn show(e: &Expr) -> String {
    match e {
        Expr::Number(bits) => format!("{}", f64::from_bits(*bits)),
        Expr::String(s) => format!("{:?}", s),
        Expr::Variable(name) => name.clone(),
        Expr::Bool(b) => format!("{}", b),
        Expr::Unary { op, expr } => {
            let o = match op {
                UnaryOp::Negate => "neg",
                UnaryOp::Plus => "pos",
            };
            format!("({} {})", o, show(expr))
        }
        Expr::Binary { op, left, right } => format!("({} {} {})", op_name(*op), show(left), show(right)),
        Expr::Call { callee, args } => format!("(call {} [{}])", callee, show_list(args)),
        Expr::List(items) => format!("[{}]", show_list(items)),
        Expr::Index { object, index } => format!("(index {} {})", show(object), show(index)),
    }
}

fn show_block(stmts: &[Stmt]) -> String {
    stmts.iter().map(show_stmt).collect::<Vec<_>>().join(" ")
}

fn show_stmt(s: &Stmt) -> String {
    match s {
        Stmt::Let { name, value } => format!("(let {} {})", name, show(value)),
        Stmt::Assign { name, value } => format!("(set {} {})", name, show(value)),
        Stmt::If { condition, body, else_body } => match else_body {
            Some(eb) => format!("(if {} {{{}}} {{{}}})", show(condition), show_block(body), show_block(eb)),
            None => format!("(if {} {{{}}})", show(condition), show_block(body)),
        },
        Stmt::While { condition, body } => format!("(while {} {{{}}})", show(condition), show_block(body)),
        Stmt::For { variable, iterable, body } => {
            format!("(for {} {} {{{}}})", variable, show(iterable), show_block(body))
        }
        Stmt::Function { name, params, body } => {
            format!("(fn {} [{}] {{{}}})", name, params.join(" "), show_block(body))
        }
        Stmt::Return(e) => format!("(return {})", show(e)),
        Stmt::Print(e) => format!("(print {})", show(e)),
        Stmt::Expr(e) => show(e),
    }
}

fn parsed(kinds: Vec<TokenKind>) -> String {
    match parse(kinds) {
        Ok(program) => show_block(&program.statements),
        Err(e) => panic!("unexpected parse error {:?}", e),
    }
}

fn syntax_error(kinds: Vec<TokenKind>) -> (String, TokenKind) {
    match parse(kinds) {
        Err(ParseError::Syntax { message, token }) => (message, token.kind),
        other => panic!("expected a syntax error, got {:?}", other),
    }
}

#[test]
fn empty_input_parses_to_empty_program() {
    let program = parse(vec![]).unwrap();
    assert!(program.statements.is_empty());
}

#[test]
fn multiplication_binds_tighter_than_addition() {
    let s = parsed(vec![num(1.0), TokenKind::Plus, num(2.0), TokenKind::Star, num(3.0), TokenKind::Semicolon]);
    assert_eq!(s, "(+ 1 (* 2 3))");
}

#[test]
fn subtraction_groups_to_the_left() {
    let s = parsed(vec![num(1.0), TokenKind::Minus, num(2.0), TokenKind::Minus, num(3.0), TokenKind::Semicolon]);
    assert_eq!(s, "(- (- 1 2) 3)");
}

#[test]
fn division_groups_to_the_left() {
    let s = parsed(vec![num(8.0), TokenKind::Slash, num(4.0), TokenKind::Slash, num(2.0), TokenKind::Semicolon]);
    assert_eq!(s, "(/ (/ 8 4) 2)");
}

#[test]
fn comparisons_share_one_level_and_group_to_the_left() {
    let s = parsed(vec![
        num(1.0),
        TokenKind::Less,
        num(2.0),
        TokenKind::EqualEqual,
        num(1.0),
        TokenKind::Plus,
        num(0.0),
        TokenKind::Semicolon,
    ]);
    assert_eq!(s, "(== (< 1 2) (+ 1 0))");
}

#[test]
fn every_comparison_operator_is_recognised() {
    let ops = vec![
        (TokenKind::EqualEqual, "=="),
        (TokenKind::BangEqual, "!="),
        (TokenKind::Greater, ">"),
        (TokenKind::GreaterEqual, ">="),
        (TokenKind::Less, "<"),
        (TokenKind::LessEqual, "<="),
    ];
    for (kind, name) in ops {
        let s = parsed(vec![ident("a"), kind, ident("b"), TokenKind::Semicolon]);
        assert_eq!(s, format!("({} a b)", name));
    }
}

#[test]
fn prefix_operators_nest() {
    let s = parsed(vec![TokenKind::Minus, TokenKind::Plus, TokenKind::Minus, num(5.0), TokenKind::Semicolon]);
    assert_eq!(s, "(neg (pos (neg 5)))");
}

#[test]
fn prefix_binds_tighter_than_multiplication() {
    let s = parsed(vec![TokenKind::Minus, num(2.0), TokenKind::Star, num(3.0), TokenKind::Semicolon]);
    assert_eq!(s, "(* (neg 2) 3)");
}

#[test]
fn parentheses_override_precedence() {
    let s = parsed(vec![
        TokenKind::LParen,
        num(1.0),
        TokenKind::Plus,
        num(2.0),
        TokenKind::RParen,
        TokenKind::Star,
        num(3.0),
        TokenKind::Semicolon,
    ]);
    assert_eq!(s, "(* (+ 1 2) 3)");
}

#[test]
fn literals_of_every_kind() {
    let s = parsed(vec![
        TokenKind::LBracket,
        num(1.5),
        TokenKind::Comma,
        TokenKind::String("hi".to_string()),
        TokenKind::Comma,
        TokenKind::True,
        TokenKind::Comma,
        TokenKind::False,
        TokenKind::Comma,
        ident("x"),
        TokenKind::RBracket,
        TokenKind::Semicolon,
    ]);
    assert_eq!(s, "[1.5 \"hi\" true false x]");
}

#[test]
fn empty_list_literal() {
    let s = parsed(vec![TokenKind::LBracket, TokenKind::RBracket, TokenKind::Semicolon]);
    assert_eq!(s, "[]");
}

#[test]
fn calls_and_indexes_chain() {
    let s = parsed(vec![
        ident("f"),
        TokenKind::LParen,
        num(1.0),
        TokenKind::Comma,
        num(2.0),
        TokenKind::RParen,
        TokenKind::LBracket,
        num(0.0),
        TokenKind::RBracket,
        TokenKind::LBracket,
        num(1.0),
        TokenKind::RBracket,
        TokenKind::Semicolon,
    ]);
    assert_eq!(s, "(index (index (call f [1 2]) 0) 1)");
}

#[test]
fn call_without_arguments() {
    let s = parsed(vec![ident("f"), TokenKind::LParen, TokenKind::RParen, TokenKind::Semicolon]);
    assert_eq!(s, "(call f [])");
}

#[test]
fn parenthesised_name_can_be_called() {
    let s = parsed(vec![
        TokenKind::LParen,
        ident("f"),
        TokenKind::RParen,
        TokenKind::LParen,
        TokenKind::RParen,
        TokenKind::Semicolon,
    ]);
    assert_eq!(s, "(call f [])");
}

#[test]
fn let_assign_and_print_take_an_optional_semicolon() {
    let s = parsed(vec![
        TokenKind::Let,
        ident("x"),
        TokenKind::Equal,
        num(1.0),
        ident("x"),
        TokenKind::Equal,
        num(2.0),
        TokenKind::Semicolon,
        TokenKind::Print,
        ident("x"),
        TokenKind::Print,
        num(3.0),
        TokenKind::Semicolon,
    ]);
    assert_eq!(s, "(let x 1) (set x 2) (print x) (print 3)");
}

#[test]
fn if_with_and_without_else() {
    let s = parsed(vec![
        TokenKind::If,
        ident("a"),
        TokenKind::LBrace,
        TokenKind::Print,
        num(1.0),
        TokenKind::RBrace,
        TokenKind::If,
        ident("b"),
        TokenKind::LBrace,
        TokenKind::RBrace,
        TokenKind::Else,
        TokenKind::LBrace,
        TokenKind::Print,
        num(2.0),
        TokenKind::Print,
        num(3.0),
        TokenKind::RBrace,
    ]);
    assert_eq!(s, "(if a {(print 1)}) (if b {} {(print 2) (print 3)})");
}

#[test]
fn while_and_for_loops() {
    let s = parsed(vec![
        TokenKind::While,
        ident("i"),
        TokenKind::Less,
        num(3.0),
        TokenKind::LBrace,
        ident("i"),
        TokenKind::Equal,
        ident("i"),
        TokenKind::Plus,
        num(1.0),
        TokenKind::RBrace,
        TokenKind::For,
        ident("v"),
        TokenKind::In,
        ident("xs"),
        TokenKind::LBrace,
        TokenKind::Print,
        ident("v"),
        TokenKind::RBrace,
    ]);
    assert_eq!(s, "(while (< i 3) {(set i (+ i 1))}) (for v xs {(print v)})");
}

#[test]
fn function_definition_with_return() {
    let s = parsed(vec![
        TokenKind::Fn,
        ident("add"),
        TokenKind::LParen,
        ident("a"),
        TokenKind::Comma,
        ident("b"),
        TokenKind::RParen,
        TokenKind::LBrace,
        TokenKind::Return,
        ident("a"),
        TokenKind::Plus,
        ident("b"),
        TokenKind::Semicolon,
        TokenKind::RBrace,
        TokenKind::Fn,
        ident("nothing"),
        TokenKind::LParen,
        TokenKind::RParen,
        TokenKind::LBrace,
        TokenKind::RBrace,
    ]);
    assert_eq!(s, "(fn add [a b] {(return (+ a b))}) (fn nothing [] {})");
}

#[test]
fn expression_statement_needs_semicolon() {
    let (message, kind) = syntax_error(vec![num(1.0), num(2.0), TokenKind::Semicolon]);
    assert_eq!(message, "Expected ';' after expression");
    assert!(matches!(kind, TokenKind::Number(b) if b == 2.0f64.to_bits()));
}

#[test]
fn missing_semicolon_at_end_reports_end_of_input() {
    let (message, kind) = syntax_error(vec![ident("x")]);
    assert_eq!(message, "Expected ';' after expression");
    assert!(matches!(kind, TokenKind::Eof));
}

#[test]
fn let_needs_a_name_and_equal_sign() {
    let (message, kind) = syntax_error(vec![TokenKind::Let, num(1.0)]);
    assert_eq!(message, "expected identifier after `let`");
    assert!(matches!(kind, TokenKind::Eof));
    let (message, kind) = syntax_error(vec![TokenKind::Let, ident("x"), num(1.0)]);
    assert_eq!(message, "expected `=` after variable name");
    assert!(matches!(kind, TokenKind::Number(_)));
}

#[test]
fn missing_expression_is_reported() {
    let (message, kind) = syntax_error(vec![TokenKind::Print, TokenKind::Semicolon]);
    assert_eq!(message, "expected expression");
    assert!(matches!(kind, TokenKind::Eof));
}

#[test]
fn unclosed_parenthesis_is_reported() {
    let (message, kind) = syntax_error(vec![TokenKind::LParen, num(1.0), TokenKind::Semicolon]);
    assert_eq!(message, "expected `)` after expression");
    assert!(matches!(kind, TokenKind::Semicolon));
}

#[test]
fn only_a_name_can_be_called() {
    let (message, kind) = syntax_error(vec![num(1.0), TokenKind::LParen, TokenKind::RParen, TokenKind::Semicolon]);
    assert_eq!(message, "expected function name before call");
    assert!(matches!(kind, TokenKind::Semicolon));
}

#[test]
fn list_and_index_need_closing_brackets() {
    let (message, _) = syntax_error(vec![TokenKind::LBracket, num(1.0), TokenKind::Semicolon]);
    assert_eq!(message, "expected ']' after list literal");
    let (message, _) = syntax_error(vec![ident("a"), TokenKind::LBracket, num(1.0), TokenKind::Semicolon]);
    assert_eq!(message, "expected ']' after index");
    let (message, _) = syntax_error(vec![ident("f"), TokenKind::LParen, num(1.0), TokenKind::Semicolon]);
    assert_eq!(message, "expected ')' after arguments");
}

#[test]
fn block_errors_are_reported() {
    let (message, _) = syntax_error(vec![TokenKind::If, ident("a"), TokenKind::Print, num(1.0)]);
    assert_eq!(message, "expected '{' after condition");
    let (message, kind) = syntax_error(vec![TokenKind::While, ident("a"), TokenKind::LBrace, TokenKind::Print, num(1.0)]);
    assert_eq!(message, "Expected ';' after expression");
    assert!(matches!(kind, TokenKind::Eof));
    let (message, _) = syntax_error(vec![
        TokenKind::If,
        ident("a"),
        TokenKind::LBrace,
        TokenKind::RBrace,
        TokenKind::Else,
        ident("b"),
    ]);
    assert_eq!(message, "expected '{' after else");
}

#[test]
fn for_and_fn_errors_are_reported() {
    let (message, _) = syntax_error(vec![TokenKind::For, num(1.0)]);
    assert_eq!(message, "expected identifier after `for`");
    let (message, _) = syntax_error(vec![TokenKind::For, ident("v"), ident("xs")]);
    assert_eq!(message, "expected 'in' after for variable");
    let (message, _) = syntax_error(vec![TokenKind::Fn, num(1.0)]);
    assert_eq!(message, "expected function name after `fn`");
    let (message, _) = syntax_error(vec![TokenKind::Fn, ident("f"), ident("a")]);
    assert_eq!(message, "expected '(' after function name");
    let (message, _) = syntax_error(vec![TokenKind::Fn, ident("f"), TokenKind::LParen, num(1.0)]);
    assert_eq!(message, "expected parameter name");
    let (message, _) = syntax_error(vec![TokenKind::Fn, ident("f"), TokenKind::LParen, ident("a"), ident("b")]);
    assert_eq!(message, "expected ')' after function parameters");
    let (message, _) = syntax_error(vec![TokenKind::Fn, ident("f"), TokenKind::LParen, TokenKind::RParen, ident("b")]);
    assert_eq!(message, "expected '{' before function body");
}

#[test]
fn open_parenthesis_at_end_of_input_is_unterminated() {
    match parse(vec![TokenKind::Print, TokenKind::LParen]) {
        Err(ParseError::Unterminated { token }) => assert!(matches!(token.kind, TokenKind::Eof)),
        other => panic!("expected an unterminated expression, got {:?}", other),
    }
    match parse(vec![TokenKind::Print, TokenKind::LBracket]) {
        Err(ParseError::Unterminated { token }) => assert!(matches!(token.kind, TokenKind::Eof)),
        other => panic!("expected an unterminated expression, got {:?}", other),
    }
}

#[test]
fn true_and_false_are_expressions() {
    let s = parsed(vec![TokenKind::True, TokenKind::Semicolon, TokenKind::False, TokenKind::Semicolon]);
    assert_eq!(s, "true false");
}

#[test]
fn assignment_needs_a_name_followed_by_equal() {
    let s = parsed(vec![ident("x"), TokenKind::EqualEqual, num(1.0), TokenKind::Semicolon]);
    assert_eq!(s, "(== x 1)");
}

#[test]
fn tokens_after_end_of_input_are_ignored() {
    let tokens = vec![
        tok(num(1.0)),
        tok(TokenKind::Semicolon),
        tok(TokenKind::Eof),
        tok(TokenKind::Print),
    ];
    let mut parser = Parser::new(tokens);
    let program = parser.parse_program().unwrap();
    assert_eq!(show_block(&program.statements), "1");
}
