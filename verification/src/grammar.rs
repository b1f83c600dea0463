//! The grammar of the language, stated as spec functions over a token
//! sequence. Each rule takes the position where it starts and gives what
//! it built and how many tokens it consumed, or the error it stops with.
//! Errors carry the position of the token they report.
//!
//! The rules are closed; for each one an `unfold_` lemma states its
//! definition, one step at a time.
use vstd::prelude::*;
use crate::ast::{BinaryOp, ExprView, StmtView, UnaryOp};
use crate::token::{Token, TokenKind, is_eof, spec_kind_matches};

verus! {

/// The model of a parse error: the message, and the position of the token
/// it reports.
pub enum ParseErrorView {
    Syntax { message: Seq<char>, at: nat },
    Unterminated { at: nat },
}

/// The outcome of a grammar rule: what it built and how many tokens it consumed.
pub type Parsed<T> = Result<(T, nat), ParseErrorView>;

/// Position `p` holds no token, or the end-of-input token.
pub open spec fn at_end(toks: Seq<Token>, p: nat) -> bool {
    p >= toks.len() || is_eof(toks[p as int].kind)
}

/// The token at `p` is of kind `k` (and is not the end of input).
pub open spec fn check(toks: Seq<Token>, p: nat, k: TokenKind) -> bool {
    !at_end(toks, p) && spec_kind_matches(toks[p as int].kind, k)
}

/// Where the parser stands after taking one token at `p`: it does not move
/// past the end of input.
pub open spec fn advance_pos(toks: Seq<Token>, p: nat) -> nat {
    if at_end(toks, p) {
        p
    } else {
        p + 1
    }
}

/// The token taken last when the parser stands at `p`.
pub open spec fn previous_kind(toks: Seq<Token>, p: nat) -> TokenKind {
    toks[p - 1].kind
}

/// Tokens left before position `p` runs off the sequence.
pub open spec fn dist(toks: Seq<Token>, p: nat) -> nat {
    if p < toks.len() {
        (toks.len() - p) as nat
    } else {
        0
    }
}

/// One more token when a semicolon follows at `p`.
pub open spec fn optional_semicolon(toks: Seq<Token>, p: nat) -> nat {
    if check(toks, p, TokenKind::Semicolon) {
        1
    } else {
        0
    }
}

/// A syntax error with `message`, reported at the token at `at`.
pub open spec fn syntax<T>(message: &str, at: nat) -> Parsed<T> {
    Err(ParseErrorView::Syntax { message: message@, at })
}

/// The comparison operator a token kind stands for.
pub open spec fn comparison_op(k: TokenKind) -> Option<BinaryOp> {
    match k {
        TokenKind::EqualEqual => Some(BinaryOp::Equal),
        TokenKind::BangEqual => Some(BinaryOp::NotEqual),
        TokenKind::Greater => Some(BinaryOp::Greater),
        TokenKind::GreaterEqual => Some(BinaryOp::GreaterEqual),
        TokenKind::Less => Some(BinaryOp::Less),
        TokenKind::LessEqual => Some(BinaryOp::LessEqual),
        _ => None,
    }
}

/// The additive operator a token kind stands for.
pub open spec fn term_op(k: TokenKind) -> Option<BinaryOp> {
    match k {
        TokenKind::Plus => Some(BinaryOp::Add),
        TokenKind::Minus => Some(BinaryOp::Subtract),
        _ => None,
    }
}

/// The multiplicative operator a token kind stands for.
pub open spec fn factor_op(k: TokenKind) -> Option<BinaryOp> {
    match k {
        TokenKind::Star => Some(BinaryOp::Multiply),
        TokenKind::Slash => Some(BinaryOp::Divide),
        _ => None,
    }
}

/// expression := comparison
pub closed spec fn spec_expression(toks: Seq<Token>, p: nat) -> Parsed<ExprView>
    decreases dist(toks, p), 7nat,
{
    spec_comparison(toks, p)
}

/// comparison := term (comparison-operator term)*, grouped to the left
pub closed spec fn spec_comparison(toks: Seq<Token>, p: nat) -> Parsed<ExprView>
    decreases dist(toks, p), 6nat,
{
    match spec_term(toks, p) {
        Err(e) => Err(e),
        Ok((left, c)) => match spec_comparison_rest(toks, p + c, left) {
            Err(e) => Err(e),
            Ok((e, c2)) => Ok((e, c + c2)),
        },
    }
}

/// The operators and right operands that follow `left` in a comparison.
pub closed spec fn spec_comparison_rest(toks: Seq<Token>, p: nat, left: ExprView) -> Parsed<ExprView>
    decreases dist(toks, p), 1nat,
{
    if !at_end(toks, p) && comparison_op(toks[p as int].kind) is Some {
        let op = comparison_op(toks[p as int].kind).unwrap();
        match spec_term(toks, p + 1) {
            Err(e) => Err(e),
            Ok((right, c)) => match spec_comparison_rest(
                toks,
                p + 1 + c,
                ExprView::Binary { op, left: Box::new(left), right: Box::new(right) },
            ) {
                Err(e) => Err(e),
                Ok((e, c2)) => Ok((e, 1 + c + c2)),
            },
        }
    } else {
        Ok((left, 0))
    }
}

/// term := factor (("+" | "-") factor)*, grouped to the left
pub closed spec fn spec_term(toks: Seq<Token>, p: nat) -> Parsed<ExprView>
    decreases dist(toks, p), 5nat,
{
    match spec_factor(toks, p) {
        Err(e) => Err(e),
        Ok((left, c)) => match spec_term_rest(toks, p + c, left) {
            Err(e) => Err(e),
            Ok((e, c2)) => Ok((e, c + c2)),
        },
    }
}

/// The operators and right operands that follow `left` in a term.
pub closed spec fn spec_term_rest(toks: Seq<Token>, p: nat, left: ExprView) -> Parsed<ExprView>
    decreases dist(toks, p), 1nat,
{
    if !at_end(toks, p) && term_op(toks[p as int].kind) is Some {
        let op = term_op(toks[p as int].kind).unwrap();
        match spec_factor(toks, p + 1) {
            Err(e) => Err(e),
            Ok((right, c)) => match spec_term_rest(
                toks,
                p + 1 + c,
                ExprView::Binary { op, left: Box::new(left), right: Box::new(right) },
            ) {
                Err(e) => Err(e),
                Ok((e, c2)) => Ok((e, 1 + c + c2)),
            },
        }
    } else {
        Ok((left, 0))
    }
}

/// factor := unary (("*" | "/") unary)*, grouped to the left
pub closed spec fn spec_factor(toks: Seq<Token>, p: nat) -> Parsed<ExprView>
    decreases dist(toks, p), 4nat,
{
    match spec_unary(toks, p) {
        Err(e) => Err(e),
        Ok((left, c)) => match spec_factor_rest(toks, p + c, left) {
            Err(e) => Err(e),
            Ok((e, c2)) => Ok((e, c + c2)),
        },
    }
}

/// The operators and right operands that follow `left` in a factor.
pub closed spec fn spec_factor_rest(toks: Seq<Token>, p: nat, left: ExprView) -> Parsed<ExprView>
    decreases dist(toks, p), 1nat,
{
    if !at_end(toks, p) && factor_op(toks[p as int].kind) is Some {
        let op = factor_op(toks[p as int].kind).unwrap();
        match spec_unary(toks, p + 1) {
            Err(e) => Err(e),
            Ok((right, c)) => match spec_factor_rest(
                toks,
                p + 1 + c,
                ExprView::Binary { op, left: Box::new(left), right: Box::new(right) },
            ) {
                Err(e) => Err(e),
                Ok((e, c2)) => Ok((e, 1 + c + c2)),
            },
        }
    } else {
        Ok((left, 0))
    }
}

/// unary := ("-" | "+") unary | primary
pub closed spec fn spec_unary(toks: Seq<Token>, p: nat) -> Parsed<ExprView>
    decreases dist(toks, p), 3nat,
{
    if check(toks, p, TokenKind::Minus) || check(toks, p, TokenKind::Plus) {
        let op = if check(toks, p, TokenKind::Minus) {
            UnaryOp::Negate
        } else {
            UnaryOp::Plus
        };
        match spec_unary(toks, p + 1) {
            Err(e) => Err(e),
            Ok((e, c)) => Ok((ExprView::Unary { op, expr: Box::new(e) }, 1 + c)),
        }
    } else {
        spec_primary(toks, p)
    }
}

/// primary := (number | string | identifier | "true" | "false"
///            | "(" expression ")" | "[" elements? "]") postfix
///
/// The token is taken even at the end of input, where the parser stays
/// put and looks at the token before it again.
pub closed spec fn spec_primary(toks: Seq<Token>, p: nat) -> Parsed<ExprView>
    decreases dist(toks, p), 2nat,
{
    let q = advance_pos(toks, p);
    let taken = (q - p) as nat;
    match previous_kind(toks, q) {
        TokenKind::Number(v) => match spec_postfix(toks, q, ExprView::Number(v)) {
            Err(e) => Err(e),
            Ok((e, c)) => Ok((e, taken + c)),
        },
        TokenKind::String(s) => match spec_postfix(toks, q, ExprView::String(s@)) {
            Err(e) => Err(e),
            Ok((e, c)) => Ok((e, taken + c)),
        },
        TokenKind::Ident(n) => match spec_postfix(toks, q, ExprView::Variable(n@)) {
            Err(e) => Err(e),
            Ok((e, c)) => Ok((e, taken + c)),
        },
        TokenKind::True => match spec_postfix(toks, q, ExprView::Bool(true)) {
            Err(e) => Err(e),
            Ok((e, c)) => Ok((e, taken + c)),
        },
        TokenKind::False => match spec_postfix(toks, q, ExprView::Bool(false)) {
            Err(e) => Err(e),
            Ok((e, c)) => Ok((e, taken + c)),
        },
        TokenKind::LParen => if at_end(toks, p) {
            Err(ParseErrorView::Unterminated { at: p })
        } else {
            match spec_expression(toks, q) {
                Err(e) => Err(e),
                Ok((inner, c)) => if check(toks, q + c, TokenKind::RParen) {
                    match spec_postfix(toks, q + c + 1, inner) {
                        Err(e) => Err(e),
                        Ok((e, c2)) => Ok((e, taken + c + 1 + c2)),
                    }
                } else {
                    syntax("expected `)` after expression", q + c)
                },
            }
        },
        TokenKind::LBracket => if at_end(toks, p) {
            Err(ParseErrorView::Unterminated { at: p })
        } else {
            match spec_list_literal(toks, q) {
                Err(e) => Err(e),
                Ok((list, c)) => match spec_postfix(toks, q + c, list) {
                    Err(e) => Err(e),
                    Ok((e, c2)) => Ok((e, taken + c + c2)),
                },
            }
        },
        _ => syntax("expected expression", q),
    }
}

/// postfix := ("(" arguments ")" | "[" expression "]")*
pub closed spec fn spec_postfix(toks: Seq<Token>, p: nat, e: ExprView) -> Parsed<ExprView>
    decreases dist(toks, p), 1nat,
{
    if check(toks, p, TokenKind::LParen) {
        match spec_finish_call(toks, p + 1, e) {
            Err(err) => Err(err),
            Ok((call, c)) => match spec_postfix(toks, p + 1 + c, call) {
                Err(err) => Err(err),
                Ok((r, c2)) => Ok((r, 1 + c + c2)),
            },
        }
    } else if check(toks, p, TokenKind::LBracket) {
        match spec_finish_index(toks, p + 1, e) {
            Err(err) => Err(err),
            Ok((idx, c)) => match spec_postfix(toks, p + 1 + c, idx) {
                Err(err) => Err(err),
                Ok((r, c2)) => Ok((r, 1 + c + c2)),
            },
        }
    } else {
        Ok((e, 0))
    }
}

/// elements := expression ("," expression)*
pub closed spec fn spec_elements(toks: Seq<Token>, p: nat) -> Parsed<Seq<ExprView>>
    decreases dist(toks, p), 8nat,
{
    match spec_expression(toks, p) {
        Err(e) => Err(e),
        Ok((first, c)) => if check(toks, p + c, TokenKind::Comma) {
            match spec_elements(toks, p + c + 1) {
                Err(e) => Err(e),
                Ok((rest, c2)) => Ok((seq![first] + rest, c + 1 + c2)),
            }
        } else {
            Ok((seq![first], c))
        },
    }
}

/// The elements of a list literal after its `[`, through its `]`.
pub closed spec fn spec_list_literal(toks: Seq<Token>, p: nat) -> Parsed<ExprView>
    decreases dist(toks, p), 9nat,
{
    let elems: Parsed<Seq<ExprView>> = if !check(toks, p, TokenKind::RBracket) {
        spec_elements(toks, p)
    } else {
        Ok((Seq::empty(), 0))
    };
    match elems {
        Err(e) => Err(e),
        Ok((items, c)) => if check(toks, p + c, TokenKind::RBracket) {
            Ok((ExprView::List(items), c + 1))
        } else {
            syntax("expected ']' after list literal", p + c)
        },
    }
}

/// The arguments of a call after its `(`, through its `)`; only a name can be called.
pub closed spec fn spec_finish_call(toks: Seq<Token>, p: nat, callee: ExprView) -> Parsed<ExprView>
    decreases dist(toks, p), 9nat,
{
    let args: Parsed<Seq<ExprView>> = if !check(toks, p, TokenKind::RParen) {
        spec_elements(toks, p)
    } else {
        Ok((Seq::empty(), 0))
    };
    match args {
        Err(e) => Err(e),
        Ok((items, c)) => if check(toks, p + c, TokenKind::RParen) {
            match callee {
                ExprView::Variable(name) => Ok((ExprView::Call { callee: name, args: items }, c + 1)),
                _ => syntax("expected function name before call", p + c + 1),
            }
        } else {
            syntax("expected ')' after arguments", p + c)
        },
    }
}

/// The index of an index expression after its `[`, through its `]`.
pub closed spec fn spec_finish_index(toks: Seq<Token>, p: nat, object: ExprView) -> Parsed<ExprView>
    decreases dist(toks, p), 8nat,
{
    match spec_expression(toks, p) {
        Err(e) => Err(e),
        Ok((index, c)) => if check(toks, p + c, TokenKind::RBracket) {
            Ok((ExprView::Index { object: Box::new(object), index: Box::new(index) }, c + 1))
        } else {
            syntax("expected ']' after index", p + c)
        },
    }
}

/// Adds `n` tokens taken before a rule started to what it consumed.
pub open spec fn after<T>(n: nat, r: Parsed<T>) -> Parsed<T> {
    match r {
        Err(e) => Err(e),
        Ok((v, c)) => Ok((v, n + c)),
    }
}

/// statement := "let" let-rest | "fn" function-rest | "return" return-rest
///            | "print" expression ";"? | "if" if-rest | "while" while-rest
///            | "for" for-rest | assignment | expression ";"
pub closed spec fn spec_statement(toks: Seq<Token>, p: nat) -> Parsed<StmtView>
    decreases dist(toks, p), 10nat,
{
    if check(toks, p, TokenKind::Let) {
        after(1, spec_let_statement(toks, p + 1))
    } else if check(toks, p, TokenKind::Fn) {
        after(1, spec_function_statement(toks, p + 1))
    } else if check(toks, p, TokenKind::Return) {
        after(1, spec_return_statement(toks, p + 1))
    } else if check(toks, p, TokenKind::Print) {
        match spec_expression(toks, p + 1) {
            Err(e) => Err(e),
            Ok((e, c)) => Ok((StmtView::Print(e), 1 + c + optional_semicolon(toks, p + 1 + c))),
        }
    } else if check(toks, p, TokenKind::If) {
        after(1, spec_if_statement(toks, p + 1))
    } else if check(toks, p, TokenKind::While) {
        after(1, spec_while_statement(toks, p + 1))
    } else if check(toks, p, TokenKind::For) {
        after(1, spec_for_statement(toks, p + 1))
    } else {
        match spec_assignment(toks, p) {
            Err(e) => Err(e),
            Ok(Some(r)) => Ok(r),
            Ok(None) => match spec_expression(toks, p) {
                Err(e) => Err(e),
                Ok((e, c)) => if check(toks, p + c, TokenKind::Semicolon) {
                    Ok((StmtView::Expr(e), c + 1))
                } else {
                    syntax("Expected ';' after expression", p + c)
                },
            },
        }
    }
}

/// assignment := identifier "=" expression ";"?
/// Nothing (and no error) when the two tokens at `p` are not an
/// identifier and `=`.
pub closed spec fn spec_assignment(toks: Seq<Token>, p: nat) -> Result<
    Option<(StmtView, nat)>,
    ParseErrorView,
>
    decreases dist(toks, p), 1nat,
{
    if p + 1 >= toks.len() {
        Ok(None)
    } else if toks[p as int].kind is Ident && toks[p + 1int].kind is Equal {
        let name = toks[p as int].kind->Ident_0@;
        match spec_expression(toks, p + 2) {
            Err(e) => Err(e),
            Ok((value, c)) => Ok(
                Some(
                    (
                        StmtView::Assign { name, value },
                        2 + c + optional_semicolon(toks, p + 2 + c),
                    ),
                ),
            ),
        }
    } else {
        Ok(None)
    }
}

/// After `let`: identifier "=" expression ";"?
pub closed spec fn spec_let_statement(toks: Seq<Token>, p: nat) -> Parsed<StmtView>
    decreases dist(toks, p), 1nat,
{
    let q = advance_pos(toks, p);
    match previous_kind(toks, q) {
        TokenKind::Ident(n) => if check(toks, q, TokenKind::Equal) {
            match spec_expression(toks, q + 1) {
                Err(e) => Err(e),
                Ok((value, c)) => Ok(
                    (
                        StmtView::Let { name: n@, value },
                        ((q - p) as nat) + 1 + c + optional_semicolon(toks, q + 1 + c),
                    ),
                ),
            }
        } else {
            syntax("expected `=` after variable name", q)
        },
        _ => syntax("expected identifier after `let`", q),
    }
}

/// After `return`: expression ";"?
pub closed spec fn spec_return_statement(toks: Seq<Token>, p: nat) -> Parsed<StmtView>
    decreases dist(toks, p), 8nat,
{
    match spec_expression(toks, p) {
        Err(e) => Err(e),
        Ok((e, c)) => Ok((StmtView::Return(e), c + optional_semicolon(toks, p + c))),
    }
}

/// The statements of a block, up to (not including) its `}`.
pub closed spec fn spec_block(toks: Seq<Token>, p: nat) -> Parsed<Seq<StmtView>>
    decreases dist(toks, p), 11nat,
{
    if check(toks, p, TokenKind::RBrace) {
        Ok((Seq::empty(), 0))
    } else {
        match spec_statement(toks, p) {
            Err(e) => Err(e),
            Ok((first, c)) => if c == 0 || p >= toks.len() {
                syntax("expected statement", p)
            } else {
                match spec_block(toks, p + c) {
                    Err(e) => Err(e),
                    Ok((rest, c2)) => Ok((seq![first] + rest, c + c2)),
                }
            },
        }
    }
}

/// After `if`: expression "{" block "}" ("else" "{" block "}")?
pub closed spec fn spec_if_statement(toks: Seq<Token>, p: nat) -> Parsed<StmtView>
    decreases dist(toks, p), 8nat,
{
    match spec_expression(toks, p) {
        Err(e) => Err(e),
        Ok((condition, c)) => {
            let q = p + c;
            if !check(toks, q, TokenKind::LBrace) {
                syntax("expected '{' after condition", q)
            } else {
                match spec_block(toks, q + 1) {
                    Err(e) => Err(e),
                    Ok((body, c2)) => {
                        let r = q + 1 + c2;
                        if !check(toks, r, TokenKind::RBrace) {
                            syntax("expected '}' after if statement", r)
                        } else if check(toks, r + 1, TokenKind::Else) {
                            if !check(toks, r + 2, TokenKind::LBrace) {
                                syntax("expected '{' after else", r + 2)
                            } else {
                                match spec_block(toks, r + 3) {
                                    Err(e) => Err(e),
                                    Ok((else_body, c3)) => {
                                        let t = r + 3 + c3;
                                        if !check(toks, t, TokenKind::RBrace) {
                                            syntax("expected '}' after else block", t)
                                        } else {
                                            Ok(
                                                (
                                                    StmtView::If {
                                                        condition,
                                                        body,
                                                        else_body: Some(else_body),
                                                    },
                                                    (t + 1 - p) as nat,
                                                ),
                                            )
                                        }
                                    },
                                }
                            }
                        } else {
                            Ok(
                                (
                                    StmtView::If { condition, body, else_body: None },
                                    (r + 1 - p) as nat,
                                ),
                            )
                        }
                    },
                }
            }
        },
    }
}

/// After `while`: expression "{" block "}"
pub closed spec fn spec_while_statement(toks: Seq<Token>, p: nat) -> Parsed<StmtView>
    decreases dist(toks, p), 8nat,
{
    match spec_expression(toks, p) {
        Err(e) => Err(e),
        Ok((condition, c)) => {
            let q = p + c;
            if !check(toks, q, TokenKind::LBrace) {
                syntax("expected '{' after condition", q)
            } else {
                match spec_block(toks, q + 1) {
                    Err(e) => Err(e),
                    Ok((body, c2)) => {
                        let r = q + 1 + c2;
                        if !check(toks, r, TokenKind::RBrace) {
                            syntax("expected '}' after while statement", r)
                        } else {
                            Ok((StmtView::While { condition, body }, (r + 1 - p) as nat))
                        }
                    },
                }
            }
        },
    }
}

/// After `for`: identifier "in" expression "{" block "}"
pub closed spec fn spec_for_statement(toks: Seq<Token>, p: nat) -> Parsed<StmtView>
    decreases dist(toks, p), 1nat,
{
    let q = advance_pos(toks, p);
    match previous_kind(toks, q) {
        TokenKind::Ident(n) => if !check(toks, q, TokenKind::In) {
            syntax("expected 'in' after for variable", q)
        } else {
            match spec_expression(toks, q + 1) {
                Err(e) => Err(e),
                Ok((iterable, c)) => {
                    let r = q + 1 + c;
                    if !check(toks, r, TokenKind::LBrace) {
                        syntax("expected '{' after for iterable", r)
                    } else {
                        match spec_block(toks, r + 1) {
                            Err(e) => Err(e),
                            Ok((body, c2)) => {
                                let t = r + 1 + c2;
                                if !check(toks, t, TokenKind::RBrace) {
                                    syntax("expected '}' after for body", t)
                                } else {
                                    Ok(
                                        (
                                            StmtView::For { variable: n@, iterable, body },
                                            (t + 1 - p) as nat,
                                        ),
                                    )
                                }
                            },
                        }
                    }
                },
            }
        },
        _ => syntax("expected identifier after `for`", q),
    }
}

/// parameters := identifier ("," identifier)*
pub closed spec fn spec_parameters(toks: Seq<Token>, p: nat) -> Parsed<Seq<Seq<char>>>
    decreases dist(toks, p),
{
    let q = advance_pos(toks, p);
    match previous_kind(toks, q) {
        TokenKind::Ident(n) => if check(toks, q, TokenKind::Comma) {
            match spec_parameters(toks, q + 1) {
                Err(e) => Err(e),
                Ok((rest, c)) => Ok((seq![n@] + rest, ((q - p) as nat) + 1 + c)),
            }
        } else {
            Ok((seq![n@], (q - p) as nat))
        },
        _ => syntax("expected parameter name", q),
    }
}

/// After `fn`: identifier "(" parameters? ")" "{" block "}"
pub closed spec fn spec_function_statement(toks: Seq<Token>, p: nat) -> Parsed<StmtView>
    decreases dist(toks, p), 1nat,
{
    let q = advance_pos(toks, p);
    match previous_kind(toks, q) {
        TokenKind::Ident(n) => if !check(toks, q, TokenKind::LParen) {
            syntax("expected '(' after function name", q)
        } else {
            let r = q + 1;
            let params: Parsed<Seq<Seq<char>>> = if !check(toks, r, TokenKind::RParen) {
                spec_parameters(toks, r)
            } else {
                Ok((Seq::empty(), 0))
            };
            match params {
                Err(e) => Err(e),
                Ok((params, c)) => {
                    let s = r + c;
                    if !check(toks, s, TokenKind::RParen) {
                        syntax("expected ')' after function parameters", s)
                    } else if !check(toks, s + 1, TokenKind::LBrace) {
                        syntax("expected '{' before function body", s + 1)
                    } else {
                        match spec_block(toks, s + 2) {
                            Err(e) => Err(e),
                            Ok((body, c2)) => {
                                let t = s + 2 + c2;
                                if !check(toks, t, TokenKind::RBrace) {
                                    syntax("expected '}' after function body", t)
                                } else {
                                    Ok(
                                        (
                                            StmtView::Function { name: n@, params, body },
                                            (t + 1 - p) as nat,
                                        ),
                                    )
                                }
                            },
                        }
                    }
                },
            }
        },
        _ => syntax("expected function name after `fn`", q),
    }
}

/// program := statement* up to the end of input
pub closed spec fn spec_program(toks: Seq<Token>, p: nat) -> Parsed<Seq<StmtView>>
    decreases dist(toks, p),
{
    if at_end(toks, p) {
        Ok((Seq::empty(), 0))
    } else {
        match spec_statement(toks, p) {
            Err(e) => Err(e),
            Ok((first, c)) => if c == 0 || p >= toks.len() {
                syntax("expected statement", p)
            } else {
                match spec_program(toks, p + c) {
                    Err(e) => Err(e),
                    Ok((rest, c2)) => Ok((seq![first] + rest, c + c2)),
                }
            },
        }
    }
}

/// The parser has moved, or the first token is not the end of input: once
/// a token has been taken there is a token before the parser's position.
pub open spec fn started(toks: Seq<Token>, p: nat) -> bool {
    p > 0 || (toks.len() > 0 && !is_eof(toks[0].kind))
}

/// The two sequences hold the same tokens up to position `e`, which is an
/// end-of-input token in both.
pub open spec fn same_up_to(toks: Seq<Token>, toks2: Seq<Token>, e: nat) -> bool {
    &&& e < toks.len()
    &&& e < toks2.len()
    &&& is_eof(toks[e as int].kind)
    &&& forall|i: int| 0 <= i <= e ==> #[trigger] toks[i] == toks2[i]
}

/// A successful outcome started at `p` stops at or before `e`.
pub open spec fn ends_by<T>(r: Parsed<T>, p: nat, e: nat) -> bool {
    r is Ok ==> p + r->Ok_0.1 <= e
}

/// A statement that parses takes at least one token, and starts before the
/// end of the sequence: a block or a program always moves forward.
pub proof fn lemma_statement_consumes(toks: Seq<Token>, p: nat)
    ensures
        spec_statement(toks, p) is Ok ==> spec_statement(toks, p)->Ok_0.1 >= 1 && p < toks.len(),
{
}

/// A program that parses has been read up to the end of input.
pub proof fn lemma_program_reads_to_end(toks: Seq<Token>, p: nat)
    ensures
        spec_program(toks, p) is Ok ==> at_end(toks, p + spec_program(toks, p)->Ok_0.1),
    decreases dist(toks, p),
{
    if !at_end(toks, p) {
        lemma_statement_consumes(toks, p);
        if let Ok((_, c)) = spec_statement(toks, p) {
            if c > 0 && p < toks.len() {
                lemma_program_reads_to_end(toks, p + c);
            }
        }
    }
}

/// One step of `spec_expression`.
pub proof fn unfold_expression(toks: Seq<Token>, p: nat)
    ensures
        spec_expression(toks, p) == ({
            spec_comparison(toks, p)
        }),
{
}

/// One step of `spec_comparison`.
pub proof fn unfold_comparison(toks: Seq<Token>, p: nat)
    ensures
        spec_comparison(toks, p) == ({
            match spec_term(toks, p) {
                Err(e) => Err(e),
                Ok((left, c)) => match spec_comparison_rest(toks, p + c, left) {
                    Err(e) => Err(e),
                    Ok((e, c2)) => Ok((e, c + c2)),
                },
            }
        }),
{
}

/// One step of `spec_comparison_rest`.
pub proof fn unfold_comparison_rest(toks: Seq<Token>, p: nat, left: ExprView)
    ensures
        spec_comparison_rest(toks, p, left) == ({
            if !at_end(toks, p) && comparison_op(toks[p as int].kind) is Some {
                let op = comparison_op(toks[p as int].kind).unwrap();
                match spec_term(toks, p + 1) {
                    Err(e) => Err(e),
                    Ok((right, c)) => match spec_comparison_rest(
                        toks,
                        p + 1 + c,
                        ExprView::Binary { op, left: Box::new(left), right: Box::new(right) },
                    ) {
                        Err(e) => Err(e),
                        Ok((e, c2)) => Ok((e, 1 + c + c2)),
                    },
                }
            } else {
                Ok((left, 0))
            }
        }),
{
}

/// One step of `spec_term`.
pub proof fn unfold_term(toks: Seq<Token>, p: nat)
    ensures
        spec_term(toks, p) == ({
            match spec_factor(toks, p) {
                Err(e) => Err(e),
                Ok((left, c)) => match spec_term_rest(toks, p + c, left) {
                    Err(e) => Err(e),
                    Ok((e, c2)) => Ok((e, c + c2)),
                },
            }
        }),
{
}

/// One step of `spec_term_rest`.
pub proof fn unfold_term_rest(toks: Seq<Token>, p: nat, left: ExprView)
    ensures
        spec_term_rest(toks, p, left) == ({
            if !at_end(toks, p) && term_op(toks[p as int].kind) is Some {
                let op = term_op(toks[p as int].kind).unwrap();
                match spec_factor(toks, p + 1) {
                    Err(e) => Err(e),
                    Ok((right, c)) => match spec_term_rest(
                        toks,
                        p + 1 + c,
                        ExprView::Binary { op, left: Box::new(left), right: Box::new(right) },
                    ) {
                        Err(e) => Err(e),
                        Ok((e, c2)) => Ok((e, 1 + c + c2)),
                    },
                }
            } else {
                Ok((left, 0))
            }
        }),
{
}

/// One step of `spec_factor`.
pub proof fn unfold_factor(toks: Seq<Token>, p: nat)
    ensures
        spec_factor(toks, p) == ({
            match spec_unary(toks, p) {
                Err(e) => Err(e),
                Ok((left, c)) => match spec_factor_rest(toks, p + c, left) {
                    Err(e) => Err(e),
                    Ok((e, c2)) => Ok((e, c + c2)),
                },
            }
        }),
{
}

/// One step of `spec_factor_rest`.
pub proof fn unfold_factor_rest(toks: Seq<Token>, p: nat, left: ExprView)
    ensures
        spec_factor_rest(toks, p, left) == ({
            if !at_end(toks, p) && factor_op(toks[p as int].kind) is Some {
                let op = factor_op(toks[p as int].kind).unwrap();
                match spec_unary(toks, p + 1) {
                    Err(e) => Err(e),
                    Ok((right, c)) => match spec_factor_rest(
                        toks,
                        p + 1 + c,
                        ExprView::Binary { op, left: Box::new(left), right: Box::new(right) },
                    ) {
                        Err(e) => Err(e),
                        Ok((e, c2)) => Ok((e, 1 + c + c2)),
                    },
                }
            } else {
                Ok((left, 0))
            }
        }),
{
}

/// One step of `spec_unary`.
pub proof fn unfold_unary(toks: Seq<Token>, p: nat)
    ensures
        spec_unary(toks, p) == ({
            if check(toks, p, TokenKind::Minus) || check(toks, p, TokenKind::Plus) {
                let op = if check(toks, p, TokenKind::Minus) {
                    UnaryOp::Negate
                } else {
                    UnaryOp::Plus
                };
                match spec_unary(toks, p + 1) {
                    Err(e) => Err(e),
                    Ok((e, c)) => Ok((ExprView::Unary { op, expr: Box::new(e) }, 1 + c)),
                }
            } else {
                spec_primary(toks, p)
            }
        }),
{
}

/// One step of `spec_primary`.
pub proof fn unfold_primary(toks: Seq<Token>, p: nat)
    ensures
        spec_primary(toks, p) == ({
            let q = advance_pos(toks, p);
            let taken = (q - p) as nat;
            match previous_kind(toks, q) {
                TokenKind::Number(v) => match spec_postfix(toks, q, ExprView::Number(v)) {
                    Err(e) => Err(e),
                    Ok((e, c)) => Ok((e, taken + c)),
                },
                TokenKind::String(s) => match spec_postfix(toks, q, ExprView::String(s@)) {
                    Err(e) => Err(e),
                    Ok((e, c)) => Ok((e, taken + c)),
                },
                TokenKind::Ident(n) => match spec_postfix(toks, q, ExprView::Variable(n@)) {
                    Err(e) => Err(e),
                    Ok((e, c)) => Ok((e, taken + c)),
                },
                TokenKind::True => match spec_postfix(toks, q, ExprView::Bool(true)) {
                    Err(e) => Err(e),
                    Ok((e, c)) => Ok((e, taken + c)),
                },
                TokenKind::False => match spec_postfix(toks, q, ExprView::Bool(false)) {
                    Err(e) => Err(e),
                    Ok((e, c)) => Ok((e, taken + c)),
                },
                TokenKind::LParen => if at_end(toks, p) {
                    Err(ParseErrorView::Unterminated { at: p })
                } else {
                    match spec_expression(toks, q) {
                        Err(e) => Err(e),
                        Ok((inner, c)) => if check(toks, q + c, TokenKind::RParen) {
                            match spec_postfix(toks, q + c + 1, inner) {
                                Err(e) => Err(e),
                                Ok((e, c2)) => Ok((e, taken + c + 1 + c2)),
                            }
                        } else {
                            syntax("expected `)` after expression", q + c)
                        },
                    }
                },
                TokenKind::LBracket => if at_end(toks, p) {
                    Err(ParseErrorView::Unterminated { at: p })
                } else {
                    match spec_list_literal(toks, q) {
                        Err(e) => Err(e),
                        Ok((list, c)) => match spec_postfix(toks, q + c, list) {
                            Err(e) => Err(e),
                            Ok((e, c2)) => Ok((e, taken + c + c2)),
                        },
                    }
                },
                _ => syntax("expected expression", q),
            }
        }),
{
}

/// One step of `spec_postfix`.
pub proof fn unfold_postfix(toks: Seq<Token>, p: nat, e: ExprView)
    ensures
        spec_postfix(toks, p, e) == ({
            if check(toks, p, TokenKind::LParen) {
                match spec_finish_call(toks, p + 1, e) {
                    Err(err) => Err(err),
                    Ok((call, c)) => match spec_postfix(toks, p + 1 + c, call) {
                        Err(err) => Err(err),
                        Ok((r, c2)) => Ok((r, 1 + c + c2)),
                    },
                }
            } else if check(toks, p, TokenKind::LBracket) {
                match spec_finish_index(toks, p + 1, e) {
                    Err(err) => Err(err),
                    Ok((idx, c)) => match spec_postfix(toks, p + 1 + c, idx) {
                        Err(err) => Err(err),
                        Ok((r, c2)) => Ok((r, 1 + c + c2)),
                    },
                }
            } else {
                Ok((e, 0))
            }
        }),
{
}

/// One step of `spec_elements`.
pub proof fn unfold_elements(toks: Seq<Token>, p: nat)
    ensures
        spec_elements(toks, p) == ({
            match spec_expression(toks, p) {
                Err(e) => Err(e),
                Ok((first, c)) => if check(toks, p + c, TokenKind::Comma) {
                    match spec_elements(toks, p + c + 1) {
                        Err(e) => Err(e),
                        Ok((rest, c2)) => Ok((seq![first] + rest, c + 1 + c2)),
                    }
                } else {
                    Ok((seq![first], c))
                },
            }
        }),
{
}

/// One step of `spec_list_literal`.
pub proof fn unfold_list_literal(toks: Seq<Token>, p: nat)
    ensures
        spec_list_literal(toks, p) == ({
            let elems: Parsed<Seq<ExprView>> = if !check(toks, p, TokenKind::RBracket) {
                spec_elements(toks, p)
            } else {
                Ok((Seq::empty(), 0))
            };
            match elems {
                Err(e) => Err(e),
                Ok((items, c)) => if check(toks, p + c, TokenKind::RBracket) {
                    Ok((ExprView::List(items), c + 1))
                } else {
                    syntax("expected ']' after list literal", p + c)
                },
            }
        }),
{
}

/// One step of `spec_finish_call`.
pub proof fn unfold_finish_call(toks: Seq<Token>, p: nat, callee: ExprView)
    ensures
        spec_finish_call(toks, p, callee) == ({
            let args: Parsed<Seq<ExprView>> = if !check(toks, p, TokenKind::RParen) {
                spec_elements(toks, p)
            } else {
                Ok((Seq::empty(), 0))
            };
            match args {
                Err(e) => Err(e),
                Ok((items, c)) => if check(toks, p + c, TokenKind::RParen) {
                    match callee {
                        ExprView::Variable(name) => Ok((ExprView::Call { callee: name, args: items }, c + 1)),
                        _ => syntax("expected function name before call", p + c + 1),
                    }
                } else {
                    syntax("expected ')' after arguments", p + c)
                },
            }
        }),
{
}

/// One step of `spec_finish_index`.
pub proof fn unfold_finish_index(toks: Seq<Token>, p: nat, object: ExprView)
    ensures
        spec_finish_index(toks, p, object) == ({
            match spec_expression(toks, p) {
                Err(e) => Err(e),
                Ok((index, c)) => if check(toks, p + c, TokenKind::RBracket) {
                    Ok((ExprView::Index { object: Box::new(object), index: Box::new(index) }, c + 1))
                } else {
                    syntax("expected ']' after index", p + c)
                },
            }
        }),
{
}

/// One step of `spec_statement`.
pub proof fn unfold_statement(toks: Seq<Token>, p: nat)
    ensures
        spec_statement(toks, p) == ({
            if check(toks, p, TokenKind::Let) {
                after(1, spec_let_statement(toks, p + 1))
            } else if check(toks, p, TokenKind::Fn) {
                after(1, spec_function_statement(toks, p + 1))
            } else if check(toks, p, TokenKind::Return) {
                after(1, spec_return_statement(toks, p + 1))
            } else if check(toks, p, TokenKind::Print) {
                match spec_expression(toks, p + 1) {
                    Err(e) => Err(e),
                    Ok((e, c)) => Ok((StmtView::Print(e), 1 + c + optional_semicolon(toks, p + 1 + c))),
                }
            } else if check(toks, p, TokenKind::If) {
                after(1, spec_if_statement(toks, p + 1))
            } else if check(toks, p, TokenKind::While) {
                after(1, spec_while_statement(toks, p + 1))
            } else if check(toks, p, TokenKind::For) {
                after(1, spec_for_statement(toks, p + 1))
            } else {
                match spec_assignment(toks, p) {
                    Err(e) => Err(e),
                    Ok(Some(r)) => Ok(r),
                    Ok(None) => match spec_expression(toks, p) {
                        Err(e) => Err(e),
                        Ok((e, c)) => if check(toks, p + c, TokenKind::Semicolon) {
                            Ok((StmtView::Expr(e), c + 1))
                        } else {
                            syntax("Expected ';' after expression", p + c)
                        },
                    },
                }
            }
        }),
{
}

/// One step of `spec_assignment`.
pub proof fn unfold_assignment(toks: Seq<Token>, p: nat)
    ensures
        spec_assignment(toks, p) == ({
            if p + 1 >= toks.len() {
                Ok(None)
            } else if toks[p as int].kind is Ident && toks[p + 1int].kind is Equal {
                let name = toks[p as int].kind->Ident_0@;
                match spec_expression(toks, p + 2) {
                    Err(e) => Err(e),
                    Ok((value, c)) => Ok(
                        Some(
                            (
                                StmtView::Assign { name, value },
                                2 + c + optional_semicolon(toks, p + 2 + c),
                            ),
                        ),
                    ),
                }
            } else {
                Ok(None)
            }
        }),
{
}

/// One step of `spec_let_statement`.
pub proof fn unfold_let_statement(toks: Seq<Token>, p: nat)
    ensures
        spec_let_statement(toks, p) == ({
            let q = advance_pos(toks, p);
            match previous_kind(toks, q) {
                TokenKind::Ident(n) => if check(toks, q, TokenKind::Equal) {
                    match spec_expression(toks, q + 1) {
                        Err(e) => Err(e),
                        Ok((value, c)) => Ok(
                            (
                                StmtView::Let { name: n@, value },
                                ((q - p) as nat) + 1 + c + optional_semicolon(toks, q + 1 + c),
                            ),
                        ),
                    }
                } else {
                    syntax("expected `=` after variable name", q)
                },
                _ => syntax("expected identifier after `let`", q),
            }
        }),
{
}

/// One step of `spec_return_statement`.
pub proof fn unfold_return_statement(toks: Seq<Token>, p: nat)
    ensures
        spec_return_statement(toks, p) == ({
            match spec_expression(toks, p) {
                Err(e) => Err(e),
                Ok((e, c)) => Ok((StmtView::Return(e), c + optional_semicolon(toks, p + c))),
            }
        }),
{
}

/// One step of `spec_block`.
pub proof fn unfold_block(toks: Seq<Token>, p: nat)
    ensures
        spec_block(toks, p) == ({
            if check(toks, p, TokenKind::RBrace) {
                Ok((Seq::empty(), 0))
            } else {
                match spec_statement(toks, p) {
                    Err(e) => Err(e),
                    Ok((first, c)) => if c == 0 || p >= toks.len() {
                        syntax("expected statement", p)
                    } else {
                        match spec_block(toks, p + c) {
                            Err(e) => Err(e),
                            Ok((rest, c2)) => Ok((seq![first] + rest, c + c2)),
                        }
                    },
                }
            }
        }),
{
}

/// One step of `spec_if_statement`.
pub proof fn unfold_if_statement(toks: Seq<Token>, p: nat)
    ensures
        spec_if_statement(toks, p) == ({
            match spec_expression(toks, p) {
                Err(e) => Err(e),
                Ok((condition, c)) => {
                    let q = p + c;
                    if !check(toks, q, TokenKind::LBrace) {
                        syntax("expected '{' after condition", q)
                    } else {
                        match spec_block(toks, q + 1) {
                            Err(e) => Err(e),
                            Ok((body, c2)) => {
                                let r = q + 1 + c2;
                                if !check(toks, r, TokenKind::RBrace) {
                                    syntax("expected '}' after if statement", r)
                                } else if check(toks, r + 1, TokenKind::Else) {
                                    if !check(toks, r + 2, TokenKind::LBrace) {
                                        syntax("expected '{' after else", r + 2)
                                    } else {
                                        match spec_block(toks, r + 3) {
                                            Err(e) => Err(e),
                                            Ok((else_body, c3)) => {
                                                let t = r + 3 + c3;
                                                if !check(toks, t, TokenKind::RBrace) {
                                                    syntax("expected '}' after else block", t)
                                                } else {
                                                    Ok(
                                                        (
                                                            StmtView::If {
                                                                condition,
                                                                body,
                                                                else_body: Some(else_body),
                                                            },
                                                            (t + 1 - p) as nat,
                                                        ),
                                                    )
                                                }
                                            },
                                        }
                                    }
                                } else {
                                    Ok(
                                        (
                                            StmtView::If { condition, body, else_body: None },
                                            (r + 1 - p) as nat,
                                        ),
                                    )
                                }
                            },
                        }
                    }
                },
            }
        }),
{
}

/// One step of `spec_while_statement`.
pub proof fn unfold_while_statement(toks: Seq<Token>, p: nat)
    ensures
        spec_while_statement(toks, p) == ({
            match spec_expression(toks, p) {
                Err(e) => Err(e),
                Ok((condition, c)) => {
                    let q = p + c;
                    if !check(toks, q, TokenKind::LBrace) {
                        syntax("expected '{' after condition", q)
                    } else {
                        match spec_block(toks, q + 1) {
                            Err(e) => Err(e),
                            Ok((body, c2)) => {
                                let r = q + 1 + c2;
                                if !check(toks, r, TokenKind::RBrace) {
                                    syntax("expected '}' after while statement", r)
                                } else {
                                    Ok((StmtView::While { condition, body }, (r + 1 - p) as nat))
                                }
                            },
                        }
                    }
                },
            }
        }),
{
}

/// One step of `spec_for_statement`.
pub proof fn unfold_for_statement(toks: Seq<Token>, p: nat)
    ensures
        spec_for_statement(toks, p) == ({
            let q = advance_pos(toks, p);
            match previous_kind(toks, q) {
                TokenKind::Ident(n) => if !check(toks, q, TokenKind::In) {
                    syntax("expected 'in' after for variable", q)
                } else {
                    match spec_expression(toks, q + 1) {
                        Err(e) => Err(e),
                        Ok((iterable, c)) => {
                            let r = q + 1 + c;
                            if !check(toks, r, TokenKind::LBrace) {
                                syntax("expected '{' after for iterable", r)
                            } else {
                                match spec_block(toks, r + 1) {
                                    Err(e) => Err(e),
                                    Ok((body, c2)) => {
                                        let t = r + 1 + c2;
                                        if !check(toks, t, TokenKind::RBrace) {
                                            syntax("expected '}' after for body", t)
                                        } else {
                                            Ok(
                                                (
                                                    StmtView::For { variable: n@, iterable, body },
                                                    (t + 1 - p) as nat,
                                                ),
                                            )
                                        }
                                    },
                                }
                            }
                        },
                    }
                },
                _ => syntax("expected identifier after `for`", q),
            }
        }),
{
}

/// One step of `spec_parameters`.
pub proof fn unfold_parameters(toks: Seq<Token>, p: nat)
    ensures
        spec_parameters(toks, p) == ({
            let q = advance_pos(toks, p);
            match previous_kind(toks, q) {
                TokenKind::Ident(n) => if check(toks, q, TokenKind::Comma) {
                    match spec_parameters(toks, q + 1) {
                        Err(e) => Err(e),
                        Ok((rest, c)) => Ok((seq![n@] + rest, ((q - p) as nat) + 1 + c)),
                    }
                } else {
                    Ok((seq![n@], (q - p) as nat))
                },
                _ => syntax("expected parameter name", q),
            }
        }),
{
}

/// One step of `spec_function_statement`.
pub proof fn unfold_function_statement(toks: Seq<Token>, p: nat)
    ensures
        spec_function_statement(toks, p) == ({
            let q = advance_pos(toks, p);
            match previous_kind(toks, q) {
                TokenKind::Ident(n) => if !check(toks, q, TokenKind::LParen) {
                    syntax("expected '(' after function name", q)
                } else {
                    let r = q + 1;
                    let params: Parsed<Seq<Seq<char>>> = if !check(toks, r, TokenKind::RParen) {
                        spec_parameters(toks, r)
                    } else {
                        Ok((Seq::empty(), 0))
                    };
                    match params {
                        Err(e) => Err(e),
                        Ok((params, c)) => {
                            let s = r + c;
                            if !check(toks, s, TokenKind::RParen) {
                                syntax("expected ')' after function parameters", s)
                            } else if !check(toks, s + 1, TokenKind::LBrace) {
                                syntax("expected '{' before function body", s + 1)
                            } else {
                                match spec_block(toks, s + 2) {
                                    Err(e) => Err(e),
                                    Ok((body, c2)) => {
                                        let t = s + 2 + c2;
                                        if !check(toks, t, TokenKind::RBrace) {
                                            syntax("expected '}' after function body", t)
                                        } else {
                                            Ok(
                                                (
                                                    StmtView::Function { name: n@, params, body },
                                                    (t + 1 - p) as nat,
                                                ),
                                            )
                                        }
                                    },
                                }
                            }
                        },
                    }
                },
                _ => syntax("expected function name after `fn`", q),
            }
        }),
{
}

/// One step of `spec_program`.
pub proof fn unfold_program(toks: Seq<Token>, p: nat)
    ensures
        spec_program(toks, p) == ({
            if at_end(toks, p) {
                Ok((Seq::empty(), 0))
            } else {
                match spec_statement(toks, p) {
                    Err(e) => Err(e),
                    Ok((first, c)) => if c == 0 || p >= toks.len() {
                        syntax("expected statement", p)
                    } else {
                        match spec_program(toks, p + c) {
                            Err(e) => Err(e),
                            Ok((rest, c2)) => Ok((seq![first] + rest, c + c2)),
                        }
                    },
                }
            }
        }),
{
}

/// Positions up to `e` look the same in both sequences.
proof fn lemma_same_at(toks: Seq<Token>, toks2: Seq<Token>, e: nat, x: nat)
    requires
        same_up_to(toks, toks2, e),
        x <= e,
    ensures
        toks[x as int] == toks2[x as int],
        at_end(toks, x) == at_end(toks2, x),
        !at_end(toks, x) ==> x < e,
        advance_pos(toks, x) == advance_pos(toks2, x),
        advance_pos(toks, x) <= e,
        forall|k: TokenKind| #[trigger] check(toks, x, k) == check(toks2, x, k),
        x > 0 ==> toks[x - 1] == toks2[x - 1],
{
}

proof fn agree_expression(toks: Seq<Token>, toks2: Seq<Token>, e: nat, p: nat)
    requires
        same_up_to(toks, toks2, e),
        p <= e,
        started(toks, p),
    ensures
        spec_expression(toks, p) == spec_expression(toks2, p),
        ends_by(spec_expression(toks, p), p, e),
    decreases dist(toks, p), 7nat,
{
    agree_comparison(toks, toks2, e, p);
}

proof fn agree_comparison(toks: Seq<Token>, toks2: Seq<Token>, e: nat, p: nat)
    requires
        same_up_to(toks, toks2, e),
        p <= e,
        started(toks, p),
    ensures
        spec_comparison(toks, p) == spec_comparison(toks2, p),
        ends_by(spec_comparison(toks, p), p, e),
    decreases dist(toks, p), 6nat,
{
    agree_term(toks, toks2, e, p);
    if let Ok((left, c)) = spec_term(toks, p) {
        agree_comparison_rest(toks, toks2, e, p + c, left);
    }
}

proof fn agree_comparison_rest(toks: Seq<Token>, toks2: Seq<Token>, e: nat, p: nat, left: ExprView)
    requires
        same_up_to(toks, toks2, e),
        p <= e,
        started(toks, p),
    ensures
        spec_comparison_rest(toks, p, left) == spec_comparison_rest(toks2, p, left),
        ends_by(spec_comparison_rest(toks, p, left), p, e),
    decreases dist(toks, p), 1nat,
{
    if !at_end(toks, p) && comparison_op(toks[p as int].kind) is Some {
        let op = comparison_op(toks[p as int].kind).unwrap();
        agree_term(toks, toks2, e, p + 1);
        if let Ok((right, c)) = spec_term(toks, p + 1) {
            agree_comparison_rest(
                toks,
                toks2,
                e,
                p + 1 + c,
                ExprView::Binary { op, left: Box::new(left), right: Box::new(right) },
            );
        }
    }
}

proof fn agree_term(toks: Seq<Token>, toks2: Seq<Token>, e: nat, p: nat)
    requires
        same_up_to(toks, toks2, e),
        p <= e,
        started(toks, p),
    ensures
        spec_term(toks, p) == spec_term(toks2, p),
        ends_by(spec_term(toks, p), p, e),
    decreases dist(toks, p), 5nat,
{
    agree_factor(toks, toks2, e, p);
    if let Ok((left, c)) = spec_factor(toks, p) {
        agree_term_rest(toks, toks2, e, p + c, left);
    }
}

proof fn agree_term_rest(toks: Seq<Token>, toks2: Seq<Token>, e: nat, p: nat, left: ExprView)
    requires
        same_up_to(toks, toks2, e),
        p <= e,
        started(toks, p),
    ensures
        spec_term_rest(toks, p, left) == spec_term_rest(toks2, p, left),
        ends_by(spec_term_rest(toks, p, left), p, e),
    decreases dist(toks, p), 1nat,
{
    if !at_end(toks, p) && term_op(toks[p as int].kind) is Some {
        let op = term_op(toks[p as int].kind).unwrap();
        agree_factor(toks, toks2, e, p + 1);
        if let Ok((right, c)) = spec_factor(toks, p + 1) {
            agree_term_rest(
                toks,
                toks2,
                e,
                p + 1 + c,
                ExprView::Binary { op, left: Box::new(left), right: Box::new(right) },
            );
        }
    }
}

proof fn agree_factor(toks: Seq<Token>, toks2: Seq<Token>, e: nat, p: nat)
    requires
        same_up_to(toks, toks2, e),
        p <= e,
        started(toks, p),
    ensures
        spec_factor(toks, p) == spec_factor(toks2, p),
        ends_by(spec_factor(toks, p), p, e),
    decreases dist(toks, p), 4nat,
{
    agree_unary(toks, toks2, e, p);
    if let Ok((left, c)) = spec_unary(toks, p) {
        agree_factor_rest(toks, toks2, e, p + c, left);
    }
}

proof fn agree_factor_rest(toks: Seq<Token>, toks2: Seq<Token>, e: nat, p: nat, left: ExprView)
    requires
        same_up_to(toks, toks2, e),
        p <= e,
        started(toks, p),
    ensures
        spec_factor_rest(toks, p, left) == spec_factor_rest(toks2, p, left),
        ends_by(spec_factor_rest(toks, p, left), p, e),
    decreases dist(toks, p), 1nat,
{
    if !at_end(toks, p) && factor_op(toks[p as int].kind) is Some {
        let op = factor_op(toks[p as int].kind).unwrap();
        agree_unary(toks, toks2, e, p + 1);
        if let Ok((right, c)) = spec_unary(toks, p + 1) {
            agree_factor_rest(
                toks,
                toks2,
                e,
                p + 1 + c,
                ExprView::Binary { op, left: Box::new(left), right: Box::new(right) },
            );
        }
    }
}

proof fn agree_unary(toks: Seq<Token>, toks2: Seq<Token>, e: nat, p: nat)
    requires
        same_up_to(toks, toks2, e),
        p <= e,
        started(toks, p),
    ensures
        spec_unary(toks, p) == spec_unary(toks2, p),
        ends_by(spec_unary(toks, p), p, e),
    decreases dist(toks, p), 3nat,
{
    if check(toks, p, TokenKind::Minus) || check(toks, p, TokenKind::Plus) {
        agree_unary(toks, toks2, e, p + 1);
    } else {
        agree_primary(toks, toks2, e, p);
    }
}

proof fn agree_primary(toks: Seq<Token>, toks2: Seq<Token>, e: nat, p: nat)
    requires
        same_up_to(toks, toks2, e),
        p <= e,
        started(toks, p),
    ensures
        spec_primary(toks, p) == spec_primary(toks2, p),
        ends_by(spec_primary(toks, p), p, e),
    decreases dist(toks, p), 2nat,
{
    let q = advance_pos(toks, p);
    assert(toks[q - 1] == toks2[q - 1]);
    match previous_kind(toks, q) {
        TokenKind::Number(v) => agree_postfix(toks, toks2, e, q, ExprView::Number(v)),
        TokenKind::String(s) => agree_postfix(toks, toks2, e, q, ExprView::String(s@)),
        TokenKind::Ident(n) => agree_postfix(toks, toks2, e, q, ExprView::Variable(n@)),
        TokenKind::True => agree_postfix(toks, toks2, e, q, ExprView::Bool(true)),
        TokenKind::False => agree_postfix(toks, toks2, e, q, ExprView::Bool(false)),
        TokenKind::LParen => if !at_end(toks, p) {
            agree_expression(toks, toks2, e, q);
            if let Ok((inner, c)) = spec_expression(toks, q) {
                if check(toks, q + c, TokenKind::RParen) {
                    agree_postfix(toks, toks2, e, q + c + 1, inner);
                }
            }
        },
        TokenKind::LBracket => if !at_end(toks, p) {
            agree_list_literal(toks, toks2, e, q);
            if let Ok((list, c)) = spec_list_literal(toks, q) {
                agree_postfix(toks, toks2, e, q + c, list);
            }
        },
        _ => {},
    }
}

proof fn agree_postfix(toks: Seq<Token>, toks2: Seq<Token>, e: nat, p: nat, x: ExprView)
    requires
        same_up_to(toks, toks2, e),
        p <= e,
        started(toks, p),
    ensures
        spec_postfix(toks, p, x) == spec_postfix(toks2, p, x),
        ends_by(spec_postfix(toks, p, x), p, e),
    decreases dist(toks, p), 1nat,
{
    if check(toks, p, TokenKind::LParen) {
        agree_finish_call(toks, toks2, e, p + 1, x);
        if let Ok((call, c)) = spec_finish_call(toks, p + 1, x) {
            agree_postfix(toks, toks2, e, p + 1 + c, call);
        }
    } else if check(toks, p, TokenKind::LBracket) {
        agree_finish_index(toks, toks2, e, p + 1, x);
        if let Ok((idx, c)) = spec_finish_index(toks, p + 1, x) {
            agree_postfix(toks, toks2, e, p + 1 + c, idx);
        }
    }
}

proof fn agree_elements(toks: Seq<Token>, toks2: Seq<Token>, e: nat, p: nat)
    requires
        same_up_to(toks, toks2, e),
        p <= e,
        started(toks, p),
    ensures
        spec_elements(toks, p) == spec_elements(toks2, p),
        ends_by(spec_elements(toks, p), p, e),
    decreases dist(toks, p), 8nat,
{
    agree_expression(toks, toks2, e, p);
    if let Ok((first, c)) = spec_expression(toks, p) {
        if check(toks, p + c, TokenKind::Comma) {
            agree_elements(toks, toks2, e, p + c + 1);
        }
    }
}

proof fn agree_list_literal(toks: Seq<Token>, toks2: Seq<Token>, e: nat, p: nat)
    requires
        same_up_to(toks, toks2, e),
        p <= e,
        started(toks, p),
    ensures
        spec_list_literal(toks, p) == spec_list_literal(toks2, p),
        ends_by(spec_list_literal(toks, p), p, e),
    decreases dist(toks, p), 9nat,
{
    if !check(toks, p, TokenKind::RBracket) {
        agree_elements(toks, toks2, e, p);
    }
}

proof fn agree_finish_call(toks: Seq<Token>, toks2: Seq<Token>, e: nat, p: nat, callee: ExprView)
    requires
        same_up_to(toks, toks2, e),
        p <= e,
        started(toks, p),
    ensures
        spec_finish_call(toks, p, callee) == spec_finish_call(toks2, p, callee),
        ends_by(spec_finish_call(toks, p, callee), p, e),
    decreases dist(toks, p), 9nat,
{
    if !check(toks, p, TokenKind::RParen) {
        agree_elements(toks, toks2, e, p);
    }
}

proof fn agree_finish_index(toks: Seq<Token>, toks2: Seq<Token>, e: nat, p: nat, object: ExprView)
    requires
        same_up_to(toks, toks2, e),
        p <= e,
        started(toks, p),
    ensures
        spec_finish_index(toks, p, object) == spec_finish_index(toks2, p, object),
        ends_by(spec_finish_index(toks, p, object), p, e),
    decreases dist(toks, p), 8nat,
{
    agree_expression(toks, toks2, e, p);
}

#[verifier::rlimit(60)]
proof fn agree_statement(toks: Seq<Token>, toks2: Seq<Token>, e: nat, p: nat)
    requires
        same_up_to(toks, toks2, e),
        p <= e,
        started(toks, p),
    ensures
        spec_statement(toks, p) == spec_statement(toks2, p),
        ends_by(spec_statement(toks, p), p, e),
    decreases dist(toks, p), 10nat,
{
    lemma_same_at(toks, toks2, e, p);
    if check(toks, p, TokenKind::Let) {
        agree_let_statement(toks, toks2, e, p + 1);
    } else if check(toks, p, TokenKind::Fn) {
        agree_function_statement(toks, toks2, e, p + 1);
    } else if check(toks, p, TokenKind::Return) {
        agree_return_statement(toks, toks2, e, p + 1);
    } else if check(toks, p, TokenKind::Print) {
        agree_expression(toks, toks2, e, p + 1);
    } else if check(toks, p, TokenKind::If) {
        agree_if_statement(toks, toks2, e, p + 1);
    } else if check(toks, p, TokenKind::While) {
        agree_while_statement(toks, toks2, e, p + 1);
    } else if check(toks, p, TokenKind::For) {
        agree_for_statement(toks, toks2, e, p + 1);
    } else {
        agree_assignment(toks, toks2, e, p);
        agree_expression(toks, toks2, e, p);
    }
}

proof fn agree_assignment(toks: Seq<Token>, toks2: Seq<Token>, e: nat, p: nat)
    requires
        same_up_to(toks, toks2, e),
        p <= e,
        started(toks, p),
    ensures
        spec_assignment(toks, p) == spec_assignment(toks2, p),
        spec_assignment(toks, p) matches Ok(Some((_, c))) ==> p + c <= e,
    decreases dist(toks, p), 1nat,
{
    assert(toks[p as int] == toks2[p as int]);
    if p < e {
        assert(toks[p + 1int] == toks2[p + 1int]);
        if toks[p as int].kind is Ident && toks[p + 1int].kind is Equal {
            agree_expression(toks, toks2, e, p + 2);
        }
    }
}

#[verifier::rlimit(60)]
proof fn agree_let_statement(toks: Seq<Token>, toks2: Seq<Token>, e: nat, p: nat)
    requires
        same_up_to(toks, toks2, e),
        p <= e,
        started(toks, p),
    ensures
        spec_let_statement(toks, p) == spec_let_statement(toks2, p),
        ends_by(spec_let_statement(toks, p), p, e),
    decreases dist(toks, p), 1nat,
{
    lemma_same_at(toks, toks2, e, p);
    let q = advance_pos(toks, p);
    lemma_same_at(toks, toks2, e, q);
    if previous_kind(toks, q) is Ident && check(toks, q, TokenKind::Equal) {
        agree_expression(toks, toks2, e, q + 1);
    }
}

proof fn agree_return_statement(toks: Seq<Token>, toks2: Seq<Token>, e: nat, p: nat)
    requires
        same_up_to(toks, toks2, e),
        p <= e,
        started(toks, p),
    ensures
        spec_return_statement(toks, p) == spec_return_statement(toks2, p),
        ends_by(spec_return_statement(toks, p), p, e),
    decreases dist(toks, p), 8nat,
{
    agree_expression(toks, toks2, e, p);
}

proof fn agree_block(toks: Seq<Token>, toks2: Seq<Token>, e: nat, p: nat)
    requires
        same_up_to(toks, toks2, e),
        p <= e,
        started(toks, p),
    ensures
        spec_block(toks, p) == spec_block(toks2, p),
        ends_by(spec_block(toks, p), p, e),
    decreases dist(toks, p), 11nat,
{
    if !check(toks, p, TokenKind::RBrace) {
        agree_statement(toks, toks2, e, p);
        if let Ok((first, c)) = spec_statement(toks, p) {
            if !(c == 0 || p >= toks.len()) {
                agree_block(toks, toks2, e, p + c);
            }
        }
    }
}

#[verifier::rlimit(60)]
proof fn agree_if_statement(toks: Seq<Token>, toks2: Seq<Token>, e: nat, p: nat)
    requires
        same_up_to(toks, toks2, e),
        p <= e,
        started(toks, p),
    ensures
        spec_if_statement(toks, p) == spec_if_statement(toks2, p),
        ends_by(spec_if_statement(toks, p), p, e),
    decreases dist(toks, p), 8nat,
{
    agree_expression(toks, toks2, e, p);
    if let Ok((condition, c)) = spec_expression(toks, p) {
        let q = p + c;
        lemma_same_at(toks, toks2, e, q);
        if check(toks, q, TokenKind::LBrace) {
            agree_block(toks, toks2, e, q + 1);
            if let Ok((body, c2)) = spec_block(toks, q + 1) {
                let r = q + 1 + c2;
                lemma_same_at(toks, toks2, e, r);
                if check(toks, r, TokenKind::RBrace) {
                    lemma_same_at(toks, toks2, e, r + 1);
                    if check(toks, r + 1, TokenKind::Else) {
                        lemma_same_at(toks, toks2, e, r + 2);
                        if check(toks, r + 2, TokenKind::LBrace) {
                            agree_block(toks, toks2, e, r + 3);
                            if let Ok((eb, c3)) = spec_block(toks, r + 3) {
                                lemma_same_at(toks, toks2, e, r + 3 + c3);
                            }
                        }
                    }
                }
            }
        }
    }
}

#[verifier::rlimit(60)]
proof fn agree_while_statement(toks: Seq<Token>, toks2: Seq<Token>, e: nat, p: nat)
    requires
        same_up_to(toks, toks2, e),
        p <= e,
        started(toks, p),
    ensures
        spec_while_statement(toks, p) == spec_while_statement(toks2, p),
        ends_by(spec_while_statement(toks, p), p, e),
    decreases dist(toks, p), 8nat,
{
    agree_expression(toks, toks2, e, p);
    if let Ok((condition, c)) = spec_expression(toks, p) {
        lemma_same_at(toks, toks2, e, p + c);
        if check(toks, p + c, TokenKind::LBrace) {
            agree_block(toks, toks2, e, p + c + 1);
            if let Ok((body, c2)) = spec_block(toks, p + c + 1) {
                lemma_same_at(toks, toks2, e, p + c + 1 + c2);
            }
        }
    }
}

#[verifier::rlimit(60)]
proof fn agree_for_statement(toks: Seq<Token>, toks2: Seq<Token>, e: nat, p: nat)
    requires
        same_up_to(toks, toks2, e),
        p <= e,
        started(toks, p),
    ensures
        spec_for_statement(toks, p) == spec_for_statement(toks2, p),
        ends_by(spec_for_statement(toks, p), p, e),
    decreases dist(toks, p), 1nat,
{
    lemma_same_at(toks, toks2, e, p);
    let q = advance_pos(toks, p);
    lemma_same_at(toks, toks2, e, q);
    if previous_kind(toks, q) is Ident && check(toks, q, TokenKind::In) {
        agree_expression(toks, toks2, e, q + 1);
        if let Ok((iterable, c)) = spec_expression(toks, q + 1) {
            let r = q + 1 + c;
            lemma_same_at(toks, toks2, e, r);
            if check(toks, r, TokenKind::LBrace) {
                agree_block(toks, toks2, e, r + 1);
                if let Ok((body, c2)) = spec_block(toks, r + 1) {
                    lemma_same_at(toks, toks2, e, r + 1 + c2);
                }
            }
        }
    }
}

proof fn agree_parameters(toks: Seq<Token>, toks2: Seq<Token>, e: nat, p: nat)
    requires
        same_up_to(toks, toks2, e),
        p <= e,
        started(toks, p),
    ensures
        spec_parameters(toks, p) == spec_parameters(toks2, p),
        ends_by(spec_parameters(toks, p), p, e),
    decreases dist(toks, p),
{
    let q = advance_pos(toks, p);
    assert(toks[q - 1] == toks2[q - 1]);
    if previous_kind(toks, q) is Ident && check(toks, q, TokenKind::Comma) {
        agree_parameters(toks, toks2, e, q + 1);
    }
}

#[verifier::rlimit(60)]
proof fn agree_function_statement(toks: Seq<Token>, toks2: Seq<Token>, e: nat, p: nat)
    requires
        same_up_to(toks, toks2, e),
        p <= e,
        started(toks, p),
    ensures
        spec_function_statement(toks, p) == spec_function_statement(toks2, p),
        ends_by(spec_function_statement(toks, p), p, e),
    decreases dist(toks, p), 1nat,
{
    let q = advance_pos(toks, p);
    assert(toks[q - 1] == toks2[q - 1]);
    if previous_kind(toks, q) is Ident && check(toks, q, TokenKind::LParen) {
        let r = q + 1;
        if !check(toks, r, TokenKind::RParen) {
            agree_parameters(toks, toks2, e, r);
        }
        let params: Parsed<Seq<Seq<char>>> = if !check(toks, r, TokenKind::RParen) {
            spec_parameters(toks, r)
        } else {
            Ok((Seq::empty(), 0))
        };
        lemma_same_at(toks, toks2, e, r);
        if let Ok((ps, c)) = params {
            let s = r + c;
            lemma_same_at(toks, toks2, e, s);
            if check(toks, s, TokenKind::RParen) {
                lemma_same_at(toks, toks2, e, s + 1);
                if check(toks, s + 1, TokenKind::LBrace) {
                    agree_block(toks, toks2, e, s + 2);
                    if let Ok((body, c2)) = spec_block(toks, s + 2) {
                        lemma_same_at(toks, toks2, e, s + 2 + c2);
                    }
                }
            }
        }
    }
}

proof fn agree_program(toks: Seq<Token>, toks2: Seq<Token>, e: nat, p: nat)
    requires
        same_up_to(toks, toks2, e),
        p <= e,
    ensures
        spec_program(toks, p) == spec_program(toks2, p),
        ends_by(spec_program(toks, p), p, e),
    decreases dist(toks, p),
{
    assert(toks[p as int] == toks2[p as int]);
    if !at_end(toks, p) {
        agree_statement(toks, toks2, e, p);
        if let Ok((first, c)) = spec_statement(toks, p) {
            if !(c == 0 || p >= toks.len()) {
                agree_program(toks, toks2, e, p + c);
            }
        }
    }
}

/// Parsing reads nothing past the end of input. Two token sequences that
/// hold the same tokens up to an end-of-input token parse to the same
/// program, or fail with the same error, from any position up to that
/// token; and a program that parses stops at or before it.
pub proof fn lemma_program_ignores_tokens_after_end(toks: Seq<Token>, toks2: Seq<Token>, e: nat, p: nat)
    requires
        same_up_to(toks, toks2, e),
        p <= e,
    ensures
        spec_program(toks, p) == spec_program(toks2, p),
        ends_by(spec_program(toks, p), p, e),
{
    agree_program(toks, toks2, e, p);
}

} // verus!
