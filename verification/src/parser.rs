//! A recursive-descent parser from tokens to a program, proved to follow
//! the grammar of `grammar`.
use vstd::prelude::*;
use crate::ast::{BinaryOp, Expr, ExprView, Program, Stmt, StmtView, UnaryOp, exprs_view, names_view, stmts_view};
use crate::grammar::{
    ParseErrorView, Parsed, advance_pos, after, at_end, check, dist, lemma_program_reads_to_end, lemma_statement_consumes,
    optional_semicolon, spec_assignment, started, spec_block, spec_comparison, spec_comparison_rest,
    spec_elements, spec_expression, spec_factor, spec_factor_rest, spec_finish_call,
    spec_finish_index, spec_for_statement, spec_function_statement, spec_if_statement,
    spec_let_statement, spec_list_literal, spec_parameters, spec_postfix, spec_primary,
    spec_program, spec_return_statement, spec_statement, spec_term, spec_term_rest, spec_unary,
    spec_while_statement, unfold_assignment, unfold_block, unfold_comparison,
    unfold_comparison_rest, unfold_elements, unfold_expression, unfold_factor, unfold_factor_rest,
    unfold_finish_call, unfold_finish_index, unfold_for_statement, unfold_function_statement,
    unfold_if_statement, unfold_let_statement, unfold_list_literal, unfold_parameters,
    unfold_postfix, unfold_primary, unfold_program, unfold_return_statement, unfold_statement,
    unfold_term, unfold_term_rest, unfold_unary, unfold_while_statement,
};
use crate::token::{Token, TokenKind, is_eof, token_kind_matches};

verus! {

/// Why parsing stopped.
#[derive(Debug)]
pub enum ParseError {
    /// The tokens do not follow the grammar: `message` says what was
    /// expected, and `token` is the token the parser was looking at.
    Syntax { message: String, token: Token },
    /// The input ends right after a `(` or `[` that opens an expression:
    /// the grammar would start the same expression again at the same place
    /// without end. `token` is the end-of-input token.
    Unterminated { token: Token },
}

/// Some token at `p` or after it is the end of input.
pub open spec fn has_eof_from(toks: Seq<Token>, p: nat) -> bool {
    exists|e: int| p <= e < toks.len() && is_eof(#[trigger] toks[e].kind)
}

/// `e` is the error that `v` describes: the same message, at the token at
/// the reported position.
pub open spec fn error_is(e: ParseError, v: ParseErrorView, toks: Seq<Token>) -> bool {
    match (e, v) {
        (ParseError::Syntax { message, token }, ParseErrorView::Syntax { message: m, at }) => message@
            == m && at < toks.len() && token == toks[at as int],
        (ParseError::Unterminated { token }, ParseErrorView::Unterminated { at }) => at < toks.len()
            && token == toks[at as int],
        _ => false,
    }
}

/// `r` is the outcome that the rule result `s` describes, with values
/// taken by their models; on success the parser moved from `start` to
/// `end`, over exactly the consumed tokens.
pub open spec fn outcome<V>(
    r: Result<V, ParseError>,
    s: Parsed<V>,
    toks: Seq<Token>,
    start: nat,
    end: nat,
) -> bool {
    match s {
        Ok((v, c)) => r is Ok && r->Ok_0 == v && end == start + c,
        Err(e) => r is Err && error_is(r->Err_0, e, toks),
    }
}

/// An expression result, the expression taken by its model.
pub open spec fn expr_result(r: Result<Expr, ParseError>) -> Result<ExprView, ParseError> {
    match r {
        Ok(e) => Ok(e@),
        Err(e) => Err(e),
    }
}

/// A result holding a list of expressions, taken by its model.
pub open spec fn exprs_result(r: Result<Vec<Expr>, ParseError>) -> Result<Seq<ExprView>, ParseError> {
    match r {
        Ok(v) => Ok(exprs_view(v@)),
        Err(e) => Err(e),
    }
}

/// A statement result, the statement taken by its model.
pub open spec fn stmt_result(r: Result<Stmt, ParseError>) -> Result<StmtView, ParseError> {
    match r {
        Ok(s) => Ok(s@),
        Err(e) => Err(e),
    }
}

/// A result holding a list of statements, taken by its model.
pub open spec fn stmts_result(r: Result<Vec<Stmt>, ParseError>) -> Result<Seq<StmtView>, ParseError> {
    match r {
        Ok(v) => Ok(stmts_view(v@)),
        Err(e) => Err(e),
    }
}

/// A program result, the program taken by the model of its statements.
pub open spec fn program_result(r: Result<Program, ParseError>) -> Result<Seq<StmtView>, ParseError> {
    match r {
        Ok(p) => Ok(stmts_view(p.statements@)),
        Err(e) => Err(e),
    }
}

/// A result holding a list of names, taken by its model.
pub open spec fn names_result(r: Result<Vec<String>, ParseError>) -> Result<Seq<Seq<char>>, ParseError> {
    match r {
        Ok(v) => Ok(names_view(v@)),
        Err(e) => Err(e),
    }
}

/// A parser over a list of tokens, standing at a position in it.
pub struct Parser {
    tokens: Vec<Token>,
    current: usize,
}

impl Parser {
    /// The tokens being parsed.
    pub closed spec fn tokens(&self) -> Seq<Token> {
        self.tokens@
    }

    /// The position of the next token to read.
    pub closed spec fn position(&self) -> nat {
        self.current as nat
    }

    /// The parser stands on a token, at or before an end-of-input token.
    pub closed spec fn wf(&self) -> bool {
        &&& self.current < self.tokens@.len()
        &&& has_eof_from(self.tokens@, self.current as nat)
    }

    /// A parser standing at the first of `tokens`. It can parse once the
    /// tokens hold an end-of-input token.
    pub fn new(tokens: Vec<Token>) -> (r: Parser)
        ensures
            r.wf() == has_eof_from(tokens@, 0),
            r.tokens() == tokens@,
            r.position() == 0,
    {
        Parser { tokens, current: 0 }
    }

    fn peek(&self) -> (r: &Token)
        requires
            self.wf(),
        ensures
            *r == self.tokens@[self.current as int],
    {
        &self.tokens[self.current]
    }

    fn previous(&self) -> (r: &Token)
        requires
            self.wf(),
            self.current >= 1,
        ensures
            *r == self.tokens@[self.current - 1],
    {
        &self.tokens[self.current - 1]
    }

    fn is_at_end(&self) -> (r: bool)
        requires
            self.wf(),
        ensures
            r == at_end(self.tokens@, self.current as nat),
    {
        match self.peek().kind {
            TokenKind::Eof => true,
            _ => false,
        }
    }

    fn check(&self, kind: &TokenKind) -> (r: bool)
        requires
            self.wf(),
        ensures
            r == check(self.tokens@, self.current as nat, *kind),
    {
        if self.is_at_end() {
            return false;
        }
        token_kind_matches(&self.peek().kind, kind)
    }

    fn advance(&mut self)
        requires
            old(self).wf(),
        ensures
            final(self).wf(),
            final(self).tokens == old(self).tokens,
            final(self).current == advance_pos(old(self).tokens@, old(self).current as nat),
    {
        if !self.is_at_end() {
            let len = self.tokens.len();
            proof {
                let e = choose|e: int| self.current <= e < self.tokens@.len() && is_eof(#[trigger] self.tokens@[e].kind);
                assert(e > self.current);
                assert(has_eof_from(self.tokens@, (self.current + 1) as nat)) by {
                    assert(is_eof(self.tokens@[e].kind));
                }
            }
            self.current = self.current + 1;
        }
    }

    fn matches(&mut self, kind: &TokenKind) -> (r: bool)
        requires
            old(self).wf(),
        ensures
            final(self).wf(),
            final(self).tokens == old(self).tokens,
            r == check(old(self).tokens@, old(self).current as nat, *kind),
            final(self).current == old(self).current + if r { 1int } else { 0int },
    {
        if self.check(kind) {
            self.advance();
            true
        } else {
            false
        }
    }

    fn matches_any(&mut self, kinds: &[TokenKind]) -> (r: bool)
        requires
            old(self).wf(),
        ensures
            final(self).wf(),
            final(self).tokens == old(self).tokens,
            r == exists|i: int|
                0 <= i < kinds@.len() && check(old(self).tokens@, old(self).current as nat, #[trigger] kinds@[i]),
            final(self).current == old(self).current + if r { 1int } else { 0int },
    {
        let mut i: usize = 0;
        while i < kinds.len()
            invariant
                self.wf(),
                self.tokens == old(self).tokens,
                self.current == old(self).current,
                i <= kinds@.len(),
                forall|j: int| 0 <= j < i ==> !check(self.tokens@, self.current as nat, #[trigger] kinds@[j]),
            decreases kinds@.len() - i,
        {
            if self.check(&kinds[i]) {
                self.advance();
                return true;
            }
            i = i + 1;
        }
        false
    }

    fn error(&self, message: &str) -> (r: ParseError)
        requires
            self.wf(),
        ensures
            error_is(
                r,
                ParseErrorView::Syntax { message: message@, at: self.current as nat },
                self.tokens@,
            ),
    {
        ParseError::Syntax { message: String::from_str(message), token: self.peek().copy() }
    }

    fn consume(&mut self, kind: &TokenKind, message: &str) -> (r: Result<(), ParseError>)
        requires
            old(self).wf(),
        ensures
            final(self).wf(),
            final(self).tokens == old(self).tokens,
            check(old(self).tokens@, old(self).current as nat, *kind) ==> r is Ok && final(self).current
                == old(self).current + 1,
            !check(old(self).tokens@, old(self).current as nat, *kind) ==> r is Err && error_is(
                r->Err_0,
                ParseErrorView::Syntax { message: message@, at: old(self).current as nat },
                old(self).tokens@,
            ),
    {
        if self.check(kind) {
            self.advance();
            Ok(())
        } else {
            Err(self.error(message))
        }
    }

    fn optional_semicolon(&mut self)
        requires
            old(self).wf(),
        ensures
            final(self).wf(),
            final(self).tokens == old(self).tokens,
            final(self).current == old(self).current + optional_semicolon(
                old(self).tokens@,
                old(self).current as nat,
            ),
    {
        let _ = self.matches(&TokenKind::Semicolon);
    }
}


/// `pre` and `n` tokens, then what `r` parsed.
pub open spec fn prepend<T>(pre: Seq<T>, n: nat, r: Parsed<Seq<T>>) -> Parsed<Seq<T>> {
    match r {
        Err(e) => Err(e),
        Ok((s, c)) => Ok((pre + s, n + c)),
    }
}

impl Parser {
    fn expression(&mut self) -> (r: Result<Expr, ParseError>)
        requires
            old(self).wf(),
            started(old(self).tokens@, old(self).current as nat),
        ensures
            final(self).wf(),
            final(self).tokens == old(self).tokens,
            outcome(
                expr_result(r),
                spec_expression(old(self).tokens@, old(self).current as nat),
                old(self).tokens@,
                old(self).current as nat,
                final(self).current as nat,
            ),
        decreases dist(old(self).tokens@, old(self).current as nat), 7nat,
    {
        proof {
            unfold_expression(self.tokens@, self.current as nat);
        }
        self.comparison()
    }

    fn comparison(&mut self) -> (r: Result<Expr, ParseError>)
        requires
            old(self).wf(),
            started(old(self).tokens@, old(self).current as nat),
        ensures
            final(self).wf(),
            final(self).tokens == old(self).tokens,
            outcome(
                expr_result(r),
                spec_comparison(old(self).tokens@, old(self).current as nat),
                old(self).tokens@,
                old(self).current as nat,
                final(self).current as nat,
            ),
        decreases dist(old(self).tokens@, old(self).current as nat), 6nat,
    {
        let ghost toks = self.tokens@;
        let ghost tv = self.tokens;
        let ghost start = self.current as nat;
        proof {
            unfold_comparison(toks, start);
        }
        let mut expr = match self.term() {
                Ok(v) => v,
                Err(e) => return Err(e),
            };
        while self.matches_any(
            &[
                TokenKind::EqualEqual,
                TokenKind::BangEqual,
                TokenKind::Greater,
                TokenKind::GreaterEqual,
                TokenKind::Less,
                TokenKind::LessEqual,
            ],
        )
            invariant
                self.wf(),
                self.tokens == tv,
                tv == old(self).tokens,
                self.tokens@ == toks,
                started(toks, start),
                toks == old(self).tokens@,
                start == old(self).current as nat,
                start < toks.len(),
                start <= self.current,
                after((self.current - start) as nat, spec_comparison_rest(toks, self.current as nat, expr@))
                    == spec_comparison(toks, start),
            decreases dist(toks, self.current as nat),
        {
            let op = match self.previous().kind {
                TokenKind::EqualEqual => BinaryOp::Equal,
                TokenKind::BangEqual => BinaryOp::NotEqual,
                TokenKind::Greater => BinaryOp::Greater,
                TokenKind::GreaterEqual => BinaryOp::GreaterEqual,
                TokenKind::Less => BinaryOp::Less,
                _ => BinaryOp::LessEqual,
            };
            proof {
                unfold_comparison_rest(toks, (self.current - 1) as nat, expr@);
            }
            let right = match self.term() {
                Ok(v) => v,
                Err(e) => return Err(e),
            };
            expr = Expr::Binary { left: Box::new(expr), op, right: Box::new(right) };
        }
        proof {
            unfold_comparison_rest(toks, self.current as nat, expr@);
        }
        Ok(expr)
    }

    fn term(&mut self) -> (r: Result<Expr, ParseError>)
        requires
            old(self).wf(),
            started(old(self).tokens@, old(self).current as nat),
        ensures
            final(self).wf(),
            final(self).tokens == old(self).tokens,
            outcome(
                expr_result(r),
                spec_term(old(self).tokens@, old(self).current as nat),
                old(self).tokens@,
                old(self).current as nat,
                final(self).current as nat,
            ),
        decreases dist(old(self).tokens@, old(self).current as nat), 5nat,
    {
        let ghost toks = self.tokens@;
        let ghost tv = self.tokens;
        let ghost start = self.current as nat;
        proof {
            unfold_term(toks, start);
        }
        let mut expr = match self.factor() {
                Ok(v) => v,
                Err(e) => return Err(e),
            };
        while self.matches_any(&[TokenKind::Plus, TokenKind::Minus])
            invariant
                self.wf(),
                self.tokens == tv,
                tv == old(self).tokens,
                self.tokens@ == toks,
                started(toks, start),
                toks == old(self).tokens@,
                start == old(self).current as nat,
                start < toks.len(),
                start <= self.current,
                after((self.current - start) as nat, spec_term_rest(toks, self.current as nat, expr@))
                    == spec_term(toks, start),
            decreases dist(toks, self.current as nat),
        {
            let op = match self.previous().kind {
                TokenKind::Plus => BinaryOp::Add,
                _ => BinaryOp::Subtract,
            };
            proof {
                unfold_term_rest(toks, (self.current - 1) as nat, expr@);
            }
            let right = match self.factor() {
                Ok(v) => v,
                Err(e) => return Err(e),
            };
            expr = Expr::Binary { left: Box::new(expr), op, right: Box::new(right) };
        }
        proof {
            unfold_term_rest(toks, self.current as nat, expr@);
        }
        Ok(expr)
    }

    fn factor(&mut self) -> (r: Result<Expr, ParseError>)
        requires
            old(self).wf(),
            started(old(self).tokens@, old(self).current as nat),
        ensures
            final(self).wf(),
            final(self).tokens == old(self).tokens,
            outcome(
                expr_result(r),
                spec_factor(old(self).tokens@, old(self).current as nat),
                old(self).tokens@,
                old(self).current as nat,
                final(self).current as nat,
            ),
        decreases dist(old(self).tokens@, old(self).current as nat), 4nat,
    {
        let ghost toks = self.tokens@;
        let ghost tv = self.tokens;
        let ghost start = self.current as nat;
        proof {
            unfold_factor(toks, start);
        }
        let mut expr = match self.unary() {
                Ok(v) => v,
                Err(e) => return Err(e),
            };
        while self.matches_any(&[TokenKind::Star, TokenKind::Slash])
            invariant
                self.wf(),
                self.tokens == tv,
                tv == old(self).tokens,
                self.tokens@ == toks,
                started(toks, start),
                toks == old(self).tokens@,
                start == old(self).current as nat,
                start < toks.len(),
                start <= self.current,
                after((self.current - start) as nat, spec_factor_rest(toks, self.current as nat, expr@))
                    == spec_factor(toks, start),
            decreases dist(toks, self.current as nat),
        {
            let op = match self.previous().kind {
                TokenKind::Star => BinaryOp::Multiply,
                _ => BinaryOp::Divide,
            };
            proof {
                unfold_factor_rest(toks, (self.current - 1) as nat, expr@);
            }
            let right = match self.unary() {
                Ok(v) => v,
                Err(e) => return Err(e),
            };
            expr = Expr::Binary { left: Box::new(expr), op, right: Box::new(right) };
        }
        proof {
            unfold_factor_rest(toks, self.current as nat, expr@);
        }
        Ok(expr)
    }
}

impl Parser {
    fn unary(&mut self) -> (r: Result<Expr, ParseError>)
        requires
            old(self).wf(),
            started(old(self).tokens@, old(self).current as nat),
        ensures
            final(self).wf(),
            final(self).tokens == old(self).tokens,
            outcome(
                expr_result(r),
                spec_unary(old(self).tokens@, old(self).current as nat),
                old(self).tokens@,
                old(self).current as nat,
                final(self).current as nat,
            ),
        decreases dist(old(self).tokens@, old(self).current as nat), 3nat,
    {
        proof {
            unfold_unary(self.tokens@, self.current as nat);
        }
        if self.matches_any(&[TokenKind::Minus, TokenKind::Plus]) {
            let op = match self.previous().kind {
                TokenKind::Minus => UnaryOp::Negate,
                _ => UnaryOp::Plus,
            };
            let expr = match self.unary() {
                Ok(v) => v,
                Err(e) => return Err(e),
            };
            return Ok(Expr::Unary { op, expr: Box::new(expr) });
        }
        self.primary()
    }

    fn primary(&mut self) -> (r: Result<Expr, ParseError>)
        requires
            old(self).wf(),
            started(old(self).tokens@, old(self).current as nat),
        ensures
            final(self).wf(),
            final(self).tokens == old(self).tokens,
            outcome(
                expr_result(r),
                spec_primary(old(self).tokens@, old(self).current as nat),
                old(self).tokens@,
                old(self).current as nat,
                final(self).current as nat,
            ),
        decreases dist(old(self).tokens@, old(self).current as nat), 2nat,
    {
        let ghost toks = self.tokens@;
        let ghost tv = self.tokens;
        let ghost start = self.current as nat;
        proof {
            unfold_primary(toks, start);
        }
        let was_at_end = self.is_at_end();
        self.advance();
        let kind = self.previous().kind.copy();
        let mut expr = match kind {
            TokenKind::Number(value) => Expr::Number(value),
            TokenKind::String(value) => Expr::String(value),
            TokenKind::Ident(name) => Expr::Variable(name),
            TokenKind::True => Expr::Bool(true),
            TokenKind::False => Expr::Bool(false),
            TokenKind::LParen => {
                if was_at_end {
                    return Err(ParseError::Unterminated { token: self.peek().copy() });
                }
                let expr = match self.expression() {
                Ok(v) => v,
                Err(e) => return Err(e),
            };
                match self.consume(&TokenKind::RParen, "expected `)` after expression") {
            Ok(_) => {},
            Err(e) => return Err(e),
        }
                expr
            },
            TokenKind::LBracket => {
                if was_at_end {
                    return Err(ParseError::Unterminated { token: self.peek().copy() });
                }
                match self.list_literal() {
            Ok(v) => v,
            Err(e) => return Err(e),
        }
            },
            _ => return Err(self.error("expected expression")),
        };
        loop
            invariant
                self.wf(),
                self.tokens == tv,
                tv == old(self).tokens,
                self.tokens@ == toks,
                started(toks, start),
                toks == old(self).tokens@,
                start == old(self).current as nat,
                start < toks.len(),
                start <= self.current,
                after((self.current - start) as nat, spec_postfix(toks, self.current as nat, expr@))
                    == spec_primary(toks, start),
            ensures
                self.wf(),
                self.tokens == tv,
                self.tokens@ == toks,
                start <= self.current,
                after((self.current - start) as nat, spec_postfix(toks, self.current as nat, expr@))
                    == spec_primary(toks, start),
                !check(toks, self.current as nat, TokenKind::LParen),
                !check(toks, self.current as nat, TokenKind::LBracket),
            decreases dist(toks, self.current as nat),
        {
            proof {
                unfold_postfix(toks, self.current as nat, expr@);
            }
            if self.matches(&TokenKind::LParen) {
                expr = match self.finish_call(expr) {
                Ok(v) => v,
                Err(e) => return Err(e),
            };
            } else if self.matches(&TokenKind::LBracket) {
                expr = match self.finish_index(expr) {
                Ok(v) => v,
                Err(e) => return Err(e),
            };
            } else {
                break;
            }
        }
        proof {
            unfold_postfix(toks, self.current as nat, expr@);
        }
        Ok(expr)
    }

    /// The elements of a list or the arguments of a call: expressions
    /// separated by commas.
    fn elements(&mut self) -> (r: Result<Vec<Expr>, ParseError>)
        requires
            old(self).wf(),
            started(old(self).tokens@, old(self).current as nat),
        ensures
            final(self).wf(),
            final(self).tokens == old(self).tokens,
            outcome(
                exprs_result(r),
                spec_elements(old(self).tokens@, old(self).current as nat),
                old(self).tokens@,
                old(self).current as nat,
                final(self).current as nat,
            ),
        decreases dist(old(self).tokens@, old(self).current as nat), 8nat,
    {
        let ghost toks = self.tokens@;
        let ghost tv = self.tokens;
        let ghost start = self.current as nat;
        let mut elements: Vec<Expr> = Vec::new();
        assert(exprs_view(elements@) =~= Seq::<ExprView>::empty());
        loop
            invariant
                self.wf(),
                self.tokens == tv,
                tv == old(self).tokens,
                self.tokens@ == toks,
                started(toks, start),
                toks == old(self).tokens@,
                start == old(self).current as nat,
                start < toks.len(),
                start <= self.current,
                prepend(exprs_view(elements@), (self.current - start) as nat, spec_elements(toks, self.current as nat))
                    == spec_elements(toks, start),
            decreases dist(toks, self.current as nat),
        {
            let ghost before = self.current as nat;
            let ghost pre = exprs_view(elements@);
            proof {
                unfold_elements(toks, before);
            }
            let e = match self.expression() {
                Ok(v) => v,
                Err(e) => return Err(e),
            };
            let ghost first = e@;
            elements.push(e);
            assert(exprs_view(elements@) =~= pre + seq![first]);
            if !self.matches(&TokenKind::Comma) {
                return Ok(elements);
            }
            proof {
                if let Ok((rest, _)) = spec_elements(toks, self.current as nat) {
                    assert(pre + seq![first] + rest =~= pre + (seq![first] + rest));
                }
            }
        }
    }

    fn list_literal(&mut self) -> (r: Result<Expr, ParseError>)
        requires
            old(self).wf(),
            started(old(self).tokens@, old(self).current as nat),
        ensures
            final(self).wf(),
            final(self).tokens == old(self).tokens,
            outcome(
                expr_result(r),
                spec_list_literal(old(self).tokens@, old(self).current as nat),
                old(self).tokens@,
                old(self).current as nat,
                final(self).current as nat,
            ),
        decreases dist(old(self).tokens@, old(self).current as nat), 9nat,
    {
        proof {
            unfold_list_literal(self.tokens@, self.current as nat);
        }
        let elements = if !self.check(&TokenKind::RBracket) {
            match self.elements() {
            Ok(v) => v,
            Err(e) => return Err(e),
        }
        } else {
            let v: Vec<Expr> = Vec::new();
            assert(exprs_view(v@) =~= Seq::<ExprView>::empty());
            v
        };
        match self.consume(&TokenKind::RBracket, "expected ']' after list literal") {
                Ok(v) => v,
                Err(e) => return Err(e),
            };
        let r = Expr::List(elements);
        assert(r@->List_0 =~= exprs_view(elements@));
        Ok(r)
    }

    fn finish_call(&mut self, callee: Expr) -> (r: Result<Expr, ParseError>)
        requires
            old(self).wf(),
            started(old(self).tokens@, old(self).current as nat),
        ensures
            final(self).wf(),
            final(self).tokens == old(self).tokens,
            outcome(
                expr_result(r),
                spec_finish_call(old(self).tokens@, old(self).current as nat, callee@),
                old(self).tokens@,
                old(self).current as nat,
                final(self).current as nat,
            ),
        decreases dist(old(self).tokens@, old(self).current as nat), 9nat,
    {
        proof {
            unfold_finish_call(self.tokens@, self.current as nat, callee@);
        }
        let args = if !self.check(&TokenKind::RParen) {
            match self.elements() {
            Ok(v) => v,
            Err(e) => return Err(e),
        }
        } else {
            let v: Vec<Expr> = Vec::new();
            assert(exprs_view(v@) =~= Seq::<ExprView>::empty());
            v
        };
        match self.consume(&TokenKind::RParen, "expected ')' after arguments") {
            Ok(_) => {},
            Err(e) => return Err(e),
        }
        match callee {
            Expr::Variable(name) => {
                let r = Expr::Call { callee: name, args };
                assert(r@->Call_args =~= exprs_view(args@));
                Ok(r)
            },
            _ => Err(self.error("expected function name before call")),
        }
    }

    fn finish_index(&mut self, object: Expr) -> (r: Result<Expr, ParseError>)
        requires
            old(self).wf(),
            started(old(self).tokens@, old(self).current as nat),
        ensures
            final(self).wf(),
            final(self).tokens == old(self).tokens,
            outcome(
                expr_result(r),
                spec_finish_index(old(self).tokens@, old(self).current as nat, object@),
                old(self).tokens@,
                old(self).current as nat,
                final(self).current as nat,
            ),
        decreases dist(old(self).tokens@, old(self).current as nat), 8nat,
    {
        proof {
            unfold_finish_index(self.tokens@, self.current as nat, object@);
        }
        let index = match self.expression() {
            Ok(v) => v,
            Err(e) => return Err(e),
        };
        match self.consume(&TokenKind::RBracket, "expected ']' after index") {
                Ok(v) => v,
                Err(e) => return Err(e),
            };
        Ok(Expr::Index { object: Box::new(object), index: Box::new(index) })
    }
}

impl Parser {
    fn statement(&mut self) -> (r: Result<Stmt, ParseError>)
        requires
            old(self).wf(),
            started(old(self).tokens@, old(self).current as nat),
        ensures
            final(self).wf(),
            final(self).tokens == old(self).tokens,
            outcome(
                stmt_result(r),
                spec_statement(old(self).tokens@, old(self).current as nat),
                old(self).tokens@,
                old(self).current as nat,
                final(self).current as nat,
            ),
        decreases dist(old(self).tokens@, old(self).current as nat), 10nat,
    {
        proof {
            unfold_statement(self.tokens@, self.current as nat);
        }
        if self.matches(&TokenKind::Let) {
            return self.let_statement();
        }
        if self.matches(&TokenKind::Fn) {
            return self.function_statement();
        }
        if self.matches(&TokenKind::Return) {
            return self.return_statement();
        }
        if self.matches(&TokenKind::Print) {
            let value = match self.expression() {
                Ok(v) => v,
                Err(e) => return Err(e),
            };
            self.optional_semicolon();
            return Ok(Stmt::Print(value));
        }
        if self.matches(&TokenKind::If) {
            return self.if_statement();
        }
        if self.matches(&TokenKind::While) {
            return self.while_statement();
        }
        if self.matches(&TokenKind::For) {
            return self.for_statement();
        }
        match self.assignment() {
            Err(e) => return Err(e),
            Ok(Some(assign)) => return Ok(assign),
            Ok(None) => {},
        }
        let expr = match self.expression() {
            Ok(v) => v,
            Err(e) => return Err(e),
        };
        match self.consume(&TokenKind::Semicolon, "Expected ';' after expression") {
            Ok(_) => {},
            Err(e) => return Err(e),
        }
        Ok(Stmt::Expr(expr))
    }

    /// `name = value`, when the two tokens ahead are an identifier and `=`;
    /// `None`, with nothing taken, otherwise.
    fn assignment(&mut self) -> (r: Result<Option<Stmt>, ParseError>)
        requires
            old(self).wf(),
            started(old(self).tokens@, old(self).current as nat),
        ensures
            final(self).wf(),
            final(self).tokens == old(self).tokens,
            match spec_assignment(old(self).tokens@, old(self).current as nat) {
                Err(e) => r is Err && error_is(r->Err_0, e, old(self).tokens@),
                Ok(None) => r == Ok::<Option<Stmt>, ParseError>(None) && final(self).current
                    == old(self).current,
                Ok(Some((st, c))) => r is Ok && r->Ok_0 is Some && r->Ok_0->Some_0@ == st
                    && final(self).current == old(self).current + c,
            },
        decreases dist(old(self).tokens@, old(self).current as nat), 1nat,
    {
        proof {
            unfold_assignment(self.tokens@, self.current as nat);
        }
        let len = self.tokens.len();
        if self.current + 1 >= len {
            return Ok(None);
        }
        let is_ident = match &self.tokens[self.current].kind {
            TokenKind::Ident(_) => true,
            _ => false,
        };
        let next_is_equal = match &self.tokens[self.current + 1].kind {
            TokenKind::Equal => true,
            _ => false,
        };
        if is_ident && next_is_equal {
            self.advance();
            let name = match &self.previous().kind {
                TokenKind::Ident(n) => n.clone(),
                _ => String::new(),
            };
            self.advance();
            let value = match self.expression() {
                Ok(v) => v,
                Err(e) => return Err(e),
            };
            self.optional_semicolon();
            Ok(Some(Stmt::Assign { name, value }))
        } else {
            Ok(None)
        }
    }

    fn let_statement(&mut self) -> (r: Result<Stmt, ParseError>)
        requires
            old(self).wf(),
            started(old(self).tokens@, old(self).current as nat),
        ensures
            final(self).wf(),
            final(self).tokens == old(self).tokens,
            outcome(
                stmt_result(r),
                spec_let_statement(old(self).tokens@, old(self).current as nat),
                old(self).tokens@,
                old(self).current as nat,
                final(self).current as nat,
            ),
        decreases dist(old(self).tokens@, old(self).current as nat), 1nat,
    {
        proof {
            unfold_let_statement(self.tokens@, self.current as nat);
        }
        self.advance();
        let name = match self.previous().kind.copy() {
            TokenKind::Ident(name) => name,
            _ => return Err(self.error("expected identifier after `let`")),
        };
        match self.consume(&TokenKind::Equal, "expected `=` after variable name") {
            Ok(_) => {},
            Err(e) => return Err(e),
        }
        let value = match self.expression() {
            Ok(v) => v,
            Err(e) => return Err(e),
        };
        self.optional_semicolon();
        Ok(Stmt::Let { name, value })
    }

    fn return_statement(&mut self) -> (r: Result<Stmt, ParseError>)
        requires
            old(self).wf(),
            started(old(self).tokens@, old(self).current as nat),
        ensures
            final(self).wf(),
            final(self).tokens == old(self).tokens,
            outcome(
                stmt_result(r),
                spec_return_statement(old(self).tokens@, old(self).current as nat),
                old(self).tokens@,
                old(self).current as nat,
                final(self).current as nat,
            ),
        decreases dist(old(self).tokens@, old(self).current as nat), 8nat,
    {
        proof {
            unfold_return_statement(self.tokens@, self.current as nat);
        }
        let value = match self.expression() {
            Ok(v) => v,
            Err(e) => return Err(e),
        };
        self.optional_semicolon();
        Ok(Stmt::Return(value))
    }

    /// The statements of a block, up to the `}` that closes it (not taken).
    fn block(&mut self) -> (r: Result<Vec<Stmt>, ParseError>)
        requires
            old(self).wf(),
            started(old(self).tokens@, old(self).current as nat),
        ensures
            final(self).wf(),
            final(self).tokens == old(self).tokens,
            outcome(
                stmts_result(r),
                spec_block(old(self).tokens@, old(self).current as nat),
                old(self).tokens@,
                old(self).current as nat,
                final(self).current as nat,
            ),
        decreases dist(old(self).tokens@, old(self).current as nat), 11nat,
    {
        let ghost toks = self.tokens@;
        let ghost tv = self.tokens;
        let ghost start = self.current as nat;
        let mut body: Vec<Stmt> = Vec::new();
        assert(stmts_view(body@) =~= Seq::<StmtView>::empty());
        while !self.check(&TokenKind::RBrace)
            invariant
                self.wf(),
                self.tokens == tv,
                tv == old(self).tokens,
                self.tokens@ == toks,
                started(toks, start),
                toks == old(self).tokens@,
                start == old(self).current as nat,
                start <= self.current,
                prepend(stmts_view(body@), (self.current - start) as nat, spec_block(toks, self.current as nat))
                    == spec_block(toks, start),
            decreases dist(toks, self.current as nat),
        {
            let ghost before = self.current as nat;
            let ghost pre = stmts_view(body@);
            proof {
                unfold_block(toks, before);
                lemma_statement_consumes(toks, before);
            }
            let st = match self.statement() {
                Ok(v) => v,
                Err(e) => return Err(e),
            };
            let ghost first = st@;
            body.push(st);
            assert(stmts_view(body@) =~= pre + seq![first]);
            proof {
                if let Ok((rest, _)) = spec_block(toks, self.current as nat) {
                    assert(pre + seq![first] + rest =~= pre + (seq![first] + rest));
                }
            }
        }
        proof {
            unfold_block(toks, self.current as nat);
            assert(stmts_view(body@) + Seq::<StmtView>::empty() =~= stmts_view(body@));
        }
        Ok(body)
    }

    fn if_statement(&mut self) -> (r: Result<Stmt, ParseError>)
        requires
            old(self).wf(),
            started(old(self).tokens@, old(self).current as nat),
        ensures
            final(self).wf(),
            final(self).tokens == old(self).tokens,
            outcome(
                stmt_result(r),
                spec_if_statement(old(self).tokens@, old(self).current as nat),
                old(self).tokens@,
                old(self).current as nat,
                final(self).current as nat,
            ),
        decreases dist(old(self).tokens@, old(self).current as nat), 8nat,
    {
        proof {
            unfold_if_statement(self.tokens@, self.current as nat);
        }
        let condition = match self.expression() {
            Ok(v) => v,
            Err(e) => return Err(e),
        };
        match self.consume(&TokenKind::LBrace, "expected '{' after condition") {
            Ok(_) => {},
            Err(e) => return Err(e),
        }
        let body = match self.block() {
            Ok(v) => v,
            Err(e) => return Err(e),
        };
        match self.consume(&TokenKind::RBrace, "expected '}' after if statement") {
            Ok(_) => {},
            Err(e) => return Err(e),
        }
        let else_body = if self.matches(&TokenKind::Else) {
            match self.consume(&TokenKind::LBrace, "expected '{' after else") {
                Ok(_) => {},
                Err(e) => return Err(e),
            }
            let eb = match self.block() {
                Ok(v) => v,
                Err(e) => return Err(e),
            };
            match self.consume(&TokenKind::RBrace, "expected '}' after else block") {
                Ok(_) => {},
                Err(e) => return Err(e),
            }
            Some(eb)
        } else {
            None
        };
        let ghost eb_view = else_body;
        let r = Stmt::If { condition, body, else_body };
        assert(r@->If_body =~= stmts_view(body@));
        proof {
            if let Some(eb) = eb_view {
                assert(r@->If_else_body->Some_0 =~= stmts_view(eb@));
            }
        }
        Ok(r)
    }

    fn while_statement(&mut self) -> (r: Result<Stmt, ParseError>)
        requires
            old(self).wf(),
            started(old(self).tokens@, old(self).current as nat),
        ensures
            final(self).wf(),
            final(self).tokens == old(self).tokens,
            outcome(
                stmt_result(r),
                spec_while_statement(old(self).tokens@, old(self).current as nat),
                old(self).tokens@,
                old(self).current as nat,
                final(self).current as nat,
            ),
        decreases dist(old(self).tokens@, old(self).current as nat), 8nat,
    {
        proof {
            unfold_while_statement(self.tokens@, self.current as nat);
        }
        let condition = match self.expression() {
            Ok(v) => v,
            Err(e) => return Err(e),
        };
        match self.consume(&TokenKind::LBrace, "expected '{' after condition") {
            Ok(_) => {},
            Err(e) => return Err(e),
        }
        let body = match self.block() {
            Ok(v) => v,
            Err(e) => return Err(e),
        };
        match self.consume(&TokenKind::RBrace, "expected '}' after while statement") {
            Ok(_) => {},
            Err(e) => return Err(e),
        }
        let r = Stmt::While { condition, body };
        assert(r@->While_body =~= stmts_view(body@));
        Ok(r)
    }

    fn for_statement(&mut self) -> (r: Result<Stmt, ParseError>)
        requires
            old(self).wf(),
            started(old(self).tokens@, old(self).current as nat),
        ensures
            final(self).wf(),
            final(self).tokens == old(self).tokens,
            outcome(
                stmt_result(r),
                spec_for_statement(old(self).tokens@, old(self).current as nat),
                old(self).tokens@,
                old(self).current as nat,
                final(self).current as nat,
            ),
        decreases dist(old(self).tokens@, old(self).current as nat), 1nat,
    {
        proof {
            unfold_for_statement(self.tokens@, self.current as nat);
        }
        self.advance();
        let name = match self.previous().kind.copy() {
            TokenKind::Ident(name) => name,
            _ => return Err(self.error("expected identifier after `for`")),
        };
        match self.consume(&TokenKind::In, "expected 'in' after for variable") {
            Ok(_) => {},
            Err(e) => return Err(e),
        }
        let iterable = match self.expression() {
            Ok(v) => v,
            Err(e) => return Err(e),
        };
        match self.consume(&TokenKind::LBrace, "expected '{' after for iterable") {
            Ok(_) => {},
            Err(e) => return Err(e),
        }
        let body = match self.block() {
            Ok(v) => v,
            Err(e) => return Err(e),
        };
        match self.consume(&TokenKind::RBrace, "expected '}' after for body") {
            Ok(_) => {},
            Err(e) => return Err(e),
        }
        let r = Stmt::For { variable: name, iterable, body };
        assert(r@->For_body =~= stmts_view(body@));
        Ok(r)
    }

    /// Parameter names separated by commas.
    fn parameters(&mut self) -> (r: Result<Vec<String>, ParseError>)
        requires
            old(self).wf(),
            started(old(self).tokens@, old(self).current as nat),
        ensures
            final(self).wf(),
            final(self).tokens == old(self).tokens,
            outcome(
                names_result(r),
                spec_parameters(old(self).tokens@, old(self).current as nat),
                old(self).tokens@,
                old(self).current as nat,
                final(self).current as nat,
            ),
    {
        let ghost toks = self.tokens@;
        let ghost tv = self.tokens;
        let ghost start = self.current as nat;
        let mut params: Vec<String> = Vec::new();
        assert(names_view(params@) =~= Seq::<Seq<char>>::empty());
        loop
            invariant
                self.wf(),
                self.tokens == tv,
                tv == old(self).tokens,
                self.tokens@ == toks,
                started(toks, start),
                toks == old(self).tokens@,
                start == old(self).current as nat,
                start <= self.current,
                prepend(names_view(params@), (self.current - start) as nat, spec_parameters(toks, self.current as nat))
                    == spec_parameters(toks, start),
            decreases dist(toks, self.current as nat),
        {
            let ghost before = self.current as nat;
            let ghost pre = names_view(params@);
            proof {
                unfold_parameters(toks, before);
            }
            self.advance();
            match self.previous().kind.copy() {
                TokenKind::Ident(name) => {
                    let ghost n = name@;
                    params.push(name);
                    assert(names_view(params@) =~= pre + seq![n]);
                },
                _ => return Err(self.error("expected parameter name")),
            }
            if !self.matches(&TokenKind::Comma) {
                return Ok(params);
            }
            proof {
                if let Ok((rest, _)) = spec_parameters(toks, self.current as nat) {
                    assert(pre + seq![names_view(params@).last()] + rest =~= pre + (seq![names_view(params@).last()] + rest));
                }
            }
        }
    }

    fn function_statement(&mut self) -> (r: Result<Stmt, ParseError>)
        requires
            old(self).wf(),
            started(old(self).tokens@, old(self).current as nat),
        ensures
            final(self).wf(),
            final(self).tokens == old(self).tokens,
            outcome(
                stmt_result(r),
                spec_function_statement(old(self).tokens@, old(self).current as nat),
                old(self).tokens@,
                old(self).current as nat,
                final(self).current as nat,
            ),
        decreases dist(old(self).tokens@, old(self).current as nat), 1nat,
    {
        proof {
            unfold_function_statement(self.tokens@, self.current as nat);
        }
        self.advance();
        let name = match self.previous().kind.copy() {
            TokenKind::Ident(name) => name,
            _ => return Err(self.error("expected function name after `fn`")),
        };
        match self.consume(&TokenKind::LParen, "expected '(' after function name") {
            Ok(_) => {},
            Err(e) => return Err(e),
        }
        let params = if !self.check(&TokenKind::RParen) {
            match self.parameters() {
                Ok(v) => v,
                Err(e) => return Err(e),
            }
        } else {
            let v: Vec<String> = Vec::new();
            assert(names_view(v@) =~= Seq::<Seq<char>>::empty());
            v
        };
        match self.consume(&TokenKind::RParen, "expected ')' after function parameters") {
            Ok(_) => {},
            Err(e) => return Err(e),
        }
        match self.consume(&TokenKind::LBrace, "expected '{' before function body") {
            Ok(_) => {},
            Err(e) => return Err(e),
        }
        let body = match self.block() {
            Ok(v) => v,
            Err(e) => return Err(e),
        };
        match self.consume(&TokenKind::RBrace, "expected '}' after function body") {
            Ok(_) => {},
            Err(e) => return Err(e),
        }
        let r = Stmt::Function { name, params, body };
        assert(r@->Function_body =~= stmts_view(body@));
        assert(r@->Function_params =~= names_view(params@));
        Ok(r)
    }

    /// Parses statements up to the end of input.
    pub fn parse_program(&mut self) -> (r: Result<Program, ParseError>)
        requires
            old(self).wf(),
        ensures
            final(self).wf(),
            final(self).tokens() == old(self).tokens(),
            outcome(
                program_result(r),
                spec_program(old(self).tokens(), old(self).position()),
                old(self).tokens(),
                old(self).position(),
                final(self).position(),
            ),
            r is Ok ==> at_end(final(self).tokens(), final(self).position()),
    {
        let ghost toks = self.tokens@;
        let ghost tv = self.tokens;
        let ghost start = self.current as nat;
        let mut statements: Vec<Stmt> = Vec::new();
        assert(stmts_view(statements@) =~= Seq::<StmtView>::empty());
        while !self.is_at_end()
            invariant
                self.wf(),
                self.tokens == tv,
                tv == old(self).tokens,
                self.tokens@ == toks,
                toks == old(self).tokens@,
                start == old(self).current as nat,
                start <= self.current,
                prepend(stmts_view(statements@), (self.current - start) as nat, spec_program(toks, self.current as nat))
                    == spec_program(toks, start),
            decreases dist(toks, self.current as nat),
        {
            let ghost before = self.current as nat;
            let ghost pre = stmts_view(statements@);
            proof {
                unfold_program(toks, before);
                lemma_statement_consumes(toks, before);
            }
            let st = match self.statement() {
                Ok(v) => v,
                Err(e) => return Err(e),
            };
            let ghost first = st@;
            statements.push(st);
            assert(stmts_view(statements@) =~= pre + seq![first]);
            proof {
                if let Ok((rest, _)) = spec_program(toks, self.current as nat) {
                    assert(pre + seq![first] + rest =~= pre + (seq![first] + rest));
                }
            }
        }
        proof {
            unfold_program(toks, self.current as nat);
            assert(stmts_view(statements@) + Seq::<StmtView>::empty() =~= stmts_view(statements@));
            lemma_program_reads_to_end(toks, start);
        }
        Ok(Program { statements })
    }
}

} // verus!
