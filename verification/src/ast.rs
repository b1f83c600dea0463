//! The syntax tree of a program, its mathematical model, structural copies
//! and structural equality.
use vstd::prelude::*;
use crate::number::{lemma_num_eq_symmetric, num_eq, spec_num_eq};

verus! {

/// A prefix operator applied to one operand.
#[derive(Debug, Clone, Copy, PartialEq, Eq, Structural)]
pub enum UnaryOp {
    Plus,
    Negate,
}

/// An infix operator applied to two operands.
#[derive(Debug, Clone, Copy, PartialEq, Eq, Structural)]
pub enum BinaryOp {
    Add,
    Subtract,
    Multiply,
    Divide,
    Equal,
    NotEqual,
    Greater,
    GreaterEqual,
    Less,
    LessEqual,
}

/// An expression. A number literal holds the IEEE-754 binary64 bit pattern
/// of its value.
#[derive(Debug)]
pub enum Expr {
    Number(u64),
    String(String),
    Variable(String),
    Bool(bool),
    Unary { op: UnaryOp, expr: Box<Expr> },
    Binary { op: BinaryOp, left: Box<Expr>, right: Box<Expr> },
    Call { callee: String, args: Vec<Expr> },
    List(Vec<Expr>),
    Index { object: Box<Expr>, index: Box<Expr> },
}

/// A statement.
#[derive(Debug)]
pub enum Stmt {
    Let { name: String, value: Expr },
    Assign { name: String, value: Expr },
    If { condition: Expr, body: Vec<Stmt>, else_body: Option<Vec<Stmt>> },
    While { condition: Expr, body: Vec<Stmt> },
    For { variable: String, iterable: Expr, body: Vec<Stmt> },
    Function { name: String, params: Vec<String>, body: Vec<Stmt> },
    Return(Expr),
    Print(Expr),
    Expr(Expr),
}

/// A whole program: its statements in order.
#[derive(Debug)]
pub struct Program {
    pub statements: Vec<Stmt>,
}

/// The mathematical model of an expression: names are character sequences
/// and sub-expression lists are sequences.
pub enum ExprView {
    Number(u64),
    String(Seq<char>),
    Variable(Seq<char>),
    Bool(bool),
    Unary { op: UnaryOp, expr: Box<ExprView> },
    Binary { op: BinaryOp, left: Box<ExprView>, right: Box<ExprView> },
    Call { callee: Seq<char>, args: Seq<ExprView> },
    List(Seq<ExprView>),
    Index { object: Box<ExprView>, index: Box<ExprView> },
}

/// The mathematical model of a statement.
pub enum StmtView {
    Let { name: Seq<char>, value: ExprView },
    Assign { name: Seq<char>, value: ExprView },
    If { condition: ExprView, body: Seq<StmtView>, else_body: Option<Seq<StmtView>> },
    While { condition: ExprView, body: Seq<StmtView> },
    For { variable: Seq<char>, iterable: ExprView, body: Seq<StmtView> },
    Function { name: Seq<char>, params: Seq<Seq<char>>, body: Seq<StmtView> },
    Return(ExprView),
    Print(ExprView),
    Expr(ExprView),
}

/// The model of an expression.
pub open spec fn expr_view(e: Expr) -> ExprView
    decreases e,
{
    match e {
        Expr::Number(n) => ExprView::Number(n),
        Expr::String(s) => ExprView::String(s@),
        Expr::Variable(s) => ExprView::Variable(s@),
        Expr::Bool(b) => ExprView::Bool(b),
        Expr::Unary { op, expr } => ExprView::Unary { op, expr: Box::new(expr_view(*expr)) },
        Expr::Binary { op, left, right } => ExprView::Binary {
            op,
            left: Box::new(expr_view(*left)),
            right: Box::new(expr_view(*right)),
        },
        Expr::Call { callee, args } => ExprView::Call {
            callee: callee@,
            args: Seq::new(
                args@.len(),
                |i: int|
                    if 0 <= i < args@.len() {
                        expr_view(args@[i])
                    } else {
                        ExprView::Bool(false)
                    },
            ),
        },
        Expr::List(elems) => ExprView::List(
            Seq::new(
                elems@.len(),
                |i: int|
                    if 0 <= i < elems@.len() {
                        expr_view(elems@[i])
                    } else {
                        ExprView::Bool(false)
                    },
            ),
        ),
        Expr::Index { object, index } => ExprView::Index {
            object: Box::new(expr_view(*object)),
            index: Box::new(expr_view(*index)),
        },
    }
}

/// The model of a list of names.
pub open spec fn names_view(s: Seq<String>) -> Seq<Seq<char>> {
    Seq::new(s.len(), |i: int| s[i]@)
}

/// The model of a list of expressions.
pub open spec fn exprs_view(s: Seq<Expr>) -> Seq<ExprView> {
    Seq::new(s.len(), |i: int| expr_view(s[i]))
}

/// The model of a list of statements.
pub open spec fn stmts_view(s: Seq<Stmt>) -> Seq<StmtView> {
    Seq::new(s.len(), |i: int| stmt_view(s[i]))
}

/// The model of a statement.
pub open spec fn stmt_view(s: Stmt) -> StmtView
    decreases s,
{
    match s {
        Stmt::Let { name, value } => StmtView::Let { name: name@, value: expr_view(value) },
        Stmt::Assign { name, value } => StmtView::Assign { name: name@, value: expr_view(value) },
        Stmt::If { condition, body, else_body } => StmtView::If {
            condition: expr_view(condition),
            body: Seq::new(
                body@.len(),
                |i: int|
                    if 0 <= i < body@.len() {
                        stmt_view(body@[i])
                    } else {
                        StmtView::Expr(ExprView::Bool(false))
                    },
            ),
            else_body: match else_body {
                Some(eb) => Some(
                    Seq::new(
                        eb@.len(),
                        |i: int|
                            if 0 <= i < eb@.len() {
                                stmt_view(eb@[i])
                            } else {
                                StmtView::Expr(ExprView::Bool(false))
                            },
                    ),
                ),
                None => None,
            },
        },
        Stmt::While { condition, body } => StmtView::While {
            condition: expr_view(condition),
            body: Seq::new(
                body@.len(),
                |i: int|
                    if 0 <= i < body@.len() {
                        stmt_view(body@[i])
                    } else {
                        StmtView::Expr(ExprView::Bool(false))
                    },
            ),
        },
        Stmt::For { variable, iterable, body } => StmtView::For {
            variable: variable@,
            iterable: expr_view(iterable),
            body: Seq::new(
                body@.len(),
                |i: int|
                    if 0 <= i < body@.len() {
                        stmt_view(body@[i])
                    } else {
                        StmtView::Expr(ExprView::Bool(false))
                    },
            ),
        },
        Stmt::Function { name, params, body } => StmtView::Function {
            name: name@,
            params: names_view(params@),
            body: Seq::new(
                body@.len(),
                |i: int|
                    if 0 <= i < body@.len() {
                        stmt_view(body@[i])
                    } else {
                        StmtView::Expr(ExprView::Bool(false))
                    },
            ),
        },
        Stmt::Return(e) => StmtView::Return(expr_view(e)),
        Stmt::Print(e) => StmtView::Print(expr_view(e)),
        Stmt::Expr(e) => StmtView::Expr(expr_view(e)),
    }
}

impl View for Expr {
    type V = ExprView;

    open spec fn view(&self) -> ExprView {
        expr_view(*self)
    }
}

impl View for Stmt {
    type V = StmtView;

    open spec fn view(&self) -> StmtView {
        stmt_view(*self)
    }
}

impl View for Program {
    type V = Seq<StmtView>;

    open spec fn view(&self) -> Seq<StmtView> {
        stmts_view(self.statements@)
    }
}


impl Expr {
    /// A structural copy.
    pub fn deep_clone(&self) -> (r: Expr)
        ensures
            r@ == self@,
        decreases self, 1nat,
    {
        match self {
            Expr::Number(n) => Expr::Number(*n),
            Expr::String(s) => Expr::String(s.clone()),
            Expr::Variable(s) => Expr::Variable(s.clone()),
            Expr::Bool(b) => Expr::Bool(*b),
            Expr::Unary { op, expr } => Expr::Unary { op: *op, expr: Box::new((**expr).deep_clone()) },
            Expr::Binary { op, left, right } => Expr::Binary {
                op: *op,
                left: Box::new((**left).deep_clone()),
                right: Box::new((**right).deep_clone()),
            },
            Expr::Call { callee, args } => {
                assert(forall|j: int| 0 <= j < args@.len() ==> decreases_to!(*self => #[trigger] args@[j]));
                let out = clone_expr_list(args, Ghost(*self));
                let r = Expr::Call { callee: callee.clone(), args: out };
                assert(exprs_view(out@) =~= exprs_view(args@));
                assert(r@->Call_args =~= exprs_view(out@));
                assert(self@->Call_args =~= exprs_view(args@));
                r
            },
            Expr::List(elems) => {
                assert(forall|j: int| 0 <= j < elems@.len() ==> decreases_to!(*self => #[trigger] elems@[j]));
                let out = clone_expr_list(elems, Ghost(*self));
                let r = Expr::List(out);
                assert(exprs_view(out@) =~= exprs_view(elems@));
                assert(r@->List_0 =~= exprs_view(out@));
                assert(self@->List_0 =~= exprs_view(elems@));
                r
            },
            Expr::Index { object, index } => Expr::Index {
                object: Box::new((**object).deep_clone()),
                index: Box::new((**index).deep_clone()),
            },
        }
    }
}

/// Copies a list of expressions that stands inside `parent`.
fn clone_expr_list(v: &Vec<Expr>, Ghost(parent): Ghost<Expr>) -> (r: Vec<Expr>)
    requires
        forall|j: int| 0 <= j < v@.len() ==> decreases_to!(parent => #[trigger] v@[j]),
    ensures
        r@.len() == v@.len(),
        forall|j: int| 0 <= j < v@.len() ==> #[trigger] expr_view(r@[j]) == expr_view(v@[j]),
    decreases parent, 0nat,
{
    let mut out: Vec<Expr> = Vec::new();
    let mut i: usize = 0;
    while i < v.len()
        invariant
            i <= v@.len(),
            out@.len() == i,
            forall|j: int| 0 <= j < v@.len() ==> decreases_to!(parent => #[trigger] v@[j]),
            forall|j: int| 0 <= j < i ==> #[trigger] expr_view(out@[j]) == expr_view(v@[j]),
        decreases v@.len() - i,
    {
        let c = v[i].deep_clone();
        out.push(c);
        i = i + 1;
    }
    out
}

/// Copies a list of names.
pub fn clone_names(v: &Vec<String>) -> (r: Vec<String>)
    ensures
        names_view(r@) == names_view(v@),
{
    let mut out: Vec<String> = Vec::new();
    let mut i: usize = 0;
    while i < v.len()
        invariant
            i <= v@.len(),
            out@.len() == i,
            forall|j: int| 0 <= j < i ==> #[trigger] out@[j]@ == v@[j]@,
        decreases v@.len() - i,
    {
        out.push(v[i].clone());
        i = i + 1;
    }
    assert(names_view(out@) =~= names_view(v@));
    out
}

impl Stmt {
    /// A structural copy.
    pub fn deep_clone(&self) -> (r: Stmt)
        ensures
            r@ == self@,
        decreases self, 1nat,
    {
        match self {
            Stmt::Let { name, value } => Stmt::Let { name: name.clone(), value: value.deep_clone() },
            Stmt::Assign { name, value } => Stmt::Assign { name: name.clone(), value: value.deep_clone() },
            Stmt::If { condition, body, else_body } => {
                assert(forall|j: int| 0 <= j < body@.len() ==> decreases_to!(*self => #[trigger] body@[j]));
                let b = clone_stmt_list(body, Ghost(*self));
                let eb = match else_body {
                    Some(e) => {
                        assert(forall|j: int| 0 <= j < e@.len() ==> decreases_to!(*self => #[trigger] e@[j]));
                        Some(clone_stmt_list(e, Ghost(*self)))
                    },
                    None => None,
                };
                let r = Stmt::If { condition: condition.deep_clone(), body: b, else_body: eb };
                assert(r@->If_body =~= stmts_view(b@));
                assert(self@->If_body =~= stmts_view(body@));
                assert(r@->If_else_body =~= self@->If_else_body) by {
                    if let Some(e) = else_body {
                        assert(r@->If_else_body.unwrap() =~= stmts_view(eb.unwrap()@));
                        assert(self@->If_else_body.unwrap() =~= stmts_view(e@));
                    }
                }
                r
            },
            Stmt::While { condition, body } => {
                assert(forall|j: int| 0 <= j < body@.len() ==> decreases_to!(*self => #[trigger] body@[j]));
                let b = clone_stmt_list(body, Ghost(*self));
                let r = Stmt::While { condition: condition.deep_clone(), body: b };
                assert(r@->While_body =~= stmts_view(b@));
                assert(self@->While_body =~= stmts_view(body@));
                r
            },
            Stmt::For { variable, iterable, body } => {
                assert(forall|j: int| 0 <= j < body@.len() ==> decreases_to!(*self => #[trigger] body@[j]));
                let b = clone_stmt_list(body, Ghost(*self));
                let r = Stmt::For { variable: variable.clone(), iterable: iterable.deep_clone(), body: b };
                assert(r@->For_body =~= stmts_view(b@));
                assert(self@->For_body =~= stmts_view(body@));
                r
            },
            Stmt::Function { name, params, body } => {
                assert(forall|j: int| 0 <= j < body@.len() ==> decreases_to!(*self => #[trigger] body@[j]));
                let b = clone_stmt_list(body, Ghost(*self));
                let r = Stmt::Function { name: name.clone(), params: clone_names(params), body: b };
                assert(r@->Function_body =~= stmts_view(b@));
                assert(self@->Function_body =~= stmts_view(body@));
                r
            },
            Stmt::Return(e) => Stmt::Return(e.deep_clone()),
            Stmt::Print(e) => Stmt::Print(e.deep_clone()),
            Stmt::Expr(e) => Stmt::Expr(e.deep_clone()),
        }
    }
}

/// Copies a list of statements that stands inside `parent`.
fn clone_stmt_list(v: &Vec<Stmt>, Ghost(parent): Ghost<Stmt>) -> (r: Vec<Stmt>)
    requires
        forall|j: int| 0 <= j < v@.len() ==> decreases_to!(parent => #[trigger] v@[j]),
    ensures
        r@.len() == v@.len(),
        forall|j: int| 0 <= j < v@.len() ==> #[trigger] stmt_view(r@[j]) == stmt_view(v@[j]),
        stmts_view(r@) == stmts_view(v@),
    decreases parent, 0nat,
{
    let mut out: Vec<Stmt> = Vec::new();
    let mut i: usize = 0;
    while i < v.len()
        invariant
            i <= v@.len(),
            out@.len() == i,
            forall|j: int| 0 <= j < v@.len() ==> decreases_to!(parent => #[trigger] v@[j]),
            forall|j: int| 0 <= j < i ==> #[trigger] stmt_view(out@[j]) == stmt_view(v@[j]),
        decreases v@.len() - i,
    {
        let c = v[i].deep_clone();
        out.push(c);
        i = i + 1;
    }
    assert(stmts_view(out@) =~= stmts_view(v@));
    out
}

/// Copies a list of statements.
pub fn clone_stmts(v: &Vec<Stmt>) -> (r: Vec<Stmt>)
    ensures
        stmts_view(r@) == stmts_view(v@),
{
    let mut out: Vec<Stmt> = Vec::new();
    let mut i: usize = 0;
    while i < v.len()
        invariant
            i <= v@.len(),
            out@.len() == i,
            forall|j: int| 0 <= j < i ==> #[trigger] stmt_view(out@[j]) == stmt_view(v@[j]),
        decreases v@.len() - i,
    {
        let c = v[i].deep_clone();
        out.push(c);
        i = i + 1;
    }
    assert(stmts_view(out@) =~= stmts_view(v@));
    out
}

/// Structural equality of expressions, with numbers compared as IEEE values.
pub open spec fn expr_eq(a: ExprView, b: ExprView) -> bool
    decreases a,
{
    match a {
        ExprView::Number(x) => b matches ExprView::Number(y) && spec_num_eq(x, y),
        ExprView::String(x) => b matches ExprView::String(y) && x == y,
        ExprView::Variable(x) => b matches ExprView::Variable(y) && x == y,
        ExprView::Bool(x) => b matches ExprView::Bool(y) && x == y,
        ExprView::Unary { op, expr } => match b {
            ExprView::Unary { op: op2, expr: expr2 } => op == op2 && expr_eq(*expr, *expr2),
            _ => false,
        },
        ExprView::Binary { op, left, right } => match b {
            ExprView::Binary { op: op2, left: left2, right: right2 } => op == op2 && expr_eq(
                *left,
                *left2,
            ) && expr_eq(*right, *right2),
            _ => false,
        },
        ExprView::Call { callee, args } => match b {
            ExprView::Call { callee: callee2, args: args2 } => callee == callee2 && args.len()
                == args2.len() && forall|i: int|
                0 <= i < args.len() ==> expr_eq(#[trigger] args[i], args2[i]),
            _ => false,
        },
        ExprView::List(elems) => match b {
            ExprView::List(elems2) => elems.len() == elems2.len() && forall|i: int|
                0 <= i < elems.len() ==> expr_eq(#[trigger] elems[i], elems2[i]),
            _ => false,
        },
        ExprView::Index { object, index } => match b {
            ExprView::Index { object: object2, index: index2 } => expr_eq(*object, *object2)
                && expr_eq(*index, *index2),
            _ => false,
        },
    }
}

/// Structural equality of statement lists.
pub open spec fn stmts_eq(a: Seq<StmtView>, b: Seq<StmtView>) -> bool
    decreases a, 0nat,
{
    a.len() == b.len() && forall|i: int| 0 <= i < a.len() ==> stmt_eq(#[trigger] a[i], b[i])
}

/// Structural equality of statements, with numbers compared as IEEE values.
pub open spec fn stmt_eq(a: StmtView, b: StmtView) -> bool
    decreases a, 1nat,
{
    match a {
        StmtView::Let { name, value } => match b {
            StmtView::Let { name: name2, value: value2 } => name == name2 && expr_eq(value, value2),
            _ => false,
        },
        StmtView::Assign { name, value } => match b {
            StmtView::Assign { name: name2, value: value2 } => name == name2 && expr_eq(
                value,
                value2,
            ),
            _ => false,
        },
        StmtView::If { condition, body, else_body } => match b {
            StmtView::If { condition: c2, body: b2, else_body: e2 } => expr_eq(condition, c2)
                && stmts_eq(body, b2) && match (else_body, e2) {
                (None, None) => true,
                (Some(x), Some(y)) => stmts_eq(x, y),
                _ => false,
            },
            _ => false,
        },
        StmtView::While { condition, body } => match b {
            StmtView::While { condition: c2, body: b2 } => expr_eq(condition, c2) && stmts_eq(
                body,
                b2,
            ),
            _ => false,
        },
        StmtView::For { variable, iterable, body } => match b {
            StmtView::For { variable: v2, iterable: i2, body: b2 } => variable == v2 && expr_eq(
                iterable,
                i2,
            ) && stmts_eq(body, b2),
            _ => false,
        },
        StmtView::Function { name, params, body } => match b {
            StmtView::Function { name: n2, params: p2, body: b2 } => name == n2 && params == p2
                && stmts_eq(body, b2),
            _ => false,
        },
        StmtView::Return(e) => b matches StmtView::Return(e2) && expr_eq(e, e2),
        StmtView::Print(e) => b matches StmtView::Print(e2) && expr_eq(e, e2),
        StmtView::Expr(e) => b matches StmtView::Expr(e2) && expr_eq(e, e2),
    }
}

/// Structural equality of expressions is symmetric.
pub proof fn lemma_expr_eq_symmetric(a: ExprView, b: ExprView)
    ensures
        expr_eq(a, b) == expr_eq(b, a),
    decreases a,
{
    match (a, b) {
        (ExprView::Number(x), ExprView::Number(y)) => lemma_num_eq_symmetric(x, y),
        (ExprView::Unary { expr, .. }, ExprView::Unary { expr: expr2, .. }) => {
            lemma_expr_eq_symmetric(*expr, *expr2);
        },
        (ExprView::Binary { left, right, .. }, ExprView::Binary { left: left2, right: right2, .. }) => {
            lemma_expr_eq_symmetric(*left, *left2);
            lemma_expr_eq_symmetric(*right, *right2);
        },
        (ExprView::Call { args, .. }, ExprView::Call { args: args2, .. }) => {
            assert forall|i: int| 0 <= i < args.len() && i < args2.len() implies expr_eq(args[i], args2[i])
                == expr_eq(args2[i], args[i]) by {
                assert(decreases_to!(a => args[i]));
                lemma_expr_eq_symmetric(args[i], args2[i]);
            }
        },
        (ExprView::List(elems), ExprView::List(elems2)) => {
            assert forall|i: int| 0 <= i < elems.len() && i < elems2.len() implies expr_eq(elems[i], elems2[i])
                == expr_eq(elems2[i], elems[i]) by {
                assert(decreases_to!(a => elems[i]));
                lemma_expr_eq_symmetric(elems[i], elems2[i]);
            }
        },
        (ExprView::Index { object, index }, ExprView::Index { object: object2, index: index2 }) => {
            lemma_expr_eq_symmetric(*object, *object2);
            lemma_expr_eq_symmetric(*index, *index2);
        },
        _ => {},
    }
}

/// Structural equality of statement lists is symmetric.
pub proof fn lemma_stmts_eq_symmetric(a: Seq<StmtView>, b: Seq<StmtView>)
    ensures
        stmts_eq(a, b) == stmts_eq(b, a),
    decreases a, 0nat,
{
    assert forall|i: int| 0 <= i < a.len() && i < b.len() implies stmt_eq(a[i], b[i]) == stmt_eq(b[i], a[i]) by {
        assert(decreases_to!(a => a[i]));
        lemma_stmt_eq_symmetric(a[i], b[i]);
    }
}

/// Structural equality of statements is symmetric.
pub proof fn lemma_stmt_eq_symmetric(a: StmtView, b: StmtView)
    ensures
        stmt_eq(a, b) == stmt_eq(b, a),
    decreases a, 1nat,
{
    match (a, b) {
        (StmtView::Let { value, .. }, StmtView::Let { value: value2, .. }) => {
            lemma_expr_eq_symmetric(value, value2);
        },
        (StmtView::Assign { value, .. }, StmtView::Assign { value: value2, .. }) => {
            lemma_expr_eq_symmetric(value, value2);
        },
        (StmtView::If { condition, body, else_body }, StmtView::If { condition: c2, body: b2, else_body: e2 }) => {
            lemma_expr_eq_symmetric(condition, c2);
            lemma_stmts_eq_symmetric(body, b2);
            if let (Some(x), Some(y)) = (else_body, e2) {
                lemma_stmts_eq_symmetric(x, y);
            }
        },
        (StmtView::While { condition, body }, StmtView::While { condition: c2, body: b2 }) => {
            lemma_expr_eq_symmetric(condition, c2);
            lemma_stmts_eq_symmetric(body, b2);
        },
        (StmtView::For { iterable, body, .. }, StmtView::For { iterable: i2, body: b2, .. }) => {
            lemma_expr_eq_symmetric(iterable, i2);
            lemma_stmts_eq_symmetric(body, b2);
        },
        (StmtView::Function { body, .. }, StmtView::Function { body: b2, .. }) => {
            lemma_stmts_eq_symmetric(body, b2);
        },
        (StmtView::Return(e), StmtView::Return(e2)) => lemma_expr_eq_symmetric(e, e2),
        (StmtView::Print(e), StmtView::Print(e2)) => lemma_expr_eq_symmetric(e, e2),
        (StmtView::Expr(e), StmtView::Expr(e2)) => lemma_expr_eq_symmetric(e, e2),
        _ => {},
    }
}

impl Expr {
    /// Structural equality, numbers compared as IEEE values.
    pub fn structural_eq(&self, other: &Expr) -> (r: bool)
        ensures
            r == expr_eq(self@, other@),
        decreases self, 1nat,
    {
        match (self, other) {
            (Expr::Number(x), Expr::Number(y)) => num_eq(*x, *y),
            (Expr::String(x), Expr::String(y)) => *x == *y,
            (Expr::Variable(x), Expr::Variable(y)) => *x == *y,
            (Expr::Bool(x), Expr::Bool(y)) => *x == *y,
            (Expr::Unary { op, expr }, Expr::Unary { op: op2, expr: expr2 }) => *op == *op2
                && (**expr).structural_eq(&**expr2),
            (
                Expr::Binary { op, left, right },
                Expr::Binary { op: op2, left: left2, right: right2 },
            ) => *op == *op2 && (**left).structural_eq(&**left2) && (**right).structural_eq(
                &**right2,
            ),
            (Expr::Call { callee, args }, Expr::Call { callee: callee2, args: args2 }) => {
                if *callee != *callee2 {
                    return false;
                }
                assert(forall|j: int| 0 <= j < args@.len() ==> decreases_to!(*self => #[trigger] args@[j]));
                let r = expr_list_eq(args, args2, Ghost(*self));
                assert(self@->Call_args =~= exprs_view(args@));
                assert(other@->Call_args =~= exprs_view(args2@));
                r
            },
            (Expr::List(elems), Expr::List(elems2)) => {
                assert(forall|j: int| 0 <= j < elems@.len() ==> decreases_to!(*self => #[trigger] elems@[j]));
                let r = expr_list_eq(elems, elems2, Ghost(*self));
                assert(self@->List_0 =~= exprs_view(elems@));
                assert(other@->List_0 =~= exprs_view(elems2@));
                r
            },
            (Expr::Index { object, index }, Expr::Index { object: object2, index: index2 }) => (
            **object).structural_eq(&**object2) && (**index).structural_eq(&**index2),
            _ => false,
        }
    }
}

/// Pairwise structural equality of two expression lists inside `parent`.
fn expr_list_eq(x: &Vec<Expr>, y: &Vec<Expr>, Ghost(parent): Ghost<Expr>) -> (r: bool)
    requires
        forall|j: int| 0 <= j < x@.len() ==> decreases_to!(parent => #[trigger] x@[j]),
    ensures
        r == (x@.len() == y@.len() && forall|i: int|
            0 <= i < x@.len() ==> expr_eq(#[trigger] exprs_view(x@)[i], exprs_view(y@)[i])),
    decreases parent, 0nat,
{
    if x.len() != y.len() {
        return false;
    }
    let mut i: usize = 0;
    while i < x.len()
        invariant
            i <= x@.len(),
            x@.len() == y@.len(),
            forall|j: int| 0 <= j < x@.len() ==> decreases_to!(parent => #[trigger] x@[j]),
            forall|j: int| 0 <= j < i ==> expr_eq(#[trigger] exprs_view(x@)[j], exprs_view(y@)[j]),
        decreases x@.len() - i,
    {
        if !x[i].structural_eq(&y[i]) {
            assert(!expr_eq(exprs_view(x@)[i as int], exprs_view(y@)[i as int]));
            return false;
        }
        i = i + 1;
    }
    true
}

impl Stmt {
    /// Structural equality, numbers compared as IEEE values.
    pub fn structural_eq(&self, other: &Stmt) -> (r: bool)
        ensures
            r == stmt_eq(self@, other@),
        decreases self, 1nat,
    {
        match (self, other) {
            (Stmt::Let { name, value }, Stmt::Let { name: name2, value: value2 }) => *name == *name2
                && value.structural_eq(value2),
            (Stmt::Assign { name, value }, Stmt::Assign { name: name2, value: value2 }) => *name
                == *name2 && value.structural_eq(value2),
            (
                Stmt::If { condition, body, else_body },
                Stmt::If { condition: c2, body: b2, else_body: e2 },
            ) => {
                if !condition.structural_eq(c2) {
                    return false;
                }
                assert(forall|j: int| 0 <= j < body@.len() ==> decreases_to!(*self => #[trigger] body@[j]));
                assert(self@->If_body =~= stmts_view(body@));
                assert(other@->If_body =~= stmts_view(b2@));
                if !stmt_list_eq(body, b2, Ghost(*self)) {
                    return false;
                }
                match (else_body, e2) {
                    (None, None) => true,
                    (Some(x), Some(y)) => {
                        assert(forall|j: int| 0 <= j < x@.len() ==> decreases_to!(*self => #[trigger] x@[j]));
                        assert(self@->If_else_body.unwrap() =~= stmts_view(x@));
                        assert(other@->If_else_body.unwrap() =~= stmts_view(y@));
                        stmt_list_eq(x, y, Ghost(*self))
                    },
                    _ => false,
                }
            },
            (Stmt::While { condition, body }, Stmt::While { condition: c2, body: b2 }) => {
                if !condition.structural_eq(c2) {
                    return false;
                }
                assert(forall|j: int| 0 <= j < body@.len() ==> decreases_to!(*self => #[trigger] body@[j]));
                assert(self@->While_body =~= stmts_view(body@));
                assert(other@->While_body =~= stmts_view(b2@));
                stmt_list_eq(body, b2, Ghost(*self))
            },
            (
                Stmt::For { variable, iterable, body },
                Stmt::For { variable: v2, iterable: i2, body: b2 },
            ) => {
                if *variable != *v2 || !iterable.structural_eq(i2) {
                    return false;
                }
                assert(forall|j: int| 0 <= j < body@.len() ==> decreases_to!(*self => #[trigger] body@[j]));
                assert(self@->For_body =~= stmts_view(body@));
                assert(other@->For_body =~= stmts_view(b2@));
                stmt_list_eq(body, b2, Ghost(*self))
            },
            (
                Stmt::Function { name, params, body },
                Stmt::Function { name: n2, params: p2, body: b2 },
            ) => {
                if *name != *n2 || !names_eq(params, p2) {
                    return false;
                }
                assert(forall|j: int| 0 <= j < body@.len() ==> decreases_to!(*self => #[trigger] body@[j]));
                assert(self@->Function_body =~= stmts_view(body@));
                assert(other@->Function_body =~= stmts_view(b2@));
                stmt_list_eq(body, b2, Ghost(*self))
            },
            (Stmt::Return(e), Stmt::Return(e2)) => e.structural_eq(e2),
            (Stmt::Print(e), Stmt::Print(e2)) => e.structural_eq(e2),
            (Stmt::Expr(e), Stmt::Expr(e2)) => e.structural_eq(e2),
            _ => false,
        }
    }
}

/// Pairwise structural equality of two statement lists inside `parent`.
fn stmt_list_eq(x: &Vec<Stmt>, y: &Vec<Stmt>, Ghost(parent): Ghost<Stmt>) -> (r: bool)
    requires
        forall|j: int| 0 <= j < x@.len() ==> decreases_to!(parent => #[trigger] x@[j]),
    ensures
        r == stmts_eq(stmts_view(x@), stmts_view(y@)),
    decreases parent, 0nat,
{
    if x.len() != y.len() {
        return false;
    }
    let mut i: usize = 0;
    while i < x.len()
        invariant
            i <= x@.len(),
            x@.len() == y@.len(),
            forall|j: int| 0 <= j < x@.len() ==> decreases_to!(parent => #[trigger] x@[j]),
            forall|j: int| 0 <= j < i ==> stmt_eq(#[trigger] stmts_view(x@)[j], stmts_view(y@)[j]),
        decreases x@.len() - i,
    {
        if !x[i].structural_eq(&y[i]) {
            assert(!stmt_eq(stmts_view(x@)[i as int], stmts_view(y@)[i as int]));
            return false;
        }
        i = i + 1;
    }
    true
}

/// Structural equality of statement lists.
pub fn stmts_structural_eq(x: &Vec<Stmt>, y: &Vec<Stmt>) -> (r: bool)
    ensures
        r == stmts_eq(stmts_view(x@), stmts_view(y@)),
{
    if x.len() != y.len() {
        return false;
    }
    let mut i: usize = 0;
    while i < x.len()
        invariant
            i <= x@.len(),
            x@.len() == y@.len(),
            forall|j: int| 0 <= j < i ==> stmt_eq(#[trigger] stmts_view(x@)[j], stmts_view(y@)[j]),
        decreases x@.len() - i,
    {
        if !x[i].structural_eq(&y[i]) {
            assert(!stmt_eq(stmts_view(x@)[i as int], stmts_view(y@)[i as int]));
            return false;
        }
        i = i + 1;
    }
    true
}

/// Equality of two lists of names.
pub fn names_eq(x: &Vec<String>, y: &Vec<String>) -> (r: bool)
    ensures
        r == (names_view(x@) == names_view(y@)),
{
    if x.len() != y.len() {
        assert(names_view(x@).len() != names_view(y@).len());
        return false;
    }
    let mut i: usize = 0;
    while i < x.len()
        invariant
            i <= x@.len(),
            x@.len() == y@.len(),
            forall|j: int| 0 <= j < i ==> #[trigger] x@[j]@ == y@[j]@,
        decreases x@.len() - i,
    {
        if x[i] != y[i] {
            assert(names_view(x@)[i as int] != names_view(y@)[i as int]);
            return false;
        }
        i = i + 1;
    }
    assert(names_view(x@) =~= names_view(y@));
    true
}

} // verus!
