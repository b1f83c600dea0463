//! The interpreter, as a machine that a driver runs step by step.
//!
//! The machine decides everything a run decides. What it cannot do itself
//! it asks its driver for, through the action a step returns: to compute
//! the sum, difference, product or quotient of two numbers, to convert a
//! number into a list index, and to print a value. The driver answers with
//! the event it passes to the next step.
use vstd::prelude::*;
use crate::ast::{BinaryOp, Expr, ExprView, Program, Stmt, StmtView, UnaryOp, clone_names, clone_stmts, exprs_view, names_view, stmts_view};
use crate::number::{ZERO_BITS, bool_number, neg, num_le, num_lt, spec_bool_number, spec_neg, spec_num_le, spec_num_lt};
use crate::table::Table;
use crate::value::{RuntimeError, RuntimeErrorView, Value, ValueView, spec_truthy, value_eq, values_view};

verus! {

/// How a block of statements ended: by running off its end, or by a
/// `return` statement among its own statements.
#[derive(Debug)]
pub enum Completion {
    Normal(Value),
    Return(Value),
}

/// The model of a completion.
pub enum CompletionView {
    Normal(ValueView),
    Return(ValueView),
}

impl CompletionView {
    /// The value the block ended with.
    pub open spec fn value(self) -> ValueView {
        match self {
            CompletionView::Normal(v) => v,
            CompletionView::Return(v) => v,
        }
    }
}

impl View for Completion {
    type V = CompletionView;

    open spec fn view(&self) -> CompletionView {
        match self {
            Completion::Normal(v) => CompletionView::Normal(v@),
            Completion::Return(v) => CompletionView::Return(v@),
        }
    }
}

/// What remains to be done once the value being computed is known.
pub enum Frame {
    /// Evaluating the elements of a list literal; `done` holds the values so far.
    ListElems { elems: Vec<Expr>, done: Vec<Value> },
    /// The object of an index expression is being evaluated.
    IndexObject { index: Expr },
    /// The index of an index expression is being evaluated.
    IndexValue { object: Value },
    /// The operand of a prefix operator is being evaluated.
    Unary { op: UnaryOp },
    /// The left operand of an infix operator is being evaluated.
    BinaryLeft { op: BinaryOp, right: Expr },
    /// The right operand of an infix operator is being evaluated.
    BinaryRight { op: BinaryOp, left: Value },
    /// Argument `next` of a call is being evaluated; `env` is the callee's environment so far.
    CallArgs { params: Vec<String>, body: Vec<Stmt>, args: Vec<Expr>, env: Table<Value>, next: usize },
    /// A function body is running; `saved` is the caller's environment.
    CallReturn { saved: Table<Value> },
    /// Statement `next - 1` of a block is running.
    Block { stmts: Vec<Stmt>, next: usize },
    /// The expression of a `return` statement is being evaluated.
    BlockReturn,
    /// The value of a `let` statement is being evaluated.
    Let { name: String },
    /// The value of an assignment is being evaluated.
    Assign { name: String },
    /// The value of a `print` statement is being evaluated.
    Print,
    /// The condition of an `if` statement is being evaluated.
    IfCond { body: Vec<Stmt>, else_body: Option<Vec<Stmt>> },
    /// A branch of an `if` statement is running.
    IfBody,
    /// The condition of a `while` loop is being evaluated; `last` is the loop's value so far.
    WhileCond { condition: Expr, body: Vec<Stmt>, last: Value },
    /// The body of a `while` loop is running.
    WhileBody { condition: Expr, body: Vec<Stmt> },
    /// The list of a `for` loop is being evaluated.
    ForIterable { variable: String, body: Vec<Stmt> },
    /// The body of a `for` loop is running for element `next - 1`.
    ForBody { variable: String, body: Vec<Stmt>, values: Vec<Value>, next: usize },
}

/// The model of a frame.
pub enum FrameView {
    ListElems { elems: Seq<ExprView>, done: Seq<ValueView> },
    IndexObject { index: ExprView },
    IndexValue { object: ValueView },
    Unary { op: UnaryOp },
    BinaryLeft { op: BinaryOp, right: ExprView },
    BinaryRight { op: BinaryOp, left: ValueView },
    CallArgs {
        params: Seq<Seq<char>>,
        body: Seq<StmtView>,
        args: Seq<ExprView>,
        env: Map<Seq<char>, ValueView>,
        next: nat,
    },
    CallReturn { saved: Map<Seq<char>, ValueView> },
    Block { stmts: Seq<StmtView>, next: nat },
    BlockReturn,
    Let { name: Seq<char> },
    Assign { name: Seq<char> },
    Print,
    IfCond { body: Seq<StmtView>, else_body: Option<Seq<StmtView>> },
    IfBody,
    WhileCond { condition: ExprView, body: Seq<StmtView>, last: ValueView },
    WhileBody { condition: ExprView, body: Seq<StmtView> },
    ForIterable { variable: Seq<char>, body: Seq<StmtView> },
    ForBody { variable: Seq<char>, body: Seq<StmtView>, values: Seq<ValueView>, next: nat },
}

impl View for Frame {
    type V = FrameView;

    open spec fn view(&self) -> FrameView {
        match self {
            Frame::ListElems { elems, done } => FrameView::ListElems {
                elems: exprs_view(elems@),
                done: values_view(done@),
            },
            Frame::IndexObject { index } => FrameView::IndexObject { index: index@ },
            Frame::IndexValue { object } => FrameView::IndexValue { object: object@ },
            Frame::Unary { op } => FrameView::Unary { op: *op },
            Frame::BinaryLeft { op, right } => FrameView::BinaryLeft { op: *op, right: right@ },
            Frame::BinaryRight { op, left } => FrameView::BinaryRight { op: *op, left: left@ },
            Frame::CallArgs { params, body, args, env, next } => FrameView::CallArgs {
                params: names_view(params@),
                body: stmts_view(body@),
                args: exprs_view(args@),
                env: env@,
                next: *next as nat,
            },
            Frame::CallReturn { saved } => FrameView::CallReturn { saved: saved@ },
            Frame::Block { stmts, next } => FrameView::Block {
                stmts: stmts_view(stmts@),
                next: *next as nat,
            },
            Frame::BlockReturn => FrameView::BlockReturn,
            Frame::Let { name } => FrameView::Let { name: name@ },
            Frame::Assign { name } => FrameView::Assign { name: name@ },
            Frame::Print => FrameView::Print,
            Frame::IfCond { body, else_body } => FrameView::IfCond {
                body: stmts_view(body@),
                else_body: match else_body {
                    Some(e) => Some(stmts_view(e@)),
                    None => None,
                },
            },
            Frame::IfBody => FrameView::IfBody,
            Frame::WhileCond { condition, body, last } => FrameView::WhileCond {
                condition: condition@,
                body: stmts_view(body@),
                last: last@,
            },
            Frame::WhileBody { condition, body } => FrameView::WhileBody {
                condition: condition@,
                body: stmts_view(body@),
            },
            Frame::ForIterable { variable, body } => FrameView::ForIterable {
                variable: variable@,
                body: stmts_view(body@),
            },
            Frame::ForBody { variable, body, values, next } => FrameView::ForBody {
                variable: variable@,
                body: stmts_view(body@),
                values: values_view(values@),
                next: *next as nat,
            },
        }
    }
}

/// What the machine does next.
pub enum Control {
    /// No program is loaded.
    Idle,
    /// Evaluate an expression.
    Eval(Expr),
    /// Execute a statement that is not a `return`.
    Exec(Stmt),
    /// Run a block of statements.
    Block(Vec<Stmt>),
    /// Hand a completion to the innermost frame.
    Deliver(Completion),
    /// Wait for the driver to compute `left op right`.
    AwaitArith { op: BinaryOp, left: u64, right: u64 },
    /// Wait for the driver to convert the number `index` into an index of `object`.
    AwaitIndex { object: Value, index: u64 },
    /// The run has ended with this outcome.
    Done(Result<Value, RuntimeError>),
}

/// The model of the machine's next task.
pub enum ControlView {
    Idle,
    Eval(ExprView),
    Exec(StmtView),
    Block(Seq<StmtView>),
    Deliver(CompletionView),
    AwaitArith { op: BinaryOp, left: u64, right: u64 },
    AwaitIndex { object: ValueView, index: u64 },
    Done(Result<ValueView, RuntimeErrorView>),
}

impl View for Control {
    type V = ControlView;

    open spec fn view(&self) -> ControlView {
        match self {
            Control::Idle => ControlView::Idle,
            Control::Eval(e) => ControlView::Eval(e@),
            Control::Exec(s) => ControlView::Exec(s@),
            Control::Block(b) => ControlView::Block(stmts_view(b@)),
            Control::Deliver(c) => ControlView::Deliver(c@),
            Control::AwaitArith { op, left, right } => ControlView::AwaitArith {
                op: *op,
                left: *left,
                right: *right,
            },
            Control::AwaitIndex { object, index } => ControlView::AwaitIndex {
                object: object@,
                index: *index,
            },
            Control::Done(r) => ControlView::Done(
                match r {
                    Ok(v) => Ok(v@),
                    Err(e) => Err(e@),
                },
            ),
        }
    }
}

/// What a step asks of the driver.
#[derive(Debug)]
pub enum Action {
    /// Nothing: call `step` again with `Event::Continue`.
    Continue,
    /// Compute `left op right` (`op` is `Add`, `Subtract`, `Multiply` or
    /// `Divide`) on the two binary64 values and answer with `Event::Number`.
    Arith { op: BinaryOp, left: u64, right: u64 },
    /// Convert the binary64 value into a `usize` as Rust's `as` does and
    /// answer with `Event::Index`.
    ToIndex(u64),
    /// Print the value on a line of its own, then continue.
    Print(Value),
    /// The run has ended with this outcome.
    Done(Result<Value, RuntimeError>),
    /// No program is loaded.
    Idle,
}

/// The model of an action.
pub enum ActionView {
    Continue,
    Arith { op: BinaryOp, left: u64, right: u64 },
    ToIndex(u64),
    Print(ValueView),
    Done(Result<ValueView, RuntimeErrorView>),
    Idle,
}

impl View for Action {
    type V = ActionView;

    open spec fn view(&self) -> ActionView {
        match self {
            Action::Continue => ActionView::Continue,
            Action::Arith { op, left, right } => ActionView::Arith {
                op: *op,
                left: *left,
                right: *right,
            },
            Action::ToIndex(b) => ActionView::ToIndex(*b),
            Action::Print(v) => ActionView::Print(v@),
            Action::Done(r) => ActionView::Done(
                match r {
                    Ok(v) => Ok(v@),
                    Err(e) => Err(e@),
                },
            ),
            Action::Idle => ActionView::Idle,
        }
    }
}

/// The driver's answer to the previous action.
#[derive(Debug, Clone, Copy, PartialEq, Eq, Structural)]
pub enum Event {
    /// No answer is carried.
    Continue,
    /// The binary64 result of an arithmetic request.
    Number(u64),
    /// The index that a number converts to.
    Index(usize),
}

/// The model of the whole machine: the current environment, the frames
/// from outermost to innermost, and the next task.
pub struct InterpreterView {
    pub env: Map<Seq<char>, ValueView>,
    pub stack: Seq<FrameView>,
    pub control: ControlView,
}

pub type Env = Map<Seq<char>, ValueView>;

pub type StepResult = (InterpreterView, ActionView);

/// Continue with the given environment, frames and task.
pub open spec fn go(env: Env, stack: Seq<FrameView>, control: ControlView) -> StepResult {
    (InterpreterView { env, stack, control }, ActionView::Continue)
}

/// Hand a value to the innermost frame as a normal completion.
pub open spec fn give(env: Env, stack: Seq<FrameView>, v: ValueView) -> StepResult {
    go(env, stack, ControlView::Deliver(CompletionView::Normal(v)))
}

/// The environment in force once every call pending among `stack` has
/// been abandoned, when `env` is in force now: the one the outermost
/// pending call saved, or `env` itself when no call is pending.
pub open spec fn outer_env(stack: Seq<FrameView>, env: Env) -> Env
    decreases stack.len(),
{
    if stack.len() == 0 {
        env
    } else {
        match stack.last() {
            FrameView::CallReturn { saved } => outer_env(stack.drop_last(), saved),
            _ => outer_env(stack.drop_last(), env),
        }
    }
}

/// End the run with an error. The error leaves every pending call, so the
/// environment goes back to the one of the code outside all of them.
pub open spec fn fail(env: Env, stack: Seq<FrameView>, e: RuntimeErrorView) -> StepResult {
    (
        InterpreterView { env: outer_env(stack, env), stack, control: ControlView::Done(Err(e)) },
        ActionView::Done(Err(e)),
    )
}

/// With no call frame in `stack`, no call is pending.
pub proof fn lemma_outer_env_no_call(stack: Seq<FrameView>, env: Env)
    requires
        forall|j: int| 0 <= j < stack.len() ==> !(#[trigger] stack[j] is CallReturn),
    ensures
        outer_env(stack, env) == env,
    decreases stack.len(),
{
    if stack.len() > 0 {
        assert(!(stack[stack.len() - 1] is CallReturn));
        lemma_outer_env_no_call(stack.drop_last(), env);
    }
}

/// The outermost pending call is the lowest call frame.
pub proof fn lemma_outer_env_lowest_call(stack: Seq<FrameView>, k: int, env: Env)
    requires
        0 <= k < stack.len(),
        stack[k] is CallReturn,
        forall|j: int| 0 <= j < k ==> !(#[trigger] stack[j] is CallReturn),
    ensures
        outer_env(stack, env) == stack[k]->saved,
    decreases stack.len(),
{
    if k == stack.len() - 1 {
        lemma_outer_env_no_call(stack.drop_last(), stack[k]->saved);
    } else {
        let next = match stack.last() {
            FrameView::CallReturn { saved } => saved,
            _ => env,
        };
        lemma_outer_env_lowest_call(stack.drop_last(), k, next);
    }
}

/// The value of an `if` without a taken branch, of an empty block, of a
/// function definition and of a loop that never ran: the number zero.
pub open spec fn zero() -> ValueView {
    ValueView::Number(ZERO_BITS)
}

/// Start statement `i` of a block: a `return` ends the block with its
/// value; any other statement runs with the rest of the block waiting.
pub open spec fn start_stmt(env: Env, stack: Seq<FrameView>, stmts: Seq<StmtView>, i: int) -> StepResult {
    match stmts[i] {
        StmtView::Return(e) => go(env, stack.push(FrameView::BlockReturn), ControlView::Eval(e)),
        s => go(
            env,
            stack.push(FrameView::Block { stmts, next: (i + 1) as nat }),
            ControlView::Exec(s),
        ),
    }
}

/// One step of evaluating an expression.
pub open spec fn step_eval(env: Env, stack: Seq<FrameView>, e: ExprView) -> StepResult {
    match e {
        ExprView::Number(n) => give(env, stack, ValueView::Number(n)),
        ExprView::String(s) => give(env, stack, ValueView::String(s)),
        ExprView::Bool(b) => give(env, stack, ValueView::Bool(b)),
        ExprView::Variable(name) => if env.contains_key(name) {
            give(env, stack, env[name])
        } else {
            fail(env, stack, RuntimeErrorView::UndefinedVariable(name))
        },
        ExprView::List(elems) => if elems.len() == 0 {
            give(env, stack, ValueView::List(Seq::empty()))
        } else {
            go(
                env,
                stack.push(FrameView::ListElems { elems, done: Seq::empty() }),
                ControlView::Eval(elems[0]),
            )
        },
        ExprView::Index { object, index } => go(
            env,
            stack.push(FrameView::IndexObject { index: *index }),
            ControlView::Eval(*object),
        ),
        ExprView::Unary { op, expr } => go(
            env,
            stack.push(FrameView::Unary { op }),
            ControlView::Eval(*expr),
        ),
        ExprView::Binary { op, left, right } => go(
            env,
            stack.push(FrameView::BinaryLeft { op, right: *right }),
            ControlView::Eval(*left),
        ),
        ExprView::Call { callee, args } => if !env.contains_key(callee) {
            fail(env, stack, RuntimeErrorView::UndefinedFunction(callee))
        } else {
            match env[callee] {
                ValueView::Function { params, body } => if params.len() != args.len() {
                    fail(
                        env,
                        stack,
                        RuntimeErrorView::ArityMismatch {
                            expected: params.len() as usize,
                            got: args.len() as usize,
                        },
                    )
                } else if args.len() == 0 {
                    go(env, stack.push(FrameView::CallReturn { saved: env }), ControlView::Block(body))
                } else {
                    go(
                        env,
                        stack.push(FrameView::CallArgs { params, body, args, env, next: 0 }),
                        ControlView::Eval(args[0]),
                    )
                },
                _ => fail(env, stack, RuntimeErrorView::NotAFunction(callee)),
            }
        },
    }
}

/// One step of executing a statement (never a `return`, which blocks handle).
pub open spec fn step_exec(env: Env, stack: Seq<FrameView>, s: StmtView) -> StepResult {
    match s {
        StmtView::Let { name, value } => go(env, stack.push(FrameView::Let { name }), ControlView::Eval(value)),
        StmtView::Assign { name, value } => go(
            env,
            stack.push(FrameView::Assign { name }),
            ControlView::Eval(value),
        ),
        StmtView::Function { name, params, body } => give(
            env.insert(name, ValueView::Function { params, body }),
            stack,
            zero(),
        ),
        StmtView::Return(e) => go(env, stack, ControlView::Eval(e)),
        StmtView::Print(e) => go(env, stack.push(FrameView::Print), ControlView::Eval(e)),
        StmtView::If { condition, body, else_body } => go(
            env,
            stack.push(FrameView::IfCond { body, else_body }),
            ControlView::Eval(condition),
        ),
        StmtView::While { condition, body } => go(
            env,
            stack.push(FrameView::WhileCond { condition, body, last: zero() }),
            ControlView::Eval(condition),
        ),
        StmtView::For { variable, iterable, body } => go(
            env,
            stack.push(FrameView::ForIterable { variable, body }),
            ControlView::Eval(iterable),
        ),
        StmtView::Expr(e) => go(env, stack, ControlView::Eval(e)),
    }
}

/// One step of starting a block.
pub open spec fn step_block(env: Env, stack: Seq<FrameView>, stmts: Seq<StmtView>) -> StepResult {
    if stmts.len() == 0 {
        give(env, stack, zero())
    } else {
        start_stmt(env, stack, stmts, 0)
    }
}

/// The right operand of an infix operator has been computed.
pub open spec fn step_binary(env: Env, stack: Seq<FrameView>, op: BinaryOp, l: ValueView, r: ValueView) -> StepResult {
    match op {
        BinaryOp::Add => match (l, r) {
            (ValueView::Number(a), ValueView::Number(b)) => (
                InterpreterView {
                    env,
                    stack,
                    control: ControlView::AwaitArith { op, left: a, right: b },
                },
                ActionView::Arith { op, left: a, right: b },
            ),
            (ValueView::List(xs), ValueView::List(ys)) => give(env, stack, ValueView::List(xs + ys)),
            _ => fail(env, stack, RuntimeErrorView::AdditionOperands),
        },
        BinaryOp::Equal => give(env, stack, ValueView::Number(spec_bool_number(value_eq(l, r)))),
        BinaryOp::NotEqual => give(env, stack, ValueView::Number(spec_bool_number(!value_eq(l, r)))),
        _ => match (l, r) {
            (ValueView::Number(a), ValueView::Number(b)) => match op {
                BinaryOp::Greater => give(env, stack, ValueView::Number(spec_bool_number(spec_num_lt(b, a)))),
                BinaryOp::GreaterEqual => give(env, stack, ValueView::Number(spec_bool_number(spec_num_le(b, a)))),
                BinaryOp::Less => give(env, stack, ValueView::Number(spec_bool_number(spec_num_lt(a, b)))),
                BinaryOp::LessEqual => give(env, stack, ValueView::Number(spec_bool_number(spec_num_le(a, b)))),
                _ => (
                    InterpreterView {
                        env,
                        stack,
                        control: ControlView::AwaitArith { op, left: a, right: b },
                    },
                    ActionView::Arith { op, left: a, right: b },
                ),
            },
            _ => fail(env, stack, RuntimeErrorView::ExpectedNumber),
        },
    }
}

/// The innermost frame receives completion `c`; `stack` holds the frames around it.
pub open spec fn step_deliver(env: Env, stack: Seq<FrameView>, frame: FrameView, c: CompletionView) -> StepResult {
    let v = c.value();
    match frame {
        FrameView::ListElems { elems, done } => {
            let done2 = done.push(v);
            if done2.len() < elems.len() {
                go(
                    env,
                    stack.push(FrameView::ListElems { elems, done: done2 }),
                    ControlView::Eval(elems[done2.len() as int]),
                )
            } else {
                give(env, stack, ValueView::List(done2))
            }
        },
        FrameView::IndexObject { index } => go(
            env,
            stack.push(FrameView::IndexValue { object: v }),
            ControlView::Eval(index),
        ),
        FrameView::IndexValue { object } => match v {
            ValueView::Number(b) => (
                InterpreterView { env, stack, control: ControlView::AwaitIndex { object, index: b } },
                ActionView::ToIndex(b),
            ),
            _ => fail(env, stack, RuntimeErrorView::ExpectedNumber),
        },
        FrameView::Unary { op } => match v {
            ValueView::Number(b) => match op {
                UnaryOp::Negate => give(env, stack, ValueView::Number(spec_neg(b))),
                UnaryOp::Plus => give(env, stack, ValueView::Number(b)),
            },
            _ => fail(env, stack, RuntimeErrorView::ExpectedNumber),
        },
        FrameView::BinaryLeft { op, right } => go(
            env,
            stack.push(FrameView::BinaryRight { op, left: v }),
            ControlView::Eval(right),
        ),
        FrameView::BinaryRight { op, left } => step_binary(env, stack, op, left, v),
        FrameView::CallArgs { params, body, args, env: call_env, next } => {
            let call_env2 = call_env.insert(params[next as int], v);
            if next + 1 < args.len() {
                go(
                    env,
                    stack.push(FrameView::CallArgs { params, body, args, env: call_env2, next: next + 1 }),
                    ControlView::Eval(args[(next + 1) as int]),
                )
            } else {
                go(call_env2, stack.push(FrameView::CallReturn { saved: env }), ControlView::Block(body))
            }
        },
        FrameView::CallReturn { saved } => give(saved, stack, v),
        FrameView::Block { stmts, next } => if next < stmts.len() {
            start_stmt(env, stack, stmts, next as int)
        } else {
            give(env, stack, v)
        },
        FrameView::BlockReturn => go(env, stack, ControlView::Deliver(CompletionView::Return(v))),
        FrameView::Let { name } => give(env.insert(name, v), stack, v),
        FrameView::Assign { name } => if env.contains_key(name) {
            give(env.insert(name, v), stack, v)
        } else {
            fail(env, stack, RuntimeErrorView::UndefinedVariable(name))
        },
        FrameView::Print => (
            InterpreterView { env, stack, control: ControlView::Deliver(CompletionView::Normal(v)) },
            ActionView::Print(v),
        ),
        FrameView::IfCond { body, else_body } => if spec_truthy(v) {
            go(env, stack.push(FrameView::IfBody), ControlView::Block(body))
        } else {
            match else_body {
                Some(eb) => go(env, stack.push(FrameView::IfBody), ControlView::Block(eb)),
                None => give(env, stack, zero()),
            }
        },
        FrameView::IfBody => give(env, stack, v),
        FrameView::WhileCond { condition, body, last } => if spec_truthy(v) {
            go(env, stack.push(FrameView::WhileBody { condition, body }), ControlView::Block(body))
        } else {
            give(env, stack, last)
        },
        FrameView::WhileBody { condition, body } => match c {
            CompletionView::Return(r) => give(env, stack, r),
            CompletionView::Normal(r) => go(
                env,
                stack.push(FrameView::WhileCond { condition, body, last: r }),
                ControlView::Eval(condition),
            ),
        },
        FrameView::ForIterable { variable, body } => match v {
            ValueView::List(values) => if values.len() == 0 {
                give(env, stack, zero())
            } else {
                go(
                    env.insert(variable, values[0]),
                    stack.push(FrameView::ForBody { variable, body, values, next: 1 }),
                    ControlView::Block(body),
                )
            },
            _ => fail(env, stack, RuntimeErrorView::CanOnlyIterateLists),
        },
        FrameView::ForBody { variable, body, values, next } => match c {
            CompletionView::Return(r) => give(env, stack, r),
            CompletionView::Normal(r) => if next < values.len() {
                go(
                    env.insert(variable, values[next as int]),
                    stack.push(FrameView::ForBody { variable, body, values, next: next + 1 }),
                    ControlView::Block(body),
                )
            } else {
                give(env, stack, r)
            },
        },
    }
}

/// One step of the machine on the driver's answer `ev`.
pub open spec fn spec_step(m: InterpreterView, ev: Event) -> StepResult {
    let env = m.env;
    let stack = m.stack;
    match m.control {
        ControlView::Idle => (m, ActionView::Idle),
        ControlView::Done(r) => (m, ActionView::Done(r)),
        ControlView::AwaitArith { op, left, right } => match ev {
            Event::Number(x) => give(env, stack, ValueView::Number(x)),
            _ => (m, ActionView::Arith { op, left, right }),
        },
        ControlView::AwaitIndex { object, index } => match ev {
            Event::Index(n) => match object {
                ValueView::List(vs) => if (n as int) < vs.len() {
                    give(env, stack, vs[n as int])
                } else {
                    fail(env, stack, RuntimeErrorView::IndexOutOfBounds(n))
                },
                _ => fail(env, stack, RuntimeErrorView::CanOnlyIndexLists),
            },
            _ => (m, ActionView::ToIndex(index)),
        },
        ControlView::Eval(e) => step_eval(env, stack, e),
        ControlView::Exec(s) => step_exec(env, stack, s),
        ControlView::Block(stmts) => step_block(env, stack, stmts),
        ControlView::Deliver(c) => if stack.len() == 0 {
            (
                InterpreterView { env, stack, control: ControlView::Done(Ok(c.value())) },
                ActionView::Done(Ok(c.value())),
            )
        } else {
            step_deliver(env, stack.drop_last(), stack.last(), c)
        },
    }
}

/// A finished run stays finished: whatever the driver answers, the machine
/// keeps its state and reports the same outcome again.
pub proof fn lemma_finished_run_stays_finished(m: InterpreterView, ev: Event)
    requires
        m.control is Done,
    ensures
        spec_step(m, ev) == (m, ActionView::Done(m.control->Done_0)),
{
}

/// A machine waiting for an answer that gets an answer of another kind
/// keeps its state and asks again.
pub proof fn lemma_wrong_answer_asks_again(m: InterpreterView, ev: Event)
    ensures
        m.control matches ControlView::AwaitArith { op, left, right } ==> (!(ev is Number) ==> spec_step(
            m,
            ev,
        ) == (m, ActionView::Arith { op, left, right })),
        m.control matches ControlView::AwaitIndex { index, .. } ==> (!(ev is Index) ==> spec_step(m, ev) == (
        m, ActionView::ToIndex(index))),
{
}

/// A step that ends the run with an error abandons every pending call:
/// afterwards the environment is the one the outermost pending call saved,
/// or the one in force when no call is pending. No binding a called
/// function made survives the error, and at the top level, with no call
/// pending, nothing is undone: every binding made before the error stays.
pub proof fn lemma_error_restores_outer_environment(m: InterpreterView, ev: Event)
    requires
        !(m.control is Done),
    ensures
        spec_step(m, ev).0.control matches ControlView::Done(Err(_)) ==> spec_step(m, ev).0.env == outer_env(
            m.stack,
            m.env,
        ),
        spec_step(m, ev).0.control matches ControlView::Done(Err(_)) && (forall|j: int|
            0 <= j < m.stack.len() ==> !(#[trigger] m.stack[j] is CallReturn)) ==> spec_step(m, ev).0.env == m.env,
{
    if m.stack.len() > 0 && !(m.stack.last() is CallReturn) {
        assert(outer_env(m.stack, m.env) == outer_env(m.stack.drop_last(), m.env));
    }
    if forall|j: int| 0 <= j < m.stack.len() ==> !(#[trigger] m.stack[j] is CallReturn) {
        lemma_outer_env_no_call(m.stack, m.env);
    }
}

/// When the body of a called function completes, by a `return` or by
/// running off its end, the caller's environment is back in place and the
/// call's value is the body's value.
pub proof fn lemma_call_restores_environment(
    env: Env,
    stack: Seq<FrameView>,
    saved: Env,
    c: CompletionView,
    ev: Event,
)
    ensures
        spec_step(
            InterpreterView {
                env,
                stack: stack.push(FrameView::CallReturn { saved }),
                control: ControlView::Deliver(c),
            },
            ev,
        ) == give(saved, stack, c.value()),
{
    assert(stack.push(FrameView::CallReturn { saved }).drop_last() =~= stack);
}

/// A `let` whose value has been computed binds the name to the value, and
/// the statement's value is that value.
pub proof fn lemma_let_binds(env: Env, stack: Seq<FrameView>, name: Seq<char>, c: CompletionView, ev: Event)
    ensures
        spec_step(
            InterpreterView {
                env,
                stack: stack.push(FrameView::Let { name }),
                control: ControlView::Deliver(c),
            },
            ev,
        ) == give(env.insert(name, c.value()), stack, c.value()),
{
    assert(stack.push(FrameView::Let { name }).drop_last() =~= stack);
}

/// The interpreter: an environment of variables, the frames of the work in
/// progress, and the next task.
pub struct Interpreter {
    env: Table<Value>,
    stack: Vec<Frame>,
    control: Control,
}

/// The model of a list of frames.
pub open spec fn frames_view(s: Seq<Frame>) -> Seq<FrameView> {
    Seq::new(s.len(), |i: int| s[i]@)
}

/// A frame's own invariant: its environments are well formed, and a call
/// frame evaluates an argument that exists, with a parameter for each one.
pub open spec fn frame_wf(f: Frame) -> bool {
    match f {
        Frame::CallArgs { params, args, env, next, .. } => env.wf() && params@.len() == args@.len()
            && next < args@.len(),
        Frame::CallReturn { saved } => saved.wf(),
        _ => true,
    }
}

impl View for Interpreter {
    type V = InterpreterView;

    closed spec fn view(&self) -> InterpreterView {
        InterpreterView {
            env: self.env@,
            stack: frames_view(self.stack@),
            control: self.control@,
        }
    }
}

impl Completion {
    fn into_value(self) -> (r: Value)
        ensures
            r@ == self@.value(),
    {
        match self {
            Completion::Normal(v) => v,
            Completion::Return(v) => v,
        }
    }
}

impl Interpreter {
    /// The machine's invariant: every environment it holds is well formed,
    /// and so is every frame.
    pub closed spec fn wf(&self) -> bool {
        &&& self.env.wf()
        &&& forall|i: int| 0 <= i < self.stack@.len() ==> frame_wf(#[trigger] self.stack@[i])
    }

    /// An interpreter with no variables and no program loaded.
    pub fn new() -> (r: Interpreter)
        ensures
            r.wf(),
            r@ == (InterpreterView { env: Map::empty(), stack: Seq::empty(), control: ControlView::Idle }),
    {
        let r = Interpreter { env: Table::new(), stack: Vec::new(), control: Control::Idle };
        assert(frames_view(r.stack@) =~= Seq::empty());
        r
    }

    /// Loads `program` to run from its first statement, keeping the
    /// variables the interpreter already has.
    pub fn run(&mut self, program: &Program)
        requires
            old(self).wf(),
        ensures
            final(self).wf(),
            final(self)@ == (InterpreterView {
                env: old(self)@.env,
                stack: Seq::empty(),
                control: ControlView::Block(program@),
            }),
    {
        self.stack = Vec::new();
        self.control = Control::Block(clone_stmts(&program.statements));
        assert(frames_view(self.stack@) =~= Seq::empty());
    }

    /// Sets the next task and asks nothing of the driver.
    fn go(&mut self, control: Control) -> (act: Action)
        ensures
            final(self).env == old(self).env,
            final(self).stack == old(self).stack,
            final(self).control == control,
            act@ == ActionView::Continue,
    {
        self.control = control;
        Action::Continue
    }

    fn give(&mut self, v: Value) -> (act: Action)
        ensures
            final(self).env == old(self).env,
            final(self).stack == old(self).stack,
            (final(self)@, act@) == give(old(self)@.env, old(self)@.stack, v@),
    {
        self.control = Control::Deliver(Completion::Normal(v));
        Action::Continue
    }

    /// The position of the lowest call frame, if any.
    fn outermost_call(&self) -> (r: Option<usize>)
        ensures
            match r {
                Some(k) => k < self.stack@.len() && self.stack@[k as int] is CallReturn && forall|j: int|
                    0 <= j < k ==> !(#[trigger] self.stack@[j] is CallReturn),
                None => forall|j: int| 0 <= j < self.stack@.len() ==> !(#[trigger] self.stack@[j] is CallReturn),
            },
    {
        let mut i: usize = 0;
        while i < self.stack.len()
            invariant
                i <= self.stack@.len(),
                forall|j: int| 0 <= j < i ==> !(#[trigger] self.stack@[j] is CallReturn),
            decreases self.stack@.len() - i,
        {
            if let Frame::CallReturn { .. } = &self.stack[i] {
                return Some(i);
            }
            i = i + 1;
        }
        None
    }

    fn fail(&mut self, e: RuntimeError) -> (act: Action)
        requires
            old(self).wf(),
        ensures
            final(self).wf(),
            final(self).stack == old(self).stack,
            (final(self)@, act@) == fail(old(self)@.env, old(self)@.stack, e@),
    {
        let ghost fv = frames_view(self.stack@);
        match self.outermost_call() {
            Some(k) => {
                proof {
                    assert forall|j: int| 0 <= j < k implies !(#[trigger] fv[j] is CallReturn) by {
                        assert(!(self.stack@[j] is CallReturn));
                    }
                    lemma_outer_env_lowest_call(fv, k as int, self.env@);
                    assert(frame_wf(self.stack@[k as int]));
                }
                let outer = match &self.stack[k] {
                    Frame::CallReturn { saved } => saved.deep_clone(),
                    _ => Table::new(),
                };
                self.env = outer;
            },
            None => {
                proof {
                    assert forall|j: int| 0 <= j < fv.len() implies !(#[trigger] fv[j] is CallReturn) by {
                        assert(!(self.stack@[j] is CallReturn));
                    }
                    lemma_outer_env_no_call(fv, self.env@);
                }
            },
        }
        let a = Action::Done(Err(e.deep_clone()));
        self.control = Control::Done(Err(e));
        a
    }

    fn push(&mut self, f: Frame)
        requires
            old(self).wf(),
            frame_wf(f),
        ensures
            final(self).wf(),
            final(self).env == old(self).env,
            final(self).control == old(self).control,
            final(self)@.stack == old(self)@.stack.push(f@),
    {
        self.stack.push(f);
        assert(frames_view(self.stack@) =~= frames_view(old(self).stack@).push(f@));
    }
}

impl Interpreter {
    fn step_eval(&mut self, e: Expr) -> (act: Action)
        requires
            old(self).wf(),
        ensures
            final(self).wf(),
            (final(self)@, act@) == step_eval(old(self)@.env, old(self)@.stack, e@),
    {
        let ghost e0 = e@;
        match e {
            Expr::Number(n) => self.give(Value::Number(n)),
            Expr::String(s) => self.give(Value::String(s)),
            Expr::Bool(b) => self.give(Value::Bool(b)),
            Expr::Variable(name) => {
                match self.env.get(&name) {
                    Some(v) => {
                        let v2 = v.deep_clone();
                        self.give(v2)
                    },
                    None => self.fail(RuntimeError::UndefinedVariable(name)),
                }
            },
            Expr::List(elems) => {
                if elems.len() == 0 {
                    let empty: Vec<Value> = Vec::new();
                    assert(values_view(empty@) =~= Seq::empty());
                    let v = Value::List(empty);
                    assert(v@->List_0 =~= values_view(empty@));
                    self.give(v)
                } else {
                    let first = elems[0].deep_clone();
                    let ghost ev = exprs_view(elems@);
                    assert(e0->List_0 =~= ev);
                    let done: Vec<Value> = Vec::new();
                    assert(values_view(done@) =~= Seq::empty());
                    self.push(Frame::ListElems { elems, done });
                    let r = self.go(Control::Eval(first));
                    assert(ev[0] == first@);
                    r
                }
            },
            Expr::Index { object, index } => {
                self.push(Frame::IndexObject { index: *index });
                self.go(Control::Eval(*object))
            },
            Expr::Unary { op, expr } => {
                self.push(Frame::Unary { op });
                self.go(Control::Eval(*expr))
            },
            Expr::Binary { op, left, right } => {
                self.push(Frame::BinaryLeft { op, right: *right });
                self.go(Control::Eval(*left))
            },
            Expr::Call { callee, args } => {
                let ghost av = exprs_view(args@);
                assert(e0->Call_args =~= av);
                let (params, body) = match self.env.get(&callee) {
                    None => return self.fail(RuntimeError::UndefinedFunction(callee)),
                    Some(Value::Function { params, body }) => (clone_names(params), clone_stmts(body)),
                    Some(_) => return self.fail(RuntimeError::NotAFunction(callee)),
                };
                if params.len() != args.len() {
                    return self.fail(RuntimeError::ArityMismatch { expected: params.len(), got: args.len() });
                }
                if args.len() == 0 {
                    let saved = self.env.deep_clone();
                    self.push(Frame::CallReturn { saved });
                    self.go(Control::Block(body))
                } else {
                    let first = args[0].deep_clone();
                    let call_env = self.env.deep_clone();
                    self.push(Frame::CallArgs { params, body, args, env: call_env, next: 0 });
                    let r = self.go(Control::Eval(first));
                    assert(av[0] == first@);
                    r
                }
            },
        }
    }
}

impl Interpreter {
    fn step_exec(&mut self, s: Stmt) -> (act: Action)
        requires
            old(self).wf(),
        ensures
            final(self).wf(),
            (final(self)@, act@) == step_exec(old(self)@.env, old(self)@.stack, s@),
    {
        let ghost s0 = s@;
        match s {
            Stmt::Let { name, value } => {
                self.push(Frame::Let { name });
                self.go(Control::Eval(value))
            },
            Stmt::Assign { name, value } => {
                self.push(Frame::Assign { name });
                self.go(Control::Eval(value))
            },
            Stmt::Function { name, params, body } => {
                assert(s0->Function_body =~= stmts_view(body@));
                self.env.insert(name, Value::Function { params, body });
                let zero = Value::Number(ZERO_BITS);
                self.give(zero)
            },
            Stmt::Return(e) => self.go(Control::Eval(e)),
            Stmt::Print(e) => {
                self.push(Frame::Print);
                self.go(Control::Eval(e))
            },
            Stmt::If { condition, body, else_body } => {
                assert(s0->If_body =~= stmts_view(body@));
                proof {
                    if else_body.is_some() {
                        assert(s0->If_else_body.unwrap() =~= stmts_view(else_body.unwrap()@));
                    }
                }
                self.push(Frame::IfCond { body, else_body });
                self.go(Control::Eval(condition))
            },
            Stmt::While { condition, body } => {
                assert(s0->While_body =~= stmts_view(body@));
                let c2 = condition.deep_clone();
                self.push(Frame::WhileCond { condition, body, last: Value::Number(ZERO_BITS) });
                self.go(Control::Eval(c2))
            },
            Stmt::For { variable, iterable, body } => {
                assert(s0->For_body =~= stmts_view(body@));
                self.push(Frame::ForIterable { variable, body });
                self.go(Control::Eval(iterable))
            },
            Stmt::Expr(e) => self.go(Control::Eval(e)),
        }
    }

    fn start_stmt(&mut self, stmts: Vec<Stmt>, i: usize) -> (act: Action)
        requires
            old(self).wf(),
            i < stmts@.len(),
        ensures
            final(self).wf(),
            (final(self)@, act@) == start_stmt(old(self)@.env, old(self)@.stack, stmts_view(stmts@), i as int),
    {
        let ghost sv = stmts_view(stmts@);
        let len = stmts.len();
        let next = i + 1;
        match &stmts[i] {
            Stmt::Return(e) => {
                let e2 = e.deep_clone();
                self.push(Frame::BlockReturn);
                self.go(Control::Eval(e2))
            },
            st => {
                let s2 = st.deep_clone();
                self.push(Frame::Block { stmts, next });
                self.go(Control::Exec(s2))
            },
        }
    }

    fn step_block(&mut self, stmts: Vec<Stmt>) -> (act: Action)
        requires
            old(self).wf(),
        ensures
            final(self).wf(),
            (final(self)@, act@) == step_block(old(self)@.env, old(self)@.stack, stmts_view(stmts@)),
    {
        if stmts.len() == 0 {
            self.give(Value::Number(ZERO_BITS))
        } else {
            self.start_stmt(stmts, 0)
        }
    }
}

impl Interpreter {
    fn await_arith(&mut self, op: BinaryOp, left: u64, right: u64) -> (act: Action)
        ensures
            final(self).env == old(self).env,
            final(self).stack == old(self).stack,
            final(self)@.control == (ControlView::AwaitArith { op, left, right }),
            act@ == (ActionView::Arith { op, left, right }),
    {
        self.control = Control::AwaitArith { op, left, right };
        Action::Arith { op, left, right }
    }

    fn step_binary(&mut self, op: BinaryOp, l: Value, r: Value) -> (act: Action)
        requires
            old(self).wf(),
        ensures
            final(self).wf(),
            (final(self)@, act@) == step_binary(old(self)@.env, old(self)@.stack, op, l@, r@),
    {
        let ghost lv = l@;
        let ghost rv = r@;
        match op {
            BinaryOp::Add => match (l, r) {
                (Value::Number(a), Value::Number(b)) => self.await_arith(op, a, b),
                (Value::List(mut xs), Value::List(ys)) => {
                    let ghost xv = values_view(xs@);
                    let ghost yv = values_view(ys@);
                    assert(lv->List_0 =~= xv);
                    assert(rv->List_0 =~= yv);
                    let mut ys = ys;
                    xs.append(&mut ys);
                    assert(values_view(xs@) =~= xv + yv);
                    let v = Value::List(xs);
                    assert(v@->List_0 =~= values_view(xs@));
                    self.give(v)
                },
                _ => self.fail(RuntimeError::AdditionOperands),
            },
            BinaryOp::Equal => {
                let b = l.structural_eq(&r);
                self.give(Value::Number(bool_number(b)))
            },
            BinaryOp::NotEqual => {
                let b = l.structural_eq(&r);
                self.give(Value::Number(bool_number(!b)))
            },
            _ => match (l, r) {
                (Value::Number(a), Value::Number(b)) => match op {
                    BinaryOp::Greater => self.give(Value::Number(bool_number(num_lt(b, a)))),
                    BinaryOp::GreaterEqual => self.give(Value::Number(bool_number(num_le(b, a)))),
                    BinaryOp::Less => self.give(Value::Number(bool_number(num_lt(a, b)))),
                    BinaryOp::LessEqual => self.give(Value::Number(bool_number(num_le(a, b)))),
                    _ => self.await_arith(op, a, b),
                },
                _ => self.fail(RuntimeError::ExpectedNumber),
            },
        }
    }
}

impl Interpreter {
    fn step_deliver(&mut self, frame: Frame, c: Completion) -> (act: Action)
        requires
            old(self).wf(),
            frame_wf(frame),
        ensures
            final(self).wf(),
            (final(self)@, act@) == step_deliver(old(self)@.env, old(self)@.stack, frame@, c@),
    {
        let ghost fv = frame@;
        let ghost cv = c@;
        match frame {
            Frame::ListElems { elems, mut done } => {
                let v = c.into_value();
                let ghost d0 = values_view(done@);
                done.push(v);
                assert(values_view(done@) =~= d0.push(cv.value()));
                if done.len() < elems.len() {
                    let e = elems[done.len()].deep_clone();
                    let ghost ev = exprs_view(elems@);
                    self.push(Frame::ListElems { elems, done });
                    let r = self.go(Control::Eval(e));
                    assert(ev[done@.len() as int] == e@);
                    r
                } else {
                    let ghost dv = values_view(done@);
                    let v = Value::List(done);
                    assert(v@->List_0 =~= dv);
                    self.give(v)
                }
            },
            Frame::IndexObject { index } => {
                let v = c.into_value();
                self.push(Frame::IndexValue { object: v });
                self.go(Control::Eval(index))
            },
            Frame::IndexValue { object } => {
                match c.into_value().as_number() {
                    Ok(b) => {
                        self.control = Control::AwaitIndex { object, index: b };
                        Action::ToIndex(b)
                    },
                    Err(e) => self.fail(e),
                }
            },
            Frame::Unary { op } => {
                match c.into_value().as_number() {
                    Ok(b) => match op {
                        UnaryOp::Negate => self.give(Value::Number(neg(b))),
                        UnaryOp::Plus => self.give(Value::Number(b)),
                    },
                    Err(e) => self.fail(e),
                }
            },
            Frame::BinaryLeft { op, right } => {
                let v = c.into_value();
                self.push(Frame::BinaryRight { op, left: v });
                self.go(Control::Eval(right))
            },
            Frame::BinaryRight { op, left } => {
                let v = c.into_value();
                self.step_binary(op, left, v)
            },
            Frame::CallArgs { params, body, args, mut env, next } => {
                let v = c.into_value();
                let ghost pv = names_view(params@);
                assert(pv[next as int] == params@[next as int]@);
                env.insert(params[next].clone(), v);
                let nargs = args.len();
                if next + 1 < nargs {
                    let e = args[next + 1].deep_clone();
                    let ghost av = exprs_view(args@);
                    self.push(Frame::CallArgs { params, body, args, env, next: next + 1 });
                    let r = self.go(Control::Eval(e));
                    assert(av[next + 1] == e@);
                    r
                } else {
                    let mut saved = env;
                    std::mem::swap(&mut saved, &mut self.env);
                    self.push(Frame::CallReturn { saved });
                    self.go(Control::Block(body))
                }
            },
            Frame::CallReturn { saved } => {
                let v = c.into_value();
                self.env = saved;
                self.give(v)
            },
            Frame::Block { stmts, next } => {
                let v = c.into_value();
                if next < stmts.len() {
                    self.start_stmt(stmts, next)
                } else {
                    self.give(v)
                }
            },
            Frame::BlockReturn => {
                let v = c.into_value();
                self.go(Control::Deliver(Completion::Return(v)))
            },
            Frame::Let { name } => {
                let v = c.into_value();
                self.env.insert(name, v.deep_clone());
                self.give(v)
            },
            Frame::Assign { name } => {
                let v = c.into_value();
                if self.env.contains_key(&name) {
                    self.env.insert(name, v.deep_clone());
                    self.give(v)
                } else {
                    self.fail(RuntimeError::UndefinedVariable(name))
                }
            },
            Frame::Print => {
                let v = c.into_value();
                let a = Action::Print(v.deep_clone());
                self.control = Control::Deliver(Completion::Normal(v));
                a
            },
            Frame::IfCond { body, else_body } => {
                let v = c.into_value();
                if v.is_truthy() {
                    self.push(Frame::IfBody);
                    self.go(Control::Block(body))
                } else {
                    match else_body {
                        Some(eb) => {
                            self.push(Frame::IfBody);
                            self.go(Control::Block(eb))
                        },
                        None => self.give(Value::Number(ZERO_BITS)),
                    }
                }
            },
            Frame::IfBody => {
                let v = c.into_value();
                self.give(v)
            },
            Frame::WhileCond { condition, body, last } => {
                let v = c.into_value();
                if v.is_truthy() {
                    let b2 = clone_stmts(&body);
                    self.push(Frame::WhileBody { condition, body });
                    self.go(Control::Block(b2))
                } else {
                    self.give(last)
                }
            },
            Frame::WhileBody { condition, body } => {
                match c {
                    Completion::Return(r) => self.give(r),
                    Completion::Normal(r) => {
                        let c2 = condition.deep_clone();
                        self.push(Frame::WhileCond { condition, body, last: r });
                        self.go(Control::Eval(c2))
                    },
                }
            },
            Frame::ForIterable { variable, body } => {
                match c.into_value() {
                    Value::List(values) => {
                        let ghost vv = values_view(values@);
                        assert(cv.value()->List_0 =~= vv);
                        if values.len() == 0 {
                            self.give(Value::Number(ZERO_BITS))
                        } else {
                            let first = values[0].deep_clone();
                            self.env.insert(variable.clone(), first);
                            let b2 = clone_stmts(&body);
                            self.push(Frame::ForBody { variable, body, values, next: 1 });
                            self.go(Control::Block(b2))
                        }
                    },
                    _ => self.fail(RuntimeError::CanOnlyIterateLists),
                }
            },
            Frame::ForBody { variable, body, values, next } => {
                match c {
                    Completion::Return(r) => self.give(r),
                    Completion::Normal(r) => {
                        if next < values.len() {
                            let item = values[next].deep_clone();
                            self.env.insert(variable.clone(), item);
                            let b2 = clone_stmts(&body);
                            self.push(Frame::ForBody { variable, body, values, next: next + 1 });
                            self.go(Control::Block(b2))
                        } else {
                            self.give(r)
                        }
                    },
                }
            },
        }
    }
}

fn clone_outcome(r: &Result<Value, RuntimeError>) -> (out: Result<Value, RuntimeError>)
    ensures
        match (r, out) {
            (Ok(a), Ok(b)) => b@ == a@,
            (Err(a), Err(b)) => b@ == a@,
            _ => false,
        },
{
    match r {
        Ok(v) => Ok(v.deep_clone()),
        Err(e) => Err(e.deep_clone()),
    }
}

impl Interpreter {
    /// Takes one step. `event` answers the action the previous step
    /// returned; the returned action says what the driver is to do next.
    pub fn step(&mut self, event: Event) -> (act: Action)
        requires
            old(self).wf(),
        ensures
            final(self).wf(),
            (final(self)@, act@) == spec_step(old(self)@, event),
    {
        let mut control = Control::Idle;
        std::mem::swap(&mut control, &mut self.control);
        match control {
            Control::Idle => Action::Idle,
            Control::Done(r) => {
                let a = Action::Done(clone_outcome(&r));
                self.control = Control::Done(r);
                a
            },
            Control::AwaitArith { op, left, right } => match event {
                Event::Number(x) => self.give(Value::Number(x)),
                _ => self.await_arith(op, left, right),
            },
            Control::AwaitIndex { object, index } => match event {
                Event::Index(n) => {
                    let ghost ov = object@;
                    match object {
                        Value::List(vs) => {
                            assert(ov->List_0 =~= values_view(vs@));
                            if n < vs.len() {
                                let item = vs[n].deep_clone();
                                self.give(item)
                            } else {
                                self.fail(RuntimeError::IndexOutOfBounds(n))
                            }
                        },
                        _ => self.fail(RuntimeError::CanOnlyIndexLists),
                    }
                },
                _ => {
                    self.control = Control::AwaitIndex { object, index };
                    Action::ToIndex(index)
                },
            },
            Control::Eval(e) => self.step_eval(e),
            Control::Exec(s) => self.step_exec(s),
            Control::Block(stmts) => self.step_block(stmts),
            Control::Deliver(c) => {
                let ghost sv = frames_view(self.stack@);
                match self.stack.pop() {
                    None => {
                        let v = c.into_value();
                        let a = Action::Done(Ok(v.deep_clone()));
                        self.control = Control::Done(Ok(v));
                        a
                    },
                    Some(frame) => {
                        assert(frames_view(self.stack@) =~= sv.drop_last());
                        assert(frame_wf(frame));
                        self.step_deliver(frame, c)
                    },
                }
            },
        }
    }
}

} // verus!
