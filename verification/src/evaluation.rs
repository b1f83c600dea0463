//! Laws of whole evaluations. The machine takes one step per answer of its
//! driver; the laws here follow an expression or a statement from its first
//! step to the moment its value is handed on, given how its parts evaluate.
use vstd::prelude::*;
use crate::ast::{BinaryOp, ExprView, StmtView, UnaryOp};
use crate::interpreter::{
    ActionView, CompletionView, ControlView, Env, Event, FrameView, InterpreterView, fail, spec_step,
    start_stmt, step_binary, zero,
};
use crate::number::{
    ONE_BITS, ZERO_BITS, lemma_neg_reverses_order, lemma_num_eq_reflexive_unless_nan, lemma_num_lt_asymmetric,
    lemma_num_trichotomy, spec_is_nan, spec_neg, spec_num_eq, spec_num_lt,
};
use crate::value::{RuntimeErrorView, ValueView, spec_truthy, value_eq};

verus! {

/// The state after one step per answer in `evs`.
pub open spec fn run_events(m: InterpreterView, evs: Seq<Event>) -> InterpreterView
    decreases evs.len(),
{
    if evs.len() == 0 {
        m
    } else {
        run_events(spec_step(m, evs[0]).0, evs.drop_first())
    }
}

/// Started on `e` with `env` in force and the frames `stack` waiting, the
/// machine, answered with `evs`, hands the value `v` to `stack`, with `env`
/// in force again.
pub open spec fn evaluates(env: Env, stack: Seq<FrameView>, e: ExprView, evs: Seq<Event>, v: ValueView) -> bool {
    run_events(InterpreterView { env, stack, control: ControlView::Eval(e) }, evs) == InterpreterView {
        env,
        stack,
        control: ControlView::Deliver(CompletionView::Normal(v)),
    }
}

/// Started on the block `stmts` with `env` in force and the frames `stack`
/// waiting, the machine, answered with `evs`, hands the completion `c` to
/// `stack`, with `env2` in force.
pub open spec fn runs_block(
    env: Env,
    stack: Seq<FrameView>,
    stmts: Seq<StmtView>,
    evs: Seq<Event>,
    env2: Env,
    c: CompletionView,
) -> bool {
    run_events(InterpreterView { env, stack, control: ControlView::Block(stmts) }, evs) == InterpreterView {
        env: env2,
        stack,
        control: ControlView::Deliver(c),
    }
}

/// Running two lists of answers one after the other.
pub proof fn lemma_run_concat(m: InterpreterView, a: Seq<Event>, b: Seq<Event>)
    ensures
        run_events(m, a + b) == run_events(run_events(m, a), b),
    decreases a.len(),
{
    if a.len() > 0 {
        assert((a + b).drop_first() =~= a.drop_first() + b);
        lemma_run_concat(spec_step(m, a[0]).0, a.drop_first(), b);
    } else {
        assert(a + b =~= b);
    }
}

/// Running one answer is one step.
pub proof fn lemma_run_one(m: InterpreterView, e: Event)
    ensures
        run_events(m, seq![e]) == spec_step(m, e).0,
{
    assert(seq![e].drop_first() =~= Seq::<Event>::empty());
    assert(run_events(spec_step(m, e).0, Seq::<Event>::empty()) == spec_step(m, e).0);
}

/// A step, a run, a step: the state after `[e0] + a + [e1]`.
proof fn lemma_run_step_run_step(m: InterpreterView, e0: Event, a: Seq<Event>, e1: Event)
    ensures
        run_events(m, seq![e0] + a + seq![e1]) == spec_step(run_events(spec_step(m, e0).0, a), e1).0,
{
    lemma_run_concat(m, seq![e0] + a, seq![e1]);
    lemma_run_concat(m, seq![e0], a);
    lemma_run_one(m, e0);
    lemma_run_one(run_events(m, seq![e0] + a), e1);
}

/// An infix operation: once the left operand has evaluated to `lv` and the
/// right one to `rv`, the next step does what `step_binary` says for the two
/// values. For `+`, two numbers make the machine ask its driver for their
/// sum, two lists give their concatenation, and anything else is the error
/// `AdditionOperands`; `==` and `!=` give one or zero from the structural
/// equality of the values, of whatever kinds, and never fail; `-`, `*`, `/`
/// ask the driver for the result, and `<`, `<=`, `>`, `>=` give one or zero
/// from the IEEE order, when both values are numbers, and otherwise give
/// the error `ExpectedNumber`. Neither operand changes the variables.
pub proof fn lemma_binary_evaluation(
    env: Env,
    stack: Seq<FrameView>,
    op: BinaryOp,
    left: ExprView,
    right: ExprView,
    a: Seq<Event>,
    b: Seq<Event>,
    lv: ValueView,
    rv: ValueView,
    e0: Event,
    e1: Event,
    e2: Event,
)
    requires
        evaluates(env, stack.push(FrameView::BinaryLeft { op, right }), left, a, lv),
        evaluates(env, stack.push(FrameView::BinaryRight { op, left: lv }), right, b, rv),
    ensures
        ({
            let start = InterpreterView {
                env,
                stack,
                control: ControlView::Eval(ExprView::Binary { op, left: Box::new(left), right: Box::new(right) }),
            };
            spec_step(run_events(start, seq![e0] + a + seq![e1] + b), e2) == step_binary(env, stack, op, lv, rv)
        }),
{
    let start = InterpreterView {
        env,
        stack,
        control: ControlView::Eval(ExprView::Binary { op, left: Box::new(left), right: Box::new(right) }),
    };
    lemma_run_step_run_step(start, e0, a, e1);
    lemma_run_concat(start, seq![e0] + a + seq![e1], b);
    let after_left = run_events(spec_step(start, e0).0, a);
    assert(stack.push(FrameView::BinaryLeft { op, right }).drop_last() =~= stack);
    assert(spec_step(after_left, e1).0 == InterpreterView {
        env,
        stack: stack.push(FrameView::BinaryRight { op, left: lv }),
        control: ControlView::Eval(right),
    });
    assert(stack.push(FrameView::BinaryRight { op, left: lv }).drop_last() =~= stack);
}

/// Once an arithmetic request for `-`, `*`, `/` or `+` on two numbers has
/// been answered with the number `x`, `x` is the operation's value.
pub proof fn lemma_arithmetic_answer(env: Env, stack: Seq<FrameView>, op: BinaryOp, l: u64, r: u64, x: u64)
    ensures
        spec_step(
            InterpreterView { env, stack, control: ControlView::AwaitArith { op, left: l, right: r } },
            Event::Number(x),
        ).0 == (InterpreterView {
            env,
            stack,
            control: ControlView::Deliver(CompletionView::Normal(ValueView::Number(x))),
        }),
{
}

/// An index expression: once the object has evaluated to `ov` and the
/// index to `iv`, the index must be a number (else `ExpectedNumber`,
/// whatever the object), which the driver converts into a position `k`;
/// then a list with more than `k` elements gives its element `k`, a shorter
/// list gives `IndexOutOfBounds(k)`, and anything else `CanOnlyIndexLists`.
pub proof fn lemma_index_evaluation(
    env: Env,
    stack: Seq<FrameView>,
    object: ExprView,
    index: ExprView,
    a: Seq<Event>,
    b: Seq<Event>,
    ov: ValueView,
    iv: ValueView,
    e0: Event,
    e1: Event,
    e2: Event,
    k: usize,
)
    requires
        evaluates(env, stack.push(FrameView::IndexObject { index }), object, a, ov),
        evaluates(env, stack.push(FrameView::IndexValue { object: ov }), index, b, iv),
    ensures
        ({
            let start = InterpreterView {
                env,
                stack,
                control: ControlView::Eval(ExprView::Index { object: Box::new(object), index: Box::new(index) }),
            };
            let before = run_events(start, seq![e0] + a + seq![e1] + b);
            let (m, act) = spec_step(before, e2);
            match iv {
                ValueView::Number(bits) => {
                    &&& m == InterpreterView {
                        env,
                        stack,
                        control: ControlView::AwaitIndex { object: ov, index: bits },
                    }
                    &&& act == ActionView::ToIndex(bits)
                    &&& spec_step(m, Event::Index(k)) == match ov {
                        ValueView::List(vs) => if (k as int) < vs.len() {
                            (
                                InterpreterView {
                                    env,
                                    stack,
                                    control: ControlView::Deliver(CompletionView::Normal(vs[k as int])),
                                },
                                ActionView::Continue,
                            )
                        } else {
                            fail(env, stack, RuntimeErrorView::IndexOutOfBounds(k))
                        },
                        _ => fail(env, stack, RuntimeErrorView::CanOnlyIndexLists),
                    }
                },
                _ => (m, act) == fail(env, stack, RuntimeErrorView::ExpectedNumber),
            }
        }),
{
    let start = InterpreterView {
        env,
        stack,
        control: ControlView::Eval(ExprView::Index { object: Box::new(object), index: Box::new(index) }),
    };
    lemma_run_step_run_step(start, e0, a, e1);
    lemma_run_concat(start, seq![e0] + a + seq![e1], b);
    assert(stack.push(FrameView::IndexObject { index }).drop_last() =~= stack);
    assert(stack.push(FrameView::IndexValue { object: ov }).drop_last() =~= stack);
}

/// The state in which statement `s` starts, with `env` in force and the
/// frames `stack` waiting.
pub open spec fn executing(env: Env, stack: Seq<FrameView>, s: StmtView) -> InterpreterView {
    InterpreterView { env, stack, control: ControlView::Exec(s) }
}

/// The state in which a value `v` is handed to `stack`, with `env` in force.
pub open spec fn handing(env: Env, stack: Seq<FrameView>, v: ValueView) -> InterpreterView {
    InterpreterView { env, stack, control: ControlView::Deliver(CompletionView::Normal(v)) }
}

/// `let name = value`: once the value has evaluated to `v`, `name` is bound
/// to `v` (added or replaced, every other binding kept) and the statement's
/// value is `v`.
pub proof fn lemma_let_statement(
    env: Env,
    stack: Seq<FrameView>,
    name: Seq<char>,
    value: ExprView,
    a: Seq<Event>,
    v: ValueView,
    e0: Event,
    e1: Event,
)
    requires
        evaluates(env, stack.push(FrameView::Let { name }), value, a, v),
    ensures
        run_events(executing(env, stack, StmtView::Let { name, value }), seq![e0] + a + seq![e1]) == handing(
            env.insert(name, v),
            stack,
            v,
        ),
{
    lemma_run_step_run_step(executing(env, stack, StmtView::Let { name, value }), e0, a, e1);
    assert(stack.push(FrameView::Let { name }).drop_last() =~= stack);
}

/// `name = value`: once the value has evaluated to `v`, a bound `name` is
/// rebound to `v` and the statement's value is `v`; an unbound `name` is
/// the error `UndefinedVariable(name)`, and no binding is created.
pub proof fn lemma_assign_statement(
    env: Env,
    stack: Seq<FrameView>,
    name: Seq<char>,
    value: ExprView,
    a: Seq<Event>,
    v: ValueView,
    e0: Event,
    e1: Event,
)
    requires
        evaluates(env, stack.push(FrameView::Assign { name }), value, a, v),
    ensures
        run_events(executing(env, stack, StmtView::Assign { name, value }), seq![e0] + a + seq![e1]) == if env.contains_key(
            name,
        ) {
            handing(env.insert(name, v), stack, v)
        } else {
            fail(env, stack, RuntimeErrorView::UndefinedVariable(name)).0
        },
{
    lemma_run_step_run_step(executing(env, stack, StmtView::Assign { name, value }), e0, a, e1);
    assert(stack.push(FrameView::Assign { name }).drop_last() =~= stack);
}

/// `print value`: once the value has evaluated to `v`, the next step asks
/// the driver to print `v` and leaves `v` as the statement's value.
pub proof fn lemma_print_statement(
    env: Env,
    stack: Seq<FrameView>,
    value: ExprView,
    a: Seq<Event>,
    v: ValueView,
    e0: Event,
    e1: Event,
)
    requires
        evaluates(env, stack.push(FrameView::Print), value, a, v),
    ensures
        spec_step(run_events(spec_step(executing(env, stack, StmtView::Print(value)), e0).0, a), e1) == (
            handing(env, stack, v),
            ActionView::Print(v),
        ),
{
    assert(stack.push(FrameView::Print).drop_last() =~= stack);
}

/// A function definition binds the name to the function, replacing any
/// earlier binding, runs nothing of its body, and has the value zero.
pub proof fn lemma_function_statement(
    env: Env,
    stack: Seq<FrameView>,
    name: Seq<char>,
    params: Seq<Seq<char>>,
    body: Seq<StmtView>,
    e0: Event,
)
    ensures
        spec_step(executing(env, stack, StmtView::Function { name, params, body }), e0) == (
            handing(env.insert(name, ValueView::Function { params, body }), stack, zero()),
            ActionView::Continue,
        ),
{
}

/// `if`: once the condition has evaluated to `cv`, a truthy `cv` runs the
/// body, a falsy one the `else` body when there is one; with no `else`, a
/// falsy condition gives zero. The branch's value, also one given by a
/// `return` among its statements, is the statement's value.
pub proof fn lemma_if_statement(
    env: Env,
    stack: Seq<FrameView>,
    condition: ExprView,
    body: Seq<StmtView>,
    else_body: Option<Seq<StmtView>>,
    a: Seq<Event>,
    cv: ValueView,
    b: Seq<Event>,
    env2: Env,
    c: CompletionView,
    e0: Event,
    e1: Event,
    e2: Event,
)
    requires
        evaluates(env, stack.push(FrameView::IfCond { body, else_body }), condition, a, cv),
        spec_truthy(cv) ==> runs_block(env, stack.push(FrameView::IfBody), body, b, env2, c),
        !spec_truthy(cv) && else_body is Some ==> runs_block(
            env,
            stack.push(FrameView::IfBody),
            else_body->Some_0,
            b,
            env2,
            c,
        ),
    ensures
        ({
            let start = executing(env, stack, StmtView::If { condition, body, else_body });
            if spec_truthy(cv) || else_body is Some {
                run_events(start, seq![e0] + a + seq![e1] + b + seq![e2]) == handing(env2, stack, c.value())
            } else {
                run_events(start, seq![e0] + a + seq![e1]) == handing(env, stack, zero())
            }
        }),
{
    let start = executing(env, stack, StmtView::If { condition, body, else_body });
    lemma_run_step_run_step(start, e0, a, e1);
    assert(stack.push(FrameView::IfCond { body, else_body }).drop_last() =~= stack);
    assert(stack.push(FrameView::IfBody).drop_last() =~= stack);
    if spec_truthy(cv) || else_body is Some {
        lemma_run_concat(start, seq![e0] + a + seq![e1] + b, seq![e2]);
        lemma_run_concat(start, seq![e0] + a + seq![e1], b);
        lemma_run_one(run_events(start, seq![e0] + a + seq![e1] + b), e2);
    }
}

/// The state in which a `while` loop evaluates its condition, `last` being
/// the loop's value so far.
pub open spec fn while_testing(
    env: Env,
    stack: Seq<FrameView>,
    condition: ExprView,
    body: Seq<StmtView>,
    last: ValueView,
) -> InterpreterView {
    InterpreterView {
        env,
        stack: stack.push(FrameView::WhileCond { condition, body, last }),
        control: ControlView::Eval(condition),
    }
}

/// A `while` loop first evaluates its condition, with zero as its value so
/// far.
pub proof fn lemma_while_starts(env: Env, stack: Seq<FrameView>, condition: ExprView, body: Seq<StmtView>, e0: Event)
    ensures
        spec_step(executing(env, stack, StmtView::While { condition, body }), e0).0 == while_testing(
            env,
            stack,
            condition,
            body,
            zero(),
        ),
{
}

/// One round of a `while` loop. A falsy condition ends the loop with its
/// value so far. A truthy one runs the body: when the body runs off its end
/// with value `r`, the condition is evaluated again with `r` as the value
/// so far; when a `return` ends it, its value ends the loop.
pub proof fn lemma_while_round(
    env: Env,
    stack: Seq<FrameView>,
    condition: ExprView,
    body: Seq<StmtView>,
    last: ValueView,
    a: Seq<Event>,
    cv: ValueView,
    b: Seq<Event>,
    env2: Env,
    c: CompletionView,
    e1: Event,
    e2: Event,
)
    requires
        evaluates(env, stack.push(FrameView::WhileCond { condition, body, last }), condition, a, cv),
        spec_truthy(cv) ==> runs_block(env, stack.push(FrameView::WhileBody { condition, body }), body, b, env2, c),
    ensures
        ({
            let m = while_testing(env, stack, condition, body, last);
            if !spec_truthy(cv) {
                run_events(m, a + seq![e1]) == handing(env, stack, last)
            } else {
                run_events(m, a + seq![e1] + b + seq![e2]) == match c {
                    CompletionView::Normal(r) => while_testing(env2, stack, condition, body, r),
                    CompletionView::Return(r) => handing(env2, stack, r),
                }
            }
        }),
{
    let m = while_testing(env, stack, condition, body, last);
    lemma_run_concat(m, a, seq![e1]);
    lemma_run_one(run_events(m, a), e1);
    assert(stack.push(FrameView::WhileCond { condition, body, last }).drop_last() =~= stack);
    assert(stack.push(FrameView::WhileBody { condition, body }).drop_last() =~= stack);
    if spec_truthy(cv) {
        lemma_run_concat(m, a + seq![e1], b);
        lemma_run_concat(m, a + seq![e1] + b, seq![e2]);
        lemma_run_one(run_events(m, a + seq![e1] + b), e2);
    }
}

/// The state in which the body of a `for` loop runs for element `next - 1`.
pub open spec fn for_running(
    env: Env,
    stack: Seq<FrameView>,
    variable: Seq<char>,
    body: Seq<StmtView>,
    values: Seq<ValueView>,
    next: nat,
) -> InterpreterView {
    InterpreterView {
        env,
        stack: stack.push(FrameView::ForBody { variable, body, values, next }),
        control: ControlView::Block(body),
    }
}

/// A `for` loop: once the iterable has evaluated to `it`, anything but a
/// list is the error `CanOnlyIterateLists`; an empty list gives zero and
/// runs nothing; otherwise the variable is bound to the first element and
/// the body runs.
pub proof fn lemma_for_starts(
    env: Env,
    stack: Seq<FrameView>,
    variable: Seq<char>,
    iterable: ExprView,
    body: Seq<StmtView>,
    a: Seq<Event>,
    it: ValueView,
    e0: Event,
    e1: Event,
)
    requires
        evaluates(env, stack.push(FrameView::ForIterable { variable, body }), iterable, a, it),
    ensures
        run_events(executing(env, stack, StmtView::For { variable, iterable, body }), seq![e0] + a + seq![e1])
            == match it {
            ValueView::List(vs) => if vs.len() == 0 {
                handing(env, stack, zero())
            } else {
                for_running(env.insert(variable, vs[0]), stack, variable, body, vs, 1)
            },
            _ => fail(env, stack, RuntimeErrorView::CanOnlyIterateLists).0,
        },
{
    lemma_run_step_run_step(executing(env, stack, StmtView::For { variable, iterable, body }), e0, a, e1);
    assert(stack.push(FrameView::ForIterable { variable, body }).drop_last() =~= stack);
}

/// One round of a `for` loop: when the body runs off its end with value
/// `r`, the variable is bound to the next element and the body runs again,
/// or, after the last element, the loop's value is `r`; a `return` ending
/// the body ends the loop with its value. The variable stays bound to the
/// last element visited.
pub proof fn lemma_for_round(
    env: Env,
    stack: Seq<FrameView>,
    variable: Seq<char>,
    body: Seq<StmtView>,
    values: Seq<ValueView>,
    next: nat,
    b: Seq<Event>,
    env2: Env,
    c: CompletionView,
    e2: Event,
)
    requires
        runs_block(
            env,
            stack.push(FrameView::ForBody { variable, body, values, next }),
            body,
            b,
            env2,
            c,
        ),
    ensures
        run_events(for_running(env, stack, variable, body, values, next), b + seq![e2]) == match c {
            CompletionView::Return(r) => handing(env2, stack, r),
            CompletionView::Normal(r) => if next < values.len() {
                for_running(env2.insert(variable, values[next as int]), stack, variable, body, values, next + 1)
            } else {
                handing(env2, stack, r)
            },
        },
{
    let m = for_running(env, stack, variable, body, values, next);
    lemma_run_concat(m, b, seq![e2]);
    lemma_run_one(run_events(m, b), e2);
    assert(stack.push(FrameView::ForBody { variable, body, values, next }).drop_last() =~= stack);
}

/// A block starts with its first statement; an empty block has the value
/// zero.
pub proof fn lemma_block_starts(env: Env, stack: Seq<FrameView>, stmts: Seq<StmtView>, e0: Event)
    ensures
        spec_step(InterpreterView { env, stack, control: ControlView::Block(stmts) }, e0).0 == if stmts.len()
            == 0 {
            handing(env, stack, zero())
        } else {
            start_stmt(env, stack, stmts, 0).0
        },
{
}

/// A statement of a block other than `return`: once it has completed, with
/// value `v` and `env2` in force, the block goes on with the next
/// statement, or, after its last one, has the value `v`. Whatever the
/// statement bound stays bound: nothing is undone.
pub proof fn lemma_block_statement(
    env: Env,
    stack: Seq<FrameView>,
    stmts: Seq<StmtView>,
    i: int,
    evs: Seq<Event>,
    env2: Env,
    c: CompletionView,
    e1: Event,
)
    requires
        0 <= i < stmts.len(),
        !(stmts[i] is Return),
        run_events(
            executing(env, stack.push(FrameView::Block { stmts, next: (i + 1) as nat }), stmts[i]),
            evs,
        ) == (InterpreterView {
            env: env2,
            stack: stack.push(FrameView::Block { stmts, next: (i + 1) as nat }),
            control: ControlView::Deliver(c),
        }),
    ensures
        ({
            &&& start_stmt(env, stack, stmts, i).0 == executing(
                env,
                stack.push(FrameView::Block { stmts, next: (i + 1) as nat }),
                stmts[i],
            )
            &&& spec_step(
                run_events(start_stmt(env, stack, stmts, i).0, evs),
                e1,
            ).0 == if i + 1 < stmts.len() {
                start_stmt(env2, stack, stmts, i + 1).0
            } else {
                handing(env2, stack, c.value())
            }
        }),
{
    assert(stack.push(FrameView::Block { stmts, next: (i + 1) as nat }).drop_last() =~= stack);
}

/// A `return` statement of a block: once its expression has evaluated to
/// `v`, the block ends, handing `v` on as a `return` completion.
pub proof fn lemma_block_return(
    env: Env,
    stack: Seq<FrameView>,
    stmts: Seq<StmtView>,
    i: int,
    a: Seq<Event>,
    v: ValueView,
    e1: Event,
)
    requires
        0 <= i < stmts.len(),
        stmts[i] matches StmtView::Return(e) && evaluates(env, stack.push(FrameView::BlockReturn), e, a, v),
    ensures
        spec_step(run_events(start_stmt(env, stack, stmts, i).0, a), e1).0 == (InterpreterView {
            env,
            stack,
            control: ControlView::Deliver(CompletionView::Return(v)),
        }),
{
    assert(stack.push(FrameView::BlockReturn).drop_last() =~= stack);
}

/// The state in which the right operand `r` of `left op ...` has just been
/// computed, with the frames `stack` around the operation.
pub open spec fn right_operand_ready(env: Env, stack: Seq<FrameView>, op: BinaryOp, left: ValueView, r: ValueView) -> InterpreterView {
    InterpreterView {
        env,
        stack: stack.push(FrameView::BinaryRight { op, left }),
        control: ControlView::Deliver(CompletionView::Normal(r)),
    }
}

/// The number one for a comparison that holds, zero for one that does not.
pub open spec fn truth_number(holds: bool) -> ValueView {
    ValueView::Number(if holds { ONE_BITS } else { ZERO_BITS })
}

/// Ordering comparisons of two numbers follow IEEE order: `a > b` is one
/// exactly when `b < a`, `a >= b` exactly when `b < a` or `a == b`, `a < b`
/// exactly when `a < b`, and `a <= b` exactly when `a < b` or `a == b`;
/// otherwise zero. So `x >= x` and `x <= x` are one and `x > x`, `x < x`
/// zero for every number that is not NaN, and for two numbers that are not
/// NaN exactly one of `a < b` and `a >= b` is one. Every comparison is
/// handed on at once, with the variables unchanged.
pub proof fn lemma_ordering_comparisons(env: Env, stack: Seq<FrameView>, a: u64, b: u64, ev: Event)
    ensures
        spec_step(right_operand_ready(env, stack, BinaryOp::Greater, ValueView::Number(a), ValueView::Number(b)), ev)
            == (handing(env, stack, truth_number(spec_num_lt(b, a))), ActionView::Continue),
        spec_step(
            right_operand_ready(env, stack, BinaryOp::GreaterEqual, ValueView::Number(a), ValueView::Number(b)),
            ev,
        ) == (handing(env, stack, truth_number(spec_num_lt(b, a) || spec_num_eq(a, b))), ActionView::Continue),
        spec_step(right_operand_ready(env, stack, BinaryOp::Less, ValueView::Number(a), ValueView::Number(b)), ev)
            == (handing(env, stack, truth_number(spec_num_lt(a, b))), ActionView::Continue),
        spec_step(
            right_operand_ready(env, stack, BinaryOp::LessEqual, ValueView::Number(a), ValueView::Number(b)),
            ev,
        ) == (handing(env, stack, truth_number(spec_num_lt(a, b) || spec_num_eq(a, b))), ActionView::Continue),
        !spec_is_nan(a) ==> spec_step(
            right_operand_ready(env, stack, BinaryOp::GreaterEqual, ValueView::Number(a), ValueView::Number(a)),
            ev,
        ).0 == handing(env, stack, ValueView::Number(ONE_BITS)),
        !spec_is_nan(a) ==> spec_step(
            right_operand_ready(env, stack, BinaryOp::LessEqual, ValueView::Number(a), ValueView::Number(a)),
            ev,
        ).0 == handing(env, stack, ValueView::Number(ONE_BITS)),
        spec_step(
            right_operand_ready(env, stack, BinaryOp::Greater, ValueView::Number(a), ValueView::Number(a)),
            ev,
        ).0 == handing(env, stack, ValueView::Number(ZERO_BITS)),
        spec_step(right_operand_ready(env, stack, BinaryOp::Less, ValueView::Number(a), ValueView::Number(a)), ev).0
            == handing(env, stack, ValueView::Number(ZERO_BITS)),
        !spec_is_nan(a) && !spec_is_nan(b) ==> (spec_step(
            right_operand_ready(env, stack, BinaryOp::Less, ValueView::Number(a), ValueView::Number(b)),
            ev,
        ).0 == handing(env, stack, ValueView::Number(ONE_BITS))) != (spec_step(
            right_operand_ready(env, stack, BinaryOp::GreaterEqual, ValueView::Number(a), ValueView::Number(b)),
            ev,
        ).0 == handing(env, stack, ValueView::Number(ONE_BITS))),
{
    assert(stack.push(FrameView::BinaryRight { op: BinaryOp::Greater, left: ValueView::Number(a) }).drop_last() =~= stack);
    assert(stack.push(FrameView::BinaryRight { op: BinaryOp::GreaterEqual, left: ValueView::Number(a) }).drop_last() =~= stack);
    assert(stack.push(FrameView::BinaryRight { op: BinaryOp::Less, left: ValueView::Number(a) }).drop_last() =~= stack);
    assert(stack.push(FrameView::BinaryRight { op: BinaryOp::LessEqual, left: ValueView::Number(a) }).drop_last() =~= stack);
    lemma_num_eq_reflexive_unless_nan(a);
    lemma_num_lt_asymmetric(a, b);
    if !spec_is_nan(a) && !spec_is_nan(b) {
        lemma_num_trichotomy(a, b);
        lemma_num_trichotomy(b, a);
    }
    assert(ONE_BITS != ZERO_BITS);
}

/// `==` gives one exactly when the two values are equal, and zero
/// otherwise, whatever their kinds, and never fails; `!=` gives one exactly
/// when `==` gives zero. In particular `true == false` is zero, `x == x` is
/// one for every boolean or string, and values of different kinds are
/// unequal.
pub proof fn lemma_equality_comparisons(env: Env, stack: Seq<FrameView>, l: ValueView, r: ValueView, ev: Event)
    ensures
        spec_step(right_operand_ready(env, stack, BinaryOp::Equal, l, r), ev) == (
            handing(env, stack, truth_number(value_eq(l, r))),
            ActionView::Continue,
        ),
        spec_step(right_operand_ready(env, stack, BinaryOp::NotEqual, l, r), ev) == (
            handing(env, stack, truth_number(!value_eq(l, r))),
            ActionView::Continue,
        ),
        spec_step(
            right_operand_ready(env, stack, BinaryOp::Equal, ValueView::Bool(true), ValueView::Bool(false)),
            ev,
        ).0 == handing(env, stack, ValueView::Number(ZERO_BITS)),
{
    assert(stack.push(FrameView::BinaryRight { op: BinaryOp::Equal, left: l }).drop_last() =~= stack);
    assert(stack.push(FrameView::BinaryRight { op: BinaryOp::NotEqual, left: l }).drop_last() =~= stack);
    assert(stack.push(FrameView::BinaryRight { op: BinaryOp::Equal, left: ValueView::Bool(true) }).drop_last()
        =~= stack);
    assert(ONE_BITS != ZERO_BITS);
}

/// A call binds its arguments to the parameters in order. It starts by
/// evaluating the first argument, with a callee environment that is the
/// caller's; each time the value `v` of argument `next` is ready, the
/// callee environment binds parameter `next` (the parameter in the same
/// position) to `v` and keeps every other binding; after the last
/// argument, the body starts with that environment, and the caller's
/// environment is saved to be brought back.
pub proof fn lemma_call_binds_arguments_in_order(
    env: Env,
    stack: Seq<FrameView>,
    params: Seq<Seq<char>>,
    body: Seq<StmtView>,
    args: Seq<ExprView>,
    callee_env: Env,
    next: nat,
    v: ValueView,
    callee: Seq<char>,
    ev: Event,
)
    requires
        params.len() == args.len(),
        next < args.len(),
    ensures
        env.contains_key(callee) && env[callee] == (ValueView::Function { params, body }) && args.len() > 0
            ==> spec_step(InterpreterView { env, stack, control: ControlView::Eval(ExprView::Call { callee, args }) }, ev).0
            == (InterpreterView {
            env,
            stack: stack.push(FrameView::CallArgs { params, body, args, env, next: 0 }),
            control: ControlView::Eval(args[0]),
        }),
        ({
            let m = InterpreterView {
                env,
                stack: stack.push(FrameView::CallArgs { params, body, args, env: callee_env, next }),
                control: ControlView::Deliver(CompletionView::Normal(v)),
            };
            let r = spec_step(m, ev).0;
            let bound = if next + 1 < args.len() {
                r.stack.last()->CallArgs_env
            } else {
                r.env
            };
            &&& bound.contains_key(params[next as int])
            &&& bound[params[next as int]] == v
            &&& forall|k: Seq<char>|
                k != params[next as int] ==> (#[trigger] bound.contains_key(k) == callee_env.contains_key(k) && (
                callee_env.contains_key(k) ==> bound[k] == callee_env[k]))
            &&& if next + 1 < args.len() {
                &&& r.stack == stack.push(
                    FrameView::CallArgs { params, body, args, env: bound, next: next + 1 },
                )
                &&& r.env == env
                &&& r.control == ControlView::Eval(args[next + 1int])
            } else {
                &&& r.stack == stack.push(FrameView::CallReturn { saved: env })
                &&& r.control == ControlView::Block(body)
            }
        }),
{
    assert(stack.push(FrameView::CallArgs { params, body, args, env: callee_env, next }).drop_last() =~= stack);
}

/// `+`, `-`, `*` and `/` on two numbers ask the driver for the operation
/// with the left operand first and the right one second, and the driver's
/// answer is the value; `+` on two lists gives the elements of the left
/// list followed by those of the right one, in order; `+` on anything else
/// is the error `AdditionOperands`; `-`, `*`, `/` and the ordering
/// comparisons on anything but two numbers are the error `ExpectedNumber`.
pub proof fn lemma_arithmetic_and_addition(
    env: Env,
    stack: Seq<FrameView>,
    op: BinaryOp,
    l: ValueView,
    r: ValueView,
    ev: Event,
    x: u64,
)
    ensures
        (op is Add || op is Subtract || op is Multiply || op is Divide) ==> (l matches ValueView::Number(a) ==> (
        r matches ValueView::Number(b) ==> {
            let (m, act) = spec_step(right_operand_ready(env, stack, op, l, r), ev);
            &&& m == InterpreterView { env, stack, control: ControlView::AwaitArith { op, left: a, right: b } }
            &&& act == ActionView::Arith { op, left: a, right: b }
            &&& spec_step(m, Event::Number(x)).0 == handing(env, stack, ValueView::Number(x))
        })),
        op is Add ==> (l matches ValueView::List(xs) ==> (r matches ValueView::List(ys) ==> {
            let (m, act) = spec_step(right_operand_ready(env, stack, op, l, r), ev);
            &&& act == ActionView::Continue
            &&& m.env == env
            &&& m.stack == stack
            &&& m.control matches ControlView::Deliver(CompletionView::Normal(ValueView::List(zs)))
            &&& zs.len() == xs.len() + ys.len()
            &&& forall|i: int| 0 <= i < xs.len() ==> zs[i] == xs[i]
            &&& forall|j: int| 0 <= j < ys.len() ==> zs[xs.len() + j] == ys[j]
        })),
        op is Add && !(l is Number && r is Number) && !(l is List && r is List) ==> spec_step(
            right_operand_ready(env, stack, op, l, r),
            ev,
        ) == fail(env, stack, RuntimeErrorView::AdditionOperands),
        (op is Subtract || op is Multiply || op is Divide || op is Greater || op is GreaterEqual || op is Less
            || op is LessEqual) && !(l is Number && r is Number) ==> spec_step(
            right_operand_ready(env, stack, op, l, r),
            ev,
        ) == fail(env, stack, RuntimeErrorView::ExpectedNumber),
{
    assert(stack.push(FrameView::BinaryRight { op, left: l }).drop_last() =~= stack);
}

/// Prefix operators: `-` gives the negated number, so that `-(-x)` is `x`
/// and `a < b` becomes `-b < -a`; `+` gives the number unchanged; either on
/// anything but a number is the error `ExpectedNumber`.
pub proof fn lemma_prefix_operators(env: Env, stack: Seq<FrameView>, op: UnaryOp, v: ValueView, ev: Event)
    ensures
        ({
            let m = InterpreterView {
                env,
                stack: stack.push(FrameView::Unary { op }),
                control: ControlView::Deliver(CompletionView::Normal(v)),
            };
            let (r, act) = spec_step(m, ev);
            match v {
                ValueView::Number(b) => {
                    &&& act == ActionView::Continue
                    &&& r.env == env
                    &&& r.stack == stack
                    &&& r.control matches ControlView::Deliver(CompletionView::Normal(ValueView::Number(n)))
                    &&& (op is Plus ==> n == b)
                    &&& (op is Negate ==> spec_neg(n) == b && n == spec_neg(b))
                },
                _ => (r, act) == fail(env, stack, RuntimeErrorView::ExpectedNumber),
            }
        }),
        forall|a: u64, b: u64| #[trigger] spec_num_lt(a, b) ==> spec_num_lt(spec_neg(b), spec_neg(a)),
{
    assert(stack.push(FrameView::Unary { op }).drop_last() =~= stack);
    if let ValueView::Number(b) = v {
        assert(spec_neg(spec_neg(b)) == b) by (bit_vector);
    }
    assert forall|a: u64, b: u64| #[trigger] spec_num_lt(a, b) implies spec_num_lt(spec_neg(b), spec_neg(a)) by {
        lemma_neg_reverses_order(a, b);
    }
}

/// Literals and names: a number, string or boolean literal is handed on as
/// that value; a bound name gives its value, an unbound one the error
/// `UndefinedVariable` with the name; an empty list literal gives the empty
/// list, and any other starts with its first element.
pub proof fn lemma_literals_and_names(env: Env, stack: Seq<FrameView>, e: ExprView, ev: Event)
    ensures
        ({
            let (m, act) = spec_step(InterpreterView { env, stack, control: ControlView::Eval(e) }, ev);
            match e {
                ExprView::Number(n) => m == handing(env, stack, ValueView::Number(n)) && act == ActionView::Continue,
                ExprView::String(t) => m == handing(env, stack, ValueView::String(t)) && act == ActionView::Continue,
                ExprView::Bool(b) => m == handing(env, stack, ValueView::Bool(b)) && act == ActionView::Continue,
                ExprView::Variable(name) => if env.contains_key(name) {
                    m == handing(env, stack, env[name]) && act == ActionView::Continue
                } else {
                    (m, act) == fail(env, stack, RuntimeErrorView::UndefinedVariable(name))
                },
                ExprView::List(elems) => if elems.len() == 0 {
                    m == handing(env, stack, ValueView::List(Seq::empty()))
                } else {
                    m == InterpreterView {
                        env,
                        stack: stack.push(FrameView::ListElems { elems, done: Seq::empty() }),
                        control: ControlView::Eval(elems[0]),
                    }
                },
                _ => true,
            }
        }),
{
}

/// A call fails before evaluating any argument when the name is unbound
/// (`UndefinedFunction`), bound to something other than a function
/// (`NotAFunction`), or bound to a function with a different number of
/// parameters than the call has arguments (`ArityMismatch`, giving the
/// number of parameters, then the number of arguments); a call without
/// arguments starts the body at once with the caller's variables, saving
/// them to be brought back.
pub proof fn lemma_call_checks(env: Env, stack: Seq<FrameView>, callee: Seq<char>, args: Seq<ExprView>, ev: Event)
    ensures
        ({
            let (m, act) = spec_step(
                InterpreterView { env, stack, control: ControlView::Eval(ExprView::Call { callee, args }) },
                ev,
            );
            if !env.contains_key(callee) {
                (m, act) == fail(env, stack, RuntimeErrorView::UndefinedFunction(callee))
            } else {
                match env[callee] {
                    ValueView::Function { params, body } => if params.len() != args.len() {
                        (m, act) == fail(
                            env,
                            stack,
                            RuntimeErrorView::ArityMismatch {
                                expected: params.len() as usize,
                                got: args.len() as usize,
                            },
                        )
                    } else if args.len() == 0 {
                        m == InterpreterView {
                            env,
                            stack: stack.push(FrameView::CallReturn { saved: env }),
                            control: ControlView::Block(body),
                        }
                    } else {
                        true
                    },
                    _ => (m, act) == fail(env, stack, RuntimeErrorView::NotAFunction(callee)),
                }
            }
        }),
{
}

} // verus!
