//! Expressions do not change variables. Statements run only inside the
//! body of a called function, and a call gives the caller's environment
//! back when its body completes, so from the moment the machine starts on
//! an expression until the expression's value is ready, the variables of
//! the code around it stay as they were. An error abandons every pending
//! call, so a run that fails while evaluating an expression leaves the
//! variables of the code outside all calls as they were too.
use vstd::prelude::*;
use crate::ast::ExprView;
use crate::interpreter::{
    ControlView, Env, Event, FrameView, InterpreterView, lemma_outer_env_no_call, outer_env, spec_step,
};

verus! {

/// A frame that only computes the value of an expression.
pub open spec fn is_expression_frame(f: FrameView) -> bool {
    ||| f is ListElems
    ||| f is IndexObject
    ||| f is IndexValue
    ||| f is Unary
    ||| f is BinaryLeft
    ||| f is BinaryRight
    ||| f is CallArgs
}

/// A task that computes or hands on a value, rather than running statements.
pub open spec fn is_expression_control(c: ControlView) -> bool {
    !(c is Exec) && !(c is Block)
}

/// Reading `frames` from the innermost outwards, with `env` in force, and
/// `expr` telling whether only expressions are being evaluated so far:
/// statements run only inside function calls, and once every call among
/// `frames` has returned, the environment in force is `env0`.
pub open spec fn settles(frames: Seq<FrameView>, env: Env, expr: bool, env0: Env) -> bool
    decreases frames.len(),
{
    if frames.len() == 0 {
        expr && env == env0
    } else {
        match frames.last() {
            FrameView::CallReturn { saved } => settles(frames.drop_last(), saved, true, env0),
            f => settles(frames.drop_last(), env, expr && is_expression_frame(f), env0),
        }
    }
}

/// The machine is evaluating an expression on top of the frames `base`,
/// which it started with the environment `env0`: `base` is still in place;
/// while the run goes on, the frames above `base` settle back to `env0`,
/// and once it has ended, the environment is the one in force outside
/// every call pending in `base`.
pub open spec fn evaluating_on(m: InterpreterView, base: Seq<FrameView>, env0: Env) -> bool {
    &&& base.len() <= m.stack.len()
    &&& m.stack.subrange(0, base.len() as int) == base
    &&& if m.control is Done {
        m.env == outer_env(base, env0)
    } else {
        settles(
            m.stack.subrange(base.len() as int, m.stack.len() as int),
            m.env,
            is_expression_control(m.control),
            env0,
        )
    }
}

/// When the frames above `base` settle back to `env0`, abandoning every
/// pending call of the whole stack leads to the environment that
/// abandoning those of `base` leads to from `env0`.
proof fn lemma_settles_outer(stack: Seq<FrameView>, base: Seq<FrameView>, env: Env, b: bool, env0: Env)
    requires
        base.len() <= stack.len(),
        stack.subrange(0, base.len() as int) == base,
        settles(stack.subrange(base.len() as int, stack.len() as int), env, b, env0),
    ensures
        outer_env(stack, env) == outer_env(base, env0),
    decreases stack.len(),
{
    if stack.len() == base.len() {
        assert(stack =~= base);
    } else {
        lemma_above_pop(stack, base);
        let rest = stack.drop_last().subrange(base.len() as int, stack.len() - 1);
        lemma_settles_push(rest, stack.last(), env, b, env0);
        match stack.last() {
            FrameView::CallReturn { saved } => lemma_settles_outer(stack.drop_last(), base, saved, true, env0),
            f => lemma_settles_outer(stack.drop_last(), base, env, b && is_expression_frame(f), env0),
        }
    }
}

/// Runs the machine on the answers `evs`, one step each, stopping early
/// once a value is handed to a frame at or below depth `depth`.
pub open spec fn run_above(m: InterpreterView, evs: Seq<Event>, depth: nat) -> InterpreterView
    decreases evs.len(),
{
    if evs.len() == 0 || (m.stack.len() <= depth && m.control is Deliver) {
        m
    } else {
        run_above(spec_step(m, evs[0]).0, evs.drop_first(), depth)
    }
}

/// Inside a call, neither the environment in force nor what is being
/// evaluated matters: the call brings back the environment it saved.
proof fn lemma_settles_inside_call(frames: Seq<FrameView>, env: Env, env0: Env)
    requires
        settles(frames, env, false, env0),
    ensures
        forall|env2: Env, b: bool| #[trigger] settles(frames, env2, b, env0),
    decreases frames.len(),
{
    if frames.len() > 0 {
        if !(frames.last() is CallReturn) {
            lemma_settles_inside_call(frames.drop_last(), env, env0);
        }
        assert forall|env2: Env, b: bool| #[trigger] settles(frames, env2, b, env0) by {
            if !(frames.last() is CallReturn) {
                assert(settles(frames.drop_last(), env2, b && is_expression_frame(frames.last()), env0));
            }
        }
    }
}

/// Taking the top frame off a sequence with a frame pushed gives it back.
broadcast proof fn lemma_push_drop_last(s: Seq<FrameView>, f: FrameView)
    ensures
        #[trigger] s.push(f).drop_last() == s,
{
    assert(s.push(f).drop_last() =~= s);
}

/// `settles` on a sequence with one more frame on top.
proof fn lemma_settles_push(frames: Seq<FrameView>, f: FrameView, env: Env, expr: bool, env0: Env)
    ensures
        settles(frames.push(f), env, expr, env0) == match f {
            FrameView::CallReturn { saved } => settles(frames, saved, true, env0),
            _ => settles(frames, env, expr && is_expression_frame(f), env0),
        },
{
    assert(frames.push(f).drop_last() =~= frames);
}

/// Pushing a frame keeps the frames below, and adds it to those above them.
proof fn lemma_above_push(stack: Seq<FrameView>, base: Seq<FrameView>, f: FrameView)
    requires
        base.len() <= stack.len(),
        stack.subrange(0, base.len() as int) == base,
    ensures
        stack.push(f).subrange(0, base.len() as int) == base,
        stack.push(f).subrange(base.len() as int, stack.len() + 1int) == stack.subrange(
            base.len() as int,
            stack.len() as int,
        ).push(f),
{
    assert(stack.push(f).subrange(0, base.len() as int) =~= stack.subrange(0, base.len() as int));
    assert(stack.push(f).subrange(base.len() as int, stack.len() + 1int) =~= stack.subrange(
        base.len() as int,
        stack.len() as int,
    ).push(f));
}

/// Popping a frame above `base` keeps `base`.
proof fn lemma_above_pop(stack: Seq<FrameView>, base: Seq<FrameView>)
    requires
        base.len() < stack.len(),
        stack.subrange(0, base.len() as int) == base,
    ensures
        stack.drop_last().subrange(0, base.len() as int) == base,
        stack.subrange(base.len() as int, stack.len() as int) == stack.drop_last().subrange(
            base.len() as int,
            stack.len() - 1,
        ).push(stack.last()),
{
    assert(stack.drop_last().subrange(0, base.len() as int) =~= stack.subrange(0, base.len() as int));
    assert(stack.subrange(base.len() as int, stack.len() as int) =~= stack.drop_last().subrange(
        base.len() as int,
        stack.len() - 1,
    ).push(stack.last()));
}

/// The new state has the stack `s`, either the old one or `s0` with one frame on top.
proof fn lemma_new_top(s: Seq<FrameView>, s0: Seq<FrameView>, base: Seq<FrameView>, env: Env, expr: bool, env0: Env)
    requires
        base.len() <= s0.len(),
        s0.subrange(0, base.len() as int) == base,
        s.len() == s0.len() + 1,
        s.drop_last() == s0,
    ensures
        s.subrange(0, base.len() as int) == base,
        settles(s.subrange(base.len() as int, s.len() as int), env, expr, env0) == match s.last() {
            FrameView::CallReturn { saved } => settles(
                s0.subrange(base.len() as int, s0.len() as int),
                saved,
                true,
                env0,
            ),
            f => settles(
                s0.subrange(base.len() as int, s0.len() as int),
                env,
                expr && is_expression_frame(f),
                env0,
            ),
        },
{
    assert(s =~= s0.push(s.last()));
    lemma_above_push(s0, base, s.last());
    lemma_settles_push(s0.subrange(base.len() as int, s0.len() as int), s.last(), env, expr, env0);
}

/// One step keeps the machine evaluating on `base`, unless the value has
/// already been handed to `base`.
#[verifier::rlimit(50)]
proof fn lemma_step_keeps(m: InterpreterView, ev: Event, base: Seq<FrameView>, env0: Env)
    requires
        evaluating_on(m, base, env0),
        !(m.stack.len() <= base.len() && m.control is Deliver),
    ensures
        evaluating_on(spec_step(m, ev).0, base, env0),
{
    broadcast use lemma_push_drop_last;
    let n = base.len() as int;
    let above = m.stack.subrange(n, m.stack.len() as int);
    let r = spec_step(m, ev).0;
    match m.control {
        ControlView::Deliver(c) => {
            lemma_above_pop(m.stack, base);
            let s0 = m.stack.drop_last();
            let rest = s0.subrange(n, s0.len() as int);
            lemma_settles_push(rest, m.stack.last(), m.env, true, env0);
            if !(m.stack.last() is CallReturn) && !is_expression_frame(m.stack.last()) {
                lemma_settles_inside_call(rest, m.env, env0);
            }
            if !(m.stack.last() is CallReturn) {
                lemma_settles_outer(s0, base, m.env, is_expression_frame(m.stack.last()), env0);
            }
            if r.stack.len() == m.stack.len() {
                lemma_new_top(r.stack, s0, base, r.env, is_expression_control(r.control), env0);
            }
        },
        ControlView::Eval(_) | ControlView::AwaitArith { .. } | ControlView::AwaitIndex { .. } => {
            lemma_settles_outer(m.stack, base, m.env, true, env0);
            if r.stack.len() == m.stack.len() + 1 {
                lemma_new_top(r.stack, m.stack, base, r.env, is_expression_control(r.control), env0);
            }
        },
        ControlView::Exec(_) | ControlView::Block(_) => {
            lemma_settles_inside_call(above, m.env, env0);
            if r.stack.len() == m.stack.len() + 1 {
                lemma_new_top(r.stack, m.stack, base, r.env, is_expression_control(r.control), env0);
            }
        },
        _ => {},
    }
}

/// Running on keeps the machine evaluating on `base`.
proof fn lemma_run_keeps(m: InterpreterView, evs: Seq<Event>, base: Seq<FrameView>, env0: Env)
    requires
        evaluating_on(m, base, env0),
    ensures
        evaluating_on(run_above(m, evs, base.len()), base, env0),
    decreases evs.len(),
{
    if !(evs.len() == 0 || (m.stack.len() <= base.len() && m.control is Deliver)) {
        lemma_step_keeps(m, evs[0], base, env0);
        lemma_run_keeps(spec_step(m, evs[0]).0, evs.drop_first(), base, env0);
    }
}

/// Evaluating an expression never changes the variables. Start the machine
/// on expression `e` with environment `env0` and frames `base`, and let it
/// run on any answers from the driver: the frames of `base` stay in place;
/// when the value of `e` is handed to them the environment is `env0`
/// again, whatever functions `e` called and whatever their bodies did; and
/// when the run ends with an error instead, the environment is the one in
/// force outside every call pending in `base`, which is `env0` itself when
/// `base` holds no call frame (an expression of the program's top level).
pub proof fn lemma_expression_keeps_environment(
    env0: Env,
    base: Seq<FrameView>,
    e: ExprView,
    evs: Seq<Event>,
)
    ensures
        ({
            let m = run_above(
                InterpreterView { env: env0, stack: base, control: ControlView::Eval(e) },
                evs,
                base.len(),
            );
            &&& base.len() <= m.stack.len()
            &&& m.stack.subrange(0, base.len() as int) == base
            &&& (m.stack.len() == base.len() && m.control is Deliver ==> m.env == env0)
            &&& (m.control is Done ==> m.env == outer_env(base, env0))
            &&& (m.control is Done && (forall|j: int| 0 <= j < base.len() ==> !(#[trigger] base[j] is CallReturn))
                ==> m.env == env0)
        }),
{
    let m0 = InterpreterView { env: env0, stack: base, control: ControlView::Eval(e) };
    assert(base.subrange(0, base.len() as int) =~= base);
    assert(base.subrange(base.len() as int, base.len() as int) =~= Seq::<FrameView>::empty());
    lemma_run_keeps(m0, evs, base, env0);
    let m = run_above(m0, evs, base.len());
    if forall|j: int| 0 <= j < base.len() ==> !(#[trigger] base[j] is CallReturn) {
        lemma_outer_env_no_call(base, env0);
    }
    if m.stack.len() == base.len() {
        assert(m.stack.subrange(base.len() as int, m.stack.len() as int) =~= Seq::<FrameView>::empty());
    }
}

} // verus!
