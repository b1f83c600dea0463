//! Run-time values, their model, copies, equality and truthiness, and the
//! errors a run can end with.
use vstd::prelude::*;
use crate::ast::{Stmt, StmtView, clone_names, clone_stmts, lemma_stmts_eq_symmetric, names_eq, names_view, stmts_eq, stmts_structural_eq, stmts_view};
use crate::number::{
    ONE_BITS, ZERO_BITS, lemma_num_eq_symmetric, num_eq, num_truthy, spec_is_zero, spec_num_eq, spec_num_truthy,
};
use crate::table::DeepClone;

verus! {

/// A value computed by a program. A number holds the IEEE-754 binary64 bit
/// pattern of its value.
#[derive(Debug)]
pub enum Value {
    Number(u64),
    String(String),
    Bool(bool),
    List(Vec<Value>),
    Function { params: Vec<String>, body: Vec<Stmt> },
}

/// The model of a value.
pub enum ValueView {
    Number(u64),
    String(Seq<char>),
    Bool(bool),
    List(Seq<ValueView>),
    Function { params: Seq<Seq<char>>, body: Seq<StmtView> },
}

/// The model of a value.
pub open spec fn value_view(v: Value) -> ValueView
    decreases v,
{
    match v {
        Value::Number(n) => ValueView::Number(n),
        Value::String(s) => ValueView::String(s@),
        Value::Bool(b) => ValueView::Bool(b),
        Value::List(vs) => ValueView::List(
            Seq::new(
                vs@.len(),
                |i: int|
                    if 0 <= i < vs@.len() {
                        value_view(vs@[i])
                    } else {
                        ValueView::Bool(false)
                    },
            ),
        ),
        Value::Function { params, body } => ValueView::Function {
            params: names_view(params@),
            body: stmts_view(body@),
        },
    }
}

/// The model of a list of values.
pub open spec fn values_view(s: Seq<Value>) -> Seq<ValueView> {
    Seq::new(s.len(), |i: int| value_view(s[i]))
}

impl View for Value {
    type V = ValueView;

    open spec fn view(&self) -> ValueView {
        value_view(*self)
    }
}

/// Equality of values: numbers as IEEE values, strings and booleans as
/// themselves, lists element by element, functions by their parameter
/// names and bodies; values of different kinds are unequal.
pub open spec fn value_eq(a: ValueView, b: ValueView) -> bool
    decreases a,
{
    match a {
        ValueView::Number(x) => b matches ValueView::Number(y) && spec_num_eq(x, y),
        ValueView::String(x) => b matches ValueView::String(y) && x == y,
        ValueView::Bool(x) => b matches ValueView::Bool(y) && x == y,
        ValueView::List(xs) => match b {
            ValueView::List(ys) => xs.len() == ys.len() && forall|i: int|
                0 <= i < xs.len() ==> value_eq(#[trigger] xs[i], ys[i]),
            _ => false,
        },
        ValueView::Function { params, body } => match b {
            ValueView::Function { params: p2, body: b2 } => params == p2 && stmts_eq(body, b2),
            _ => false,
        },
    }
}

/// Equality of values is symmetric: `a == b` and `b == a` always agree,
/// and so do `a != b` and `b != a`.
pub proof fn lemma_value_eq_symmetric(a: ValueView, b: ValueView)
    ensures
        value_eq(a, b) == value_eq(b, a),
    decreases a,
{
    match (a, b) {
        (ValueView::Number(x), ValueView::Number(y)) => lemma_num_eq_symmetric(x, y),
        (ValueView::List(xs), ValueView::List(ys)) => {
            assert forall|i: int| 0 <= i < xs.len() && i < ys.len() implies value_eq(xs[i], ys[i])
                == value_eq(ys[i], xs[i]) by {
                assert(decreases_to!(a => xs[i]));
                lemma_value_eq_symmetric(xs[i], ys[i]);
            }
        },
        (ValueView::Function { body, .. }, ValueView::Function { body: b2, .. }) => {
            lemma_stmts_eq_symmetric(body, b2);
        },
        _ => {},
    }
}

/// What equality of values means for each kind: two booleans are equal
/// exactly when they are the same boolean, two strings exactly when they
/// hold the same characters, two numbers exactly when they are equal in
/// IEEE terms (NaN equals nothing, the two zeros are equal), two lists
/// exactly when they have the same length and are equal element by
/// element; values of different kinds are never equal.
pub proof fn lemma_value_eq_by_kind(a: ValueView, b: ValueView)
    ensures
        a matches ValueView::Bool(x) ==> (b matches ValueView::Bool(y) ==> value_eq(a, b) == (x == y)),
        value_eq(ValueView::Bool(true), ValueView::Bool(true)),
        value_eq(ValueView::Bool(false), ValueView::Bool(false)),
        !value_eq(ValueView::Bool(true), ValueView::Bool(false)),
        !value_eq(ValueView::Bool(false), ValueView::Bool(true)),
        a matches ValueView::String(x) ==> (b matches ValueView::String(y) ==> value_eq(a, b) == (x == y)),
        a matches ValueView::Number(x) ==> (b matches ValueView::Number(y) ==> value_eq(a, b) == spec_num_eq(
            x,
            y,
        )),
        a matches ValueView::List(xs) ==> (b matches ValueView::List(ys) ==> value_eq(a, b) == (xs.len()
            == ys.len() && forall|i: int| 0 <= i < xs.len() ==> value_eq(#[trigger] xs[i], ys[i]))),
        value_kind(a) != value_kind(b) ==> !value_eq(a, b),
{
}

/// The kind of a value, as a number.
pub open spec fn value_kind(v: ValueView) -> int {
    match v {
        ValueView::Number(_) => 0,
        ValueView::String(_) => 1,
        ValueView::Bool(_) => 2,
        ValueView::List(_) => 3,
        ValueView::Function { .. } => 4,
    }
}

/// What counts as true in a condition: a number other than zero (of
/// either sign; NaN counts as true), a string or a list with at least one
/// element, the boolean `true`, and any function. The empty string, the
/// empty list, `false` and zero are false.
pub proof fn lemma_truthiness(v: ValueView)
    ensures
        v matches ValueView::List(vs) ==> spec_truthy(v) == (vs.len() > 0),
        v matches ValueView::String(s) ==> spec_truthy(v) == (s.len() > 0),
        v matches ValueView::Bool(b) ==> spec_truthy(v) == b,
        v matches ValueView::Number(n) ==> spec_truthy(v) == !spec_is_zero(n),
        v is Function ==> spec_truthy(v),
        !spec_truthy(ValueView::List(Seq::empty())),
        !spec_truthy(ValueView::String(Seq::empty())),
        !spec_truthy(ValueView::Number(ZERO_BITS)),
        spec_truthy(ValueView::Number(ONE_BITS)),
{
    assert(spec_is_zero(ZERO_BITS)) by (bit_vector);
    assert(!spec_is_zero(ONE_BITS)) by (bit_vector);
}

/// Truthiness: a number differs from zero, a string or list is not empty,
/// a boolean is true, a function is always truthy.
pub open spec fn spec_truthy(v: ValueView) -> bool {
    match v {
        ValueView::Number(n) => spec_num_truthy(n),
        ValueView::String(s) => s.len() != 0,
        ValueView::Bool(b) => b,
        ValueView::List(vs) => vs.len() != 0,
        ValueView::Function { .. } => true,
    }
}

impl Value {
    /// A structural copy.
    pub fn deep_clone(&self) -> (r: Value)
        ensures
            r@ == self@,
        decreases self, 1nat,
    {
        match self {
            Value::Number(n) => Value::Number(*n),
            Value::String(s) => Value::String(s.clone()),
            Value::Bool(b) => Value::Bool(*b),
            Value::List(vs) => {
                assert(forall|j: int| 0 <= j < vs@.len() ==> decreases_to!(*self => #[trigger] vs@[j]));
                let out = clone_value_list(vs, Ghost(*self));
                let r = Value::List(out);
                assert(r@->List_0 =~= values_view(out@));
                assert(self@->List_0 =~= values_view(vs@));
                r
            },
            Value::Function { params, body } => Value::Function {
                params: clone_names(params),
                body: clone_stmts(body),
            },
        }
    }

    /// Equality of values as `value_eq` states it.
    pub fn structural_eq(&self, other: &Value) -> (r: bool)
        ensures
            r == value_eq(self@, other@),
        decreases self, 1nat,
    {
        match (self, other) {
            (Value::Number(x), Value::Number(y)) => num_eq(*x, *y),
            (Value::String(x), Value::String(y)) => *x == *y,
            (Value::Bool(x), Value::Bool(y)) => *x == *y,
            (Value::List(xs), Value::List(ys)) => {
                assert(forall|j: int| 0 <= j < xs@.len() ==> decreases_to!(*self => #[trigger] xs@[j]));
                assert(self@->List_0 =~= values_view(xs@));
                assert(other@->List_0 =~= values_view(ys@));
                value_list_eq(xs, ys, Ghost(*self))
            },
            (Value::Function { params, body }, Value::Function { params: p2, body: b2 }) => {
                names_eq(params, p2) && stmts_structural_eq(body, b2)
            },
            _ => false,
        }
    }

    /// The number a value holds, or `ExpectedNumber` for any other value.
    pub fn as_number(&self) -> (r: Result<u64, RuntimeError>)
        ensures
            match self@ {
                ValueView::Number(n) => r is Ok && r->Ok_0 == n,
                _ => r is Err && r->Err_0@ == RuntimeErrorView::ExpectedNumber,
            },
    {
        match self {
            Value::Number(value) => Ok(*value),
            _ => Err(RuntimeError::ExpectedNumber),
        }
    }

    /// Truthiness as `spec_truthy` states it.
    pub fn is_truthy(&self) -> (r: bool)
        ensures
            r == spec_truthy(self@),
    {
        match self {
            Value::Number(n) => num_truthy(*n),
            Value::String(s) => {
                let e = s.as_str().is_empty();
                e == false
            },
            Value::Bool(b) => *b,
            Value::List(vs) => vs.len() != 0,
            Value::Function { .. } => true,
        }
    }
}

impl DeepClone for Value {
    fn deep_clone(&self) -> (r: Value) {
        Value::deep_clone(self)
    }
}

/// Copies a list of values that stands inside `parent`.
fn clone_value_list(v: &Vec<Value>, Ghost(parent): Ghost<Value>) -> (r: Vec<Value>)
    requires
        forall|j: int| 0 <= j < v@.len() ==> decreases_to!(parent => #[trigger] v@[j]),
    ensures
        values_view(r@) == values_view(v@),
    decreases parent, 0nat,
{
    let mut out: Vec<Value> = Vec::new();
    let mut i: usize = 0;
    while i < v.len()
        invariant
            i <= v@.len(),
            out@.len() == i,
            forall|j: int| 0 <= j < v@.len() ==> decreases_to!(parent => #[trigger] v@[j]),
            forall|j: int| 0 <= j < i ==> #[trigger] value_view(out@[j]) == value_view(v@[j]),
        decreases v@.len() - i,
    {
        let c = v[i].deep_clone();
        out.push(c);
        i = i + 1;
    }
    assert(values_view(out@) =~= values_view(v@));
    out
}

/// Copies a list of values.
pub fn clone_values(v: &Vec<Value>) -> (r: Vec<Value>)
    ensures
        values_view(r@) == values_view(v@),
{
    let mut out: Vec<Value> = Vec::new();
    let mut i: usize = 0;
    while i < v.len()
        invariant
            i <= v@.len(),
            out@.len() == i,
            forall|j: int| 0 <= j < i ==> #[trigger] value_view(out@[j]) == value_view(v@[j]),
        decreases v@.len() - i,
    {
        let c = v[i].deep_clone();
        out.push(c);
        i = i + 1;
    }
    assert(values_view(out@) =~= values_view(v@));
    out
}

/// Pairwise equality of two value lists inside `parent`.
fn value_list_eq(x: &Vec<Value>, y: &Vec<Value>, Ghost(parent): Ghost<Value>) -> (r: bool)
    requires
        forall|j: int| 0 <= j < x@.len() ==> decreases_to!(parent => #[trigger] x@[j]),
    ensures
        r == (x@.len() == y@.len() && forall|i: int|
            0 <= i < x@.len() ==> value_eq(#[trigger] values_view(x@)[i], values_view(y@)[i])),
    decreases parent, 0nat,
{
    if x.len() != y.len() {
        return false;
    }
    let mut i: usize = 0;
    while i < x.len()
        invariant
            i <= x@.len(),
            x@.len() == y@.len(),
            forall|j: int| 0 <= j < x@.len() ==> decreases_to!(parent => #[trigger] x@[j]),
            forall|j: int| 0 <= j < i ==> value_eq(#[trigger] values_view(x@)[j], values_view(y@)[j]),
        decreases x@.len() - i,
    {
        if !x[i].structural_eq(&y[i]) {
            assert(!value_eq(values_view(x@)[i as int], values_view(y@)[i as int]));
            return false;
        }
        i = i + 1;
    }
    true
}

/// Why a run stopped.
#[derive(Debug)]
pub enum RuntimeError {
    /// An operand that had to be a number was not.
    ExpectedNumber,
    /// A name was read or assigned before any binding of it.
    UndefinedVariable(String),
    /// A `for` loop was given something other than a list.
    CanOnlyIterateLists,
    /// Something other than a list was indexed.
    CanOnlyIndexLists,
    /// An index at or past the end of a list.
    IndexOutOfBounds(usize),
    /// `+` was applied to operands that are not two numbers or two lists.
    AdditionOperands,
    /// A call named something that is not bound.
    UndefinedFunction(String),
    /// A call named a value that is not a function.
    NotAFunction(String),
    /// A call gave a different number of arguments than the function has parameters.
    ArityMismatch { expected: usize, got: usize },
}

/// The model of a run-time error.
pub enum RuntimeErrorView {
    ExpectedNumber,
    UndefinedVariable(Seq<char>),
    CanOnlyIterateLists,
    CanOnlyIndexLists,
    IndexOutOfBounds(usize),
    AdditionOperands,
    UndefinedFunction(Seq<char>),
    NotAFunction(Seq<char>),
    ArityMismatch { expected: usize, got: usize },
}

impl RuntimeError {
    /// A copy of the error.
    pub fn deep_clone(&self) -> (r: RuntimeError)
        ensures
            r@ == self@,
    {
        match self {
            RuntimeError::ExpectedNumber => RuntimeError::ExpectedNumber,
            RuntimeError::UndefinedVariable(s) => RuntimeError::UndefinedVariable(s.clone()),
            RuntimeError::CanOnlyIterateLists => RuntimeError::CanOnlyIterateLists,
            RuntimeError::CanOnlyIndexLists => RuntimeError::CanOnlyIndexLists,
            RuntimeError::IndexOutOfBounds(n) => RuntimeError::IndexOutOfBounds(*n),
            RuntimeError::AdditionOperands => RuntimeError::AdditionOperands,
            RuntimeError::UndefinedFunction(s) => RuntimeError::UndefinedFunction(s.clone()),
            RuntimeError::NotAFunction(s) => RuntimeError::NotAFunction(s.clone()),
            RuntimeError::ArityMismatch { expected, got } => RuntimeError::ArityMismatch {
                expected: *expected,
                got: *got,
            },
        }
    }
}

impl View for RuntimeError {
    type V = RuntimeErrorView;

    open spec fn view(&self) -> RuntimeErrorView {
        match self {
            RuntimeError::ExpectedNumber => RuntimeErrorView::ExpectedNumber,
            RuntimeError::UndefinedVariable(s) => RuntimeErrorView::UndefinedVariable(s@),
            RuntimeError::CanOnlyIterateLists => RuntimeErrorView::CanOnlyIterateLists,
            RuntimeError::CanOnlyIndexLists => RuntimeErrorView::CanOnlyIndexLists,
            RuntimeError::IndexOutOfBounds(n) => RuntimeErrorView::IndexOutOfBounds(*n),
            RuntimeError::AdditionOperands => RuntimeErrorView::AdditionOperands,
            RuntimeError::UndefinedFunction(s) => RuntimeErrorView::UndefinedFunction(s@),
            RuntimeError::NotAFunction(s) => RuntimeErrorView::NotAFunction(s@),
            RuntimeError::ArityMismatch { expected, got } => RuntimeErrorView::ArityMismatch {
                expected: *expected,
                got: *got,
            },
        }
    }
}

} // verus!
