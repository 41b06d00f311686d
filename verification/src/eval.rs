//! The evaluator: a tree walk over an expression, against a registry of
//! algorithms and the variables of one call frame.

use crate::ast::{
    arms_view, exprs_view, lemma_expr_view, names_view, AlgorithmDef, AlgorithmDefView, BinOp,
    Expr, ExprView, UnOp,
};
use crate::lexer::{is_number_literal, number_literal};
use crate::number::{
    ask, kernel_model, kernel_ready, num_abs, num_abs_spec, num_eq, num_eq_spec, num_le,
    num_le_spec, num_lt, num_lt_spec, num_neg, num_neg_spec, ArithOp, KernelModel, NumRequest,
    NumRequestView, INFINITY_BITS, NAN_BITS,
};
use crate::text::{concat, decimal, push_decimal, str_eq};
use vstd::prelude::*;
use vstd::string::*;

verus! {

/// How many expressions may be under evaluation at once, one inside the
/// other, before evaluation gives up.
pub const MAX_DEPTH: usize = 500;

/// A value of the language: a number, held as its binary64 bits, or a boolean.
#[derive(Debug, Clone, Copy, PartialEq, Eq, Structural)]
pub enum Value {
    Number(u64),
    Bool(bool),
}

/// The two kinds of value.
#[derive(Debug, Clone, Copy, PartialEq, Eq, Structural)]
pub enum Kind {
    Number,
    Bool,
}

/// Why an evaluation failed.
#[derive(Debug, PartialEq)]
#[allow(inconsistent_fields)]
pub enum EvalError {
    /// A name that is no variable of the frame.
    UnknownIdentifier(String),
    /// `@name(..)` where the registry has no such algorithm.
    UnknownAlgorithm(String),
    /// A call of a name that is neither an algorithm nor built in.
    UnknownFunction(String),
    /// A call with the wrong number of arguments.
    ArityMismatch { expected: usize, got: usize },
    /// An operand of the wrong kind.
    KindMismatch { expected: Kind, got: Value },
    /// A pipeline step that is neither a name nor a call.
    BadPipeStep,
    /// A numeric literal that is not digits, optionally followed by `.` and
    /// digits.
    BadNumber(String),
    /// More than the allowed number of nested evaluations.
    DepthExceeded,
}

/// The mathematical value of an [`EvalError`].
#[allow(inconsistent_fields)]
pub ghost enum EvalErrorView {
    UnknownIdentifier(Seq<char>),
    UnknownAlgorithm(Seq<char>),
    UnknownFunction(Seq<char>),
    ArityMismatch { expected: nat, got: nat },
    KindMismatch { expected: Kind, got: Value },
    BadPipeStep,
    BadNumber(Seq<char>),
    DepthExceeded,
}

impl View for EvalError {
    type V = EvalErrorView;

    open spec fn view(&self) -> EvalErrorView {
        match self {
            EvalError::UnknownIdentifier(s) => EvalErrorView::UnknownIdentifier(s@),
            EvalError::UnknownAlgorithm(s) => EvalErrorView::UnknownAlgorithm(s@),
            EvalError::UnknownFunction(s) => EvalErrorView::UnknownFunction(s@),
            EvalError::ArityMismatch { expected, got } => EvalErrorView::ArityMismatch {
                expected: *expected as nat,
                got: *got as nat,
            },
            EvalError::KindMismatch { expected, got } => EvalErrorView::KindMismatch {
                expected: *expected,
                got: *got,
            },
            EvalError::BadPipeStep => EvalErrorView::BadPipeStep,
            EvalError::BadNumber(s) => EvalErrorView::BadNumber(s@),
            EvalError::DepthExceeded => EvalErrorView::DepthExceeded,
        }
    }
}

/// The outcome of an evaluation, as a mathematical value.
pub type Outcome = Result<Value, EvalErrorView>;

/// The mathematical value of what a step of an evaluation returns.
pub open spec fn outcome<T>(r: Result<T, EvalError>) -> Result<T, EvalErrorView> {
    match r {
        Ok(v) => Ok(v),
        Err(e) => Err(e@),
    }
}

/// The map in which each of the first `n` keys is bound to the value at its
/// position; where a key occurs more than once, its last occurrence counts.
pub open spec fn last_wins<V>(keys: Seq<Seq<char>>, values: Seq<V>, n: nat) -> Map<Seq<char>, V>
    decreases n,
{
    if n == 0 {
        Map::empty()
    } else {
        last_wins(keys, values, (n - 1) as nat).insert(keys[n - 1], values[n - 1])
    }
}

/// A key that none of the first `n` entries has is not bound.
pub proof fn lemma_last_wins_missing<V>(
    keys: Seq<Seq<char>>,
    values: Seq<V>,
    n: nat,
    key: Seq<char>,
)
    requires
        forall|j: int| 0 <= j < n ==> keys[j] != key,
    ensures
        !last_wins(keys, values, n).dom().contains(key),
    decreases n,
{
    if n > 0 {
        lemma_last_wins_missing(keys, values, (n - 1) as nat, key);
    }
}

/// A key is bound to the value of the last entry that has it.
pub proof fn lemma_last_wins_found<V>(
    keys: Seq<Seq<char>>,
    values: Seq<V>,
    n: nat,
    key: Seq<char>,
    i: int,
)
    requires
        0 <= i < n,
        keys[i] == key,
        forall|j: int| i < j < n ==> keys[j] != key,
    ensures
        last_wins(keys, values, n).dom().contains(key),
        last_wins(keys, values, n)[key] == values[i],
    decreases n,
{
    if i < n - 1 {
        lemma_last_wins_found(keys, values, (n - 1) as nat, key, i);
    }
}

/// The variables of a call frame with the given parameters bound to the given
/// arguments: the parameters, the last of two with one name counting, and
/// over them the constants `inf` and `NaN`.
pub open spec fn frame(params: Seq<Seq<char>>, args: Seq<Value>) -> Map<Seq<char>, Value> {
    last_wins(params, args, params.len()).insert("inf"@, Value::Number(INFINITY_BITS)).insert(
        "NaN"@,
        Value::Number(NAN_BITS),
    )
}

/// The registry that a sequence of definitions gives: each name with the
/// last definition of that name.
pub open spec fn registry(defs: Seq<AlgorithmDefView>) -> Map<Seq<char>, AlgorithmDefView> {
    last_wins(defs.map_values(|d: AlgorithmDefView| d.name), defs, defs.len())
}

/// The values of a sequence of definitions, in order.
pub open spec fn defs_view(defs: Seq<AlgorithmDef>) -> Seq<AlgorithmDefView> {
    defs.map_values(|d: AlgorithmDef| d@)
}

/// What an evaluation is made against, besides the frame's variables: the
/// registry of algorithms and the numeric kernel.
pub ghost struct Context {
    pub world: Map<Seq<char>, AlgorithmDefView>,
    pub kernel: KernelModel,
}

/// The number in `v`, or the kind mismatch that a boolean there is.
pub open spec fn as_number(v: Value) -> Result<u64, EvalErrorView> {
    match v {
        Value::Number(x) => Ok(x),
        Value::Bool(_) => Err(EvalErrorView::KindMismatch { expected: Kind::Number, got: v }),
    }
}

/// The boolean in `v`, or the kind mismatch that a number there is.
pub open spec fn as_boolean(v: Value) -> Result<bool, EvalErrorView> {
    match v {
        Value::Bool(b) => Ok(b),
        Value::Number(_) => Err(EvalErrorView::KindMismatch { expected: Kind::Bool, got: v }),
    }
}

/// A unary operator applied to a value.
pub open spec fn unary_spec(op: UnOp, v: Value) -> Outcome {
    match op {
        UnOp::Neg => match as_number(v) {
            Ok(x) => Ok(Value::Number(num_neg_spec(x))),
            Err(e) => Err(e),
        },
        UnOp::Not => match as_boolean(v) {
            Ok(b) => Ok(Value::Bool(!b)),
            Err(e) => Err(e),
        },
    }
}

/// A binary operator applied to two numbers.
pub open spec fn numeric_spec(kernel: KernelModel, op: BinOp, a: u64, b: u64) -> Value {
    match op {
        BinOp::Add => Value::Number(kernel(NumRequestView::Arith(ArithOp::Add, a, b))),
        BinOp::Sub => Value::Number(kernel(NumRequestView::Arith(ArithOp::Sub, a, b))),
        BinOp::Mul => Value::Number(kernel(NumRequestView::Arith(ArithOp::Mul, a, b))),
        BinOp::Div => Value::Number(kernel(NumRequestView::Arith(ArithOp::Div, a, b))),
        BinOp::Mod => Value::Number(kernel(NumRequestView::Arith(ArithOp::Rem, a, b))),
        BinOp::Pow => Value::Number(kernel(NumRequestView::Arith(ArithOp::Pow, a, b))),
        BinOp::Eq => Value::Bool(num_eq_spec(a, b)),
        BinOp::Ne => Value::Bool(!num_eq_spec(a, b)),
        BinOp::Lt => Value::Bool(num_lt_spec(a, b)),
        BinOp::Le => Value::Bool(num_le_spec(a, b)),
        BinOp::Gt => Value::Bool(num_lt_spec(b, a)),
        BinOp::Ge => Value::Bool(num_le_spec(b, a)),
        BinOp::And | BinOp::Or => Value::Bool(false),
    }
}

/// A binary operator applied to two values, both already evaluated. `&&` and
/// `||` take booleans, every other operator takes numbers; the left operand's
/// kind is checked first.
pub open spec fn binary_spec(kernel: KernelModel, op: BinOp, lv: Value, rv: Value) -> Outcome {
    match op {
        BinOp::And | BinOp::Or => match as_boolean(lv) {
            Err(e) => Err(e),
            Ok(a) => match as_boolean(rv) {
                Err(e) => Err(e),
                Ok(b) => Ok(
                    Value::Bool(
                        if op == BinOp::And {
                            a && b
                        } else {
                            a || b
                        },
                    ),
                ),
            },
        },
        _ => match as_number(lv) {
            Err(e) => Err(e),
            Ok(a) => match as_number(rv) {
                Err(e) => Err(e),
                Ok(b) => Ok(numeric_spec(kernel, op, a, b)),
            },
        },
    }
}

/// A built-in function applied to argument values: `sqrt` and `abs`, of one
/// number each.
pub open spec fn builtin_spec(kernel: KernelModel, name: Seq<char>, vals: Seq<Value>) -> Outcome {
    if name == "sqrt"@ || name == "abs"@ {
        if vals.len() != 1 {
            Err(EvalErrorView::ArityMismatch { expected: 1, got: vals.len() })
        } else {
            match as_number(vals[0]) {
                Err(e) => Err(e),
                Ok(x) => if name == "sqrt"@ {
                    Ok(Value::Number(kernel(NumRequestView::Sqrt(x))))
                } else {
                    Ok(Value::Number(num_abs_spec(x)))
                },
            }
        }
    } else {
        Err(EvalErrorView::UnknownFunction(name))
    }
}

/// The value of `e` in the frame `env`, with `depth` nested evaluations
/// allowed: `e` itself counts as one, each operand, argument, arm and step
/// that is evaluated inside it as one more, and so does the body of a called
/// algorithm.
pub open spec fn eval_spec(ctx: Context, env: Map<Seq<char>, Value>, e: ExprView, depth: nat) -> Outcome
    decreases depth, 0nat, 0nat,
{
    if depth == 0 {
        Err(EvalErrorView::DepthExceeded)
    } else {
        let d = (depth - 1) as nat;
        match e {
            ExprView::Number(text) => if number_literal(text) {
                Ok(Value::Number((ctx.kernel)(NumRequestView::Literal(text))))
            } else {
                Err(EvalErrorView::BadNumber(text))
            },
            ExprView::Bool(b) => Ok(Value::Bool(b)),
            ExprView::Ident(name) => if env.dom().contains(name) {
                Ok(env[name])
            } else {
                Err(EvalErrorView::UnknownIdentifier(name))
            },
            ExprView::Unary { op, expr } => match eval_spec(ctx, env, *expr, d) {
                Err(x) => Err(x),
                Ok(v) => unary_spec(op, v),
            },
            ExprView::Bin { op, left, right } => match eval_spec(ctx, env, *left, d) {
                Err(x) => Err(x),
                Ok(lv) => match eval_spec(ctx, env, *right, d) {
                    Err(x) => Err(x),
                    Ok(rv) => binary_spec(ctx.kernel, op, lv, rv),
                },
            },
            ExprView::Case { arms, default } => case_spec(ctx, env, arms, *default, 0, d),
            ExprView::Call { is_alg, name, args } => match args_spec(ctx, env, args, 0, d) {
                Err(x) => Err(x),
                Ok(vals) => call_spec(ctx, is_alg, name, vals, d),
            },
            ExprView::Pipe { head, steps } => match eval_spec(ctx, env, *head, d) {
                Err(x) => Err(x),
                Ok(v) => pipe_spec(ctx, env, steps, 0, v, d),
            },
        }
    }
}

/// The values of the arguments from the `i`-th on, evaluated from left to
/// right; the first failure among them, if one fails.
pub open spec fn args_spec(
    ctx: Context,
    env: Map<Seq<char>, Value>,
    args: Seq<ExprView>,
    i: nat,
    depth: nat,
) -> Result<Seq<Value>, EvalErrorView>
    decreases depth, 1nat, args.len() - i,
{
    if i >= args.len() {
        Ok(Seq::empty())
    } else {
        match eval_spec(ctx, env, args[i as int], depth) {
            Err(x) => Err(x),
            Ok(v) => match args_spec(ctx, env, args, i + 1, depth) {
                Err(x) => Err(x),
                Ok(rest) => Ok(seq![v] + rest),
            },
        }
    }
}

/// The value of a case expression from its `i`-th arm on: the result of the
/// first arm whose condition is true, the default where none is. Arms behind
/// that one are not evaluated. A condition that fails, or gives a number,
/// fails the whole.
pub open spec fn case_spec(
    ctx: Context,
    env: Map<Seq<char>, Value>,
    arms: Seq<(ExprView, ExprView)>,
    default: ExprView,
    i: nat,
    depth: nat,
) -> Outcome
    decreases depth, 1nat, arms.len() - i,
{
    if i >= arms.len() {
        eval_spec(ctx, env, default, depth)
    } else {
        match eval_spec(ctx, env, arms[i as int].0, depth) {
            Err(x) => Err(x),
            Ok(c) => match as_boolean(c) {
                Err(x) => Err(x),
                Ok(true) => eval_spec(ctx, env, arms[i as int].1, depth),
                Ok(false) => case_spec(ctx, env, arms, default, i + 1, depth),
            },
        }
    }
}

/// A call of `name` on argument values. It goes to the algorithm of that name
/// where the call is marked with `@` or the registry has the name, in a new
/// frame that holds the algorithm's parameters and nothing of the caller's;
/// otherwise to the built-in functions.
pub open spec fn call_spec(
    ctx: Context,
    is_alg: bool,
    name: Seq<char>,
    vals: Seq<Value>,
    depth: nat,
) -> Outcome
    decreases depth, 1nat, 0nat,
{
    if ctx.world.dom().contains(name) {
        let alg = ctx.world[name];
        if alg.params.len() != vals.len() {
            Err(EvalErrorView::ArityMismatch { expected: alg.params.len(), got: vals.len() })
        } else {
            eval_spec(ctx, frame(alg.params, vals), alg.body, depth)
        }
    } else if is_alg {
        Err(EvalErrorView::UnknownAlgorithm(name))
    } else {
        builtin_spec(ctx.kernel, name, vals)
    }
}

/// One pipeline step applied to the value `input`: a call gets `input` as its
/// first argument, before the arguments that are written; a bare name is
/// called on `input` alone; anything else is no step.
pub open spec fn step_spec(
    ctx: Context,
    env: Map<Seq<char>, Value>,
    step: ExprView,
    input: Value,
    depth: nat,
) -> Outcome
    decreases depth, 2nat, 0nat,
{
    match step {
        ExprView::Call { is_alg, name, args } => match args_spec(ctx, env, args, 0, depth) {
            Err(x) => Err(x),
            Ok(vals) => call_spec(ctx, is_alg, name, seq![input] + vals, depth),
        },
        ExprView::Ident(name) => call_spec(ctx, false, name, seq![input], depth),
        _ => Err(EvalErrorView::BadPipeStep),
    }
}

/// The value of a pipeline from its `i`-th step on, with `input` the value
/// that comes out of the steps before.
pub open spec fn pipe_spec(
    ctx: Context,
    env: Map<Seq<char>, Value>,
    steps: Seq<ExprView>,
    i: nat,
    input: Value,
    depth: nat,
) -> Outcome
    decreases depth, 3nat, steps.len() - i,
{
    if i >= steps.len() {
        Ok(input)
    } else {
        match step_spec(ctx, env, steps[i as int], input, depth) {
            Err(x) => Err(x),
            Ok(v) => pipe_spec(ctx, env, steps, i + 1, v, depth),
        }
    }
}

impl Value {
    /// The number in this value.
    pub fn as_number(&self) -> (r: Result<u64, EvalError>)
        ensures
            outcome(r) == as_number(*self),
    {
        match self {
            Value::Number(x) => Ok(*x),
            Value::Bool(_) => Err(EvalError::KindMismatch { expected: Kind::Number, got: *self }),
        }
    }

    /// The boolean in this value.
    pub fn as_bool(&self) -> (r: Result<bool, EvalError>)
        ensures
            outcome(r) == as_boolean(*self),
    {
        match self {
            Value::Bool(b) => Ok(*b),
            Value::Number(_) => Err(EvalError::KindMismatch { expected: Kind::Bool, got: *self }),
        }
    }
}

/// The variables of one call frame.
pub struct Env {
    vars: Vec<(String, Value)>,
}

impl Env {
    /// The names bound in this frame, in the order of binding.
    pub closed spec fn keys(&self) -> Seq<Seq<char>> {
        self.vars@.map_values(|p: (String, Value)| p.0@)
    }

    /// The values bound in this frame, in the order of binding.
    pub closed spec fn values(&self) -> Seq<Value> {
        self.vars@.map_values(|p: (String, Value)| p.1)
    }

    /// A frame for a call: each parameter bound to the argument at its
    /// position. Fails where the two differ in number.
    pub fn with_params(params: &[String], args: &[Value]) -> (r: Result<Env, EvalError>)
        ensures
            match r {
                Ok(env) => params@.len() == args@.len() && env@ == frame(
                    names_view(params@),
                    args@,
                ),
                Err(e) => params@.len() != args@.len() && e@ == (EvalErrorView::ArityMismatch {
                    expected: params@.len(),
                    got: args@.len(),
                }),
            },
    {
        if params.len() != args.len() {
            return Err(EvalError::ArityMismatch { expected: params.len(), got: args.len() });
        }
        let mut vars: Vec<(String, Value)> = Vec::new();
        let mut i: usize = 0;
        while i < params.len()
            invariant
                params@.len() == args@.len(),
                i <= params@.len(),
                vars@.len() == i,
                forall|j: int|
                    0 <= j < i ==> (#[trigger] vars@[j]).0@ == params@[j]@ && vars@[j].1 == args@[j],
            decreases params@.len() - i,
        {
            vars.push((params[i].clone(), args[i]));
            i += 1;
        }
        let env = Env { vars };
        assert(env.keys() =~= names_view(params@));
        assert(env.values() =~= args@);
        Ok(env)
    }

    /// The frame of a free-standing expression: the constants alone.
    pub fn base() -> (env: Env)
        ensures
            env@ == frame(Seq::empty(), Seq::empty()),
    {
        let env = Env { vars: Vec::new() };
        assert(env.keys() =~= Seq::empty());
        assert(env.values() =~= Seq::empty());
        env
    }

    /// The value bound to `name`, if any.
    pub fn get(&self, name: &str) -> (r: Option<Value>)
        ensures
            r == (if self@.dom().contains(name@) {
                Some(self@[name@])
            } else {
                None::<Value>
            }),
    {
        if str_eq(name, "NaN") {
            return Some(Value::Number(NAN_BITS));
        }
        if str_eq(name, "inf") {
            return Some(Value::Number(INFINITY_BITS));
        }
        let mut i: usize = self.vars.len();
        while i > 0
            invariant
                i <= self.vars@.len(),
                name@ != "inf"@,
                name@ != "NaN"@,
                forall|j: int| i <= j < self.vars@.len() ==> self.keys()[j] != name@,
            decreases i,
        {
            i -= 1;
            if str_eq(self.vars[i].0.as_str(), name) {
                proof {
                    assert(self.keys()[i as int] == name@);
                    assert(self.values()[i as int] == self.vars@[i as int].1);
                    lemma_last_wins_found(
                        self.keys(),
                        self.values(),
                        self.keys().len(),
                        name@,
                        i as int,
                    );
                }
                return Some(self.vars[i].1);
            }
            assert(self.keys()[i as int] != name@);
        }
        proof {
            lemma_last_wins_missing(self.keys(), self.values(), self.keys().len(), name@);
        }
        None
    }
}

impl View for Env {
    type V = Map<Seq<char>, Value>;

    closed spec fn view(&self) -> Map<Seq<char>, Value> {
        frame(self.keys(), self.values())
    }
}

/// The registry of algorithms that an evaluation reads: each name with the
/// last definition of that name.
pub struct World<'a> {
    defs: &'a [AlgorithmDef],
}

impl<'a> View for World<'a> {
    type V = Map<Seq<char>, AlgorithmDefView>;

    closed spec fn view(&self) -> Map<Seq<char>, AlgorithmDefView> {
        registry(defs_view(self.defs@))
    }
}

impl<'a> World<'a> {
    /// The registry of the given definitions.
    pub fn new(defs: &'a [AlgorithmDef]) -> (w: World<'a>)
        ensures
            w@ == registry(defs_view(defs@)),
    {
        World { defs }
    }

    /// The definition registered under `name`, if any.
    pub fn lookup(&self, name: &str) -> (r: Option<&'a AlgorithmDef>)
        ensures
            match r {
                Some(d) => self@.dom().contains(name@) && d@ == self@[name@],
                None => !self@.dom().contains(name@),
            },
    {
        let ghost views = defs_view(self.defs@);
        let ghost keys = views.map_values(|d: AlgorithmDefView| d.name);
        let mut i: usize = self.defs.len();
        while i > 0
            invariant
                i <= self.defs@.len(),
                views == defs_view(self.defs@),
                keys == views.map_values(|d: AlgorithmDefView| d.name),
                forall|j: int| i <= j < self.defs@.len() ==> keys[j] != name@,
            decreases i,
        {
            i -= 1;
            if str_eq(self.defs[i].name.as_str(), name) {
                proof {
                    lemma_last_wins_found(keys, views, views.len(), name@, i as int);
                }
                return Some(&self.defs[i]);
            }
        }
        proof {
            lemma_last_wins_missing(keys, views, views.len(), name@);
        }
        None
    }
}

/// What an evaluation against `world` with `kernel` is made against.
pub open spec fn context<K: Fn(NumRequest) -> u64>(world: &World, kernel: &K) -> Context {
    Context { world: world@, kernel: kernel_model(kernel) }
}

/// Checks that a call has `n` arguments, and gives them back.
pub fn expect_arity(vals: &[Value], n: usize) -> (r: Result<&[Value], EvalError>)
    ensures
        match r {
            Ok(v) => vals@.len() == n && v@ == vals@,
            Err(e) => vals@.len() != n && e@ == (EvalErrorView::ArityMismatch {
                expected: n as nat,
                got: vals@.len(),
            }),
        },
{
    if vals.len() != n {
        Err(EvalError::ArityMismatch { expected: n, got: vals.len() })
    } else {
        Ok(vals)
    }
}

/// Applies a unary operator to a value.
pub fn apply_unary(op: UnOp, v: Value) -> (r: Result<Value, EvalError>)
    ensures
        outcome(r) == unary_spec(op, v),
{
    match op {
        UnOp::Neg => match v.as_number() {
            Ok(x) => Ok(Value::Number(num_neg(x))),
            Err(e) => Err(e),
        },
        UnOp::Not => match v.as_bool() {
            Ok(b) => Ok(Value::Bool(!b)),
            Err(e) => Err(e),
        },
    }
}

/// Applies a binary operator to two values.
pub fn apply_binary<K: Fn(NumRequest) -> u64>(kernel: &K, op: BinOp, lv: Value, rv: Value) -> (r:
    Result<Value, EvalError>)
    requires
        kernel_ready(kernel),
    ensures
        outcome(r) == binary_spec(kernel_model(kernel), op, lv, rv),
{
    match op {
        BinOp::And | BinOp::Or => {
            let a = match lv.as_bool() {
                Ok(a) => a,
                Err(e) => {
                    return Err(e);
                },
            };
            let b = match rv.as_bool() {
                Ok(b) => b,
                Err(e) => {
                    return Err(e);
                },
            };
            match op {
                BinOp::And => Ok(Value::Bool(a && b)),
                _ => Ok(Value::Bool(a || b)),
            }
        },
        _ => {
            let a = match lv.as_number() {
                Ok(a) => a,
                Err(e) => {
                    return Err(e);
                },
            };
            let b = match rv.as_number() {
                Ok(b) => b,
                Err(e) => {
                    return Err(e);
                },
            };
            let v = match op {
                BinOp::Add => Value::Number(ask(kernel, NumRequest::Arith(ArithOp::Add, a, b))),
                BinOp::Sub => Value::Number(ask(kernel, NumRequest::Arith(ArithOp::Sub, a, b))),
                BinOp::Mul => Value::Number(ask(kernel, NumRequest::Arith(ArithOp::Mul, a, b))),
                BinOp::Div => Value::Number(ask(kernel, NumRequest::Arith(ArithOp::Div, a, b))),
                BinOp::Mod => Value::Number(ask(kernel, NumRequest::Arith(ArithOp::Rem, a, b))),
                BinOp::Pow => Value::Number(ask(kernel, NumRequest::Arith(ArithOp::Pow, a, b))),
                BinOp::Eq => Value::Bool(num_eq(a, b)),
                BinOp::Ne => Value::Bool(!num_eq(a, b)),
                BinOp::Lt => Value::Bool(num_lt(a, b)),
                BinOp::Le => Value::Bool(num_le(a, b)),
                BinOp::Gt => Value::Bool(num_lt(b, a)),
                BinOp::Ge => Value::Bool(num_le(b, a)),
                BinOp::And | BinOp::Or => Value::Bool(false),
            };
            Ok(v)
        },
    }
}

/// Calls a built-in function on argument values.
pub fn call_builtin<K: Fn(NumRequest) -> u64>(kernel: &K, name: &str, vals: &Vec<Value>) -> (r:
    Result<Value, EvalError>)
    requires
        kernel_ready(kernel),
    ensures
        outcome(r) == builtin_spec(kernel_model(kernel), name@, vals@),
{
    let is_sqrt = str_eq(name, "sqrt");
    let is_abs = str_eq(name, "abs");
    if is_sqrt || is_abs {
        match expect_arity(vals.as_slice(), 1) {
            Err(e) => Err(e),
            Ok(v) => match v[0].as_number() {
                Err(e) => Err(e),
                Ok(x) => if is_sqrt {
                    Ok(Value::Number(ask(kernel, NumRequest::Sqrt(x))))
                } else {
                    Ok(Value::Number(num_abs(x)))
                },
            },
        }
    } else {
        Err(EvalError::UnknownFunction(name.to_owned()))
    }
}

/// A sequence of values put before the values of an outcome.
pub open spec fn prepend(prefix: Seq<Value>, r: Result<Seq<Value>, EvalErrorView>) -> Result<
    Seq<Value>,
    EvalErrorView,
> {
    match r {
        Ok(rest) => Ok(prefix + rest),
        Err(x) => Err(x),
    }
}

/// Evaluates the arguments of a call, from left to right, and appends their
/// values to `vals`.
fn eval_args<K: Fn(NumRequest) -> u64>(
    world: &World,
    env: &Env,
    args: &Vec<Expr>,
    vals: Vec<Value>,
    depth: usize,
    kernel: &K,
) -> (r: Result<Vec<Value>, EvalError>)
    requires
        kernel_ready(kernel),
    ensures
        match r {
            Ok(all) => Ok::<Seq<Value>, EvalErrorView>(all@),
            Err(e) => Err(e@),
        } == prepend(
            vals@,
            args_spec(context(world, kernel), env@, exprs_view(args@), 0, depth as nat),
        ),
    decreases depth, 1nat, 0nat,
{
    let ghost ctx = context(world, kernel);
    let ghost views = exprs_view(args@);
    let ghost given = vals@;
    let ghost mut done: Seq<Value> = Seq::empty();
    let mut vals = vals;
    let mut i: usize = 0;
    assert(given + done =~= given);
    while i < args.len()
        invariant
            kernel_ready(kernel),
            ctx == context(world, kernel),
            views == exprs_view(args@),
            i <= args@.len(),
            vals@ == given + done,
            args_spec(ctx, env@, views, 0, depth as nat) == prepend(
                done,
                args_spec(ctx, env@, views, i as nat, depth as nat),
            ),
        decreases args@.len() - i,
    {
        match eval_bounded(world, env, &args[i], depth, kernel) {
            Err(e) => {
                return Err(e);
            },
            Ok(v) => {
                vals.push(v);
                proof {
                    let rest = args_spec(ctx, env@, views, (i + 1) as nat, depth as nat);
                    assert(prepend(done, prepend(seq![v], rest)) == prepend(done.push(v), rest))
                        by {
                        if rest is Ok {
                            assert(done + (seq![v] + rest->Ok_0) =~= done.push(v) + rest->Ok_0);
                        }
                    }
                    assert(given + done.push(v) =~= (given + done).push(v));
                    done = done.push(v);
                }
            },
        }
        i += 1;
    }
    assert(done + Seq::<Value>::empty() =~= done);
    Ok(vals)
}

/// Calls `name` on argument values: the algorithm of that name where the call
/// is marked or the registry has the name, a built-in function otherwise.
pub fn call_name<K: Fn(NumRequest) -> u64>(
    world: &World,
    is_alg: bool,
    name: &str,
    vals: Vec<Value>,
    depth: usize,
    kernel: &K,
) -> (r: Result<Value, EvalError>)
    requires
        kernel_ready(kernel),
    ensures
        outcome(r) == call_spec(context(world, kernel), is_alg, name@, vals@, depth as nat),
    decreases depth, 1nat, 0nat,
{
    match world.lookup(name) {
        Some(alg) => match Env::with_params(alg.params.as_slice(), vals.as_slice()) {
            Err(e) => Err(e),
            Ok(local) => eval_bounded(world, &local, &alg.body, depth, kernel),
        },
        None => if is_alg {
            Err(EvalError::UnknownAlgorithm(name.to_owned()))
        } else {
            call_builtin(kernel, name, &vals)
        },
    }
}

/// Applies one pipeline step to the value that comes into it.
pub fn apply_step<K: Fn(NumRequest) -> u64>(
    world: &World,
    env: &Env,
    step: &Expr,
    input: Value,
    depth: usize,
    kernel: &K,
) -> (r: Result<Value, EvalError>)
    requires
        kernel_ready(kernel),
    ensures
        outcome(r) == step_spec(context(world, kernel), env@, step@, input, depth as nat),
    decreases depth, 2nat, 0nat,
{
    proof {
        lemma_expr_view(*step);
    }
    match step {
        Expr::Call { is_alg, name, args } => {
            let mut vals: Vec<Value> = Vec::new();
            vals.push(input);
            assert(vals@ =~= seq![input]);
            match eval_args(world, env, args, vals, depth, kernel) {
                Err(e) => Err(e),
                Ok(all) => call_name(world, *is_alg, name.as_str(), all, depth, kernel),
            }
        },
        Expr::Ident(name) => {
            let mut vals: Vec<Value> = Vec::new();
            vals.push(input);
            assert(vals@ =~= seq![input]);
            call_name(world, false, name.as_str(), vals, depth, kernel)
        },
        _ => Err(EvalError::BadPipeStep),
    }
}

/// Evaluates `e` in the frame `env`, with at most `depth` evaluations nested
/// one inside the other.
pub fn eval_bounded<K: Fn(NumRequest) -> u64>(
    world: &World,
    env: &Env,
    e: &Expr,
    depth: usize,
    kernel: &K,
) -> (r: Result<Value, EvalError>)
    requires
        kernel_ready(kernel),
    ensures
        outcome(r) == eval_spec(context(world, kernel), env@, e@, depth as nat),
    decreases depth, 0nat, 0nat,
{
    if depth == 0 {
        return Err(EvalError::DepthExceeded);
    }
    let d: usize = depth - 1;
    let ghost ctx = context(world, kernel);
    proof {
        lemma_expr_view(*e);
    }
    match e {
        Expr::Number(text) => {
            if is_number_literal(text.as_str()) {
                Ok(Value::Number(ask(kernel, NumRequest::Literal(text.clone()))))
            } else {
                Err(EvalError::BadNumber(text.clone()))
            }
        },
        Expr::Bool(b) => Ok(Value::Bool(*b)),
        Expr::Ident(name) => match env.get(name.as_str()) {
            Some(v) => Ok(v),
            None => Err(EvalError::UnknownIdentifier(name.clone())),
        },
        Expr::Unary { op, expr } => match eval_bounded(world, env, expr, d, kernel) {
            Err(x) => Err(x),
            Ok(v) => apply_unary(*op, v),
        },
        Expr::Bin { op, left, right } => match eval_bounded(world, env, left, d, kernel) {
            Err(x) => Err(x),
            Ok(lv) => match eval_bounded(world, env, right, d, kernel) {
                Err(x) => Err(x),
                Ok(rv) => apply_binary(kernel, *op, lv, rv),
            },
        },
        Expr::Case { arms, default } => {
            let ghost views = arms_view(arms@);
            let mut i: usize = 0;
            while i < arms.len()
                invariant
                    kernel_ready(kernel),
                    ctx == context(world, kernel),
                    views == arms_view(arms@),
                    d < depth,
                    i <= arms@.len(),
                    eval_spec(ctx, env@, e@, depth as nat) == case_spec(
                        ctx,
                        env@,
                        views,
                        default@,
                        i as nat,
                        d as nat,
                    ),
                decreases arms@.len() - i,
            {
                let c = match eval_bounded(world, env, &arms[i].0, d, kernel) {
                    Err(x) => {
                        return Err(x);
                    },
                    Ok(c) => c,
                };
                match c.as_bool() {
                    Err(x) => {
                        return Err(x);
                    },
                    Ok(true) => {
                        return eval_bounded(world, env, &arms[i].1, d, kernel);
                    },
                    Ok(false) => {},
                }
                i += 1;
            }
            eval_bounded(world, env, default, d, kernel)
        },
        Expr::Call { is_alg, name, args } => {
            match eval_args(world, env, args, Vec::new(), d, kernel) {
                Err(x) => Err(x),
                Ok(vals) => {
                    assert(Seq::<Value>::empty() + vals@ =~= vals@);
                    call_name(world, *is_alg, name.as_str(), vals, d, kernel)
                },
            }
        },
        Expr::Pipe { head, steps } => {
            let mut val = match eval_bounded(world, env, head, d, kernel) {
                Err(x) => {
                    return Err(x);
                },
                Ok(v) => v,
            };
            let ghost views = exprs_view(steps@);
            let mut i: usize = 0;
            while i < steps.len()
                invariant
                    kernel_ready(kernel),
                    ctx == context(world, kernel),
                    views == exprs_view(steps@),
                    d < depth,
                    i <= steps@.len(),
                    eval_spec(ctx, env@, e@, depth as nat) == pipe_spec(
                        ctx,
                        env@,
                        views,
                        i as nat,
                        val,
                        d as nat,
                    ),
                decreases steps@.len() - i,
            {
                val = match apply_step(world, env, &steps[i], val, d, kernel) {
                    Err(x) => {
                        return Err(x);
                    },
                    Ok(v) => v,
                };
                i += 1;
            }
            Ok(val)
        },
    }
}

/// Evaluates `e` in the frame `env`, against the algorithms of `world`, with
/// the arithmetic of `kernel`.
pub fn eval_expr<K: Fn(NumRequest) -> u64>(world: &World, env: &Env, e: &Expr, kernel: &K) -> (r:
    Result<Value, EvalError>)
    requires
        kernel_ready(kernel),
    ensures
        outcome(r) == eval_spec(context(world, kernel), env@, e@, MAX_DEPTH as nat),
{
    eval_bounded(world, env, e, MAX_DEPTH, kernel)
}

/// The numbers of a sequence of bit patterns, as values.
pub open spec fn numbers(bits: Seq<u64>) -> Seq<Value> {
    bits.map_values(|b: u64| Value::Number(b))
}

/// What running the algorithm `name` on the numbers `args` gives: the value
/// of its body in a frame of its parameters.
pub open spec fn run_spec(ctx: Context, name: Seq<char>, args: Seq<u64>) -> Outcome {
    if !ctx.world.dom().contains(name) {
        Err(EvalErrorView::UnknownAlgorithm(name))
    } else {
        let alg = ctx.world[name];
        if alg.params.len() != args.len() {
            Err(EvalErrorView::ArityMismatch { expected: alg.params.len(), got: args.len() })
        } else {
            eval_spec(ctx, frame(alg.params, numbers(args)), alg.body, MAX_DEPTH as nat)
        }
    }
}

/// Runs the algorithm `name` of `defs` on the numbers `args`.
pub fn run_alg<K: Fn(NumRequest) -> u64>(
    defs: &[AlgorithmDef],
    name: &str,
    args: Vec<u64>,
    kernel: &K,
) -> (r: Result<Value, EvalError>)
    requires
        kernel_ready(kernel),
    ensures
        outcome(r) == run_spec(
            Context { world: registry(defs_view(defs@)), kernel: kernel_model(kernel) },
            name@,
            args@,
        ),
{
    let world = World::new(defs);
    let alg = match world.lookup(name) {
        Some(alg) => alg,
        None => {
            return Err(EvalError::UnknownAlgorithm(name.to_owned()));
        },
    };
    let mut vals: Vec<Value> = Vec::new();
    let mut i: usize = 0;
    while i < args.len()
        invariant
            i <= args@.len(),
            vals@.len() == i,
            forall|j: int| 0 <= j < i ==> vals@[j] == Value::Number(args@[j]),
        decreases args@.len() - i,
    {
        vals.push(Value::Number(args[i]));
        i += 1;
    }
    assert(vals@ =~= numbers(args@));
    match Env::with_params(alg.params.as_slice(), vals.as_slice()) {
        Err(e) => Err(e),
        Ok(env) => eval_expr(&world, &env, &alg.body, kernel),
    }
}

/// The name of a kind of value.
pub open spec fn kind_name(kind: Kind) -> Seq<char> {
    match kind {
        Kind::Number => "number"@,
        Kind::Bool => "bool"@,
    }
}

/// What a value is called in a message: a boolean by its value, a number
/// without it.
pub open spec fn value_name(v: Value) -> Seq<char> {
    match v {
        Value::Bool(true) => "Bool(true)"@,
        Value::Bool(false) => "Bool(false)"@,
        Value::Number(_) => "a number"@,
    }
}

/// The message of an evaluation error.
pub open spec fn message_spec(e: EvalErrorView) -> Seq<char> {
    match e {
        EvalErrorView::UnknownIdentifier(name) => "unknown identifier: "@ + name,
        EvalErrorView::UnknownAlgorithm(name) => "unknown algorithm: "@ + name,
        EvalErrorView::UnknownFunction(name) => "unknown function: "@ + name,
        EvalErrorView::ArityMismatch { expected, got } => "argument count mismatch: expected "@
            + decimal(expected) + ", got "@ + decimal(got),
        EvalErrorView::KindMismatch { expected, got } => "expected "@ + kind_name(expected)
            + ", got "@ + value_name(got),
        EvalErrorView::BadPipeStep => "pipeline step must be a call or name"@,
        EvalErrorView::BadNumber(text) => "bad number literal: "@ + text,
        EvalErrorView::DepthExceeded => "evaluation nested too deeply"@,
    }
}

impl EvalError {
    /// The message of this error, for a reader.
    pub fn message(&self) -> (r: String)
        ensures
            r@ == message_spec(self@),
    {
        match self {
            EvalError::UnknownIdentifier(name) => concat("unknown identifier: ", name.as_str()),
            EvalError::UnknownAlgorithm(name) => concat("unknown algorithm: ", name.as_str()),
            EvalError::UnknownFunction(name) => concat("unknown function: ", name.as_str()),
            EvalError::ArityMismatch { expected, got } => {
                let mut r = "argument count mismatch: expected ".to_owned();
                push_decimal(&mut r, *expected as u128);
                r.append(", got ");
                push_decimal(&mut r, *got as u128);
                r
            },
            EvalError::KindMismatch { expected, got } => {
                let mut r = concat(
                    "expected ",
                    match expected {
                        Kind::Number => "number",
                        Kind::Bool => "bool",
                    },
                );
                r.append(", got ");
                r.append(
                    match got {
                        Value::Bool(true) => "Bool(true)",
                        Value::Bool(false) => "Bool(false)",
                        Value::Number(_) => "a number",
                    },
                );
                r
            },
            EvalError::BadPipeStep => "pipeline step must be a call or name".to_owned(),
            EvalError::BadNumber(text) => concat("bad number literal: ", text.as_str()),
            EvalError::DepthExceeded => "evaluation nested too deeply".to_owned(),
        }
    }
}

} // verus!



