//! Laws of evaluation, proved of the semantics in `eval`.

use crate::ast::{BinOp, ExprView, UnOp};
use crate::eval::{
    args_spec, as_boolean, builtin_spec, call_spec, case_spec, eval_spec, frame, outcome, pipe_spec, step_spec,
    Context, EvalError, EvalErrorView, Outcome, Value,
};
use crate::number::{lemma_constants, NAN_BITS};
use vstd::prelude::*;

verus! {

/// Whether an outcome is the failure to stay within the allowed depth.
pub open spec fn out_of_depth<T>(r: Result<T, EvalErrorView>) -> bool {
    r == Err::<T, EvalErrorView>(EvalErrorView::DepthExceeded)
}

/// More depth does not change the outcome of an evaluation that stayed
/// within its depth.
pub proof fn law_eval_deeper(
    ctx: Context,
    env: Map<Seq<char>, Value>,
    e: ExprView,
    d1: nat,
    d2: nat,
)
    requires
        d1 <= d2,
        !out_of_depth(eval_spec(ctx, env, e, d1)),
    ensures
        eval_spec(ctx, env, e, d2) == eval_spec(ctx, env, e, d1),
    decreases d1, 0nat, 0nat,
{
    if d1 > 0 {
        let a = (d1 - 1) as nat;
        let b = (d2 - 1) as nat;
        match e {
            ExprView::Unary { op, expr } => {
                law_eval_deeper(ctx, env, *expr, a, b);
            },
            ExprView::Bin { op, left, right } => {
                law_eval_deeper(ctx, env, *left, a, b);
                if eval_spec(ctx, env, *left, a) is Ok {
                    law_eval_deeper(ctx, env, *right, a, b);
                }
            },
            ExprView::Case { arms, default } => {
                lemma_case_deeper(ctx, env, arms, *default, 0, a, b);
            },
            ExprView::Call { is_alg, name, args } => {
                lemma_args_deeper(ctx, env, args, 0, a, b);
                match args_spec(ctx, env, args, 0, a) {
                    Ok(vals) => {
                        lemma_call_deeper(ctx, is_alg, name, vals, a, b);
                    },
                    Err(_) => {},
                }
            },
            ExprView::Pipe { head, steps } => {
                law_eval_deeper(ctx, env, *head, a, b);
                match eval_spec(ctx, env, *head, a) {
                    Ok(v) => {
                        lemma_pipe_deeper(ctx, env, steps, 0, v, a, b);
                    },
                    Err(_) => {},
                }
            },
            _ => {},
        }
    }
}

/// More depth does not change the values of arguments that were evaluated
/// within their depth.
pub proof fn lemma_args_deeper(
    ctx: Context,
    env: Map<Seq<char>, Value>,
    args: Seq<ExprView>,
    i: nat,
    d1: nat,
    d2: nat,
)
    requires
        d1 <= d2,
        !out_of_depth(args_spec(ctx, env, args, i, d1)),
    ensures
        args_spec(ctx, env, args, i, d2) == args_spec(ctx, env, args, i, d1),
    decreases d1, 1nat, args.len() - i,
{
    if i < args.len() {
        law_eval_deeper(ctx, env, args[i as int], d1, d2);
        if eval_spec(ctx, env, args[i as int], d1) is Ok {
            lemma_args_deeper(ctx, env, args, i + 1, d1, d2);
        }
    }
}

/// More depth does not change the outcome of a case expression that was
/// evaluated within its depth.
pub proof fn lemma_case_deeper(
    ctx: Context,
    env: Map<Seq<char>, Value>,
    arms: Seq<(ExprView, ExprView)>,
    default: ExprView,
    i: nat,
    d1: nat,
    d2: nat,
)
    requires
        d1 <= d2,
        !out_of_depth(case_spec(ctx, env, arms, default, i, d1)),
    ensures
        case_spec(ctx, env, arms, default, i, d2) == case_spec(ctx, env, arms, default, i, d1),
    decreases d1, 1nat, arms.len() - i,
{
    if i >= arms.len() {
        law_eval_deeper(ctx, env, default, d1, d2);
    } else {
        law_eval_deeper(ctx, env, arms[i as int].0, d1, d2);
        match eval_spec(ctx, env, arms[i as int].0, d1) {
            Ok(c) => match as_boolean(c) {
                Ok(true) => {
                    law_eval_deeper(ctx, env, arms[i as int].1, d1, d2);
                },
                Ok(false) => {
                    lemma_case_deeper(ctx, env, arms, default, i + 1, d1, d2);
                },
                Err(_) => {},
            },
            Err(_) => {},
        }
    }
}

/// More depth does not change the outcome of a call that stayed within its
/// depth.
pub proof fn lemma_call_deeper(
    ctx: Context,
    is_alg: bool,
    name: Seq<char>,
    vals: Seq<Value>,
    d1: nat,
    d2: nat,
)
    requires
        d1 <= d2,
        !out_of_depth(call_spec(ctx, is_alg, name, vals, d1)),
    ensures
        call_spec(ctx, is_alg, name, vals, d2) == call_spec(ctx, is_alg, name, vals, d1),
    decreases d1, 1nat, 0nat,
{
    if ctx.world.dom().contains(name) {
        let alg = ctx.world[name];
        if alg.params.len() == vals.len() {
            law_eval_deeper(ctx, frame(alg.params, vals), alg.body, d1, d2);
        }
    }
}

/// More depth does not change the outcome of a pipeline step that stayed
/// within its depth.
pub proof fn lemma_step_deeper(
    ctx: Context,
    env: Map<Seq<char>, Value>,
    step: ExprView,
    input: Value,
    d1: nat,
    d2: nat,
)
    requires
        d1 <= d2,
        !out_of_depth(step_spec(ctx, env, step, input, d1)),
    ensures
        step_spec(ctx, env, step, input, d2) == step_spec(ctx, env, step, input, d1),
    decreases d1, 2nat, 0nat,
{
    match step {
        ExprView::Call { is_alg, name, args } => {
            lemma_args_deeper(ctx, env, args, 0, d1, d2);
            match args_spec(ctx, env, args, 0, d1) {
                Ok(vals) => {
                    lemma_call_deeper(ctx, is_alg, name, seq![input] + vals, d1, d2);
                },
                Err(_) => {},
            }
        },
        ExprView::Ident(name) => {
            lemma_call_deeper(ctx, false, name, seq![input], d1, d2);
        },
        _ => {},
    }
}

/// More depth does not change the outcome of the steps of a pipeline that
/// stayed within their depth.
pub proof fn lemma_pipe_deeper(
    ctx: Context,
    env: Map<Seq<char>, Value>,
    steps: Seq<ExprView>,
    i: nat,
    input: Value,
    d1: nat,
    d2: nat,
)
    requires
        d1 <= d2,
        !out_of_depth(pipe_spec(ctx, env, steps, i, input, d1)),
    ensures
        pipe_spec(ctx, env, steps, i, input, d2) == pipe_spec(ctx, env, steps, i, input, d1),
    decreases d1, 3nat, steps.len() - i,
{
    if i < steps.len() {
        lemma_step_deeper(ctx, env, steps[i as int], input, d1, d2);
        match step_spec(ctx, env, steps[i as int], input, d1) {
            Ok(v) => {
                lemma_pipe_deeper(ctx, env, steps, i + 1, v, d1, d2);
            },
            Err(_) => {},
        }
    }
}

/// Whether the condition of the arm `j` evaluates to `b`.
pub open spec fn condition_is(
    ctx: Context,
    env: Map<Seq<char>, Value>,
    arms: Seq<(ExprView, ExprView)>,
    j: int,
    depth: nat,
    b: bool,
) -> bool {
    eval_spec(ctx, env, arms[j].0, depth) == Ok::<Value, EvalErrorView>(Value::Bool(b))
}

/// From an arm on before which every condition is false, a case block gives
/// what it gives from the first arm on.
proof fn lemma_case_skips(
    ctx: Context,
    env: Map<Seq<char>, Value>,
    arms: Seq<(ExprView, ExprView)>,
    default: ExprView,
    k: nat,
    depth: nat,
)
    requires
        k <= arms.len(),
        forall|j: int| 0 <= j < k ==> condition_is(ctx, env, arms, j, depth, false),
    ensures
        case_spec(ctx, env, arms, default, 0, depth) == case_spec(ctx, env, arms, default, k, depth),
    decreases k,
{
    if k > 0 {
        lemma_case_skips(ctx, env, arms, default, (k - 1) as nat, depth);
        assert(condition_is(ctx, env, arms, k - 1, depth, false));
    }
}

/// A case block gives the result of the first arm whose condition is true:
/// where the conditions before the arm `k` are false and that of `k` is true,
/// the block's value is the value of the result of `k`. The arms are
/// evaluated one level deeper than the block.
pub proof fn law_case_first_match(
    ctx: Context,
    env: Map<Seq<char>, Value>,
    arms: Seq<(ExprView, ExprView)>,
    default: ExprView,
    k: nat,
    depth: nat,
)
    requires
        k < arms.len(),
        forall|j: int| 0 <= j < k ==> condition_is(ctx, env, arms, j, depth, false),
        condition_is(ctx, env, arms, k as int, depth, true),
    ensures
        eval_spec(ctx, env, ExprView::Case { arms, default: Box::new(default) }, depth + 1)
            == eval_spec(ctx, env, arms[k as int].1, depth),
{
    lemma_case_skips(ctx, env, arms, default, k, depth);
}

/// A case block none of whose conditions is true gives its default.
pub proof fn law_case_default(
    ctx: Context,
    env: Map<Seq<char>, Value>,
    arms: Seq<(ExprView, ExprView)>,
    default: ExprView,
    depth: nat,
)
    requires
        forall|j: int| 0 <= j < arms.len() ==> condition_is(ctx, env, arms, j, depth, false),
    ensures
        eval_spec(ctx, env, ExprView::Case { arms, default: Box::new(default) }, depth + 1)
            == eval_spec(ctx, env, default, depth),
{
    lemma_case_skips(ctx, env, arms, default, arms.len(), depth);
}

/// What `cond ? then | else` is to mean: the value of `then` where `cond` is
/// true, that of `else` where it is false.
pub open spec fn conditional(
    ctx: Context,
    env: Map<Seq<char>, Value>,
    cond: ExprView,
    then_e: ExprView,
    else_e: ExprView,
    depth: nat,
) -> Outcome {
    match eval_spec(ctx, env, cond, depth) {
        Err(x) => Err(x),
        Ok(c) => match as_boolean(c) {
            Err(x) => Err(x),
            Ok(true) => eval_spec(ctx, env, then_e, depth),
            Ok(false) => eval_spec(ctx, env, else_e, depth),
        },
    }
}

/// The two arms that `cond ? then | else` is parsed to, `cond -> then` and
/// `!cond -> else`, choose between `then` and `else` as a conditional does,
/// and never reach the default of their block. The negated condition is
/// evaluated one level deeper than the condition, so the law asks that the
/// condition can be evaluated with one level less.
pub proof fn law_ternary_is_conditional(
    ctx: Context,
    env: Map<Seq<char>, Value>,
    cond: ExprView,
    then_e: ExprView,
    else_e: ExprView,
    default: ExprView,
    depth: nat,
)
    requires
        depth >= 2,
        !out_of_depth(eval_spec(ctx, env, cond, (depth - 2) as nat)),
    ensures
        eval_spec(
            ctx,
            env,
            ExprView::Case {
                arms: seq![
                    (cond, then_e),
                    (ExprView::Unary { op: UnOp::Not, expr: Box::new(cond) }, else_e),
                ],
                default: Box::new(default),
            },
            depth,
        ) == conditional(ctx, env, cond, then_e, else_e, (depth - 1) as nat),
{
    let d = (depth - 1) as nat;
    let arms = seq![
        (cond, then_e),
        (ExprView::Unary { op: UnOp::Not, expr: Box::new(cond) }, else_e),
    ];
    law_eval_deeper(ctx, env, cond, (depth - 2) as nat, d);
    assert(case_spec(ctx, env, arms, default, 0, d) == conditional(
        ctx,
        env,
        cond,
        then_e,
        else_e,
        d,
    )) by {
        reveal_with_fuel(case_spec, 3);
        assert(arms[0] == (cond, then_e));
        assert(arms[1] == (ExprView::Unary { op: UnOp::Not, expr: Box::new(cond) }, else_e));
    }
}

/// The arguments of a list behind its first are evaluated as a list of their
/// own.
proof fn lemma_args_shift(
    ctx: Context,
    env: Map<Seq<char>, Value>,
    first: ExprView,
    args: Seq<ExprView>,
    i: nat,
    depth: nat,
)
    ensures
        args_spec(ctx, env, seq![first] + args, i + 1, depth) == args_spec(
            ctx,
            env,
            args,
            i,
            depth,
        ),
    decreases args.len() - i,
{
    let all = seq![first] + args;
    if i < args.len() {
        assert(all[i as int + 1] == args[i as int]);
        lemma_args_shift(ctx, env, first, args, i + 1, depth);
    }
}

/// A pipeline of one call step is the call with the head as its first
/// argument: `head >> f(args)` is `f(head, args)`.
pub proof fn law_pipe_is_call(
    ctx: Context,
    env: Map<Seq<char>, Value>,
    head: ExprView,
    is_alg: bool,
    name: Seq<char>,
    args: Seq<ExprView>,
    depth: nat,
)
    ensures
        eval_spec(
            ctx,
            env,
            ExprView::Pipe {
                head: Box::new(head),
                steps: seq![ExprView::Call { is_alg, name, args }],
            },
            depth,
        ) == eval_spec(
            ctx,
            env,
            ExprView::Call { is_alg, name, args: seq![head] + args },
            depth,
        ),
{
    if depth > 0 {
        let d = (depth - 1) as nat;
        let steps = seq![ExprView::Call { is_alg, name, args }];
        let all = seq![head] + args;
        lemma_args_shift(ctx, env, head, args, 0, d);
        assert(all[0] == head);
        assert(steps[0] == ExprView::Call { is_alg, name, args });
        assert(args_spec(ctx, env, all, 0, d) == match eval_spec(ctx, env, head, d) {
            Err(x) => Err(x),
            Ok(v) => match args_spec(ctx, env, args, 0, d) {
                Err(x) => Err(x),
                Ok(rest) => Ok(seq![v] + rest),
            },
        });
        match eval_spec(ctx, env, head, d) {
            Ok(v) => {
                assert(pipe_spec(ctx, env, steps, 0, v, d) == step_spec(ctx, env, steps[0], v, d))
                    by {
                    reveal_with_fuel(pipe_spec, 2);
                }
                assert(step_spec(ctx, env, steps[0], v, d) == match args_spec(
                    ctx,
                    env,
                    args,
                    0,
                    d,
                ) {
                    Err(x) => Err(x),
                    Ok(vals) => call_spec(ctx, is_alg, name, seq![v] + vals, d),
                });
            },
            Err(_) => {},
        }
    }
}

/// A pipeline of one bare name is the call of that name on the head:
/// `head >> f` is `f(head)`.
pub proof fn law_pipe_name_is_call(
    ctx: Context,
    env: Map<Seq<char>, Value>,
    head: ExprView,
    name: Seq<char>,
    depth: nat,
)
    ensures
        eval_spec(
            ctx,
            env,
            ExprView::Pipe { head: Box::new(head), steps: seq![ExprView::Ident(name)] },
            depth,
        ) == eval_spec(
            ctx,
            env,
            ExprView::Call { is_alg: false, name, args: seq![head] },
            depth,
        ),
{
    if depth > 0 {
        let d = (depth - 1) as nat;
        let steps = seq![ExprView::Ident(name)];
        let all = seq![head];
        assert(all[0] == head);
        assert(steps[0] == ExprView::Ident(name));
        assert(args_spec(ctx, env, all, 0, d) == match eval_spec(ctx, env, head, d) {
            Ok(v) => Ok::<Seq<Value>, EvalErrorView>(seq![v]),
            Err(x) => Err(x),
        }) by {
            reveal_with_fuel(args_spec, 2);
            match eval_spec(ctx, env, head, d) {
                Ok(v) => {
                    assert(seq![v] + Seq::<Value>::empty() =~= seq![v]);
                },
                Err(_) => {},
            }
        }
        match eval_spec(ctx, env, head, d) {
            Ok(v) => {
                assert(pipe_spec(ctx, env, steps, 0, v, d) == step_spec(ctx, env, steps[0], v, d))
                    by {
                    reveal_with_fuel(pipe_spec, 2);
                }
            },
            Err(_) => {},
        }
    }
}

/// The steps of a pipeline with one more step behind them give what that
/// step makes of what they give.
proof fn lemma_pipe_append(
    ctx: Context,
    env: Map<Seq<char>, Value>,
    steps: Seq<ExprView>,
    last: ExprView,
    i: nat,
    input: Value,
    depth: nat,
)
    requires
        i <= steps.len(),
    ensures
        pipe_spec(ctx, env, steps.push(last), i, input, depth) == match pipe_spec(
            ctx,
            env,
            steps,
            i,
            input,
            depth,
        ) {
            Err(x) => Err(x),
            Ok(v) => step_spec(ctx, env, last, v, depth),
        },
    decreases steps.len() - i,
{
    let longer = steps.push(last);
    if i < steps.len() {
        assert(longer[i as int] == steps[i as int]);
        match step_spec(ctx, env, steps[i as int], input, depth) {
            Ok(v) => {
                lemma_pipe_append(ctx, env, steps, last, i + 1, v, depth);
            },
            Err(_) => {},
        }
    } else {
        assert(longer[i as int] == last);
        reveal_with_fuel(pipe_spec, 2);
    }
}

/// The steps of a pipeline run from left to right, each on the value of the
/// pipeline before it: a pipeline with one more step gives what that step
/// makes of the value of the pipeline without it.
pub proof fn law_pipe_threads(
    ctx: Context,
    env: Map<Seq<char>, Value>,
    head: ExprView,
    steps: Seq<ExprView>,
    last: ExprView,
    depth: nat,
)
    requires
        depth > 0,
    ensures
        eval_spec(
            ctx,
            env,
            ExprView::Pipe { head: Box::new(head), steps: steps.push(last) },
            depth,
        ) == match eval_spec(ctx, env, ExprView::Pipe { head: Box::new(head), steps }, depth) {
            Err(x) => Err(x),
            Ok(v) => step_spec(ctx, env, last, v, (depth - 1) as nat),
        },
{
    let d = (depth - 1) as nat;
    match eval_spec(ctx, env, head, d) {
        Ok(v) => {
            lemma_pipe_append(ctx, env, steps, last, 0, v, d);
        },
        Err(_) => {},
    }
}

/// A pipeline that ends in a bare name is the call of that name on the
/// pipeline before it: `p >> f` is `f(p)`, wherever evaluating `p >> f`
/// stays within the allowed depth. The call nests one level deeper.
pub proof fn law_pipe_is_nested_call(
    ctx: Context,
    env: Map<Seq<char>, Value>,
    head: ExprView,
    steps: Seq<ExprView>,
    name: Seq<char>,
    depth: nat,
)
    requires
        depth > 0,
        !out_of_depth(
            eval_spec(
                ctx,
                env,
                ExprView::Pipe { head: Box::new(head), steps: steps.push(ExprView::Ident(name)) },
                depth,
            ),
        ),
    ensures
        eval_spec(
            ctx,
            env,
            ExprView::Call {
                is_alg: false,
                name,
                args: seq![ExprView::Pipe { head: Box::new(head), steps }],
            },
            depth + 1,
        ) == eval_spec(
            ctx,
            env,
            ExprView::Pipe { head: Box::new(head), steps: steps.push(ExprView::Ident(name)) },
            depth,
        ),
{
    let d = (depth - 1) as nat;
    let inner = ExprView::Pipe { head: Box::new(head), steps };
    let args = seq![inner];
    law_pipe_threads(ctx, env, head, steps, ExprView::Ident(name), depth);
    assert(args[0] == inner);
    assert(args_spec(ctx, env, args, 0, depth) == match eval_spec(ctx, env, inner, depth) {
        Ok(v) => Ok::<Seq<Value>, EvalErrorView>(seq![v]),
        Err(x) => Err(x),
    }) by {
        reveal_with_fuel(args_spec, 2);
        match eval_spec(ctx, env, inner, depth) {
            Ok(v) => {
                assert(seq![v] + Seq::<Value>::empty() =~= seq![v]);
            },
            Err(_) => {},
        }
    }
    match eval_spec(ctx, env, inner, depth) {
        Ok(v) => {
            lemma_call_deeper(ctx, false, name, seq![v], d, depth);
        },
        Err(_) => {},
    }
}

/// `NaN == NaN` is true, in every frame and against every registry.
pub proof fn law_nan_equals_nan(
    ctx: Context,
    params: Seq<Seq<char>>,
    args: Seq<Value>,
    depth: nat,
)
    requires
        depth >= 2,
    ensures
        eval_spec(
            ctx,
            frame(params, args),
            ExprView::Bin {
                op: BinOp::Eq,
                left: Box::new(ExprView::Ident("NaN"@)),
                right: Box::new(ExprView::Ident("NaN"@)),
            },
            depth,
        ) == Ok::<Value, EvalErrorView>(Value::Bool(true)),
{
    lemma_constants();
    reveal_with_fuel(eval_spec, 2);
    assert(frame(params, args).dom().contains("NaN"@));
    assert(frame(params, args)["NaN"@] == Value::Number(NAN_BITS));
}

/// As many values come out of a list of arguments as it has arguments.
pub proof fn lemma_args_len(
    ctx: Context,
    env: Map<Seq<char>, Value>,
    args: Seq<ExprView>,
    i: nat,
    depth: nat,
)
    requires
        i <= args.len(),
    ensures
        args_spec(ctx, env, args, i, depth) matches Ok(vals) ==> vals.len() == args.len() - i,
    decreases args.len() - i,
{
    if i < args.len() {
        lemma_args_len(ctx, env, args, i + 1, depth);
    }
}

/// A call of an algorithm with another number of arguments than it has
/// parameters fails with an arity mismatch, once the arguments have been
/// evaluated.
pub proof fn law_arity_mismatch(
    ctx: Context,
    env: Map<Seq<char>, Value>,
    is_alg: bool,
    name: Seq<char>,
    args: Seq<ExprView>,
    depth: nat,
)
    requires
        depth > 0,
        ctx.world.dom().contains(name),
        ctx.world[name].params.len() != args.len(),
        args_spec(ctx, env, args, 0, (depth - 1) as nat) is Ok,
    ensures
        eval_spec(ctx, env, ExprView::Call { is_alg, name, args }, depth) == Err::<
            Value,
            EvalErrorView,
        >(
            EvalErrorView::ArityMismatch {
                expected: ctx.world[name].params.len(),
                got: args.len(),
            },
        ),
{
    let d = (depth - 1) as nat;
    lemma_args_len(ctx, env, args, 0, d);
    let vals = args_spec(ctx, env, args, 0, d)->Ok_0;
    assert(vals.len() == args.len());
    assert(call_spec(ctx, is_alg, name, vals, d) == Err::<Value, EvalErrorView>(
        EvalErrorView::ArityMismatch { expected: ctx.world[name].params.len(), got: vals.len() },
    ));
}

/// Evaluation has no hidden state: any two results that the evaluator may
/// return for one expression, registry, frame, kernel and depth are the same
/// outcome, and the same value bit for bit where they are values.
pub proof fn law_repeatable(
    ctx: Context,
    env: Map<Seq<char>, Value>,
    e: ExprView,
    depth: nat,
    first: Result<Value, EvalError>,
    second: Result<Value, EvalError>,
)
    requires
        outcome(first) == eval_spec(ctx, env, e, depth),
        outcome(second) == eval_spec(ctx, env, e, depth),
    ensures
        outcome(first) == outcome(second),
        first is Ok ==> second is Ok && first->Ok_0 == second->Ok_0,
{
}

/// The frame of a call holds the algorithm's parameters and the constants,
/// and nothing of the caller's frame: a call whose arguments have the same
/// values in two frames has the same outcome in both.
pub proof fn law_frames_are_isolated(
    ctx: Context,
    env1: Map<Seq<char>, Value>,
    env2: Map<Seq<char>, Value>,
    is_alg: bool,
    name: Seq<char>,
    args: Seq<ExprView>,
    depth: nat,
)
    requires
        depth > 0,
        args_spec(ctx, env1, args, 0, (depth - 1) as nat) == args_spec(
            ctx,
            env2,
            args,
            0,
            (depth - 1) as nat,
        ),
    ensures
        eval_spec(ctx, env1, ExprView::Call { is_alg, name, args }, depth) == eval_spec(
            ctx,
            env2,
            ExprView::Call { is_alg, name, args },
            depth,
        ),
{
}

/// A call goes to the algorithm of its name wherever the registry has one,
/// marked with `@` or not; only a name that the registry lacks reaches the
/// built-in functions, and only where the call is not marked.
pub proof fn law_call_resolution(
    ctx: Context,
    is_alg: bool,
    name: Seq<char>,
    vals: Seq<Value>,
    depth: nat,
)
    ensures
        ctx.world.dom().contains(name) ==> call_spec(ctx, is_alg, name, vals, depth) == call_spec(
            ctx,
            !is_alg,
            name,
            vals,
            depth,
        ),
        !ctx.world.dom().contains(name) && is_alg ==> call_spec(ctx, is_alg, name, vals, depth)
            == Err::<Value, EvalErrorView>(EvalErrorView::UnknownAlgorithm(name)),
        !ctx.world.dom().contains(name) && !is_alg ==> call_spec(ctx, is_alg, name, vals, depth)
            == builtin_spec(ctx.kernel, name, vals),
{
}

} // verus!

