//! What holds of every run of the evaluator, whatever the host answers.
use vstd::prelude::*;

use crate::ast::{ArrayElem, Class, ClassMember, Expr, MemberKind, Stmt, SwitchCase};
use crate::interp::class::{
    build_class_step, class_heritage_step, define_members_from, define_members_step,
    eval_class_step, eval_class_strict_step, member_key_step, stamp_privates_step, ClassParts,
};
use crate::interp::dynamic::{
    create_names_from, create_names_step, eval_declaration_instantiation_step, perform_eval_step,
};
use crate::interp::eval::{
    call_located_step, eval_args_step, eval_operator_step, eval_prop_key_step, eval_step,
    eval_wrapping_step, wants_right_step, Target,
};
use crate::interp::exec::{
    await_round_step, await_rounds_from, await_rounds_step, check_namespace_step,
    declare_cases_step, dispose_each_from, dispose_frame_step, dispose_one_step, do_round_step,
    exec_block_step, exec_c_for_body_step, exec_do_while_from, exec_do_while_step,
    exec_for_await_step, exec_for_in_of_step, exec_for_init_step, exec_for_of_step, exec_for_step,
    exec_labeled_step, exec_protected_step, exec_simple_step, exec_stmt_step, exec_switch_step,
    exec_try_step, exec_while_from, exec_while_step, filled, find_case_step, for_round_step,
    for_rounds_from, for_rounds_step, head_value_step, in_round_step, in_rounds_from,
    in_rounds_step, init_disposes, of_round_step, of_rounds_from, of_rounds_step, only_waits,
    round_scope_step, run_case_step, run_cases_from, run_cases_step, settle_step, test_holds_step,
    while_round_step, LoopStep,
};
use crate::interp::object::{
    assign_target_from, assign_target_step, assign_var_step, enum_keys_step, get_var_step,
    get_var_with_from, get_var_with_step, put_resolved_step, AssignTo, RefBase, Resolved,
};
use crate::interp::operate::{
    byte_length, concat_step, get_iterator_step, is_callable_step, make_suppressed_step,
    strict_equals_step, subject_text_step, throws, throws_about, to_boolean_step, MAX_STR_LEN,
};
use crate::interp::program::{
    add_namespace_step, define_methods_step, describe_throw_step, NativeOp, Outcome,
};
use crate::interp::promise::{drain_microtasks_from, drain_microtasks_step, run_job_step};
use crate::interp::session::{
    asks, asks_flag, Abrupt, Completion, Disposable, Env, ErrorKind, Flags, Key, Name,
    PrivateMember, Request, Subject, Value, World,
};
use crate::interp::suspend::async_iterator_step;
use crate::modules::resolve::Found;
use crate::scan::{callee_text, labeled_with};
use crate::scope::{block_names, declaration, BindingView, Declare, Scope, ScopesView, Stop, Write};
use crate::value::props::{private_accessor, Property};

verus! {

/// Whether an end is a jump that only a loop around it can take.
pub open spec fn unlabeled_jump(c: Completion<'_>) -> bool {
    matches!(c, Err(Abrupt::Break(None, _)) | Err(Abrupt::Continue(None, _)))
}

/// Whether a statement or a loop completes with a value.
pub open spec fn nonempty(c: Completion<'_>) -> bool {
    c matches Ok(v) ==> v != Value::Empty
}

/// Evaluated code leaves the strictness of its caller as it was, however it ends.
pub proof fn evaluated_code_keeps_strictness<'a>(
    body: &'a Vec<Stmt>,
    caller: usize,
    direct: bool,
    super_call: bool,
    depth: u64,
    w: World<'a>,
)
    ensures
        perform_eval_step(body, caller, direct, super_call, depth, w).1.strict == w.strict,
{
}

/// A class definition is strict code, and leaves the strictness around it as it was, however it ends.
pub proof fn classes_keep_strictness<'a>(
    class: &'a Class,
    env: Env,
    name: Option<Name<'a>>,
    depth: u64,
    w: World<'a>,
)
    ensures
        eval_class_step(class, env, name, depth, w).1.strict == w.strict,
        eval_class_step(class, env, name, depth, w).0 == eval_class_strict_step(
            class,
            env,
            name,
            depth,
            World { strict: true, ..w },
).0,
{
}

/// The operand that a logical operator does not ask for has no effect: any other could stand in its place.
pub proof fn unwanted_operand_is_ignored<'a>(
    one: &'a Expr,
    other: &'a Expr,
    env: Env,
    depth: u64,
    w: World<'a>,
)
    requires
        one matches Expr::Logical { op, left, .. } && other matches Expr::Logical {
            op: same,
            left: l,
            ..
        } && op == same && left == l && {
            let (v, after) = eval_step(&**left, env, depth, w);
            v is Ok ==> wants_right_step(*op, v->Ok_0, after).0 != Ok::<bool, Abrupt<'a>>(true)
        },
    ensures
        eval_step(one, env, depth, w) == eval_step(other, env, depth, w),
{
    reveal_with_fuel(eval_step, 2);
    reveal_with_fuel(eval_operator_step, 2);
}

/// The branch that a condition does not choose has no effect: any other could stand in its place.
pub proof fn other_branch_is_ignored<'a>(
    one: &'a Expr,
    other: &'a Expr,
    env: Env,
    depth: u64,
    w: World<'a>,
)
    requires
        one matches Expr::Cond { test, cons, alt } && other matches Expr::Cond {
            test: same,
            cons: c,
            alt: a,
        } && test == same && {
            let (v, after) = eval_step(&**test, env, depth, w);
            v is Ok ==> match to_boolean_step(v->Ok_0, after).0 {
                Ok(true) => cons == c,
                Ok(false) => alt == a,
                Err(_) => true,
            }
        },
    ensures
        eval_step(one, env, depth, w) == eval_step(other, env, depth, w),
{
    reveal_with_fuel(eval_step, 2);
    reveal_with_fuel(eval_operator_step, 2);
}

/// The branch that an `if` does not take has no effect: any other could stand in its place.
pub proof fn untaken_branch_is_ignored<'a>(
    one: &'a Stmt,
    other: &'a Stmt,
    env: Env,
    depth: u64,
    w: World<'a>,
)
    requires
        one matches Stmt::If { test, cons, alt } && other matches Stmt::If {
            test: same,
            cons: c,
            alt: a,
        } && test == same && match test_holds_step(test, env, depth, w).0 {
            Ok(true) => cons == c,
            Ok(false) => alt == a,
            Err(_) => true,
        },
    ensures
        exec_stmt_step(one, env, depth, w) == exec_stmt_step(other, env, depth, w),
{
    reveal_with_fuel(exec_stmt_step, 2);
    reveal_with_fuel(exec_simple_step, 2);
}

/// An optional chain keeps to itself that it was cut short.
pub proof fn chain_keeps_its_cut<'a>(e: &'a Expr, env: Env, depth: u64, w: World<'a>)
    requires
        e is OptionalChain,
    ensures
        eval_step(e, env, depth, w).1.short == w.short,
{
    reveal_with_fuel(eval_step, 2);
    reveal_with_fuel(eval_wrapping_step, 2);
}

proof fn lemma_while_from<'a>(
    whole: &'a Stmt,
    st: &'a Stmt,
    env: Env,
    k: nat,
    v: Value,
    depth: u64,
    w: World<'a>,
)
    requires
        v != Value::Empty,
    ensures
        nonempty(exec_while_from(whole, st, env, depth, k, v, w).0),
        !unlabeled_jump(exec_while_from(whole, st, env, depth, k, v, w).0),
    decreases k,
{
    if k > 0 {
        let w1 = asks(Request::Checkpoint, w).1;
        let (step, w2) = while_round_step(st, env, depth, w1);
        if let Ok(LoopStep::Continue(x)) = settle_step(step, whole, v, w2).0 {
            lemma_while_from(whole, st, env, (k - 1) as nat, x, depth, w2);
        }
    }
}

proof fn lemma_do_while_from<'a>(
    whole: &'a Stmt,
    st: &'a Stmt,
    env: Env,
    k: nat,
    v: Value,
    due: bool,
    depth: u64,
    w: World<'a>,
)
    requires
        v != Value::Empty,
    ensures
        nonempty(exec_do_while_from(whole, st, env, depth, k, v, due, w).0),
        !unlabeled_jump(exec_do_while_from(whole, st, env, depth, k, v, due, w).0),
    decreases k,
{
    if k > 0 {
        let w1 = asks(Request::Checkpoint, w).1;
        let (step, w2) = do_round_step(st, due, env, depth, w1);
        if let Ok(LoopStep::Continue(x)) = settle_step(step, whole, v, w2).0 {
            lemma_do_while_from(whole, st, env, (k - 1) as nat, x, step is Err, depth, w2);
        }
    }
}

/// A `while` or `do` loop takes every jump without a label that its body makes, and completes with a value.
pub proof fn loops_take_their_jumps<'a>(st: &'a Stmt, env: Env, depth: u64, w: World<'a>)
    requires
        st is While || st is DoWhile,
    ensures
        !unlabeled_jump(exec_stmt_step(st, env, depth, w).0),
        nonempty(exec_stmt_step(st, env, depth, w).0),
{
    reveal_with_fuel(exec_stmt_step, 2);
    reveal_with_fuel(exec_while_step, 2);
    reveal_with_fuel(exec_do_while_step, 2);
    lemma_while_from(st, st, env, w.limit, Value::Undefined, depth, w);
    lemma_do_while_from(st, st, env, w.limit, Value::Undefined, false, depth, w);
}

proof fn lemma_dispose_each<'a>(
    frame: Seq<Disposable>,
    result: Completion<'a>,
    i: nat,
    completion: Completion<'a>,
    w: World<'a>,
)
    requires
        completion is Err,
    ensures
        dispose_each_from(frame, result, i, completion, w).0.0 is Err,
    decreases i,
{
    if i > 0 {
        let d: Disposable = frame[i - 1];
        let below: nat = (i - 1) as nat;
        if only_waits(d) {
            lemma_dispose_each(frame, result, below, completion, w);
        } else {
            let (r, w1) = dispose_one_step(d, w);
            lemma_dispose_each(frame, result, below, completion, w1);
            if let Err(Abrupt::Throw(e)) = r {
                lemma_dispose_each(frame, result, below, Err(Abrupt::Throw(e)), w1);
                if let Err(Abrupt::Throw(before)) = completion {
                    let (x, w2) = make_suppressed_step(e, before, w1);
                    if let Ok(v) = x {
                        lemma_dispose_each(frame, result, below, Err(Abrupt::Throw(v)), w2);
                    }
                }
            }
        }
    }
}

proof fn lemma_for_from<'a>(
    whole: &'a Stmt,
    st: &'a Stmt,
    env: Env,
    k: nat,
    v: Value,
    first: bool,
    cur: Env,
    depth: u64,
    w: World<'a>,
)
    requires
        v != Value::Empty,
    ensures
        nonempty(for_rounds_from(whole, st, env, depth, k, v, first, cur, w).0),
    decreases k,
{
    if k > 0 {
        let w1 = asks(Request::Checkpoint, w).1;
        let (scope, w2) = if first {
            (Ok(cur), w1)
        } else {
            round_scope_step(st, cur, w1)
        };
        if let Ok(sc) = scope {
            let (step, w3) = for_round_step(st, first, sc, depth, w2);
            if let Ok(LoopStep::Continue(x)) = settle_step(step, whole, v, w3).0 {
                lemma_for_from(whole, st, env, (k - 1) as nat, x, false, sc, depth, w3);
            }
        }
    }
}

proof fn lemma_of_from<'a>(
    whole: &'a Stmt,
    st: &'a Stmt,
    iter: Value,
    method: Value,
    env: Env,
    k: nat,
    v: Value,
    depth: u64,
    w: World<'a>,
)
    requires
        v != Value::Empty,
    ensures
        nonempty(of_rounds_from(whole, st, iter, method, env, depth, k, v, w).0.0),
    decreases k,
{
    if k > 0 {
        let w1 = asks(Request::Checkpoint, w).1;
        let (r, w2) = of_round_step(st, iter, method, env, depth, w1);
        if let Ok(LoopStep::Continue(x)) = settle_step(r.0, whole, v, w2).0 {
            lemma_of_from(whole, st, iter, method, env, (k - 1) as nat, x, depth, w2);
        }
    }
}

proof fn lemma_await_from<'a>(
    whole: &'a Stmt,
    st: &'a Stmt,
    iter: Value,
    method: Value,
    from_sync: bool,
    env: Env,
    k: nat,
    v: Value,
    depth: u64,
    w: World<'a>,
)
    requires
        v != Value::Empty,
    ensures
        nonempty(await_rounds_from(whole, st, iter, method, from_sync, env, depth, k, v, w).0.0),
    decreases k,
{
    if k > 0 {
        let w1 = asks(Request::Checkpoint, w).1;
        let (r, w2) = await_round_step(st, iter, method, from_sync, env, depth, w1);
        if let Ok(LoopStep::Continue(x)) = settle_step(r.0, whole, v, w2).0 {
            lemma_await_from(whole, st, iter, method, from_sync, env, (k - 1) as nat, x, depth, w2);
        }
    }
}

proof fn lemma_in_from<'a>(
    whole: &'a Stmt,
    st: &'a Stmt,
    rhs: Value,
    keys: u64,
    env: Env,
    k: nat,
    v: Value,
    depth: u64,
    w: World<'a>,
)
    requires
        v != Value::Empty,
    ensures
        nonempty(in_rounds_from(whole, st, rhs, keys, env, depth, k, v, w).0),
    decreases k,
{
    if k > 0 {
        let w1 = asks(Request::Checkpoint, w).1;
        let (step, w2) = in_round_step(st, rhs, keys, env, depth, w1);
        if let Ok(LoopStep::Continue(x)) = settle_step(step, whole, v, w2).0 {
            lemma_in_from(whole, st, rhs, keys, env, (k - 1) as nat, x, depth, w2);
        }
    }
}

proof fn lemma_cases_from<'a>(
    cases: &'a Vec<SwitchCase>,
    start: usize,
    env: Env,
    i: nat,
    v: Value,
    depth: u64,
    w: World<'a>,
)
    ensures
        nonempty(run_cases_from(cases, start, env, depth, i, v, w).0),
    decreases cases@.len() - i,
{
    if i < cases@.len() {
        if i < start {
            lemma_cases_from(cases, start, env, i + 1, v, depth, w);
        } else {
            let (go, w1) = run_case_step(&cases@[i as int].body, v, env, depth, w);
            if let Ok(LoopStep::Continue(x)) = go {
                lemma_cases_from(cases, start, env, i + 1, x, depth, w1);
            }
        }
    }
}

proof fn lemma_dispose_value<'a>(
    frame: Seq<Disposable>,
    result: Completion<'a>,
    i: nat,
    completion: Completion<'a>,
    w: World<'a>,
)
    requires
        nonempty(completion),
    ensures
        nonempty(dispose_each_from(frame, result, i, completion, w).0.0),
    decreases i,
{
    if completion is Err {
        lemma_dispose_each(frame, result, i, completion, w);
    } else if i > 0 {
        let d: Disposable = frame[i - 1];
        let below: nat = (i - 1) as nat;
        if only_waits(d) {
            lemma_dispose_value(frame, result, below, completion, w);
        } else {
            let (r, w1) = dispose_one_step(d, w);
            lemma_dispose_value(frame, result, below, completion, w1);
            if let Err(Abrupt::Throw(e)) = r {
                lemma_dispose_each(frame, result, below, Err(Abrupt::Throw(e)), w1);
            }
        }
    }
}

proof fn lemma_for_body_completes<'a>(st: &'a Stmt, scope: Env, depth: u64, w: World<'a>)
    requires
        st is For,
    ensures
        nonempty(exec_c_for_body_step(st, st, scope, depth, w).0),
{
    if let Stmt::For { init, .. } = st {
        let w1 = exec_for_init_step(init, scope, depth, w).1;
        if let (Ok(inner), w2) = round_scope_step(st, scope, w1) {
            lemma_for_from(st, st, inner, w2.limit, Value::Undefined, true, inner, depth, w2);
            assert(nonempty(for_rounds_step(st, st, inner, depth, w2).0));
        }
    }
}

proof fn lemma_for_completes<'a>(st: &'a Stmt, env: Env, depth: u64, w: World<'a>)
    requires
        st is For,
    ensures
        nonempty(exec_for_step(st, st, env, depth, w).0),
{
    if let Stmt::For { init, .. } = st {
        {
            let scope = w.next_scope();
            let w1 = w.new_scope(Some(env), None, false, false);
            if init_disposes(init) {
                lemma_for_body_completes(st, scope, depth, w1.push_frame());
                let (r, w2) = exec_c_for_body_step(st, st, scope, depth, w1.push_frame());
                let frame = w2.top_frame();
                lemma_dispose_value(frame, r, frame.len(), r, w2.pop_frame());
            } else {
                lemma_for_body_completes(st, scope, depth, w1);
            }
        }
    }
}

proof fn lemma_for_of_completes<'a>(st: &'a Stmt, rhs: Value, env: Env, depth: u64, w: World<'a>)
    ensures
        nonempty(exec_for_of_step(st, st, rhs, env, depth, w).0),
{
    if let (Ok(it), w1) = get_iterator_step(rhs, w) {
        lemma_of_from(st, st, it.0, it.1, env, w1.limit, Value::Undefined, depth, w1);
        assert(nonempty(of_rounds_step(st, st, it.0, it.1, env, depth, w1).0.0));
    }
}

proof fn lemma_for_await_completes<'a>(st: &'a Stmt, rhs: Value, env: Env, depth: u64, w: World<'a>)
    ensures
        nonempty(exec_for_await_step(st, st, rhs, env, depth, w).0),
{
    if let (Ok(it), w1) = async_iterator_step(rhs, w) {
        let (m, w2) = asks(Request::GetMember { base: it.0, key: Key::Fixed("next") }, w1);
        if let Ok(method) = m {
            lemma_await_from(st, st, it.0, method, it.2, env, w2.limit, Value::Undefined, depth, w2);
            assert(nonempty(await_rounds_step(st, st, it.0, method, it.2, env, depth, w2).0.0));
        }
    }
}

proof fn lemma_for_in_of_completes<'a>(st: &'a Stmt, env: Env, depth: u64, w: World<'a>)
    requires
        st is ForInOf,
    ensures
        nonempty(exec_for_in_of_step(st, st, env, depth, w).0),
{
    if let Stmt::ForInOf { decl, left, right, of, is_await, .. } = st {
        if let (Ok(rhs), w1) = head_value_step(decl, left, right, env, depth, w) {
            lemma_for_of_completes(st, rhs, env, depth, w1);
            lemma_for_await_completes(st, rhs, env, depth, w1);
            let w2 = check_namespace_step(rhs, w1).1;
            if let (Ok(keys), w3) = enum_keys_step(rhs, w2) {
                lemma_in_from(st, st, rhs, keys, env, w3.limit, Value::Undefined, depth, w3);
                assert(nonempty(in_rounds_step(st, st, rhs, keys, env, depth, w3).0));
            }
        }
    }
}

proof fn lemma_switch_completes<'a>(st: &'a Stmt, env: Env, depth: u64, w: World<'a>)
    requires
        st is Switch,
    ensures
        nonempty(exec_switch_step(st, env, depth, w).0),
{
    if let Stmt::Switch { disc, cases } = st {
        if let (Ok(d), w1) = eval_step(disc, env, depth, w) {
            {
                let scope = w1.next_scope();
                let w2 = w1.new_scope(Some(env), None, false, false);
                let w3 = declare_cases_step(cases, scope, w2).1;
                if let (Ok(Some(start)), w4) = find_case_step(cases, d, scope, depth, w3) {
                    lemma_cases_from(cases, start, scope, 0, Value::Empty, depth, w4);
                    assert(nonempty(run_cases_step(cases, start, scope, depth, w4).0));
                }
            }
        }
    }
}

/// A branch, a loop, a `with`, a `switch` and a `try` complete with a value, though what they hold may not.
pub proof fn compound_statements_complete<'a>(st: &'a Stmt, env: Env, depth: u64, w: World<'a>)
    requires
        st is If || st is With || st is Try || st is While || st is DoWhile || st is For
            || st is ForInOf || st is Switch,
    ensures
        nonempty(exec_stmt_step(st, env, depth, w).0),
{
    reveal_with_fuel(exec_stmt_step, 2);
    reveal_with_fuel(exec_simple_step, 2);
    reveal_with_fuel(exec_try_step, 2);
    if st is While || st is DoWhile {
        loops_take_their_jumps(st, env, depth, w);
    } else if st is For {
        lemma_for_completes(st, env, depth, w);
    } else if st is ForInOf {
        lemma_for_in_of_completes(st, env, depth, w);
    } else if st is Switch {
        lemma_switch_completes(st, env, depth, w);
    }
}

/// A `break` to a label ends at the statement that bears it.
pub proof fn labels_take_their_breaks<'a>(st: &'a Stmt, env: Env, depth: u64, w: World<'a>)
    requires
        st is Labeled,
    ensures
        exec_stmt_step(st, env, depth, w).0 matches Err(Abrupt::Break(Some(l), _)) ==> !labeled_with(st, l@),
{
    reveal_with_fuel(exec_stmt_step, 2);
    reveal_with_fuel(exec_labeled_step, 2);
}

/// A `finally` that ends early overrides what the rest of its `try` came to.
pub proof fn finally_has_the_last_word<'a>(st: &'a Stmt, env: Env, depth: u64, w: World<'a>)
    requires
        st matches Stmt::Try { finalizer: Some(f), .. } && {
            let done = exec_protected_step(st, env, depth, w).1;
            let parked = done.set_flags(Flags { pending: None, ..done.flags });
            exec_block_step(f, env, depth, parked).0 is Err
        },
    ensures
        st matches Stmt::Try { finalizer: Some(f), .. } && {
            let done = exec_protected_step(st, env, depth, w).1;
            let parked = done.set_flags(Flags { pending: None, ..done.flags });
            exec_stmt_step(st, env, depth, w).0 == Err::<Value, Abrupt<'a>>(
                filled(exec_block_step(f, env, depth, parked).0->Err_0, Value::Undefined),
            )
        },
{
    reveal_with_fuel(exec_stmt_step, 2);
    reveal_with_fuel(exec_try_step, 2);
}

/// Disposing of resources never turns an early end into a normal one.
pub proof fn disposal_keeps_failing<'a>(
    frame: Seq<Disposable>,
    result: Completion<'a>,
    w: World<'a>,
)
    requires
        result is Err,
    ensures
        dispose_frame_step(frame, result, w).0 is Err,
{
    lemma_dispose_each(frame, result, frame.len(), result, w);
}

// ---- variables

/// A binding that takes a value is still where the search for its name stops.
proof fn lemma_stop_stays<'a>(
    s: ScopesView<'a>,
    e: Env,
    name: Seq<char>,
    b: BindingView<'a>,
    env: Env,
    other: Seq<char>,
)
    requires
        s.binds(e, name),
    ensures
        s.bound(e, name, b).stop(env, other) == s.stop(env, other),
    decreases env,
{
    let t = s.bound(e, name, b);
    assert(t.binds(env, other) == s.binds(env, other));
    assert(t.around(env) == s.around(env));
    if let Some(p) = s.around(env) {
        lemma_stop_stays(s, e, name, b, p, other);
    }
}

/// A variable reads as what it was last given: assigning to a name that a scope binds asks the host for
/// nothing, and reading the name from there gives the value back.
pub proof fn variables_read_back<'a>(
    name: Name<'a>,
    value: Value,
    env: Env,
    e: Env,
    w: World<'a>,
)
    requires
        w.limit > 0,
        w.scopes.stop(env, name.chars()) == Stop::Scope(e),
        w.scopes.write_view(e, name.chars(), w.strict) == Write::Stored,
        w.scopes.import_at(e, name.chars()) is None,
    ensures
        ({
            let after = World { scopes: w.scopes.stored(e, name.chars(), value), ..w };
            &&& assign_var_step(name, value, env, w) == (Ok::<(), Abrupt<'a>>(()), after)
            &&& get_var_step(name, env, after) == (Ok::<Value, Abrupt<'a>>(value), after)
        }),
{
    let n = name.chars();
    let s = w.scopes;
    lemma_stop_binds(s, env, n);
    let b = BindingView { value, initialized: true, ..s.scopes[e as int].vars[n] };
    lemma_stop_stays(s, e, n, b, env, n);
    let t = s.stored(e, n, value);
    assert(t.binds(e, n));
    assert(t.binding_at(e, n) == b);
    let after = World { scopes: t, ..w };
    reveal_with_fuel(assign_target_from, 2);
    reveal_with_fuel(get_var_with_from, 2);
    assert(assign_target_step(name, env, w) == (Ok::<AssignTo, Abrupt<'a>>(AssignTo::Scope(e)), w));
    assert(get_var_with_step(name, env, after).0 == Ok::<Resolved, Abrupt<'a>>(
        Resolved { value, receiver: None },
    ));
}

/// A search that stops at a scope has found a binding there.
proof fn lemma_stop_binds<'a>(s: ScopesView<'a>, env: Env, name: Seq<char>)
    ensures
        s.stop(env, name) matches Stop::Scope(e) ==> s.binds(e, name),
    decreases env,
{
    if let Some(p) = s.around(env) {
        lemma_stop_binds(s, p, name);
    }
}

/// A name that no scope binds is a property of the global object, for writing and for reading: the last
/// thing that is asked for is to set it, or to read it, there.
pub proof fn global_variables_are_properties<'a>(
    name: Name<'a>,
    value: Value,
    env: Env,
    w: World<'a>,
)
    requires
        w.limit > 0,
        w.scopes.stop(env, name.chars()) == Stop::Global,
    ensures
        ({
            let (r, after) = assign_var_step(name, value, env, w);
            r is Ok ==> {
                &&& after.asked.last() matches Request::SetMember { base, key, value: v, .. }
                &&& base == asks(Request::GlobalObject, w).0->Ok_0
                &&& key == name.key()
                &&& v == value
            }
        }),
        ({
            let (r, after) = get_var_step(name, env, w);
            r is Ok ==> after.asked.last() == (Request::GetMember {
                base: asks(Request::GlobalObject, w).0->Ok_0,
                key: name.key(),
            })
        }),
{
    reveal_with_fuel(assign_target_from, 2);
    reveal_with_fuel(get_var_with_from, 2);
}

/// Writing one variable leaves what any other reads as.
pub proof fn other_variables_stay<'a>(
    name: Seq<char>,
    value: Value,
    e: Env,
    other: Name<'a>,
    env: Env,
    at: Env,
    w: World<'a>,
)
    requires
        w.limit > 0,
        other.chars() != name,
        w.scopes.stop(env, other.chars()) == Stop::Scope(at),
        w.scopes.plain_at(at, other.chars()),
    ensures
        get_var_step(other, env, World { scopes: w.scopes.stored(e, name, value), ..w }).0
            == get_var_step(other, env, w).0,
{
    let s = w.scopes;
    let t = s.stored(e, name, value);
    let after = World { scopes: t, ..w };
    let n = other.chars();
    if s.binds(e, name) {
        let b = BindingView { value, initialized: true, ..s.scopes[e as int].vars[name] };
        lemma_stop_stays(s, e, name, b, env, n);
        assert(t.binds(at, n));
        assert(t.binding_at(at, n) == s.binding_at(at, n));
    }
    reveal_with_fuel(get_var_with_from, 2);
    assert(get_var_with_step(other, env, after).0 == get_var_with_step(other, env, w).0);
}

/// A request that runs no code of the program leaves scopes, modules and promises as they are.
pub proof fn lookups_change_nothing<'a>(request: Request<'a>, w: World<'a>)
    requires
        !request.runs_code(),
    ensures
        w.ask(request).1 == (World { asked: w.asked.push(request), ..w }),
{
}

/// Putting a value through a reference to a binding: an import and a constant are a `TypeError`, what is
/// not initialized a `ReferenceError`, and otherwise the binding has the value.
pub proof fn references_respect_bindings<'a>(e: Env, name: &'a String, value: Value, w: World<'a>)
    requires
        w.scopes.binds(e, name@),
    ensures
        ({
            let b = w.scopes.binding_at(e, name@);
            let (r, after) = put_resolved_step(RefBase::Scope(e), name, value, w);
            let about = Subject::Key(Key::Source(name));
            if b.import_ref is Some {
                (r, after) == throws_about::<()>(
                    ErrorKind::TypeError,
                    "assignment to import binding '",
                    "'",
                    about,
                    w,
                )
            } else if !b.initialized {
                (r, after) == throws_about::<()>(
                    ErrorKind::ReferenceError,
                    "cannot access '",
                    "' before initialization",
                    about,
                    w,
                )
            } else if !b.mutable && (b.strict_immutable || w.strict) {
                (r, after) == throws_about::<()>(
                    ErrorKind::TypeError,
                    "assignment to constant '",
                    "'",
                    about,
                    w,
                )
            } else if !b.mutable {
                r is Ok && after == w
            } else {
                r is Ok && after.scopes.value_in(e, name@) == value && after.asked == w.asked
            }
        }),
{
    let b = w.scopes.binding_at(e, name@);
    if b.import_ref is None && b.initialized && b.mutable {
        assert(w.scopes.stored(e, name@, value).binds(e, name@));
    }
}

// ---- evaluated code

/// Whether scopes agree up to a place, but for one.
pub open spec fn same_scopes<'a>(
    a: ScopesView<'a>,
    b: ScopesView<'a>,
    count: nat,
    but: Env,
) -> bool {
    &&& a.scopes.len() >= count
    &&& b.scopes.len() >= count
    &&& forall|i: int| 0 <= i < count && i != but ==> #[trigger] a.scopes[i] == b.scopes[i]
}

/// Whether nothing but whether values can be called was asked since.
pub open spec fn only_asked_callable<'a>(before: Seq<Request<'a>>, after: Seq<Request<'a>>) -> bool {
    &&& before.len() <= after.len()
    &&& forall|i: int| 0 <= i < before.len() ==> #[trigger] after[i] == before[i]
    &&& forall|i: int| before.len() <= i < after.len() ==> (#[trigger] after[i]) is Callable
}

proof fn lemma_names_inside<'a>(
    names: Seq<Seq<char>>,
    probe: Env,
    var: Env,
    i: nat,
    w: World<'a>,
)
    ensures
        ({
            let after = create_names_from(names, probe, var, i, w).1;
            &&& same_scopes(w.scopes, after.scopes, w.scopes.scopes.len(), var)
            &&& after.scopes.scopes.len() == w.scopes.scopes.len()
            &&& only_asked_callable(w.asked, after.asked)
        }),
    decreases names.len() - i,
{
    reveal_with_fuel(create_names_from, 2);
    if i < names.len() {
        let v = w.scopes.value_in(probe, names[i as int]);
        let (f, w1) = is_callable_step(v, w);
        if let Ok(callable) = f {
            let bound = w1.scopes.binds(var, names[i as int]);
            let effect = declaration(false, callable, bound, None, false);
            let w2 = match effect {
                Declare::Bind => w1.bind_declared(var, probe, i as usize, v),
                Declare::BindUndefined => w1.bind_declared(
                    var,
                    probe,
                    i as usize,
                    Value::Undefined,
                ),
                _ => w1,
            };
            assert(same_scopes(w.scopes, w2.scopes, w.scopes.scopes.len(), var));
            assert(only_asked_callable(w.asked, w2.asked));
            lemma_names_inside(names, probe, var, i + 1, w2);
            let end = create_names_from(names, probe, var, i + 1, w2).1;
            assert(create_names_from(names, probe, var, i, w).1 == end);
            assert forall|j: int|
                0 <= j < w.scopes.scopes.len() && j != var implies #[trigger] w.scopes.scopes[j]
                == end.scopes.scopes[j] by {
                assert(w2.scopes.scopes[j] == end.scopes.scopes[j]);
            }
        } else {
            assert(create_names_from(names, probe, var, i, w).1 == w1);
        }
    }
}

proof fn lemma_lexicals_inside<'a>(s: ScopesView<'a>, env: Env, names: Seq<Seq<char>>, n: nat)
    ensures
        same_scopes(s, s.all_declared(env, names, n), s.scopes.len(), env),
        s.all_declared(env, names, n).scopes.len() == s.scopes.len(),
    decreases n,
{
    if n > 0 && n <= names.len() {
        lemma_lexicals_inside(s, env, names, (n - 1) as nat);
    }
}

/// Strict evaluated code keeps its declarations to itself: where hoisting on trial leaves the scopes that
/// are there alone, so does declaring, but for the code's own scope; and the global object is not asked
/// to take anything.
pub proof fn strict_code_declares_inside<'a>(body: &'a Vec<Stmt>, own: Env, w: World<'a>)
    requires
        own != 0,
        w.scopes.scopes.len() < usize::MAX,
        ({
            let hoisted = World {
                strict: true,
                ..w.new_scope(Some(own), None, false, false)
            }.ask(Request::HoistVars { stmts: body, env: w.next_scope() }).1;
            same_scopes(w.scopes, hoisted.scopes, w.scopes.scopes.len(), own)
        }),
    ensures
        ({
            let after = eval_declaration_instantiation_step(body, own, own, true, w).1;
            &&& same_scopes(w.scopes, after.scopes, w.scopes.scopes.len(), own)
            &&& only_asked_callable(
                w.asked.push(Request::HoistVars { stmts: body, env: w.next_scope() }),
                after.asked,
            )
        }),
{
    let probe = w.next_scope();
    let asked = Request::HoistVars { stmts: body, env: probe };
    let w1 = World { strict: true, ..w.new_scope(Some(own), None, false, false) };
    let w2 = w1.ask(asked).1;
    let w3 = World { strict: w.strict, ..w2 };
    let names = w3.scopes.names_at(probe);
    lemma_names_inside(names, probe, own, 0, w3);
    let w4 = create_names_step(names, probe, own, w3).1;
    let w5 = w4.empty_scope(probe);
    let lexical = block_names(body@, body@.len());
    lemma_lexicals_inside(w5.scopes, own, lexical, lexical.len());
    let end = w5.declare_block(body, own);
    let after = eval_declaration_instantiation_step(body, own, own, true, w).1;
    assert(after == if create_names_step(names, probe, own, w3).0 is Ok {
        end
    } else {
        w4
    });
    assert forall|j: int| 0 <= j < w.scopes.scopes.len() && j != own implies #[trigger] w.scopes.scopes[j]
        == after.scopes.scopes[j] by {
        assert(w.scopes.scopes[j] == w2.scopes.scopes[j]);
        assert(w3.scopes.scopes[j] == w4.scopes.scopes[j]);
        assert(w5.scopes.scopes[j] == w4.scopes.scopes[j]);
        assert(w5.scopes.scopes[j] == end.scopes.scopes[j]);
    }
}

// ---- jobs and outcomes

proof fn lemma_jobs_run_out<'a>(k: nat, w: World<'a>)
    ensures
        drain_microtasks_from(k, w).0 is Ok ==> drain_microtasks_from(k, w).1.first_job() is None,
    decreases k,
{
    if k > 0 {
        if let Some(job) = w.first_job() {
            let (r, w1) = run_job_step(job, w.drop_job());
            if r is Ok {
                lemma_jobs_run_out((k - 1) as nat, w1);
            }
        }
    }
}

/// Running jobs ends when none is left, those included that were queued meanwhile.
pub proof fn jobs_run_out<'a>(w: World<'a>)
    ensures
        drain_microtasks_step(w).0 is Ok ==> drain_microtasks_step(w).1.first_job() is None,
{
    lemma_jobs_run_out(w.limit, w);
}

/// Only an error that was thrown has a name: what is no object has none.
pub proof fn only_errors_have_names<'a>(thrown: Value, w: World<'a>)
    requires
        !(thrown is Obj) || asks_flag(Request::IsError(thrown), w).0 != Ok::<bool, Abrupt<'a>>(true),
    ensures
        describe_throw_step(thrown, w).0 matches Outcome::Throw { name: None, .. },
{
}

/// An error that disposing of a resource throws wins over every end that is no error itself.
pub proof fn disposal_errors_win<'a>(d: Disposable, result: Completion<'a>, w: World<'a>)
    requires
        !only_waits(d),
        !(result matches Err(Abrupt::Throw(_))),
        dispose_one_step(d, w).0 is Err,
        dispose_one_step(d, w).0->Err_0 is Throw,
    ensures
        dispose_each_from(seq![d], result, 1, result, w).0.0 == Err::<Value, Abrupt<'a>>(
            dispose_one_step(d, w).0->Err_0,
        ),
{
    reveal_with_fuel(dispose_each_from, 2);
}

/// A namespace of the embedder's becomes a property of the global object that can be written and
/// configured and is not enumerated, whatever stood there: that is the last thing that is asked for.
pub proof fn namespaces_are_hidden<'a>(name: &'a String, ops: &'a Vec<NativeOp>, w: World<'a>)
    requires
        add_namespace_step(name, ops, w).0 is Ok,
    ensures
        ({
            let ns = asks(Request::MakeObject, w);
            let made = define_methods_step(ns.0->Ok_0, ops, ns.1);
            let g = asks(Request::GlobalObject, made.1);
            add_namespace_step(name, ops, w).1.asked == g.1.asked.push(
                Request::DefineOwn {
                    base: g.0->Ok_0,
                    key: Key::Source(name),
                    prop: Property::of(ns.0->Ok_0, true, false, true),
                },
            )
        }),
{
}

/// A computed key of a static member may not be `prototype`: that is a `TypeError` as soon as the key is
/// there, so that no static field or block has run.
pub proof fn static_prototype_is_refused<'a>(m: &'a ClassMember, env: Env, depth: u64, w: World<'a>)
    requires
        m.is_static,
        m.key is Computed,
        eval_prop_key_step(&m.key, env, depth, w).0 is Ok,
        ({
            let (k, after) = eval_prop_key_step(&m.key, env, depth, w);
            after.key_is(k->Ok_0, "prototype"@)
        }),
    ensures
        member_key_step(m, env, depth, w) == throws::<Key<'a>>(
            ErrorKind::TypeError,
            "classes may not have a static property named 'prototype'",
            eval_prop_key_step(&m.key, env, depth, w).1,
        ),
{
}

/// A member whose key is refused ends the definition of the members with that error.
pub proof fn refused_keys_end_the_members<'a>(
    members: &'a Vec<ClassMember>,
    parts: ClassParts,
    i: nat,
    depth: u64,
    w: World<'a>,
)
    requires
        i < members@.len(),
        members@[i as int].kind != MemberKind::Constructor,
        member_key_step(&members@[i as int], parts.class_env, depth, w).0 is Err,
    ensures
        ({
            let (k, after) = member_key_step(&members@[i as int], parts.class_env, depth, w);
            define_members_from(members, parts, depth, i, w) == (
                Err::<(), Abrupt<'a>>(k->Err_0),
                after,
            )
        }),
{
}

/// A class whose members cannot be defined fails with that error, and none of its static fields and blocks
/// has run: everything is as the definition of the members left it.
pub proof fn failed_members_run_no_statics<'a>(
    class: &'a Class,
    env: Env,
    name: Option<Name<'a>>,
    depth: u64,
    w: World<'a>,
)
    ensures
        ({
            let own = w.next_scope();
            let opened = w.new_scope(Some(env), None, false, false);
            let w1 = match &class.name {
                Some(n) => opened.declare_class(Name::Source(n), own),
                None => opened,
            };
            let heritage = class_heritage_step(class, own, depth, w1);
            heritage.0 matches Ok(h) ==> {
                let built = build_class_step(class, name, h, own, heritage.1);
                built.0 matches Ok(parts) ==> {
                    let defined = define_members_step(&class.members, parts, depth, built.1);
                    defined.0 matches Err(a) ==> eval_class_strict_step(class, env, name, depth, w) == (
                        Err::<Value, Abrupt<'a>>(a),
                        defined.1,
                    )
                }
            }
        }),
{
}

/// What an error that speaks of a callee says: the last thing asked for is an error with that message.
proof fn lemma_callee_named<'a>(
    kind: ErrorKind,
    before: &'static str,
    after: &'static str,
    callee: &'a Expr,
    w: World<'a>,
)
    requires
        w.texts.len() < u64::MAX,
    ensures
        ({
            let end = throws_about::<Value>(kind, before, after, Subject::Callee(callee), w).1;
            end.asked.last() matches Request::MakeError { kind: k, message } && k == kind
                && end.chars(message) == before@ + callee_text(*callee) + after@
        }),
{
    let w2 = w.add_text(callee_text(*callee));
    assert(subject_text_step(Subject::Callee(callee), w) == (
        Ok::<Value, Abrupt<'a>>(w.next_text()),
        w2,
    ));
    assert(w2.chars(w.next_text()) == callee_text(*callee));
    let message = before@ + callee_text(*callee) + after@;
    let w3 = w2.add_text(message);
    assert(w3.chars(w2.next_text()) == message);
    let request = Request::MakeError { kind, message: w2.next_text() };
    let w4 = asks(request, w3).1;
    assert(w4.asked == w3.asked.push(request));
    assert(w4.chars(w2.next_text()) == message);
}

/// Calling what is no object is a `TypeError` whose message names what was called, once the arguments are
/// evaluated.
pub proof fn what_is_not_called_is_named<'a>(
    func: Value,
    this: Value,
    callee: &'a Expr,
    args: &'a Vec<ArrayElem>,
    env: Env,
    depth: u64,
    w: World<'a>,
)
    requires
        !(func is Obj),
        eval_args_step(args, env, depth, w).0 is Ok,
        eval_args_step(args, env, depth, w).1.texts.len() < u64::MAX,
    ensures
        ({
            let after = call_located_step(
                Target::Found { func, this },
                callee,
                args,
                false,
                env,
                depth,
                w,
            ).1;
            after.asked.last() matches Request::MakeError { kind, message } && kind
                == ErrorKind::TypeError && after.chars(message) == ""@ + callee_text(*callee)
                + " is not a function"@
        }),
{
    let w1 = eval_args_step(args, env, depth, w).1;
    assert(call_located_step(Target::Found { func, this }, callee, args, false, env, depth, w)
        == throws_about::<Value>(
        ErrorKind::TypeError,
        "",
        " is not a function",
        Subject::Callee(callee),
        w1,
    ));
    lemma_callee_named(ErrorKind::TypeError, "", " is not a function", callee, w1);
}

/// Two strings whose text together is longer than a string can be are not joined: that is a `RangeError`.
pub proof fn texts_do_not_grow_without_end<'a>(a: Value, b: Value, w: World<'a>)
    requires
        byte_length(w.chars(a)) + byte_length(w.chars(b)) > MAX_STR_LEN,
    ensures
        concat_step(a, b, w) == throws::<Value>(ErrorKind::RangeError, "Invalid string length", w),
{
}

/// Two strings that are not too long together are joined: the text is that of the one and then that of the
/// other, and nothing is asked for that.
pub proof fn strings_are_joined<'a>(a: Value, b: Value, w: World<'a>)
    requires
        byte_length(w.chars(a)) + byte_length(w.chars(b)) <= MAX_STR_LEN,
        w.texts.len() <= u64::MAX,
    ensures
        ({
            let (r, after) = concat_step(a, b, w);
            &&& r is Ok
            &&& after.chars(r->Ok_0) == w.chars(a) + w.chars(b)
            &&& after.asked == w.asked
        }),
{
}

/// Strings are equal if their texts are, whatever they were made from, and only the empty one counts as
/// false; nothing is asked for that.
pub proof fn strings_are_their_texts<'a>(a: u64, b: u64, w: World<'a>)
    ensures
        strict_equals_step(Value::Str(a), Value::Str(b), w) == (
            Ok::<bool, Abrupt<'a>>(w.text(a) == w.text(b)),
            w,
        ),
        to_boolean_step(Value::Str(a), w) == (Ok::<bool, Abrupt<'a>>(w.text(a).len() > 0), w),
{
}

/// A private getter and a private setter of one name make one accessor, in either order.
pub proof fn private_halves_meet<'a>(
    record: u64,
    key: Key<'a>,
    getter: Value,
    setter: Value,
    w: World<'a>,
)
    requires
        record < w.drafts.len(),
        w.same_key(key, key),
        w.private_place(w.draft(record).privates, key, 0) == w.draft(record).privates.len(),
    ensures
        ({
            let both = w.draft(record).privates.push(
                PrivateMember { key, prop: private_accessor(Some(getter), Some(setter)) },
            );
            &&& w.merge_private(record, key, Some(getter), None).merge_private(
                record,
                key,
                None,
                Some(setter),
            ).draft(record).privates == both
            &&& w.merge_private(record, key, None, Some(setter)).merge_private(
                record,
                key,
                Some(getter),
                None,
            ).draft(record).privates == both
        }),
{
    let v = w.draft(record).privates;
    let g = PrivateMember { key, prop: private_accessor(Some(getter), None) };
    let s = PrivateMember { key, prop: private_accessor(None, Some(setter)) };
    let both = PrivateMember { key, prop: private_accessor(Some(getter), Some(setter)) };
    let wg = w.merge_private(record, key, Some(getter), None);
    let ws = w.merge_private(record, key, None, Some(setter));
    lemma_last_private(w, wg, v, g, key, 0);
    lemma_last_private(w, ws, v, s, key, 0);
    assert(v.push(g).update(v.len() as int, both) =~= v.push(both));
    assert(v.push(s).update(v.len() as int, both) =~= v.push(both));
}

/// A private member that is added with a key that none has is the first with that key.
proof fn lemma_last_private<'a>(
    w: World<'a>,
    after: World<'a>,
    v: Seq<PrivateMember<'a>>,
    m: PrivateMember<'a>,
    key: Key<'a>,
    i: nat,
)
    requires
        i <= v.len(),
        m.key == key,
        after.texts == w.texts,
        after.scopes == w.scopes,
        w.same_key(key, key),
        w.private_place(v, key, i) == v.len(),
    ensures
        after.private_place(v.push(m), key, i) == v.len(),
    decreases v.len() - i,
{
    if i < v.len() {
        assert(v.push(m)[i as int] == v[i as int]);
        lemma_last_private(w, after, v, m, key, i + 1);
    } else {
        assert(v.push(m)[i as int] == m);
    }
}

/// The private members of a class are given to an object once: an object that has the first of them is
/// refused with a `TypeError`.
pub proof fn privates_are_given_once<'a>(
    privates: Seq<PrivateMember<'a>>,
    this: Value,
    w: World<'a>,
)
    requires
        this is Obj,
        privates.len() > 0,
        asks_flag(Request::HasOwn { base: this, key: privates[0].key }, w).0 == Ok::<
            bool,
            Abrupt<'a>,
        >(true),
    ensures
        stamp_privates_step(privates, this, w) == throws::<()>(
            ErrorKind::TypeError,
            "cannot initialize private methods of a class twice on the same object",
            asks_flag(Request::HasOwn { base: this, key: privates[0].key }, w).1,
        ),
{
}

} // verus!
