//! What holds of statements, whatever the host answers.
use vstd::prelude::*;

use crate::ast::{Class, DeclKind, Expr, Function, Pattern, Stmt, SwitchCase};
use crate::grammar::Symbol;
use crate::interp::eval::{bind_pattern_step, eval_named_step, eval_step};
use crate::interp::exec::{
    add_disposable_step, decl_value_step, declare_lexicals_from, declare_lexicals_step,
    dispose_each_from, dispose_each_step, dispose_one_step, do_round_step, exec_block_step,
    exec_catch_step, exec_decls_from, exec_decls_step, exec_do_while_from, exec_for_of_step,
    exec_list_from, exec_list_step, exec_protected_step, exec_return_step, exec_simple_step,
    exec_stmt_step, exec_try_step, exec_var_step, exec_while_from, export_value_step,
    find_case_from, for_round_step, for_rounds_from, function_of, in_round_step, mode_of,
    next_key_from, next_key_step, of_round_step, of_rounds_from, of_rounds_step, only_waits,
    round_scope_step, run_body_from, run_case_from, run_case_step, run_cases_from, test_holds_step,
    while_round_step, LoopStep,
};
use crate::interp::object::{get_var_step, get_var_with_from, js_has_property_step};
use crate::interp::operate::{
    call_bare_step, get_iterator_step, iterator_step_step, strict_equals_step, to_boolean_step,
};
use crate::interp::promise_laws::said;
use crate::interp::session::{
    value_of, Abrupt, Answer, Completion, Disposable, Env, Flags, Key, Name, Request, Value,
    WellKnown, World,
};
use crate::scan::{anonymous_fn, any_lexical, any_using, default_from};
use crate::scope::{Scope, Stop, Write};

verus! {

/// A name that was just initialized in a scope reads as its value from there, and nothing is asked for.
pub proof fn initialized_names_read<'a>(
    name: Name<'a>,
    v: Value,
    constant: bool,
    env: Env,
    w: World<'a>,
)
    requires
        w.limit > 0,
        env < w.scopes.scopes.len(),
    ensures
        ({
            let after = w.init_lexical(name, v, constant, env);
            &&& get_var_step(name, env, after) == (Ok::<Value, Abrupt<'a>>(v), after)
            &&& after.asked == w.asked
            &&& constant ==> after.scopes.write_view(env, name.chars(), after.strict) == Write::Refused
            &&& !constant ==> after.scopes.write_view(env, name.chars(), after.strict)
                == Write::Stored
        }),
{
    let after = w.init_lexical(name, v, constant, env);
    assert(after.scopes.binds(env, name.chars()));
    assert(after.scopes.stop(env, name.chars()) == Stop::Scope(env));
    reveal_with_fuel(get_var_with_from, 2);
}

/// The next value of an iterator: its `next` method is called on it without arguments, and as long as the
/// result's `done` is false the value is the result's `value`.
pub proof fn iterators_give_values<'a>(
    iter: Value,
    method: Value,
    r: u64,
    done: bool,
    w: World<'a>,
)
    requires
        w.lists.len() < u64::MAX,
        said(w, w.asked.len()) == Answer::<'a>::Value(Value::Obj(r)),
        said(w, w.asked.len() + 1) == Answer::<'a>::Value(Value::Bool(done)),
    ensures
        ({
            let n = w.asked.len();
            let (step, after) = iterator_step_step(iter, method, w);
            &&& after.asked[n as int] matches Request::Call { func, this, args } && func == method
                && this == iter && after.list(args).len() == 0
            &&& after.asked[n as int + 1] == (Request::GetMember {
                base: Value::Obj(r),
                key: Key::Fixed("done"),
            })
            &&& done ==> step == Ok::<Option<Value>, Abrupt<'a>>(None)
            &&& !done ==> after.asked[n as int + 2] == (Request::GetMember {
                base: Value::Obj(r),
                key: Key::Fixed("value"),
            })
            &&& !done ==> match said(w, n + 2) {
                Answer::Value(v) => step == Ok::<Option<Value>, Abrupt<'a>>(Some(v)),
                Answer::Throw(e) => step == Err::<Option<Value>, Abrupt<'a>>(Abrupt::Throw(e)),
                _ => true,
            }
        }),
{
    let l = w.next_list();
    let w1 = w.new_list(Seq::empty());
    assert(w1.list(l) =~= Seq::<Value>::empty());
}

/// A round of a `for`-`of` loop whose head declares one name: the body runs in a scope of its own, in which
/// the name reads as the value that the iterator gave. A loop whose iterator gives no more is done.
pub proof fn elements_are_bound<'a>(
    st: &'a Stmt,
    name: &'a String,
    iter: Value,
    method: Value,
    env: Env,
    depth: u64,
    w: World<'a>,
)
    requires
        st matches Stmt::ForInOf { decl: Some(kind), left: Pattern::Ident(n), .. } && n == *name && (
        kind == DeclKind::Let || kind == DeclKind::Const),
        ({
            let w1 = iterator_step_step(iter, method, w).1;
            w1.limit > 0 && w1.scopes.scopes.len() < usize::MAX
        }),
    ensures
        st matches Stmt::ForInOf { decl: Some(kind), body, .. } && {
            let (step, w1) = iterator_step_step(iter, method, w);
            let (r, after) = of_round_step(st, iter, method, env, depth, w);
            let scope = w1.next_scope();
            let opened = w1.new_scope(Some(env), None, false, false);
            match step {
                Ok(Some(v)) => {
                    let start = opened.init_lexical(
                        Name::Source(name),
                        v,
                        kind == DeclKind::Const,
                        scope,
                    );
                    let (ran, end) = exec_stmt_step(&**body, scope, depth, start);
                    &&& get_var_step(Name::Source(name), scope, start).0 == Ok::<Value, Abrupt<'a>>(v)
                    &&& start.scopes.around(scope) == Some(env) || env >= scope
                    &&& after == end
                    &&& r.1
                    &&& ran matches Ok(x) ==> r.0 == Ok::<LoopStep, Abrupt<'a>>(
                        LoopStep::Continue(x),
                    )
                    &&& ran matches Err(a) ==> r.0 == Err::<LoopStep, Abrupt<'a>>(a)
                },
                Ok(None) => r.0 matches Ok(LoopStep::Done(_)) && !r.1 && after == w1,
                Err(a) => r.0 == Err::<LoopStep, Abrupt<'a>>(a) && !r.1 && after == w1,
            }
        },
{
    let (step, w1) = iterator_step_step(iter, method, w);
    if let Ok(Some(v)) = step {
        let scope = w1.next_scope();
        let opened = w1.new_scope(Some(env), None, false, false);
        if let Stmt::ForInOf { decl: Some(kind), .. } = st {
            initialized_names_read(Name::Source(name), v, *kind == DeclKind::Const, scope, opened);
        }
        reveal_with_fuel(bind_pattern_step, 2);
    }
}

/// A round of a `for`-`in` loop whose head declares one name: the body runs in a scope of its own, in which
/// the name reads as the next key.
pub proof fn keys_are_bound<'a>(
    st: &'a Stmt,
    name: &'a String,
    rhs: Value,
    keys: u64,
    env: Env,
    depth: u64,
    w: World<'a>,
)
    requires
        st matches Stmt::ForInOf { decl: Some(kind), left: Pattern::Ident(n), .. } && n == *name && (
        kind == DeclKind::Let || kind == DeclKind::Const),
        ({
            let w1 = next_key_step(rhs, keys, w).1;
            w1.limit > 0 && w1.scopes.scopes.len() < usize::MAX
        }),
    ensures
        st matches Stmt::ForInOf { decl: Some(kind), body, .. } && {
            let (step, w1) = next_key_step(rhs, keys, w);
            let (r, after) = in_round_step(st, rhs, keys, env, depth, w);
            let scope = w1.next_scope();
            let opened = w1.new_scope(Some(env), None, false, false);
            match step {
                Ok(Some(v)) => {
                    let start = opened.init_lexical(
                        Name::Source(name),
                        v,
                        kind == DeclKind::Const,
                        scope,
                    );
                    let (ran, end) = exec_stmt_step(&**body, scope, depth, start);
                    &&& get_var_step(Name::Source(name), scope, start).0 == Ok::<Value, Abrupt<'a>>(v)
                    &&& after == end
                    &&& ran matches Ok(x) ==> r == Ok::<LoopStep, Abrupt<'a>>(LoopStep::Continue(x))
                    &&& ran matches Err(a) ==> r == Err::<LoopStep, Abrupt<'a>>(a)
                },
                Ok(None) => r matches Ok(LoopStep::Done(_)) && after == w1,
                Err(a) => r == Err::<LoopStep, Abrupt<'a>>(a) && after == w1,
            }
        },
{
    let (step, w1) = next_key_step(rhs, keys, w);
    if let Ok(Some(v)) = step {
        let scope = w1.next_scope();
        let opened = w1.new_scope(Some(env), None, false, false);
        if let Stmt::ForInOf { decl: Some(kind), .. } = st {
            initialized_names_read(Name::Source(name), v, *kind == DeclKind::Const, scope, opened);
        }
        reveal_with_fuel(bind_pattern_step, 2);
    }
}

/// The keys of an enumeration come in the order of the list, each once: one that the object has no more is
/// passed by, and when none is left the enumeration is over.
pub proof fn keys_come_in_order<'a>(rhs: u64, keys: u64, at: u64, w: World<'a>)
    requires
        w.limit > 0,
        keys < w.lists.len(),
    ensures
        w.list(keys).len() == 0 ==> next_key_step(Value::Obj(rhs), keys, w) == (
            Ok::<Option<Value>, Abrupt<'a>>(None),
            w,
        ),
        w.list(keys).len() > 0 && w.list(keys)[0] == Value::Str(at) ==> ({
            let rest = w.with_list(keys, w.list(keys).drop_first());
            let (there, w1) = js_has_property_step(Value::Obj(rhs), Key::Made(at), rest);
            &&& there == Ok::<bool, Abrupt<'a>>(true) ==> next_key_step(Value::Obj(rhs), keys, w) == (
                Ok::<Option<Value>, Abrupt<'a>>(Some(Value::Str(at))),
                w1,
            )
            &&& there == Ok::<bool, Abrupt<'a>>(false) ==> next_key_step(Value::Obj(rhs), keys, w)
                == next_key_from(Value::Obj(rhs), keys, (w.limit - 1) as nat, w1)
        }),
{
    reveal_with_fuel(next_key_from, 2);
}

/// A `for`-`of` loop goes on behind a round that ended normally, with the value so far unless the round
/// gave one, and is over when the iterator gives no more.
pub proof fn element_loops_go_on<'a>(
    whole: &'a Stmt,
    st: &'a Stmt,
    iter: Value,
    method: Value,
    env: Env,
    depth: u64,
    k: nat,
    v: Value,
    c: Value,
    w: World<'a>,
)
    requires
        k > 0,
        said(w, w.asked.len()) == Answer::<'a>::Value(c),
    ensures
        ({
            let w1 = w.ask(Request::Checkpoint).1;
            let (r, w2) = of_round_step(st, iter, method, env, depth, w1);
            let all = of_rounds_from(whole, st, iter, method, env, depth, k, v, w);
            &&& r.0 matches Ok(LoopStep::Continue(x)) ==> all == of_rounds_from(
                whole,
                st,
                iter,
                method,
                env,
                depth,
                (k - 1) as nat,
                if x is Empty {
                    v
                } else {
                    x
                },
                w2,
            )
            &&& r.0 matches Ok(LoopStep::Done(x)) ==> all.0.1 == r.1 && all.1 == w2 && (x is Empty
                ==> all.0.0 == Ok::<Value, Abrupt<'a>>(v))
            &&& r.0 matches Err(Abrupt::Throw(e)) ==> all.0.0 == Err::<Value, Abrupt<'a>>(
                Abrupt::Throw(e),
            ) && all.0.1 == r.1
            &&& r.0 matches Err(Abrupt::Break(None, x)) ==> all.0.0 is Ok && all.0.1 == r.1
        }),
{
}

/// A `for`-`of` loop that throws while its iterator is open gives that error, whatever closing the iterator
/// comes to; where the iterator has come to its end it is not closed.
pub proof fn loops_keep_their_error<'a>(
    whole: &'a Stmt,
    st: &'a Stmt,
    rhs: Value,
    it: (Value, Value),
    env: Env,
    depth: u64,
    w: World<'a>,
)
    requires
        get_iterator_step(rhs, w).0 == Ok::<(Value, Value), Abrupt<'a>>(it),
    ensures
        ({
            let w1 = get_iterator_step(rhs, w).1;
            let (r, w2) = of_rounds_step(whole, st, it.0, it.1, env, depth, w1);
            let (out, after) = exec_for_of_step(whole, st, rhs, env, depth, w);
            &&& r.0 matches Err(Abrupt::Throw(e)) ==> out == Err::<Value, Abrupt<'a>>(
                Abrupt::Throw(e),
            )
            &&& !r.1 ==> out == r.0 && after == w2
            &&& r.1 && (r.0 is Ok) && out is Ok ==> out == r.0
        }),
{
}

/// What a `while` statement means: where the test is false the loop is over and its body does not run;
/// where it is true the body runs, and the loop goes on behind it.
pub proof fn while_loops_unroll<'a>(
    st: &'a Stmt,
    env: Env,
    depth: u64,
    k: nat,
    v: Value,
    c: Value,
    w: World<'a>,
)
    requires
        st is While,
        k > 0,
        said(w, w.asked.len()) == Answer::<'a>::Value(c),
    ensures
        st matches Stmt::While { test, body } && {
            let w1 = w.ask(Request::Checkpoint).1;
            let (t, w2) = eval_step(test, env, depth, w1);
            let all = exec_while_from(st, st, env, depth, k, v, w);
            t matches Ok(x) ==> {
                let (b, w3) = to_boolean_step(x, w2);
                &&& b == Ok::<bool, Abrupt<'a>>(false) ==> all == (Ok::<Value, Abrupt<'a>>(v), w3)
                &&& b == Ok::<bool, Abrupt<'a>>(true) ==> {
                    let (r, w4) = exec_stmt_step(&**body, env, depth, w3);
                    &&& r matches Ok(y) ==> all == exec_while_from(
                        st,
                        st,
                        env,
                        depth,
                        (k - 1) as nat,
                        if y is Empty {
                            v
                        } else {
                            y
                        },
                        w4,
                    )
                    &&& r matches Err(Abrupt::Throw(e)) ==> all == (
                        Err::<Value, Abrupt<'a>>(Abrupt::Throw(e)),
                        w4,
                    )
                    &&& r matches Err(Abrupt::Return(e)) ==> all == (
                        Err::<Value, Abrupt<'a>>(Abrupt::Return(e)),
                        w4,
                    )
                    &&& r matches Err(Abrupt::Break(None, y)) ==> all == (
                        Ok::<Value, Abrupt<'a>>(
                            if y is Empty {
                                v
                            } else {
                                y
                            },
                        ),
                        w4,
                    )
                    &&& r matches Err(Abrupt::Continue(None, y)) ==> all == exec_while_from(
                        st,
                        st,
                        env,
                        depth,
                        (k - 1) as nat,
                        if y is Empty {
                            v
                        } else {
                            y
                        },
                        w4,
                    )
                }
            }
        },
        exec_stmt_step(st, env, depth, w) == exec_while_from(
            st,
            st,
            env,
            depth,
            w.limit,
            Value::Undefined,
            w,
        ),
{
    reveal_with_fuel(exec_stmt_step, 2);
    if let Stmt::While { test, body } = st {
        let w1 = w.ask(Request::Checkpoint).1;
        let (t, w2) = eval_step(test, env, depth, w1);
        let (h, w3) = test_holds_step(test, env, depth, w1);
        let (step, w4) = while_round_step(st, env, depth, w1);
        if let Ok(x) = t {
            assert((h, w3) == to_boolean_step(x, w2));
        }
        if h == Ok::<bool, Abrupt<'a>>(true) {
            let (r, w5) = exec_stmt_step(&**body, env, depth, w3);
            assert(w4 == w5);
            assert(step == (match r {
                Ok(y) => Ok::<LoopStep, Abrupt<'a>>(LoopStep::Continue(y)),
                Err(a) => Err(a),
            }));
        }
        if h == Ok::<bool, Abrupt<'a>>(false) {
            assert(step == Ok::<LoopStep, Abrupt<'a>>(LoopStep::Done(Value::Empty)) && w4 == w3);
        }
    }
}

/// What a `do` statement means: its body runs before the test is evaluated, and the loop goes on while the
/// test is true.
pub proof fn do_loops_unroll<'a>(
    st: &'a Stmt,
    env: Env,
    depth: u64,
    k: nat,
    v: Value,
    c: Value,
    w: World<'a>,
)
    requires
        st is DoWhile,
        k > 0,
        said(w, w.asked.len()) == Answer::<'a>::Value(c),
    ensures
        st matches Stmt::DoWhile { body, test } && {
            let w1 = w.ask(Request::Checkpoint).1;
            let (r, w2) = exec_stmt_step(&**body, env, depth, w1);
            let all = exec_do_while_from(st, st, env, depth, k, v, false, w);
            &&& r matches Ok(y) ==> {
                let (t, w3) = eval_step(test, env, depth, w2);
                let kept = if y is Empty {
                    v
                } else {
                    y
                };
                t matches Ok(x) ==> {
                    let (b, w4) = to_boolean_step(x, w3);
                    &&& b == Ok::<bool, Abrupt<'a>>(false) ==> all == (Ok::<Value, Abrupt<'a>>(kept), w4)
                    &&& b == Ok::<bool, Abrupt<'a>>(true) ==> all == exec_do_while_from(
                        st,
                        st,
                        env,
                        depth,
                        (k - 1) as nat,
                        kept,
                        false,
                        w4,
                    )
                }
            }
            &&& r matches Err(Abrupt::Throw(e)) ==> all == (
                Err::<Value, Abrupt<'a>>(Abrupt::Throw(e)),
                w2,
            )
        },
        exec_stmt_step(st, env, depth, w) == exec_do_while_from(
            st,
            st,
            env,
            depth,
            w.limit,
            Value::Undefined,
            false,
            w,
        ),
{
    reveal_with_fuel(exec_stmt_step, 2);
    if let Stmt::DoWhile { body, test } = st {
        let w1 = w.ask(Request::Checkpoint).1;
        let (r, w2) = exec_stmt_step(&**body, env, depth, w1);
        let (step, w4) = do_round_step(st, false, env, depth, w1);
        if let Ok(y) = r {
            let (t, w3) = eval_step(test, env, depth, w2);
            let (h, w5) = test_holds_step(test, env, depth, w2);
            if let Ok(x) = t {
                assert((h, w5) == to_boolean_step(x, w3));
                assert(h == Ok::<bool, Abrupt<'a>>(true) ==> step == Ok::<LoopStep, Abrupt<'a>>(
                    LoopStep::Continue(y),
                ) && w4 == w5);
                assert(h == Ok::<bool, Abrupt<'a>>(false) ==> step == Ok::<LoopStep, Abrupt<'a>>(
                    LoopStep::Done(y),
                ) && w4 == w5);
            }
        } else {
            assert(step == Err::<LoopStep, Abrupt<'a>>(r->Err_0) && w4 == w2);
        }
    }
}

/// A round of a `for` loop evaluates the update, but not in the first round, then the test, and runs the
/// body where the test is true or there is none.
pub proof fn for_rounds_run<'a>(st: &'a Stmt, first: bool, env: Env, depth: u64, w: World<'a>)
    requires
        st is For,
    ensures
        st matches Stmt::For { test, update, body, .. } && {
            let (u, w1) = match update {
                Some(e) => if first {
                    (Ok(Value::Undefined), w)
                } else {
                    eval_step(e, env, depth, w)
                },
                None => (Ok(Value::Undefined), w),
            };
            let (t, w2) = match test {
                Some(e) => eval_step(e, env, depth, w1),
                None => (Ok(Value::Bool(true)), w1),
            };
            let (r, after) = for_round_step(st, first, env, depth, w);
            u is Ok && t is Ok ==> {
                let (b, w3) = to_boolean_step(t->Ok_0, w2);
                &&& b == Ok::<bool, Abrupt<'a>>(false) ==> (r matches Ok(LoopStep::Done(x)) && x
                    is Empty) && after == w3
                &&& b == Ok::<bool, Abrupt<'a>>(true) ==> {
                    let (x, w4) = exec_stmt_step(&**body, env, depth, w3);
                    &&& after == w4
                    &&& x matches Ok(y) ==> r == Ok::<LoopStep, Abrupt<'a>>(LoopStep::Continue(y))
                    &&& x matches Err(a) ==> r == Err::<LoopStep, Abrupt<'a>>(a)
                }
            }
        },
{
}

/// A `for` loop goes on behind a round that ended normally, not as the first round any more, in the scope
/// of the next round; a round whose test is false ends it.
pub proof fn for_loops_go_on<'a>(
    st: &'a Stmt,
    env: Env,
    depth: u64,
    k: nat,
    v: Value,
    cur: Env,
    c: Value,
    w: World<'a>,
)
    requires
        k > 0,
        said(w, w.asked.len()) == Answer::<'a>::Value(c),
    ensures
        ({
            let w1 = w.ask(Request::Checkpoint).1;
            let (scope, w2) = round_scope_step(st, cur, w1);
            let (r, w3) = for_round_step(st, false, scope->Ok_0, depth, w2);
            let all = for_rounds_from(st, st, env, depth, k, v, false, cur, w);
            scope is Ok ==> {
                &&& r matches Ok(LoopStep::Continue(x)) ==> all == for_rounds_from(
                    st,
                    st,
                    env,
                    depth,
                    (k - 1) as nat,
                    if x is Empty {
                        v
                    } else {
                        x
                    },
                    false,
                    scope->Ok_0,
                    w3,
                )
                &&& r matches Ok(LoopStep::Done(x)) ==> all == (
                    Ok::<Value, Abrupt<'a>>(
                        if x is Empty {
                            v
                        } else {
                            x
                        },
                    ),
                    w3,
                )
            }
        }),
        ({
            let w1 = w.ask(Request::Checkpoint).1;
            let (r, w2) = for_round_step(st, true, cur, depth, w1);
            let all = for_rounds_from(st, st, env, depth, k, v, true, cur, w);
            &&& r matches Ok(LoopStep::Continue(x)) ==> all == for_rounds_from(
                st,
                st,
                env,
                depth,
                (k - 1) as nat,
                if x is Empty {
                    v
                } else {
                    x
                },
                false,
                cur,
                w2,
            )
            &&& r matches Err(Abrupt::Throw(e)) ==> all == (
                Err::<Value, Abrupt<'a>>(Abrupt::Throw(e)),
                w2,
            )
        }),
{
}

/// An `if` statement runs the branch that its test chooses, and is `undefined` where that gives no value
/// or there is no such branch.
pub proof fn branches_are_chosen<'a>(st: &'a Stmt, env: Env, depth: u64, w: World<'a>)
    requires
        st is If,
    ensures
        st matches Stmt::If { test, cons, alt } && {
            let (t, w1) = eval_step(test, env, depth, w);
            let (r, after) = exec_stmt_step(st, env, depth, w);
            &&& t matches Err(a) ==> r == Err::<Value, Abrupt<'a>>(a) && after == w1
            &&& t matches Ok(x) ==> {
                let (b, w2) = to_boolean_step(x, w1);
                &&& b == Ok::<bool, Abrupt<'a>>(true) ==> {
                    let (y, w3) = exec_stmt_step(&**cons, env, depth, w2);
                    &&& after == w3
                    &&& y matches Ok(z) ==> r == Ok::<Value, Abrupt<'a>>(
                        if z is Empty {
                            Value::Undefined
                        } else {
                            z
                        },
                    )
                    &&& y matches Err(Abrupt::Throw(e)) ==> r == y
                    &&& y matches Err(Abrupt::Return(e)) ==> r == y
                }
                &&& b == Ok::<bool, Abrupt<'a>>(false) ==> match alt {
                    Some(s) => {
                        let (y, w3) = exec_stmt_step(&**s, env, depth, w2);
                        &&& after == w3
                        &&& y matches Ok(z) ==> r == Ok::<Value, Abrupt<'a>>(
                            if z is Empty {
                                Value::Undefined
                            } else {
                                z
                            },
                        )
                        &&& y matches Err(Abrupt::Throw(e)) ==> r == y
                        &&& y matches Err(Abrupt::Return(e)) ==> r == y
                    },
                    None => r == Ok::<Value, Abrupt<'a>>(Value::Undefined) && after == w2,
                }
            }
        },
{
    reveal_with_fuel(exec_stmt_step, 2);
    reveal_with_fuel(exec_simple_step, 2);
    if let Stmt::If { test, cons, alt } = st {
        let (t, w1) = eval_step(test, env, depth, w);
        let (h, w2) = test_holds_step(test, env, depth, w);
        if let Ok(x) = t {
            assert((h, w2) == to_boolean_step(x, w1));
        } else {
            assert(h == Err::<bool, Abrupt<'a>>(t->Err_0) && w2 == w1);
        }
    }
}

/// What ends early: `throw` with the value of its expression, `return` without one with `undefined`, and
/// jumps with their label.
pub proof fn early_ends<'a>(st: &'a Stmt, env: Env, depth: u64, w: World<'a>)
    ensures
        st matches Stmt::Throw(e) ==> ({
            let (v, w1) = eval_step(e, env, depth, w);
            &&& v matches Ok(x) ==> exec_stmt_step(st, env, depth, w) == (
                Err::<Value, Abrupt<'a>>(Abrupt::Throw(x)),
                w1,
            )
            &&& v matches Err(a) ==> exec_stmt_step(st, env, depth, w) == (
                Err::<Value, Abrupt<'a>>(a),
                w1,
            )
        }),
        st matches Stmt::Return(None) ==> exec_stmt_step(st, env, depth, w) == (
            Err::<Value, Abrupt<'a>>(Abrupt::Return(Value::Undefined)),
            w,
        ),
        st matches Stmt::Break(None) ==> exec_stmt_step(st, env, depth, w) == (
            Err::<Value, Abrupt<'a>>(Abrupt::Break(None, Value::Empty)),
            w,
        ),
        st matches Stmt::Break(Some(l)) ==> exec_stmt_step(st, env, depth, w) == (
            Err::<Value, Abrupt<'a>>(Abrupt::Break(Some(l), Value::Empty)),
            w,
        ),
        st matches Stmt::Continue(None) ==> exec_stmt_step(st, env, depth, w) == (
            Err::<Value, Abrupt<'a>>(Abrupt::Continue(None, Value::Empty)),
            w,
        ),
        st matches Stmt::Continue(Some(l)) ==> exec_stmt_step(st, env, depth, w) == (
            Err::<Value, Abrupt<'a>>(Abrupt::Continue(Some(l), Value::Empty)),
            w,
        ),
{
    reveal_with_fuel(exec_stmt_step, 2);
    reveal_with_fuel(exec_simple_step, 2);
}

/// A `return` with an expression, where no call may take the function's place and no generator waits,
/// returns the value of the expression.
pub proof fn returns_give_their_value<'a>(
    st: &'a Stmt,
    e: &'a Expr,
    env: Env,
    depth: u64,
    w: World<'a>,
)
    requires
        st == Stmt::Return(Some(*e)),
        !w.flags.tail,
        ({
            let w1 = eval_step(e, env, depth, w).1;
            said(w1, w1.asked.len()) == Answer::<'a>::Flag(false)
        }),
    ensures
        eval_step(e, env, depth, w).0 matches Ok(v) ==> exec_stmt_step(st, env, depth, w).0 == Err::<
            Value,
            Abrupt<'a>,
        >(Abrupt::Return(v)),
        eval_step(e, env, depth, w).0 matches Err(a) ==> exec_stmt_step(st, env, depth, w).0 == Err::<
            Value,
            Abrupt<'a>,
        >(a),
{
    assert(exec_return_step(e, env, depth, w) == exec_simple_step(st, env, depth, w));
    reveal_with_fuel(exec_stmt_step, 2);
}

/// What is caught: where a `try` block throws, the `catch` runs in a scope in which its parameter reads as
/// what was thrown.
pub proof fn catches_get_what_is_thrown<'a>(
    handler: &'a (Option<Pattern>, Vec<Stmt>),
    name: &'a String,
    error: Value,
    last: bool,
    env: Env,
    depth: u64,
    w: World<'a>,
)
    requires
        handler.0 == Some(Pattern::Ident(*name)),
        w.limit > 0,
        w.scopes.scopes.len() + 1 < usize::MAX,
    ensures
        ({
            let outer = w.next_scope();
            let bound = w.new_scope(Some(env), None, true, false).init_lexical(
                Name::Source(name),
                error,
                false,
                outer,
            );
            let inner = bound.next_scope();
            let opened = bound.new_scope(Some(outer), None, false, false);
            let (d, w1) = declare_lexicals_step(&handler.1, inner, opened);
            let flags = Flags { tail: w1.flags.tail && last, ..w1.flags };
            let (r, w2) = exec_list_step(&handler.1, inner, depth, w1.set_flags(flags));
            &&& get_var_step(Name::Source(name), outer, bound).0 == Ok::<Value, Abrupt<'a>>(error)
            &&& opened.scopes.around(inner) == Some(outer)
            &&& d is Ok ==> exec_catch_step(handler, error, last, env, depth, w).0 == r
            &&& d is Ok ==> exec_catch_step(handler, error, last, env, depth, w).1.flags.tail
                == w1.flags.tail
        }),
{
    let outer = w.next_scope();
    initialized_names_read(
        Name::Source(name),
        error,
        false,
        outer,
        w.new_scope(Some(env), None, true, false),
    );
    reveal_with_fuel(bind_pattern_step, 2);
}

/// A `try` statement without a `finally`: where its block throws, what the `catch` comes to counts, and
/// where there is none the error stays; a block that does not throw is what the statement comes to.
pub proof fn thrown_errors_are_caught<'a>(st: &'a Stmt, env: Env, depth: u64, w: World<'a>)
    requires
        st matches Stmt::Try { finalizer: None, .. },
    ensures
        st matches Stmt::Try { block, handler, .. } && {
            let (r, w1) = exec_block_step(
                block,
                env,
                depth,
                w.set_flags(Flags { tail: false, ..w.flags }),
            );
            let w2 = w1.set_flags(Flags { tail: w.flags.tail, ..w1.flags });
            let (out, after) = exec_stmt_step(st, env, depth, w);
            match r {
                Err(Abrupt::Throw(e)) => match handler {
                    Some(h) => {
                        let (x, w3) = exec_catch_step(h, e, true, env, depth, w2);
                        &&& after == w3
                        &&& x matches Ok(v) ==> out == Ok::<Value, Abrupt<'a>>(
                            if v is Empty {
                                Value::Undefined
                            } else {
                                v
                            },
                        )
                        &&& x matches Err(Abrupt::Throw(a)) ==> out == x
                    },
                    None => out == r && after == w2,
                },
                Ok(v) => after == w2 && out == Ok::<Value, Abrupt<'a>>(
                    if v is Empty {
                        Value::Undefined
                    } else {
                        v
                    },
                ),
                Err(Abrupt::Return(v)) => out == r && after == w2,
                _ => true,
            }
        },
{
    reveal_with_fuel(exec_stmt_step, 2);
    if let Stmt::Try { block, handler, .. } = st {
        let (r, w1) = exec_block_step(
            block,
            env,
            depth,
            w.set_flags(Flags { tail: false, ..w.flags }),
        );
        let w2 = w1.set_flags(Flags { tail: w.flags.tail, ..w1.flags });
        let (x, w3) = exec_protected_step(st, env, depth, w);
        if let Err(Abrupt::Throw(e)) = r {
            if let Some(h) = handler {
                assert((x, w3) == exec_catch_step(h, e, true, env, depth, w2));
            } else {
                assert(x == r && w3 == w2);
            }
        } else {
            assert(x == r && w3 == w2);
        }
        let (out, after) = exec_try_step(st, env, depth, w);
        assert(after == w3);
    }
}

/// A `finally` that comes to its end leaves what the rest of the statement came to.
pub proof fn finally_keeps_the_outcome<'a>(
    st: &'a Stmt,
    f: &'a Vec<Stmt>,
    env: Env,
    depth: u64,
    w: World<'a>,
)
    requires
        st matches Stmt::Try { finalizer: Some(g), .. } && g == *f,
        ({
            let w1 = exec_protected_step(st, env, depth, w).1;
            exec_block_step(
                f,
                env,
                depth,
                w1.set_flags(Flags { pending: None, ..w1.flags }),
            ).0 is Ok
        }),
    ensures
        ({
            let (r, w1) = exec_protected_step(st, env, depth, w);
            let w2 = exec_block_step(
                f,
                env,
                depth,
                w1.set_flags(Flags { pending: None, ..w1.flags }),
            ).1;
            let (out, after) = exec_stmt_step(st, env, depth, w);
            &&& r matches Err(Abrupt::Throw(e)) ==> out == r
            &&& r matches Err(Abrupt::Return(e)) ==> out == r
            &&& r matches Ok(v) ==> out == Ok::<Value, Abrupt<'a>>(
                if v is Empty {
                    Value::Undefined
                } else {
                    v
                },
            )
            &&& after.flags.pending == w1.flags.pending
            &&& after.asked == w2.asked
        }),
{
    reveal_with_fuel(exec_stmt_step, 2);
    reveal_with_fuel(exec_try_step, 2);
}

/// A `switch` begins at the first case whose test is strictly equal to its value: a test that is not equal
/// is passed by, and a case without a test is not looked at.
pub proof fn cases_are_found<'a>(
    cases: &'a Vec<SwitchCase>,
    d: Value,
    env: Env,
    depth: u64,
    i: nat,
    w: World<'a>,
)
    requires
        i < cases@.len() <= usize::MAX,
    ensures
        match &cases@[i as int].test {
            Some(e) => {
                let (t, w1) = eval_step(e, env, depth, w);
                t matches Ok(x) ==> {
                    let (same, w2) = strict_equals_step(d, x, w1);
                    &&& same == Ok::<bool, Abrupt<'a>>(true) ==> find_case_from(
                        cases,
                        d,
                        env,
                        depth,
                        i,
                        w,
                    ) == (Ok::<Option<usize>, Abrupt<'a>>(Some(i as usize)), w2)
                    &&& same == Ok::<bool, Abrupt<'a>>(false) ==> find_case_from(
                        cases,
                        d,
                        env,
                        depth,
                        i,
                        w,
                    ) == find_case_from(cases, d, env, depth, i + 1, w2)
                }
            },
            None => find_case_from(cases, d, env, depth, i, w) == find_case_from(
                cases,
                d,
                env,
                depth,
                i + 1,
                w,
            ),
        },
        find_case_from(cases, d, env, depth, cases@.len(), w).1 == w,
        find_case_from(cases, d, env, depth, cases@.len(), w).0 matches Ok(Some(j)) ==> j
            < cases@.len() && cases@[j as int].test is None,
        (forall|j: int| 0 <= j < cases@.len() ==> (#[trigger] cases@[j]).test is Some)
            ==> find_case_from(cases, d, env, depth, cases@.len(), w).0 == Ok::<
            Option<usize>,
            Abrupt<'a>,
        >(None),
{
    lemma_default(cases@, 0);
}

/// The default of a `switch` is a case without a test.
proof fn lemma_default(cases: Seq<SwitchCase>, i: nat)
    requires
        cases.len() <= usize::MAX,
    ensures
        default_from(cases, i) matches Some(j) ==> i <= j < cases.len() && cases[j as int].test is None,
        default_from(cases, i) is None ==> forall|j: int|
            i <= j < cases.len() ==> (#[trigger] cases[j]).test is Some,
    decreases cases.len() - i,
{
    if i < cases.len() {
        lemma_default(cases, i + 1);
    }
}

/// The cases before the one that a `switch` begins at do not run; from there on they run one after the
/// other, until one breaks.
pub proof fn cases_fall_through<'a>(
    cases: &'a Vec<SwitchCase>,
    start: usize,
    env: Env,
    depth: u64,
    i: nat,
    v: Value,
    w: World<'a>,
)
    requires
        i < cases@.len(),
    ensures
        i < start ==> run_cases_from(cases, start, env, depth, i, v, w) == run_cases_from(
            cases,
            start,
            env,
            depth,
            i + 1,
            v,
            w,
        ),
        i >= start ==> ({
            let (r, w1) = run_case_step(&cases@[i as int].body, v, env, depth, w);
            let all = run_cases_from(cases, start, env, depth, i, v, w);
            &&& r matches Ok(LoopStep::Continue(x)) ==> all == run_cases_from(
                cases,
                start,
                env,
                depth,
                i + 1,
                x,
                w1,
            )
            &&& r matches Ok(LoopStep::Done(x)) ==> all == (
                Ok::<Value, Abrupt<'a>>(
                    if x is Empty {
                        Value::Undefined
                    } else {
                        x
                    },
                ),
                w1,
            )
            &&& r matches Err(a) ==> all == (Err::<Value, Abrupt<'a>>(a), w1)
        }),
{
}

/// The statements of a list run one after the other in one scope: the value is the last that is not empty,
/// and the first that ends early ends the list.
pub proof fn statements_run_in_order<'a>(
    stmts: &'a Vec<Stmt>,
    env: Env,
    depth: u64,
    i: nat,
    v: Value,
    w: World<'a>,
)
    ensures
        i < stmts@.len() ==> ({
            let (r, w1) = exec_stmt_step(&stmts@[i as int], env, depth, w);
            let all = exec_list_from(stmts, env, depth, i, v, w);
            let body = run_body_from(stmts, env, depth, i, v, w);
            let cases = run_case_from(stmts, v, env, depth, i, v, w);
            &&& r matches Ok(x) ==> {
                let kept = if x is Empty {
                    v
                } else {
                    x
                };
                &&& all == exec_list_from(stmts, env, depth, i + 1, kept, w1)
                &&& body == run_body_from(stmts, env, depth, i + 1, kept, w1)
            }
            &&& r matches Err(Abrupt::Throw(e)) ==> {
                &&& all == (Err::<Value, Abrupt<'a>>(Abrupt::Throw(e)), w1)
                &&& body == (Err::<Value, Abrupt<'a>>(Abrupt::Throw(e)), w1)
                &&& cases == (Err::<LoopStep, Abrupt<'a>>(Abrupt::Throw(e)), w1)
            }
            &&& r matches Err(Abrupt::Return(e)) ==> {
                &&& all == (Err::<Value, Abrupt<'a>>(Abrupt::Return(e)), w1)
                &&& body == (Err::<Value, Abrupt<'a>>(Abrupt::Return(e)), w1)
            }
            &&& r matches Err(Abrupt::Break(None, x)) ==> cases == (
                Ok::<LoopStep, Abrupt<'a>>(
                    LoopStep::Done(
                        if x is Empty {
                            v
                        } else {
                            x
                        },
                    ),
                ),
                w1,
            )
        }),
        i >= stmts@.len() ==> exec_list_from(stmts, env, depth, i, v, w) == (
            Ok::<Value, Abrupt<'a>>(v),
            w,
        ) && run_body_from(stmts, env, depth, i, v, w) == (Ok::<Value, Abrupt<'a>>(v), w)
            && run_case_from(stmts, v, env, depth, i, v, w) == (
            Ok::<LoopStep, Abrupt<'a>>(LoopStep::Continue(v)),
            w,
        ),
{
}

/// A block that declares names of its own runs in a scope of its own within the one around it; any other
/// runs in the scope around it.
pub proof fn blocks_have_scopes<'a>(stmts: &'a Vec<Stmt>, env: Env, depth: u64, w: World<'a>)
    requires
        !any_using(stmts@),
    ensures
        ({
            let scope = w.next_scope();
            let opened = w.new_scope(Some(env), None, false, false);
            let (d, w1) = declare_lexicals_step(stmts, scope, opened);
            let all = exec_block_step(stmts, env, depth, w);
            &&& !any_lexical(stmts@) ==> all == exec_list_step(stmts, env, depth, w)
            &&& any_lexical(stmts@) && d is Ok ==> all == exec_list_step(stmts, scope, depth, w1)
        }),
{
    reveal_with_fuel(exec_block_step, 2);
}

/// A declaration of one name with an initial value that is no anonymous function gives the name that
/// value: a `let` can be written again, a `const` cannot.
pub proof fn declarations_give_values<'a>(
    st: &'a Stmt,
    name: &'a String,
    e: &'a Expr,
    constant: bool,
    env: Env,
    depth: u64,
    w: World<'a>,
)
    requires
        st matches Stmt::VarDecl { kind, decls } && kind == (if constant {
            DeclKind::Const
        } else {
            DeclKind::Let
        }) && decls@ == seq![(Pattern::Ident(*name), Some(*e))],
        !anonymous_fn(e),
        !(e is Class),
    ensures
        ({
            let (v, w1) = eval_step(e, env, depth, w);
            let (r, after) = exec_stmt_step(st, env, depth, w);
            &&& v matches Err(a) ==> r == Err::<Value, Abrupt<'a>>(a) && after == w1
            &&& v matches Ok(x) ==> (env < w1.scopes.scopes.len() && w1.limit > 0 ==> {
                &&& r == Ok::<Value, Abrupt<'a>>(Value::Empty)
                &&& after.asked == w1.asked
                &&& get_var_step(Name::Source(name), env, after).0 == Ok::<Value, Abrupt<'a>>(x)
                &&& after.scopes.write_view(env, name@, true) == (if constant {
                    Write::Refused
                } else {
                    Write::Stored
                })
            })
        }),
{
    let (v, w1) = eval_step(e, env, depth, w);
    let n = Name::Source(name);
    if let Stmt::VarDecl { kind, decls } = st {
        assert(decls@[0] == (Pattern::Ident(*name), Some(*e)));
        assert(eval_named_step(e, n, Key::Source(name), env, depth, w) == (v, w1));
        assert(decl_value_step(&decls@[0].0, &decls@[0].1, env, depth, w) == (v, w1));
        if let Ok(x) = v {
            let w2 = w1.init_lexical(n, x, constant, env);
            assert(bind_pattern_step(&decls@[0].0, x, env, mode_of(*kind), depth, w1) == (
                Ok::<(), Abrupt<'a>>(()),
                w2,
            ));
            assert(exec_decls_from(decls, *kind, env, depth, 1, w2) == (
                Ok::<Value, Abrupt<'a>>(Value::Empty),
                w2,
            ));
            assert(exec_decls_from(decls, *kind, env, depth, 0, w) == (
                Ok::<Value, Abrupt<'a>>(Value::Empty),
                w2,
            ));
            if env < w1.scopes.scopes.len() && w1.limit > 0 {
                initialized_names_read(n, x, constant, env, w1);
            }
        }
        assert(exec_decls_step(decls, *kind, env, depth, w) == exec_stmt_step(st, env, depth, w));
    }
}

/// A `var` declaration without an initial value changes nothing and asks for nothing.
pub proof fn plain_vars_change_nothing<'a>(
    declared: &'a (Pattern, Option<Expr>),
    env: Env,
    depth: u64,
    w: World<'a>,
)
    requires
        declared.1 is None,
    ensures
        exec_var_step(declared, env, depth, w) == (Ok::<(), Abrupt<'a>>(()), w),
{
}

/// A `with` statement runs its body in a scope whose names are first the properties of the object.
pub proof fn with_opens_the_object<'a>(
    st: &'a Stmt,
    o: Value,
    env: Env,
    depth: u64,
    w: World<'a>,
)
    requires
        st matches Stmt::With { obj, .. } && eval_step(obj, env, depth, w).0 == Ok::<
            Value,
            Abrupt<'a>,
        >(o),
        o is Obj,
    ensures
        st matches Stmt::With { obj, body } && {
            let w1 = eval_step(obj, env, depth, w).1;
            let scope = w1.next_scope();
            let opened = w1.new_scope(Some(env), Some(o), false, false);
            let (x, w2) = exec_stmt_step(&**body, scope, depth, opened);
            let (r, after) = exec_stmt_step(st, env, depth, w);
            &&& after == w2
            &&& x matches Ok(v) ==> r == Ok::<Value, Abrupt<'a>>(
                if v is Empty {
                    Value::Undefined
                } else {
                    v
                },
            )
            &&& x matches Err(Abrupt::Throw(e)) ==> r == x
            &&& w1.scopes.scopes.len() < usize::MAX ==> opened.scopes.stop(scope, "x"@)
                == Stop::With(scope, o)
        },
{
    reveal_with_fuel(exec_stmt_step, 2);
    reveal_with_fuel(exec_simple_step, 2);
}

/// The resources of a block are disposed of last first: disposing of a frame begins with the last resource,
/// whose method is called on it without arguments.
pub proof fn resources_go_last_first<'a>(
    frame: Seq<Disposable>,
    result: Completion<'a>,
    w: World<'a>,
)
    requires
        frame.len() > 0,
        !only_waits(frame.last()),
        w.lists.len() < u64::MAX,
    ensures
        ({
            let d = frame.last();
            let (r, w1) = dispose_one_step(d, w);
            let all = dispose_each_step(frame, result, w);
            &&& !d.method_is_async ==> w1.asked == w.asked.push(
                Request::Call { func: d.method, this: d.value, args: w.next_list() },
            ) && w1.list(w.next_list()).len() == 0
            &&& r is Ok ==> all == dispose_each_from(frame, result, (frame.len() - 1) as nat, result, w1)
            &&& r matches Err(Abrupt::Throw(e)) ==> (result is Ok ==> all == dispose_each_from(
                frame,
                result,
                (frame.len() - 1) as nat,
                Err(Abrupt::Throw(e)),
                w1,
            ))
        }),
        dispose_each_from(frame, result, 0, result, w) == ((result, true), w),
{
    let l = w.next_list();
    let w1 = w.new_list(Seq::empty());
    assert(w1.list(l) =~= Seq::<Value>::empty());
    let d = frame.last();
    let (r, w2) = dispose_one_step(d, w);
    let request = Request::Call { func: d.method, this: d.value, args: l };
    let called = w1.ask(request).1;
    assert(call_bare_step(d.method, d.value, w).1 == value_of(w1.ask(request).0, called).1);
    assert(called.list(l).len() == 0);
    assert(dispose_each_step(frame, result, w) == dispose_each_from(
        frame,
        result,
        frame.len(),
        result,
        w,
    ));
}

/// A resource that `using` declares goes to the innermost frame with the method that it has under the
/// symbol for disposal; `null` and `undefined` are left out.
pub proof fn resources_are_kept<'a>(value: Value, sym: u64, f: Value, w: World<'a>)
    ensures
        value is Null || value is Undefined ==> add_disposable_step(value, false, w) == (
            Ok::<(), Abrupt<'a>>(()),
            w,
        ),
        !(value is Null) && !(value is Undefined) && said(w, w.asked.len()) == Answer::<'a>::Handle(sym)
            && said(w, w.asked.len() + 1) == Answer::<'a>::Value(f) && f is Obj && said(
            w,
            w.asked.len() + 2,
        ) == Answer::<'a>::Flag(true) ==> ({
            let (r, after) = add_disposable_step(value, false, w);
            &&& r is Ok
            &&& after.asked[w.asked.len() as int] == Request::<'a>::WellKnownKey(WellKnown::Dispose)
            &&& after.asked[w.asked.len() as int + 1] == (Request::GetMember {
                base: value,
                key: Key::Symbol(sym),
            })
            &&& after.top_frame().last() == (Disposable { value, method: f, method_is_async: false })
        }),
{
}

/// A default export without a name is bound in the module's scope.
pub proof fn default_exports_are_bound<'a>(v: Value, env: Env, w: World<'a>)
    requires
        env < w.scopes.scopes.len(),
    ensures
        export_value_step(v, env, w).0 == Ok::<Value, Abrupt<'a>>(Value::Empty),
        export_value_step(v, env, w).1.scopes.value_in(env, "*default*"@) == v,
        export_value_step(v, env, w).1.asked == w.asked,
{
}

/// A function that a block declares is there from the start: the host makes it in the block's scope, and
/// its name reads as it.
pub proof fn block_functions_are_there<'a>(
    stmts: &'a Vec<Stmt>,
    func: &'a Function,
    name: &'a String,
    f: Value,
    env: Env,
    w: World<'a>,
)
    requires
        stmts@.len() == 1,
        function_of(&stmts@[0]) == Some((func, name)),
        env < w.scopes.scopes.len(),
        said(w, w.asked.len()) == Answer::<'a>::Value(f),
    ensures
        ({
            let (r, after) = declare_lexicals_step(stmts, env, w);
            &&& r is Ok
            &&& after.asked == w.asked.push(Request::MakeFunction { func, env })
            &&& after.scopes.value_in(env, name@) == f
            &&& after.scopes.ready_at(env, name@)
        }),
{
    reveal_with_fuel(declare_lexicals_from, 3);
}

} // verus!
