//! What holds of programs, of evaluated code and of loops around them, whatever the host answers.
use vstd::prelude::*;

use crate::ast::{DeclKind, Expr, Pattern, Stmt};
use crate::grammar::Symbol;
use crate::interp::class::eval_class_step;
use crate::interp::dynamic::{
    create_globals_from, create_names_from, eval_declaration_instantiation_step, perform_eval_step,
    refuse_clashes_from, refuse_globals_from, run_declared_step, run_eval_body_step,
};
use crate::interp::eval::{bind_pattern_step, eval_named_step, eval_step};
use crate::interp::exec::{
    await_round_step, await_rounds_step, await_step_step, bind_and_run_step, check_namespace_step,
    declare_head_from, dispose_method_step, exec_c_for_body_step, exec_do_while_step,
    exec_export_default_step, exec_for_await_step, exec_for_in_of_step, exec_for_init_step,
    exec_for_of_step, exec_for_step, exec_return_step, exec_stmt_step, exec_while_step,
    export_value_step, for_of_iteration_step, for_rounds_step, head_mode_of, head_value_step,
    in_rounds_step, init_disposes, init_head_from, mode_of, of_rounds_step, read_exports_from,
    round_scope_step, run_element_step, run_labeled_step, run_stmt_list_step, LoopStep,
};
use crate::interp::object::{enum_keys_step, set_own_value_step};
use crate::interp::object_laws::complains;
use crate::interp::operate::{
    get_iterator_step, is_callable_step, iterator_close_normal_step, iterator_close_step,
    name_function_step,
};
use crate::interp::program::{
    add_global_step, call_value_step, define_method_step, describe_member_step,
    describe_throw_step, list_args_from, list_args_step, load_all_step, load_module_step,
    next_job_step, render_step, run_loaded_step, run_program_step, run_script_step, run_value_step,
    thrown_name_step, Loaded, Outcome,
};
use crate::interp::promise::{coro_await_step, run_agent_event_loop_step, run_job_step};
use crate::interp::promise_laws::said;
use crate::interp::session::{
    Abrupt, Answer, EVAL_DEPTH, Env, ErrorKind, Key, Name, Request, TailCall, Value, WellKnown,
    World,
};
use crate::interp::suspend::{async_for_await_close_step, async_iterator_step};
use crate::interp::tail::{eval_return_expr_step, TailEval};
use crate::jobs::{Job, Status};
use crate::modules::evaluate::evaluate_batch_step;
use crate::modules::instantiate::link_modules_step;
use crate::modules::progress::PlanModule;
use crate::modules::register::LoadError;
use crate::scan::{begins_strict, disposing};
use crate::scope::dynamic::EvalPlace;
use crate::value::props::Property;

verus! {

// ---- statements

/// A method to dispose of a resource: the asynchronous one for `await using`, and the ordinary one where
/// there is none or the resource is not asynchronous. What has no such function is a `TypeError`.
pub proof fn resources_have_methods<'a>(v: Value, key: u64, f: u64, w: World<'a>)
    requires
        said(w, w.asked.len()) == Answer::<'a>::Handle(key),
        said(w, w.asked.len() + 1) == Answer::<'a>::Value(Value::Obj(f)),
        said(w, w.asked.len() + 2) is Flag,
    ensures
        ({
            let n = w.asked.len();
            let (r, after) = dispose_method_step(v, false, w);
            &&& after.asked[n as int] == Request::<'a>::WellKnownKey(WellKnown::Dispose)
            &&& after.asked[n as int + 1] == (Request::GetMember { base: v, key: Key::Symbol(key) })
            &&& said(w, n + 2) == Answer::<'a>::Flag(true) ==> r == Ok::<(Value, bool), Abrupt<'a>>(
                (Value::Obj(f), false),
            )
            &&& said(w, n + 2) == Answer::<'a>::Flag(false) ==> !(r is Ok) && complains(
                after,
                ErrorKind::TypeError,
            )
        }),
        said(w, w.asked.len() + 2) == Answer::<'a>::Flag(true) && said(w, w.asked.len() + 3) == Answer::<
            'a,
        >::Flag(true) ==> ({
            let n = w.asked.len();
            let (r, after) = dispose_method_step(v, true, w);
            &&& after.asked[n as int] == Request::<'a>::WellKnownKey(WellKnown::AsyncDispose)
            &&& r == Ok::<(Value, bool), Abrupt<'a>>((Value::Obj(f), true))
        }),
{
}

/// The declarations of a loop head are declared and then initialized, in their order, each with the value of
/// its initializer.
pub proof fn heads_are_initialized<'a>(
    decls: &'a Vec<(Pattern, Option<Expr>)>,
    kind: DeclKind,
    env: Env,
    depth: u64,
    i: nat,
    w: World<'a>,
)
    requires
        i < decls@.len(),
    ensures
        declare_head_from(decls, env, i, w) == declare_head_from(
            decls,
            env,
            i + 1,
            w.declare_pattern(&decls@[i as int].0, env),
        ),
        !disposing(kind) ==> ({
            let (v, w1) = match &decls@[i as int].1 {
                Some(e) => eval_step(e, env, depth, w),
                None => (Ok::<Value, Abrupt<'a>>(Value::Undefined), w),
            };
            let (u, w2) = bind_pattern_step(
                &decls@[i as int].0,
                v->Ok_0,
                env,
                mode_of(kind),
                depth,
                w1,
            );
            v is Ok && u is Ok ==> init_head_from(decls, kind, env, depth, i, w) == init_head_from(
                decls,
                kind,
                env,
                depth,
                i + 1,
                w2,
            )
        }),
{
}

/// A `for` loop initializes its head in a scope of its own and then goes round; a `let` head gets a scope for
/// each round, with the values of the one before.
pub proof fn for_loops_begin<'a>(whole: &'a Stmt, st: &'a Stmt, env: Env, depth: u64, w: World<'a>)
    requires
        st is For,
    ensures
        st matches Stmt::For { init, .. } && {
            let scope = w.next_scope();
            let (u, w1) = exec_for_init_step(
                init,
                scope,
                depth,
                w.new_scope(Some(env), None, false, false),
            );
            let (round, w2) = round_scope_step(st, scope, w1);
            !init_disposes(init) && u is Ok && round is Ok ==> exec_for_step(whole, st, env, depth, w)
                == for_rounds_step(whole, st, round->Ok_0, depth, w2)
        },
{
    if let Stmt::For { init, .. } = st {
        assert(exec_c_for_body_step(
            whole,
            st,
            w.next_scope(),
            depth,
            w.new_scope(Some(env), None, false, false),
        ) == exec_for_step(whole, st, env, depth, w) || init_disposes(init));
    }
}

/// A `for`-`of` loop goes over the iterator of its value. An iterator that is still open behind it is closed:
/// an error of the loop stays, and any other end gives way to an error of closing.
pub proof fn loops_close_their_iterator<'a>(
    whole: &'a Stmt,
    st: &'a Stmt,
    rhs: Value,
    env: Env,
    depth: u64,
    w: World<'a>,
)
    ensures
        ({
            let (it, w1) = get_iterator_step(rhs, w);
            it matches Ok(pair) ==> ({
                let (r, w2) = of_rounds_step(whole, st, pair.0, pair.1, env, depth, w1);
                let all = exec_for_of_step(whole, st, rhs, env, depth, w);
                &&& !r.1 ==> all == (r.0, w2)
                &&& r.1 && (r.0 matches Err(Abrupt::Throw(_))) ==> all.0 == r.0 && all.1
                    == iterator_close_step(pair.0, w2).1
                &&& r.1 && !(r.0 matches Err(Abrupt::Throw(_))) ==> match iterator_close_normal_step(
                    pair.0,
                    w2,
                ) {
                    (Ok(_), w3) => all == (r.0, w3),
                    (Err(a), w3) => all == (Err::<Value, Abrupt<'a>>(a), w3),
                }
            })
        }),
        ({
            let (it, w1) = async_iterator_step(rhs, w);
            it matches Ok(found) ==> (said(w1, w1.asked.len()) matches Answer::Value(m) ==> ({
                let w2 = w1.ask(Request::GetMember { base: found.0, key: Key::Fixed("next") }).1;
                let (r, w3) = await_rounds_step(whole, st, found.0, m, found.2, env, depth, w2);
                let (c, w4) = async_for_await_close_step(found.0, found.2, w3);
                let all = exec_for_await_step(whole, st, rhs, env, depth, w);
                &&& !r.1 ==> all == (r.0, w3)
                &&& r.1 && (r.0 matches Err(Abrupt::Throw(_))) ==> all == (r.0, w4)
                &&& r.1 && !(r.0 matches Err(Abrupt::Throw(_))) && c is Ok ==> all == (r.0, w4)
                &&& r.1 && !(r.0 matches Err(Abrupt::Throw(_))) ==> (c matches Err(a) ==> all == (
                    Err::<Value, Abrupt<'a>>(a),
                    w4,
                ))
            }))
        }),
{
}

/// Which loop a `for` head with `in` or `of` is: `for`-`of` goes over an iterator, `for await` over an
/// asynchronous one, and `for`-`in` over the keys of the value.
pub proof fn heads_choose_the_loop<'a>(
    whole: &'a Stmt,
    st: &'a Stmt,
    env: Env,
    depth: u64,
    w: World<'a>,
)
    requires
        st is ForInOf,
    ensures
        st matches Stmt::ForInOf { decl, left, right, of, is_await, .. } && {
            let (v, w1) = head_value_step(decl, left, right, env, depth, w);
            v matches Ok(rhs) ==> {
                &&& *of && *is_await ==> exec_for_in_of_step(whole, st, env, depth, w)
                    == exec_for_await_step(whole, st, rhs, env, depth, w1)
                &&& *of && !*is_await ==> exec_for_in_of_step(whole, st, env, depth, w)
                    == exec_for_of_step(whole, st, rhs, env, depth, w1)
                &&& !*of ==> ({
                    let (u, w2) = check_namespace_step(rhs, w1);
                    let (k, w3) = enum_keys_step(rhs, w2);
                    u is Ok && k is Ok ==> exec_for_in_of_step(whole, st, env, depth, w)
                        == in_rounds_step(whole, st, rhs, k->Ok_0, env, depth, w3)
                })
            }
        },
{
}

/// The value of a loop head is evaluated where its names are declared but not initialized, if it declares
/// any with `let` or `const`.
pub proof fn head_values_see_dead_names<'a>(
    decl: &'a Option<DeclKind>,
    left: &'a Pattern,
    right: &'a Expr,
    env: Env,
    depth: u64,
    w: World<'a>,
)
    ensures
        decl is None || *decl == Some(DeclKind::Var) ==> head_value_step(decl, left, right, env, depth, w)
            == eval_step(right, env, depth, w),
        *decl == Some(DeclKind::Let) || *decl == Some(DeclKind::Const) ==> head_value_step(
            decl,
            left,
            right,
            env,
            depth,
            w,
        ) == eval_step(
            right,
            w.next_scope(),
            depth,
            w.new_scope(Some(env), None, false, false).declare_pattern(left, w.next_scope()),
        ),
{
}

/// An asynchronous round runs on the element that was waited for, in a scope of its own.
pub proof fn async_elements_are_run<'a>(
    st: &'a Stmt,
    iter: Value,
    method: Value,
    from_sync: bool,
    env: Env,
    depth: u64,
    w: World<'a>,
)
    ensures
        ({
            let (step, w1) = await_step_step(iter, method, from_sync, w);
            let (r, after) = await_round_step(st, iter, method, from_sync, env, depth, w);
            match step {
                Ok(Some(v)) => r.1 && r.0 == run_element_step(st, v, env, depth, w1).0 && after
                    == run_element_step(st, v, env, depth, w1).1,
                Ok(None) => !r.1 && r.0 is Ok && after == w1,
                Err(a) => !r.1 && r.0 == Err::<LoopStep, Abrupt<'a>>(a),
            }
        }),
        st matches Stmt::ForInOf { decl, left, body, .. } ==> (decl is None ==> forall|v: Value|
            {
                let (u, w1) = bind_pattern_step(
                    left,
                    v,
                    w.next_scope(),
                    head_mode_of(*decl),
                    depth,
                    w.new_scope(Some(env), None, false, false),
                );
                let (x, w2) = exec_stmt_step(&**body, w.next_scope(), depth, w1);
                u is Ok && x is Ok ==> #[trigger] run_element_step(st, v, env, depth, w) == (
                    Ok::<LoopStep, Abrupt<'a>>(LoopStep::Continue(x->Ok_0)),
                    w2,
                )
            }),
{
    if let Stmt::ForInOf { decl, left, body, .. } = st {
        if decl is None {
            assert forall|v: Value|
                {
                    let (u, w1) = bind_pattern_step(
                        left,
                        v,
                        w.next_scope(),
                        head_mode_of(*decl),
                        depth,
                        w.new_scope(Some(env), None, false, false),
                    );
                    let (x, w2) = exec_stmt_step(&**body, w.next_scope(), depth, w1);
                    u is Ok && x is Ok ==> #[trigger] run_element_step(st, v, env, depth, w) == (
                        Ok::<LoopStep, Abrupt<'a>>(LoopStep::Continue(x->Ok_0)),
                        w2,
                    )
                } by {
                let w0 = w.new_scope(Some(env), None, false, false);
                assert(for_of_iteration_step(st, v, w.next_scope(), depth, w0) == bind_and_run_step(
                    st,
                    v,
                    w.next_scope(),
                    depth,
                    w0,
                ));
            }
        }
    }
}

/// Labels stand for the statement behind them: a loop runs as the loop of its labels.
pub proof fn labels_reach_the_loop<'a>(whole: &'a Stmt, st: &'a Stmt, env: Env, depth: u64, w: World<'a>)
    ensures
        st matches Stmt::Labeled { body, .. } ==> run_labeled_step(whole, st, env, depth, w)
            == run_labeled_step(whole, &**body, env, depth, w),
        st is While ==> run_labeled_step(whole, st, env, depth, w) == exec_while_step(
            whole,
            st,
            env,
            depth,
            w,
        ),
        st is For ==> run_labeled_step(whole, st, env, depth, w) == exec_for_step(
            whole,
            st,
            env,
            depth,
            w,
        ),
        st is DoWhile ==> run_labeled_step(whole, st, env, depth, w) == exec_do_while_step(
            whole,
            st,
            env,
            depth,
            w,
        ),
        st is ForInOf ==> run_labeled_step(whole, st, env, depth, w) == exec_for_in_of_step(
            whole,
            st,
            env,
            depth,
            w,
        ),
        st is Block ==> run_labeled_step(whole, st, env, depth, w) == exec_stmt_step(st, env, depth, w),
{
}

/// A `return` in tail position leaves its call to the caller, where nothing is left to dispose of; an
/// asynchronous generator waits for the value that it returns.
pub proof fn returns_leave_their_call<'a>(e: &'a Expr, env: Env, depth: u64, w: World<'a>)
    ensures
        w.flags.tail && !w.holds_resources() ==> ({
            let (t, w1) = eval_return_expr_step(e, env, depth, w);
            let (r, after) = exec_return_step(e, env, depth, w);
            &&& t matches Ok(TailEval::Val(v)) ==> r == Err::<Value, Abrupt<'a>>(Abrupt::Return(v))
                && after == w1
            &&& t matches Ok(TailEval::Tail { func, this, args }) ==> r == Err::<Value, Abrupt<'a>>(
                Abrupt::Return(Value::Undefined),
            ) && after.flags.pending == Some(TailCall { func, this, args }) && after.asked == w1.asked
        }),
        !w.flags.tail ==> ({
            let (v, w1) = eval_step(e, env, depth, w);
            let (r, after) = exec_return_step(e, env, depth, w);
            v matches Ok(x) ==> {
                &&& said(w1, w1.asked.len()) == Answer::<'a>::Flag(false) ==> r == Err::<
                    Value,
                    Abrupt<'a>,
                >(Abrupt::Return(x))
                &&& said(w1, w1.asked.len()) == Answer::<'a>::Flag(true) ==> match coro_await_step(
                    x,
                    w1.ask(Request::InAsyncGenerator).1,
                ) {
                    (Ok(y), w2) => r == Err::<Value, Abrupt<'a>>(Abrupt::Return(y)),
                    (Err(a), w2) => r == Err::<Value, Abrupt<'a>>(a),
                }
            }
        }),
{
}

/// A namespace's exports are all read before its keys are enumerated, and the first that cannot be read ends
/// it.
pub proof fn exports_are_read_first<'a>(ns: Value, keys: u64, t: u64, k: nat, w: World<'a>)
    requires
        k > 0,
    ensures
        !w.has_item(keys, 0) ==> read_exports_from(ns, keys, k, w) == (Ok::<(), Abrupt<'a>>(()), w),
        w.has_item(keys, 0) && w.item(keys, 0) == Value::Str(t) ==> ({
            let w1 = w.drop_item(keys).ask(Request::ReadExport { base: ns, key: Key::Made(t) }).1;
            match said(w, w.asked.len()) {
                Answer::Value(_) => read_exports_from(ns, keys, k, w) == read_exports_from(
                    ns,
                    keys,
                    (k - 1) as nat,
                    w1,
                ),
                Answer::Throw(e) => read_exports_from(ns, keys, k, w) == (
                    Err::<(), Abrupt<'a>>(Abrupt::Throw(e)),
                    w1,
                ),
                _ => true,
            }
        }),
{
}

// ---- programs

/// A program is declared in the global scope and run there.
pub proof fn programs_run_globally<'a>(body: &'a Vec<Stmt>, w: World<'a>)
    ensures
        ({
            let (r, after) = run_program_step(body, w);
            let w1 = w.ask(Request::DeclareProgram { stmts: body, env: 0 }).1;
            &&& said(w, w.asked.len()) is Value ==> (r, after) == run_stmt_list_step(
                body,
                0,
                EVAL_DEPTH,
                w1,
            )
            &&& said(w, w.asked.len()) matches Answer::Throw(e) ==> r == Err::<Value, Abrupt<'a>>(
                Abrupt::Throw(e),
            ) && after == w1
        }),
{
}

/// A thrown error is described by its own name and message, as texts; the name of one without is that of its
/// constructor.
pub proof fn errors_are_described<'a>(o: u64, name: u64, message: u64, w: World<'a>)
    requires
        said(w, w.asked.len()) == Answer::<'a>::Flag(true),
        said(w, w.asked.len() + 1) == Answer::<'a>::Value(Value::Str(name)),
        said(w, w.asked.len() + 2) == Answer::<'a>::Value(Value::Str(message)),
    ensures
        ({
            let n = w.asked.len() as int;
            let (r, after) = describe_throw_step(Value::Obj(o), w);
            &&& after.asked[n + 1] == (Request::GetMember {
                base: Value::Obj(o),
                key: Key::Fixed("name"),
            })
            &&& after.asked[n + 2] == (Request::GetMember {
                base: Value::Obj(o),
                key: Key::Fixed("message"),
            })
            &&& r == (Outcome::Throw {
                name: Some(Value::Str(name)),
                message: Some(Value::Str(message)),
            })
        }),
{
}

/// The name of an error without one of its own is that of its constructor.
pub proof fn constructors_name_errors<'a>(o: u64, c: u64, name: u64, w: World<'a>)
    requires
        said(w, w.asked.len()) == Answer::<'a>::Value(Value::Undefined),
        said(w, w.asked.len() + 1) == Answer::<'a>::Value(Value::Obj(c)),
        said(w, w.asked.len() + 2) == Answer::<'a>::Value(Value::Str(name)),
    ensures
        ({
            let n = w.asked.len() as int;
            let (r, after) = thrown_name_step(Value::Obj(o), w);
            &&& after.asked[n + 1] == (Request::GetMember {
                base: Value::Obj(o),
                key: Key::Fixed("constructor"),
            })
            &&& after.asked[n + 2] == (Request::GetMember {
                base: Value::Obj(c),
                key: Key::Fixed("name"),
            })
            &&& r == Some(Value::Str(name))
        }),
{
}

/// A member that is `undefined` or cannot be read describes nothing.
pub proof fn missing_members_describe_nothing<'a>(base: Value, key: Key<'a>, t: u64, w: World<'a>)
    ensures
        said(w, w.asked.len()) == Answer::<'a>::Value(Value::Undefined) ==> describe_member_step(
            base,
            key,
            w,
        ).0 is None,
        said(w, w.asked.len()) is Throw ==> describe_member_step(base, key, w).0 is None,
        said(w, w.asked.len()) == Answer::<'a>::Value(Value::Str(t)) ==> describe_member_step(
            base,
            key,
            w,
        ).0 == Some(Value::Str(t)),
        said(w, w.asked.len()) == Answer::<'a>::Value(Value::Str(t)) ==> describe_member_step(
            base,
            key,
            w,
        ).1.asked == w.asked.push(Request::GetMember { base, key }),
{
}

/// A script is the text of its value, and one that ends early is described as a throw; the jobs that it has
/// left run in either case.
pub proof fn scripts_have_outcomes<'a>(body: &'a Vec<Stmt>, strict: bool, w: World<'a>)
    ensures
        ({
            let w0 = World { strict: strict || begins_strict(body@), ..w };
            let (r, w1) = run_program_step(body, w0);
            let (u, w2) = run_agent_event_loop_step(w1);
            let all = run_script_step(body, strict, w);
            &&& r matches Ok(v) ==> ({
                let (t, w3) = render_step(v, w2);
                all == (Outcome::Value(t), w3)
            })
            &&& r matches Err(Abrupt::Throw(e)) ==> all == describe_throw_step(e, w2)
        }),
{
}

/// A value that a script gives is that value, `undefined` where there is none; what it throws is an error.
pub proof fn values_of_scripts<'a>(body: &'a Vec<Stmt>, w: World<'a>)
    ensures
        ({
            let w0 = World { strict: begins_strict(body@), ..w };
            let (r, w1) = run_program_step(body, w0);
            let all = run_value_step(body, w);
            &&& r == Ok::<Value, Abrupt<'a>>(Value::Empty) ==> all == (
                Ok::<Value, Value>(Value::Undefined),
                w1,
            )
            &&& r matches Ok(v) ==> (!(v is Empty) ==> all == (Ok::<Value, Value>(v), w1))
            &&& r matches Err(Abrupt::Throw(e)) ==> all == (Err::<Value, Value>(e), w1)
        }),
{
}

/// A module that was loaded is linked with all that it depends on before it is evaluated; it fails as its
/// promise does, and as loading it did.
pub proof fn modules_fail_as_their_promise<'a>(
    plan: &'a Vec<PlanModule>,
    m: usize,
    p: u64,
    reason: Value,
    loaded: &'a Result<Loaded, LoadError>,
    w: World<'a>,
)
    ensures
        ({
            let (u, w1) = evaluate_batch_step(plan, m, EVAL_DEPTH, w);
            let (v, w2) = run_agent_event_loop_step(w1);
            u is Ok && v is Ok && w2.module(m).promise == Some(Value::Obj(p)) ==> {
                &&& w2.promise_status(p) == Some(Status::Rejected(reason)) ==> load_module_step(plan, m, w).0
                    == Err::<(), Abrupt<'a>>(Abrupt::Throw(reason))
                &&& w2.promise_status(p) == Some(Status::Fulfilled(reason)) ==> load_module_step(
                    plan,
                    m,
                    w,
                ).0 is Ok
            }
        }),
        loaded matches Ok(l) ==> ({
            let (u, w1) = link_modules_step(&l.order, &l.plan, w);
            &&& u is Ok ==> load_all_step(loaded, w) == load_module_step(&l.plan, l.place, w1)
            &&& u matches Err(a) ==> load_all_step(loaded, w) == (Err::<(), Abrupt<'a>>(a), w1)
        }),
        loaded is Err ==> !(load_all_step(loaded, w).0 is Ok) && complains(
            load_all_step(loaded, w).1,
            ErrorKind::TypeError,
        ),
{
}

// ---- embedding

/// A function of the embedder's is made with its name and length and is a hidden property under that name.
pub proof fn methods_of_embedders<'a>(
    base: Value,
    name: &'a String,
    length: usize,
    func: u64,
    f: Value,
    w: World<'a>,
)
    requires
        said(w, w.asked.len()) == Answer::<'a>::Value(f),
    ensures
        ({
            let (r, after) = define_method_step(base, name, length, func, w);
            let n = w.asked.len() as int;
            &&& after.asked.len() == n + 2
            &&& after.asked[n] == (Request::MakeNative { func, name, length: length as u64 })
            &&& after.asked[n + 1] == (Request::DefineOwn {
                base,
                key: Key::Source(name),
                prop: Property::of(f, true, false, true),
            })
        }),
        add_global_step(name, length, func, w) == define_method_step(
            f,
            name,
            length,
            func,
            w.ask(Request::GlobalObject).1,
        ),
{
}

/// A function is called with the receiver and arguments given, in their order, and what it throws is an
/// error.
pub proof fn calls_pass_their_arguments<'a>(
    func: Value,
    this: Value,
    args: &'a Vec<Value>,
    i: nat,
    l: u64,
    w: World<'a>,
)
    ensures
        i < args@.len() ==> list_args_from(args, l, i, w) == list_args_from(
            args,
            l,
            i + 1,
            w.with_list(l, w.list(l).push(args@[i as int])),
        ),
        list_args_from(args, l, args@.len(), w) == (Ok::<(), Abrupt<'a>>(()), w),
        ({
            let at = w.next_list();
            let (u, w1) = list_args_step(args, at, w.new_list(Seq::empty()));
            u is Ok ==> {
                &&& call_value_step(func, this, args, w).1.asked == w1.asked.push(
                    Request::Call { func, this, args: at },
                )
                &&& said(w1, w1.asked.len()) matches Answer::Value(v) ==> call_value_step(
                    func,
                    this,
                    args,
                    w,
                ).0 == Ok::<Value, Value>(v)
                &&& said(w1, w1.asked.len()) matches Answer::Throw(e) ==> call_value_step(
                    func,
                    this,
                    args,
                    w,
                ).0 == Err::<Value, Value>(e)
            }
        }),
{
}

/// The next job is the one that is due first; where none is due, nothing happens.
pub proof fn jobs_are_taken_in_order<'a>(job: Job, w: World<'a>)
    ensures
        w.first_job() is None ==> next_job_step(w) == (false, w),
        w.first_job() == Some(job) ==> next_job_step(w) == (true, run_job_step(job, w.drop_job()).1),
{
}

// ---- evaluated code

/// Evaluated code is refused a name that is declared lexically between it and where its variables go.
pub proof fn clashing_names_are_refused<'a>(
    names: Seq<Seq<char>>,
    probe: Env,
    lex: Env,
    var: Env,
    i: nat,
    w: World<'a>,
)
    requires
        i < names.len(),
    ensures
        !w.scopes.var_refused(lex, var, names[i as int]) ==> refuse_clashes_from(
            names,
            probe,
            lex,
            var,
            i,
            w,
        ) == refuse_clashes_from(names, probe, lex, var, i + 1, w),
        w.scopes.var_refused(lex, var, names[i as int]) ==> !(refuse_clashes_from(
            names,
            probe,
            lex,
            var,
            i,
            w,
        ).0 is Ok),
{
}

/// Names of evaluated code that go into a scope: a function takes its name there, and a `var` is `undefined`
/// where the name is not bound yet and changes nothing where it is.
pub proof fn evaluated_names_are_created<'a>(
    names: Seq<Seq<char>>,
    probe: Env,
    var: Env,
    i: nat,
    f: bool,
    w: World<'a>,
)
    requires
        i < names.len(),
        is_callable_step(w.scopes.value_in(probe, names[i as int]), w).0 == Ok::<bool, Abrupt<'a>>(f),
    ensures
        ({
            let v = w.scopes.value_in(probe, names[i as int]);
            let w1 = is_callable_step(v, w).1;
            let all = create_names_from(names, probe, var, i, w);
            &&& f ==> all == create_names_from(
                names,
                probe,
                var,
                i + 1,
                w1.bind_declared(var, probe, i as usize, v),
            )
            &&& !f && w1.scopes.binds(var, names[i as int]) ==> all == create_names_from(
                names,
                probe,
                var,
                i + 1,
                w1,
            )
            &&& !f && !w1.scopes.binds(var, names[i as int]) ==> all == create_names_from(
                names,
                probe,
                var,
                i + 1,
                w1.bind_declared(var, probe, i as usize, Value::Undefined),
            )
        }),
{
}

/// Evaluated code runs once its names are declared, as strict or sloppy code as it is; the code around it is
/// as strict afterwards as before, and code whose names cannot be declared does not run.
pub proof fn evaluated_code_runs_behind_its_names<'a>(
    body: &'a Vec<Stmt>,
    var: Env,
    lex: Env,
    strict: bool,
    depth: u64,
    w: World<'a>,
)
    ensures
        ({
            let (d, w1) = eval_declaration_instantiation_step(body, var, lex, strict, w);
            let (r, w2) = run_stmt_list_step(body, lex, depth, World { strict, ..w1 });
            let all = run_eval_body_step(body, var, lex, strict, depth, w);
            &&& d is Ok ==> all == (r, World { strict: w.strict, ..w2 })
            &&& d matches Err(a) ==> all.0 == Err::<Value, Abrupt<'a>>(a) && all.1.asked == w1.asked
        }),
{
    let (d, w1) = eval_declaration_instantiation_step(body, var, lex, strict, w);
    let w2 = World { strict, ..w1 };
    assert(run_declared_step(d, body, lex, depth, w2) == (match d {
        Ok(_) => run_stmt_list_step(body, lex, depth, w2),
        Err(a) => (Err::<Value, Abrupt<'a>>(a), w2),
    }));
}

// ---- global code

/// Names of evaluated code that go to the global object: a function is defined there, unless an ordinary
/// property that cannot be configured just takes it as its value; a `var` is added as `undefined` where there
/// is no such property yet, and changes nothing where there is.
pub proof fn evaluated_names_become_globals<'a>(
    names: Seq<Seq<char>>,
    probe: Env,
    g: Value,
    i: nat,
    f: bool,
    w: World<'a>,
)
    requires
        i < names.len(),
        is_callable_step(w.scopes.value_in(probe, names[i as int]), w).0 == Ok::<bool, Abrupt<'a>>(f),
    ensures
        ({
            let key: Key<'a> = Key::Declared { env: probe, at: i as u64 };
            let v = w.scopes.value_in(probe, names[i as int]);
            let w1 = is_callable_step(v, w).1;
            let n = w1.asked.len();
            let w3 = w1.ask(Request::OwnProperty { base: g, key }).1.ask(Request::IsExtensible(g)).1;
            let all = create_globals_from(names, probe, g, i, w);
            let defined = |x: Value|
                w3.ask(Request::DefineOwn { base: g, key, prop: Property::of(x, true, true, true) }).1;
            let fine = !(said(w1, n + 2) is Throw) && !(said(w1, n + 2) is Return);
            said(w1, n + 1) matches Answer::Flag(open) ==> {
                &&& said(w1, n) is Value && f && fine ==> all == create_globals_from(
                    names,
                    probe,
                    g,
                    i + 1,
                    defined(v),
                )
                &&& said(w1, n) is Value && !f && open && fine ==> all == create_globals_from(
                    names,
                    probe,
                    g,
                    i + 1,
                    defined(Value::Undefined),
                )
                &&& said(w1, n) is Own && !f ==> all == create_globals_from(names, probe, g, i + 1, w3)
                &&& said(w1, n) matches Answer::Own(p) ==> (f && !p.configurable && !p.accessor ==> match set_own_value_step(
                    g,
                    key,
                    v,
                    w3,
                ) {
                    (Ok(_), w4) => all == create_globals_from(names, probe, g, i + 1, w4),
                    (Err(a), w4) => all == (Err::<(), Abrupt<'a>>(a), w4),
                })
            }
        }),
{
}

/// A name that the global object does not take is refused: a function over a property that can neither be
/// configured nor written plainly, and any new name where the object is closed.
pub proof fn unfit_globals_are_refused<'a>(
    names: Seq<Seq<char>>,
    probe: Env,
    g: Value,
    i: nat,
    f: bool,
    w: World<'a>,
)
    requires
        i < names.len(),
        is_callable_step(w.scopes.value_in(probe, names[i as int]), w).0 == Ok::<bool, Abrupt<'a>>(f),
    ensures
        ({
            let key: Key<'a> = Key::Declared { env: probe, at: i as u64 };
            let v = w.scopes.value_in(probe, names[i as int]);
            let w1 = is_callable_step(v, w).1;
            let n = w1.asked.len();
            let w3 = w1.ask(Request::OwnProperty { base: g, key }).1.ask(Request::IsExtensible(g)).1;
            let all = refuse_globals_from(names, probe, g, i, w);
            said(w1, n + 1) matches Answer::Flag(open) ==> {
                &&& said(w1, n) is Value && open ==> all == refuse_globals_from(
                    names,
                    probe,
                    g,
                    i + 1,
                    w3,
                )
                &&& said(w1, n) is Value && !open ==> !(all.0 is Ok)
                &&& said(w1, n) matches Answer::Own(p) ==> {
                    &&& !f || p.configurable || (!p.accessor && p.writable && p.enumerable) ==> all
                        == refuse_globals_from(names, probe, g, i + 1, w3)
                    &&& f && !p.configurable && (p.accessor || !p.writable || !p.enumerable) ==> !(
                    all.0 is Ok)
                }
            }
        }),
{
}

/// Evaluated code that holds what its place does not allow is a `SyntaxError`. Where its variables go is its
/// own scope, or one that it shares; its lexical names always have a scope of their own.
pub proof fn evaluated_code_has_its_place<'a>(
    body: &'a Vec<Stmt>,
    caller: Env,
    direct: bool,
    super_call: bool,
    depth: u64,
    w: World<'a>,
)
    ensures
        w.scopes.misplaced(body@, caller, direct, super_call) is Some ==> !(perform_eval_step(
            body,
            caller,
            direct,
            super_call,
            depth,
            w,
        ).0 is Ok) && complains(
            perform_eval_step(body, caller, direct, super_call, depth, w).1,
            ErrorKind::SyntaxError,
        ),
        w.scopes.misplaced(body@, caller, direct, super_call) is None ==> ({
            let strict = (direct && w.strict) || begins_strict(body@);
            let env = w.next_scope();
            match w.scopes.place(caller, direct, strict) {
                EvalPlace::Own(around) => perform_eval_step(body, caller, direct, super_call, depth, w)
                    == run_eval_body_step(
                    body,
                    env,
                    env,
                    strict,
                    depth,
                    w.new_scope(Some(around), None, false, true),
                ),
                EvalPlace::Shared(var, around) => perform_eval_step(
                    body,
                    caller,
                    direct,
                    super_call,
                    depth,
                    w,
                ) == run_eval_body_step(
                    body,
                    var,
                    env,
                    strict,
                    depth,
                    w.new_scope(Some(around), None, false, false),
                ),
            }
        }),
{
}

/// A default export without a name is evaluated and bound as the default, a function and a class too, which
/// are named after it; one with a name is the declaration that it is.
pub proof fn default_exports_are_evaluated<'a>(inner: &'a Stmt, env: Env, depth: u64, w: World<'a>)
    ensures
        inner matches Stmt::Expr(e) ==> ({
            let (v, w1) = eval_named_step(
                e,
                Name::Fixed("default"),
                Key::Fixed("default"),
                env,
                depth,
                w,
            );
            v is Ok ==> exec_export_default_step(inner, env, depth, w) == export_value_step(
                v->Ok_0,
                env,
                w1,
            )
        }),
        inner matches Stmt::FuncDecl(f) ==> {
            &&& f.name is Some ==> exec_export_default_step(inner, env, depth, w) == exec_stmt_step(
                inner,
                env,
                depth,
                w,
            )
            &&& f.name is None ==> (said(w, w.asked.len()) matches Answer::Value(v) ==> ({
                let w1 = w.ask(Request::MakeFunction { func: &**f, env }).1;
                let (u, w2) = name_function_step(v, "", Key::Fixed("default"), false, w1);
                u is Ok ==> exec_export_default_step(inner, env, depth, w) == export_value_step(v, env, w2)
            }))
        },
        inner matches Stmt::ClassDecl(c) ==> (c.name is None ==> ({
            let (v, w1) = eval_class_step(&**c, env, Some(Name::Fixed("default")), depth, w);
            let (u, w2) = name_function_step(v->Ok_0, "", Key::Fixed("default"), false, w1);
            v is Ok && u is Ok ==> exec_export_default_step(inner, env, depth, w) == export_value_step(
                v->Ok_0,
                env,
                w2,
            )
        })),
{
}

/// A module that was run has no value; one that fails is described as a throw. What it has left runs in
/// either case.
pub proof fn modules_have_outcomes<'a>(loaded: &'a Result<Loaded, LoadError>, w: World<'a>)
    ensures
        ({
            let (r, w1) = load_all_step(loaded, w);
            let (u, w2) = run_agent_event_loop_step(w1);
            &&& r is Ok ==> run_loaded_step(loaded, w) == (Outcome::Value(None), w2)
            &&& r matches Err(Abrupt::Throw(e)) ==> run_loaded_step(loaded, w) == describe_throw_step(e, w2)
        }),
{
}

} // verus!
