//! What holds of declarations, resources and the parts of statements, whatever the host answers.
use vstd::prelude::*;

use crate::ast::{DeclKind, Expr, Function, Pattern, Stmt};
use crate::interp::eval::{
    bind_pattern_step, eval_named_step, eval_step, name_if_anonymous_step, pattern_name_of,
    BindMode,
};
use crate::interp::exec::{
    add_disposable_step, any_wait, bind_and_run_step, decl_value_step, declare_cases_step,
    declare_lexicals_step, dispose_each_from, dispose_each_step, dispose_frame_step,
    dispose_one_step, exec_block_step, exec_catch_step, exec_decls_from, exec_list_step,
    exec_switch_step, exec_var_step, find_case_step, for_of_iteration_step, only_waits,
    resource_value_step, run_body_step, run_cases_step, run_stmt_list_step,
    sync_block_function_step,
};
use crate::interp::object::{
    annexb_fn_sync_eval_step, put_resolved_step, resolve_name_step, set_own_value_step,
    sync_global_step,
};
use crate::interp::operate::{make_error_step, make_suppressed_step};
use crate::interp::promise::{
    await_promise_step, await_value_step, make_resolver_pair_step, new_promise_step,
    reject_promise_step, resolve_promise_step,
};
use crate::interp::promise_laws::said;
use crate::interp::session::{
    Abrupt, Answer, Completion, Disposable, Env, ErrorKind, Flags, Key, Name, Request, Value,
    World,
};
use crate::jobs::{Job, Status};
use crate::scan::{anonymous_fn, any_lexical, any_using, disposing};
use crate::scope::dynamic::SyncPlace;
use crate::value::props::Property;

verus! {

// ---- declarations

/// `let` and `const` bind the value of the initializer as the kind says; `using` keeps the value as a resource
/// and binds it as a constant; `var` writes to the name that was resolved first.
pub proof fn declarations_bind_their_value<'a>(
    decls: &'a Vec<(Pattern, Option<Expr>)>,
    kind: DeclKind,
    env: Env,
    depth: u64,
    i: nat,
    w: World<'a>,
)
    requires
        i < decls@.len(),
    ensures
        kind == DeclKind::Let || kind == DeclKind::Const ==> ({
            let (v, w1) = decl_value_step(&decls@[i as int].0, &decls@[i as int].1, env, depth, w);
            let mode = BindMode::Lexical(kind == DeclKind::Const);
            let (u, w2) = bind_pattern_step(&decls@[i as int].0, v->Ok_0, env, mode, depth, w1);
            v is Ok && u is Ok ==> exec_decls_from(decls, kind, env, depth, i, w) == exec_decls_from(
                decls,
                kind,
                env,
                depth,
                i + 1,
                w2,
            )
        }),
        disposing(kind) ==> ({
            let (v, w1) = resource_value_step(&decls@[i as int].0, &decls@[i as int].1, env, depth, w);
            let (d, w2) = add_disposable_step(v->Ok_0, kind == DeclKind::AwaitUsing, w1);
            let mode = BindMode::Lexical(true);
            let (u, w3) = bind_pattern_step(&decls@[i as int].0, v->Ok_0, env, mode, depth, w2);
            v is Ok && d is Ok && u is Ok ==> exec_decls_from(decls, kind, env, depth, i, w)
                == exec_decls_from(decls, kind, env, depth, i + 1, w3)
        }),
        kind == DeclKind::Var ==> ({
            let (u, w1) = exec_var_step(&decls@[i as int], env, depth, w);
            u is Ok ==> exec_decls_from(decls, kind, env, depth, i, w) == exec_decls_from(
                decls,
                kind,
                env,
                depth,
                i + 1,
                w1,
            )
        }),
        exec_decls_from(decls, kind, env, depth, decls@.len(), w) == (
            Ok::<Value, Abrupt<'a>>(Value::Empty),
            w,
        ),
{
}

/// A `var` with an initializer: a name is resolved, the value is computed and written where the name was
/// resolved to; a pattern takes the value apart.
pub proof fn vars_are_written<'a>(
    declared: &'a (Pattern, Option<Expr>),
    e: &'a Expr,
    env: Env,
    depth: u64,
    w: World<'a>,
)
    requires
        declared.1 == Some(*e),
    ensures
        declared.0 matches Pattern::Ident(n) ==> ({
            let (base, w1) = resolve_name_step(&n, env, w);
            let (v, w2) = eval_named_step(e, Name::Source(&n), Key::Source(&n), env, depth, w1);
            base is Ok && v is Ok ==> exec_var_step(declared, env, depth, w) == put_resolved_step(
                base->Ok_0,
                &n,
                v->Ok_0,
                w2,
            )
        }),
        declared.0 is Array || declared.0 is Object ==> ({
            let (v, w1) = eval_step(e, env, depth, w);
            v is Ok ==> exec_var_step(declared, env, depth, w) == bind_pattern_step(
                &declared.0,
                v->Ok_0,
                env,
                BindMode::Var,
                depth,
                w1,
            )
        }),
{
}

/// The value of a declaration is that of its initializer, named after the name that is declared, and
/// `undefined` without one.
pub proof fn initializers_give_values<'a>(
    pattern: &'a Pattern,
    init: &'a Option<Expr>,
    env: Env,
    depth: u64,
    w: World<'a>,
)
    ensures
        init is None ==> decl_value_step(pattern, init, env, depth, w) == (
            Ok::<Value, Abrupt<'a>>(Value::Undefined),
            w,
        ),
        init matches Some(e) ==> {
            &&& pattern matches Pattern::Ident(n) ==> decl_value_step(pattern, init, env, depth, w)
                == eval_named_step(e, Name::Source(n), Key::Source(n), env, depth, w)
            &&& pattern is Array || pattern is Object ==> decl_value_step(pattern, init, env, depth, w)
                == eval_step(e, env, depth, w)
            &&& !anonymous_fn(e) ==> resource_value_step(pattern, init, env, depth, w) == eval_step(
                e,
                env,
                depth,
                w,
            )
        },
{
    if let Some(e) = init {
        let (v, w1) = eval_step(e, env, depth, w);
        if v is Ok {
            assert(name_if_anonymous_step(e, pattern_name_of(pattern), v->Ok_0, w1) == (
                Ok::<(), Abrupt<'a>>(()),
                w1,
            ) || anonymous_fn(e));
        }
    }
}

// ---- disposal

/// A block that declares resources disposes of them at its end, whatever that is; so does a body.
pub proof fn blocks_dispose_at_their_end<'a>(
    stmts: &'a Vec<Stmt>,
    env: Env,
    depth: u64,
    w: World<'a>,
)
    ensures
        any_lexical(stmts@) && any_using(stmts@) ==> ({
            let scope = w.next_scope();
            let (u, w1) = declare_lexicals_step(stmts, scope, w.new_scope(Some(env), None, false, false));
            let (r, w2) = exec_list_step(stmts, scope, depth, w1.push_frame());
            u is Ok ==> exec_block_step(stmts, env, depth, w) == dispose_frame_step(
                w2.top_frame(),
                r,
                w2.pop_frame(),
            )
        }),
        any_using(stmts@) ==> ({
            let (r, w1) = run_body_step(stmts, env, depth, w.push_frame());
            &&& r matches Err(a) ==> run_stmt_list_step(stmts, env, depth, w) == dispose_frame_step(
                w1.top_frame(),
                Err(a),
                w1.pop_frame(),
            )
            &&& r matches Ok(v) ==> match dispose_frame_step(
                w1.top_frame(),
                Ok(Value::Undefined),
                w1.pop_frame(),
            ) {
                (Ok(_), w2) => run_stmt_list_step(stmts, env, depth, w) == (
                    Ok::<Value, Abrupt<'a>>(v),
                    w2,
                ),
                (Err(a), w2) => run_stmt_list_step(stmts, env, depth, w) == (
                    Err::<Value, Abrupt<'a>>(a),
                    w2,
                ),
            }
        }),
{
}

/// An element that a loop head declares as a resource is disposed of at the end of its round.
pub proof fn rounds_dispose_their_element<'a>(st: &'a Stmt, v: Value, env: Env, depth: u64, w: World<'a>)
    requires
        st matches Stmt::ForInOf { decl, .. } && (*decl == Some(DeclKind::Using) || *decl == Some(
            DeclKind::AwaitUsing,
        )),
    ensures
        st matches Stmt::ForInOf { decl, .. } && {
            let (d, w1) = add_disposable_step(v, *decl == Some(DeclKind::AwaitUsing), w.push_frame());
            let (r, w2) = bind_and_run_step(st, v, env, depth, w1);
            &&& d is Ok ==> for_of_iteration_step(st, v, env, depth, w) == dispose_frame_step(
                w2.top_frame(),
                r,
                w2.pop_frame(),
            )
            &&& d matches Err(a) ==> for_of_iteration_step(st, v, env, depth, w) == dispose_frame_step(
                w1.top_frame(),
                Err(a),
                w1.pop_frame(),
            )
        },
{
}

/// An error of disposing is chained to the error that was there: the newer one is the `error` and the older
/// one the `suppressed` of a new error.
pub proof fn disposal_errors_are_chained<'a>(
    frame: Seq<Disposable>,
    result: Completion<'a>,
    before: Value,
    e: Value,
    w: World<'a>,
)
    requires
        frame.len() > 0,
        !only_waits(frame.last()),
        dispose_one_step(frame.last(), w).0 == Err::<Value, Abrupt<'a>>(Abrupt::Throw(e)),
    ensures
        ({
            let w1 = dispose_one_step(frame.last(), w).1;
            let (x, w2) = make_suppressed_step(e, before, w1);
            x matches Ok(v) ==> dispose_each_from(
                frame,
                result,
                frame.len(),
                Err(Abrupt::Throw(before)),
                w,
            ) == dispose_each_from(
                frame,
                result,
                (frame.len() - 1) as nat,
                Err(Abrupt::Throw(v)),
                w2,
            )
        }),
{
}

/// An error that holds two others: the first is its `error` and the second its `suppressed`.
pub proof fn suppressed_errors_hold_both<'a>(error: Value, suppressed: Value, made: Value, w: World<'a>)
    requires
        make_error_step(ErrorKind::SuppressedError, "", w).0 == Ok::<Value, Abrupt<'a>>(made),
        ({
            let w1 = make_error_step(ErrorKind::SuppressedError, "", w).1;
            &&& !(said(w1, w1.asked.len()) is Throw) && !(said(w1, w1.asked.len()) is Return)
        }),
    ensures
        ({
            let w1 = make_error_step(ErrorKind::SuppressedError, "", w).1;
            let n = w1.asked.len() as int;
            let (r, after) = make_suppressed_step(error, suppressed, w);
            &&& after.asked[n] == (Request::DefineOwn {
                base: made,
                key: Key::Fixed("error"),
                prop: Property::of(error, true, false, true),
            })
            &&& after.asked[n + 1] == (Request::DefineOwn {
                base: made,
                key: Key::Fixed("suppressed"),
                prop: Property::of(suppressed, true, false, true),
            })
            &&& r matches Ok(v) ==> v == made
        }),
{
}

/// The end of a frame is what disposing came to; one that only waits still waits once, where it can.
pub proof fn frames_end_as_disposed<'a>(frame: Seq<Disposable>, result: Completion<'a>, w: World<'a>)
    ensures
        ({
            let (r, w1) = dispose_each_step(frame, result, w);
            let all = dispose_frame_step(frame, result, w);
            &&& !(r.1 && any_wait(frame)) ==> all == (r.0, w1)
            &&& r.1 && any_wait(frame) && said(w1, w1.asked.len()) == Answer::<'a>::Flag(false) ==> all.0
                == r.0
            &&& r.1 && any_wait(frame) && said(w1, w1.asked.len()) == Answer::<'a>::Flag(true)
                ==> all.1.asked.last() == Request::<'a>::Await(Value::Undefined) && (said(
                w1,
                w1.asked.len() + 1,
            ) is Value ==> all.0 == r.0)
        }),
{
}

// ---- catch and switch

/// A `catch` parameter is bound to the error in a scope of its own, and the body runs in a scope inside it.
/// Calls of the body are in tail position only where no `finally` comes behind.
pub proof fn catch_bodies_run_inside<'a>(
    handler: &'a (Option<Pattern>, Vec<Stmt>),
    error: Value,
    last: bool,
    env: Env,
    depth: u64,
    w: World<'a>,
)
    ensures
        handler.0 matches Some(pattern) ==> ({
            let outer = w.next_scope();
            let (u, w1) = bind_pattern_step(
                &pattern,
                error,
                outer,
                BindMode::Lexical(false),
                depth,
                w.new_scope(Some(env), None, true, false),
            );
            let inner = w1.next_scope();
            let (d, w2) = declare_lexicals_step(
                &handler.1,
                inner,
                w1.new_scope(Some(outer), None, false, false),
            );
            let w3 = w2.set_flags(Flags { tail: w2.flags.tail && last, ..w2.flags });
            let (r, w4) = exec_list_step(&handler.1, inner, depth, w3);
            u is Ok && d is Ok ==> exec_catch_step(handler, error, last, env, depth, w) == (
                r,
                w4.set_flags(Flags { tail: w2.flags.tail, ..w4.flags }),
            )
        }),
{
}

/// A `switch` runs from the case that its value equals on, in a scope of its own; without such a case and
/// without a default it is `undefined`.
pub proof fn switches_run_from_their_case<'a>(st: &'a Stmt, env: Env, depth: u64, w: World<'a>)
    requires
        st is Switch,
    ensures
        st matches Stmt::Switch { disc, cases } && {
            let (d, w1) = eval_step(disc, env, depth, w);
            let scope = w1.next_scope();
            let (u, w2) = declare_cases_step(cases, scope, w1.new_scope(Some(env), None, false, false));
            let (found, w3) = find_case_step(cases, d->Ok_0, scope, depth, w2);
            d is Ok && u is Ok ==> match found {
                Ok(Some(start)) => exec_switch_step(st, env, depth, w) == run_cases_step(
                    cases,
                    start,
                    scope,
                    depth,
                    w3,
                ),
                Ok(None) => exec_switch_step(st, env, depth, w) == (
                    Ok::<Value, Abrupt<'a>>(Value::Undefined),
                    w3,
                ),
                Err(a) => exec_switch_step(st, env, depth, w) == (Err::<Value, Abrupt<'a>>(a), w3),
            }
        },
{
}

/// The function of a block that is declared outside it is copied there: to the variable that has its name, to
/// a new one that can be deleted, or to the global object.
pub proof fn block_functions_are_copied<'a>(
    f: &'a Function,
    n: &'a String,
    v: Value,
    env: Env,
    w: World<'a>,
)
    requires
        w.scopes.own_function(env, n@) == Some(v),
    ensures
        w.scopes.sync_place(env, n@) matches SyncPlace::Replace(e) ==> annexb_fn_sync_eval_step(f, n, env, w)
            == (Ok::<(), Abrupt<'a>>(()), w.set_value(e, Name::Source(n), v)),
        w.scopes.sync_place(env, n@) matches SyncPlace::Create(e) ==> annexb_fn_sync_eval_step(f, n, env, w)
            == (Ok::<(), Abrupt<'a>>(()), w.bind_deletable(Name::Source(n), v, e)),
        w.scopes.sync_place(env, n@) is Global ==> annexb_fn_sync_eval_step(f, n, env, w)
            == sync_global_step(n, v, w),
{
}

/// A function declaration is copied only where it was marked for that.
pub proof fn only_marked_functions_are_copied<'a>(f: &'a Function, n: &'a String, env: Env, w: World<'a>)
    requires
        f.name == Some(*n),
    ensures
        said(w, w.asked.len()) == Answer::<'a>::Flag(false) ==> sync_block_function_step(f, env, w) == (
            Ok::<(), Abrupt<'a>>(()),
            w.ask(Request::IsCopied(f)).1,
        ),
        said(w, w.asked.len()) == Answer::<'a>::Flag(true) ==> sync_block_function_step(f, env, w)
            == annexb_fn_sync_eval_step(f, n, env, w.ask(Request::IsCopied(f)).1),
{
}

/// An own property gets another value and keeps its attributes; one that is not there is not added.
pub proof fn own_values_are_replaced<'a>(base: Value, key: Key<'a>, v: Value, w: World<'a>)
    ensures
        match said(w, w.asked.len()) {
            Answer::Own(p) => set_own_value_step(base, key, v, w).1.asked.last() == (Request::DefineOwn {
                base,
                key,
                prop: Property { value: v, ..p },
            }),
            Answer::Value(_) => set_own_value_step(base, key, v, w).1.asked == w.asked.push(
                Request::OwnProperty { base, key },
            ),
            _ => true,
        },
{
}

// ---- thenables

/// A promise resolved with an object that has a `then` method takes on its state: a job is queued that calls
/// the method on the object, with the function that fulfils the promise first and the one that rejects it
/// second.
pub proof fn thenables_are_called_in_a_job<'a>(
    h: u64,
    o: u64,
    m: u64,
    pair: (Value, Value),
    runner: Value,
    w: World<'a>,
)
    requires
        said(w, w.asked.len()) == Answer::<'a>::Value(Value::Obj(h)),
        w.jobs.status(h) == Some(Status::Pending),
        o != h,
        said(w, w.asked.len() + 1) == Answer::<'a>::Value(Value::Obj(m)),
        said(w, w.asked.len() + 2) == Answer::<'a>::Flag(true),
        ({
            let w3 = w.ask(Request::ForwardedPromise(Value::Obj(h))).1.ask(
                Request::GetMember { base: Value::Obj(o), key: Key::Fixed("then") },
            ).1.ask(Request::Callable(Value::Obj(m))).1;
            let (r, w4) = make_resolver_pair_step(Value::Obj(h), w3);
            &&& r == Ok::<(Value, Value), Abrupt<'a>>(pair)
            &&& said(w4, w4.asked.len()) == Answer::<'a>::Value(runner)
        }),
    ensures
        ({
            let w3 = w.ask(Request::ForwardedPromise(Value::Obj(h))).1.ask(
                Request::GetMember { base: Value::Obj(o), key: Key::Fixed("then") },
            ).1.ask(Request::Callable(Value::Obj(m))).1;
            let w4 = make_resolver_pair_step(Value::Obj(h), w3).1;
            let request = Request::MakeThenableJob {
                method: Value::Obj(m),
                value: Value::Obj(o),
                resolve: pair.0,
                reject: pair.1,
            };
            let (r, after) = resolve_promise_step(Value::Obj(h), Value::Obj(o), w);
            &&& r is Ok
            &&& after.asked == w4.asked.push(request)
            &&& after == w4.ask(request).1.push_job(
                Job {
                    handler: runner,
                    result: Value::Undefined,
                    value: Value::Undefined,
                    fulfilled: true,
                },
            )
        }),
{
}

/// Waiting for an object with a `then` method calls the method on the object, with the functions that fulfil
/// and reject a new promise, in that order, and waits for that promise; what the call throws rejects it.
pub proof fn thenables_are_awaited<'a>(
    o: u64,
    m: u64,
    p: Value,
    pair: (Value, Value),
    w: World<'a>,
)
    requires
        w.jobs.status(o) is None,
        said(w, w.asked.len()) == Answer::<'a>::Value(Value::Obj(m)),
        said(w, w.asked.len() + 1) == Answer::<'a>::Flag(true),
        ({
            let w2 = w.ask(
                Request::GetMember { base: Value::Obj(o), key: Key::Fixed("then") },
            ).1.ask(Request::Callable(Value::Obj(m))).1;
            let (q, w3) = new_promise_step(w2);
            &&& q == Ok::<Value, Abrupt<'a>>(p)
            &&& make_resolver_pair_step(p, w3).0 == Ok::<(Value, Value), Abrupt<'a>>(pair)
        }),
    ensures
        ({
            let w2 = w.ask(
                Request::GetMember { base: Value::Obj(o), key: Key::Fixed("then") },
            ).1.ask(Request::Callable(Value::Obj(m))).1;
            let w3 = new_promise_step(w2).1;
            let w4 = make_resolver_pair_step(p, w3).1;
            let l = w4.next_list();
            let w5 = w4.new_list(Seq::empty()).push(l, pair.0).push(l, pair.1);
            let w6 = w5.ask(Request::Call { func: Value::Obj(m), this: Value::Obj(o), args: l }).1;
            match said(w4, w4.asked.len()) {
                Answer::Value(_) => await_value_step(Value::Obj(o), w) == await_promise_step(p, w6),
                Answer::Throw(e) => ({
                    let (u, w7) = reject_promise_step(p, e, w6);
                    u is Ok ==> await_value_step(Value::Obj(o), w) == await_promise_step(p, w7)
                }),
                _ => true,
            }
        }),
        w.jobs.status(o) is Some ==> await_value_step(Value::Obj(o), w) == await_promise_step(
            Value::Obj(o),
            w,
        ),
{
}

} // verus!
