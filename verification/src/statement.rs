//! Statement evaluation.
//!
//! A statement evaluates to a [`Completion`] together with the updated
//! heap, the environment that following statements see (declarations
//! extend it) and the remaining fuel.

use vstd::prelude::*;

use std::sync::Arc;

use crate::ast::{
    ArrowCodeBody, CatchBlock, Expression, ForStart, FunctionCode, Pattern, Statement, Declaration,
    Declarator, DeclarationKind,
};
use crate::call::extended_with_cell;
use crate::coercion::{spec_to_boolean, to_boolean};
use crate::completion::Completion;
use crate::env::{Binding, Env};
use crate::error::Error;
use crate::expression::{eval, sem_eval, spec_identifier_outcome};
use crate::fuel::{fuel_le, fuel_lt, lemma_spent, spent_one, Fuel};
use crate::heap::{allocated_cell, Heap};
use crate::host::Host;
use crate::outcome::{kept_budget, spent_budget, EvalResult, Outcome};
use crate::text::concat;
use crate::value::{Cell, FunctionBody, FunctionDef, Value};

verus! {

/// The result of evaluating a statement: a completion paired with the new
/// heap, environment and fuel.
pub type StmtResult = Result<(Completion, Heap, Env, Fuel), Error>;

/// The result of evaluating a function body; the environment of the body
/// is not exposed.
pub type BodyResult = Result<(Completion, Heap, Fuel), Error>;

/// On success the remaining fuel is at most what the statement started
/// with.
pub open spec fn stmt_kept_budget(r: StmtResult, fuel: Fuel) -> bool {
    r matches Ok((_, _, _, f)) ==> fuel_le(f, fuel)
}

/// On success strictly less fuel remains than the statement started
/// with.
pub open spec fn stmt_spent_budget(r: StmtResult, fuel: Fuel) -> bool {
    r matches Ok((_, _, _, f)) ==> fuel_lt(f, fuel)
}

/// On success the remaining fuel is at most what the body started with.
pub open spec fn body_kept_budget(r: BodyResult, fuel: Fuel) -> bool {
    r matches Ok((_, _, f)) ==> fuel_le(f, fuel)
}

/// Statement kinds the engine rejects, with the feature it names.
pub open spec fn spec_unsupported_statement(statement: Statement) -> Option<&'static str> {
    match statement {
        Statement::Switch => Some("switch statement"),
        Statement::ForIn => Some("for-in statement"),
        Statement::ForOf => Some("for-of statement"),
        Statement::Labeled => Some("labeled statement"),
        Statement::ClassDeclaration => Some("class declaration"),
        _ => None,
    }
}

/// The completion of the statements that complete without evaluating
/// anything.
pub open spec fn spec_simple_completion(statement: Statement) -> Option<Completion> {
    match statement {
        Statement::Empty | Statement::Debugger => Some(Completion::Normal(Value::Undefined)),
        Statement::Break => Some(Completion::Break),
        Statement::Continue => Some(Completion::Continue),
        _ => None,
    }
}

/// How a loop goes on after its body completed with `c`: `break` leaves
/// it normally, `return` and `throw` leave it with their completion, and
/// `continue` or a normal completion run the next iteration (`None`).
pub open spec fn loop_exit(c: Completion) -> Option<Completion> {
    match c {
        Completion::Break => Some(Completion::Normal(Value::Undefined)),
        Completion::Return(v) => Some(Completion::Return(v)),
        Completion::Throw(v) => Some(Completion::Throw(v)),
        Completion::Continue | Completion::Normal(_) => None,
    }
}

/// The completion of a `try` statement whose earlier completion was
/// `pending` once its `finally` block completed with `fin`.
pub open spec fn spec_finally_completion(pending: Completion, fin: Completion) -> Completion {
    if fin is Normal {
        pending
    } else {
        fin
    }
}

/// The name a declarator binds: a plain identifier, or the identifier on
/// the left of a pattern default.
pub open spec fn declared_name(d: Declarator) -> Option<String> {
    match d.id {
        Pattern::Identifier(n) => Some(n),
        Pattern::Assignment { left, .. } => match *left {
            Pattern::Identifier(n) => Some(n),
            _ => None,
        },
        _ => None,
    }
}

/// The initialiser a declarator is evaluated with: its own, else the
/// default its identifier pattern carries.
pub open spec fn declared_init(d: Declarator) -> Option<Expression> {
    match d.init {
        Some(e) => Some(e),
        None => match d.id {
            Pattern::Assignment { left, right } => match *left {
                Pattern::Identifier(_) => Some(*right),
                _ => None,
            },
            _ => None,
        },
    }
}

/// `var` and `let` bind mutable cells, `const` immutable ones.
pub open spec fn declares_mutable(kind: DeclarationKind) -> bool {
    kind != DeclarationKind::Const
}

/// The statement relation: `r` is what evaluating `statement` in `env`,
/// from `heap` with `fuel`, gives.  One unit of fuel is paid first.
pub open spec fn sem_statement<H: Host>(host: &H, statement: Statement, env: Env, heap: Heap, fuel: Fuel, r: StmtResult) -> bool
    decreases fuel.spec_remaining(), 0int, 0int, 0int,
{
    if fuel.spec_remaining() == 0 {
        r == Err::<(Completion, Heap, Env, Fuel), Error>(Error::FuelExhausted { limit: fuel.spec_limit() })
    } else {
        let f1 = fuel.spec_spent();
        proof {
            lemma_spent(fuel);
        }
        match statement {
            Statement::Block { body } => sem_block(host, body@, env, heap, f1, r),
            Statement::Empty | Statement::Debugger => r == Ok::<(Completion, Heap, Env, Fuel), Error>(
                (Completion::Normal(Value::Undefined), heap, env, f1),
            ),
            Statement::Expression { expression } => sem_expression_statement(host, expression, env, heap, f1, r),
            Statement::If { test, consequent, alternate } => sem_if(host, 
                test,
                *consequent,
                alternate,
                env,
                heap,
                f1,
                r,
            ),
            Statement::While { test, body } => sem_while(host, test, *body, env, heap, f1, r),
            Statement::DoWhile { body, test } => sem_do_while(host, *body, test, env, heap, f1, r),
            Statement::For { init, test, update, body } => sem_for(host, init, test, update, *body, env, heap, f1, r),
            Statement::Return { argument } => sem_return(host, argument, env, heap, f1, r),
            Statement::Throw { argument } => sem_throw(host, argument, env, heap, f1, r),
            Statement::Try { block, handler, finalizer } => sem_try(host, 
                block@,
                handler,
                finalizer,
                env,
                heap,
                f1,
                r,
            ),
            Statement::Break => r == Ok::<(Completion, Heap, Env, Fuel), Error>(
                (Completion::Break, heap, env, f1),
            ),
            Statement::Continue => r == Ok::<(Completion, Heap, Env, Fuel), Error>(
                (Completion::Continue, heap, env, f1),
            ),
            Statement::VariableDeclaration(decl) => sem_variable_declaration(host, decl, env, heap, f1, r),
            Statement::FunctionDeclaration(func) => r matches Ok((c, h, e, f)) && f == f1
                && spec_function_declared(func, env, heap, c, h, e),
            _ => spec_unsupported_statement(statement) matches Some(feature) && r == Err::<
                (Completion, Heap, Env, Fuel),
                Error,
            >(Error::Unsupported { feature }),
        }
    }
}

/// A statement list from its `i`-th statement on, `scope` holding the
/// declarations so far and `last` the value of the last statement that
/// produced one; the block's own environment `env` is restored at the end.
pub open spec fn sem_block_from<H: Host>(host: &H, 
    body: Seq<Statement>,
    i: nat,
    scope: Env,
    last: Value,
    env: Env,
    heap: Heap,
    fuel: Fuel,
    r: StmtResult,
) -> bool
    decreases fuel.spec_remaining(), 0int, 1int, body.len() - i,
{
    if i >= body.len() {
        r == Ok::<(Completion, Heap, Env, Fuel), Error>((Completion::Normal(last), heap, env, fuel))
    } else {
        exists|r1: StmtResult| #[trigger] stmt_spent_budget(r1, fuel) && sem_statement(host, body[i as int], scope, heap, fuel, r1)
            && match r1 {
            Err(e) => r == Err::<(Completion, Heap, Env, Fuel), Error>(e),
            Ok((c, h, next, f)) => match c {
                Completion::Normal(v) => sem_block_from(host, body, i + 1, next, v, env, h, f, r),
                _ => r == Ok::<(Completion, Heap, Env, Fuel), Error>((c, h, env, f)),
            },
        }
    }
}

/// A statement list run as a block in `env`.
pub open spec fn sem_block<H: Host>(host: &H, body: Seq<Statement>, env: Env, heap: Heap, fuel: Fuel, r: StmtResult) -> bool
    decreases fuel.spec_remaining(), 0int, 2int, 0int,
{
    sem_block_from(host, body, 0, env, Value::Undefined, env, heap, fuel, r)
}

/// An expression statement completes with the value of its expression,
/// or throws what it throws.
pub open spec fn sem_expression_statement<H: Host>(host: &H, expression: Expression, env: Env, heap: Heap, fuel: Fuel, r: StmtResult) -> bool
    decreases fuel.spec_remaining(), 0int, 1int, 0int,
{
    exists|r1: EvalResult| #[trigger] spent_budget(r1, fuel) && sem_eval(host, expression, env, heap, fuel, r1) && match r1 {
        Err(e) => r == Err::<(Completion, Heap, Env, Fuel), Error>(e),
        Ok((Outcome::Normal(v), h, f)) => r == Ok::<(Completion, Heap, Env, Fuel), Error>(
            (Completion::Normal(v), h, env, f),
        ),
        Ok((Outcome::Throw(v), h, f)) => r == Ok::<(Completion, Heap, Env, Fuel), Error>(
            (Completion::Throw(v), h, env, f),
        ),
    }
}

/// `if`: the test, then the branch it selects; with no `else`, a false
/// test completes normally.
pub open spec fn sem_if<H: Host>(host: &H, 
    test: Expression,
    consequent: Statement,
    alternate: Option<Box<Statement>>,
    env: Env,
    heap: Heap,
    fuel: Fuel,
    r: StmtResult,
) -> bool
    decreases fuel.spec_remaining(), 0int, 1int, 0int,
{
    exists|r1: EvalResult| #[trigger] spent_budget(r1, fuel) && sem_eval(host, test, env, heap, fuel, r1) && match r1 {
        Err(e) => r == Err::<(Completion, Heap, Env, Fuel), Error>(e),
        Ok((Outcome::Throw(v), h, f)) => r == Ok::<(Completion, Heap, Env, Fuel), Error>(
            (Completion::Throw(v), h, env, f),
        ),
        Ok((Outcome::Normal(v), h, f)) => if spec_to_boolean(v) {
            sem_statement(host, consequent, env, h, f, r)
        } else {
            match alternate {
                Some(alt) => sem_statement(host, *alt, env, h, f, r),
                None => r == Ok::<(Completion, Heap, Env, Fuel), Error>(
                    (Completion::Normal(Value::Undefined), h, env, f),
                ),
            }
        },
    }
}

/// `while`: the test; when it is false the loop completes normally, when
/// it throws the loop throws; otherwise the body, then as the body's
/// completion says, the loop again or its end.
pub open spec fn sem_while<H: Host>(host: &H, test: Expression, body: Statement, env: Env, heap: Heap, fuel: Fuel, r: StmtResult) -> bool
    decreases fuel.spec_remaining(), 0int, 1int, 0int,
{
    exists|r1: EvalResult| #[trigger] spent_budget(r1, fuel) && sem_eval(host, test, env, heap, fuel, r1) && match r1 {
        Err(e) => r == Err::<(Completion, Heap, Env, Fuel), Error>(e),
        Ok((Outcome::Throw(v), h, f)) => r == Ok::<(Completion, Heap, Env, Fuel), Error>(
            (Completion::Throw(v), h, env, f),
        ),
        Ok((Outcome::Normal(v), h, f)) => if !spec_to_boolean(v) {
            r == Ok::<(Completion, Heap, Env, Fuel), Error>((Completion::Normal(Value::Undefined), h, env, f))
        } else {
            exists|r2: StmtResult| #[trigger] stmt_spent_budget(r2, f) && sem_statement(host, body, env, h, f, r2) && match r2 {
                Err(e) => r == Err::<(Completion, Heap, Env, Fuel), Error>(e),
                Ok((c, h2, _scope, f2)) => match loop_exit(c) {
                    Some(c2) => r == Ok::<(Completion, Heap, Env, Fuel), Error>((c2, h2, env, f2)),
                    None => sem_while(host, test, body, env, h2, f2, r),
                },
            }
        },
    }
}

/// `do body while (test)`: the body once, then as a `while` loop.
pub open spec fn sem_do_while<H: Host>(host: &H, body: Statement, test: Expression, env: Env, heap: Heap, fuel: Fuel, r: StmtResult) -> bool
    decreases fuel.spec_remaining(), 0int, 2int, 0int,
{
    exists|r1: StmtResult| #[trigger] stmt_spent_budget(r1, fuel) && sem_statement(host, body, env, heap, fuel, r1) && match r1 {
        Err(e) => r == Err::<(Completion, Heap, Env, Fuel), Error>(e),
        Ok((c, h, _scope, f)) => match loop_exit(c) {
            Some(c2) => r == Ok::<(Completion, Heap, Env, Fuel), Error>((c2, h, env, f)),
            None => sem_while(host, test, body, env, h, f, r),
        },
    }
}

/// `for (init; test; update) body`: the initialiser (a declaration
/// extends the loop's environment, an expression's value is dropped),
/// then the loop; the environment after it is the one before.
pub open spec fn sem_for<H: Host>(host: &H, 
    init: Option<ForStart>,
    test: Option<Expression>,
    update: Option<Expression>,
    body: Statement,
    env: Env,
    heap: Heap,
    fuel: Fuel,
    r: StmtResult,
) -> bool
    decreases fuel.spec_remaining(), 0int, 3int, 0int,
{
    exists|r0: StmtResult| #[trigger] stmt_kept_budget(r0, fuel) && (match init {
        None => r0 == Ok::<(Completion, Heap, Env, Fuel), Error>(
            (Completion::Normal(Value::Undefined), heap, env, fuel),
        ),
        Some(ForStart::Declaration(decl)) => sem_variable_declaration(host, decl, env, heap, fuel, r0),
        Some(ForStart::Expression(e)) => exists|re: EvalResult| #[trigger] spent_budget(re, fuel) && sem_eval(host, 
            e,
            env,
            heap,
            fuel,
            re,
        ) && match re {
            Err(x) => r0 == Err::<(Completion, Heap, Env, Fuel), Error>(x),
            Ok((_, h, f)) => r0 == Ok::<(Completion, Heap, Env, Fuel), Error>(
                (Completion::Normal(Value::Undefined), h, env, f),
            ),
        },
    }) && match r0 {
        Err(e) => r == Err::<(Completion, Heap, Env, Fuel), Error>(e),
        Ok((_, h, loop_env, f)) => exists|r1: StmtResult| #[trigger] stmt_kept_budget(r1, f) && sem_for_loop(host, 
            test,
            update,
            body,
            loop_env,
            h,
            f,
            r1,
        ) && match r1 {
            Err(e) => r == Err::<(Completion, Heap, Env, Fuel), Error>(e),
            Ok((c, h2, _scope, f2)) => r == Ok::<(Completion, Heap, Env, Fuel), Error>((c, h2, env, f2)),
        },
    }
}

/// The iterations of a `for` loop: the test (absent means true), the
/// body, then the update, and again; a throw from the test or the update
/// ends the loop with that throw.
pub open spec fn sem_for_loop<H: Host>(host: &H, 
    test: Option<Expression>,
    update: Option<Expression>,
    body: Statement,
    env: Env,
    heap: Heap,
    fuel: Fuel,
    r: StmtResult,
) -> bool
    decreases fuel.spec_remaining(), 0int, 1int, 0int,
{
    exists|rt: EvalResult| #[trigger] kept_budget(rt, fuel) && (match test {
        None => rt == Ok::<(Outcome, Heap, Fuel), Error>((Outcome::Normal(Value::Boolean(true)), heap, fuel)),
        Some(t) => sem_eval(host, t, env, heap, fuel, rt),
    }) && match rt {
        Err(e) => r == Err::<(Completion, Heap, Env, Fuel), Error>(e),
        Ok((Outcome::Throw(v), h1, f1)) => r == Ok::<(Completion, Heap, Env, Fuel), Error>(
            (Completion::Throw(v), h1, env, f1),
        ),
        Ok((o, h1, f1)) => if !(o matches Outcome::Normal(v) && spec_to_boolean(v)) {
            r == Ok::<(Completion, Heap, Env, Fuel), Error>((Completion::Normal(Value::Undefined), h1, env, f1))
        } else {
            exists|rb: StmtResult| #[trigger] stmt_spent_budget(rb, f1) && sem_statement(host, body, env, h1, f1, rb)
                && match rb {
                Err(e) => r == Err::<(Completion, Heap, Env, Fuel), Error>(e),
                Ok((c, h2, _scope, f2)) => match loop_exit(c) {
                    Some(c2) => r == Ok::<(Completion, Heap, Env, Fuel), Error>((c2, h2, env, f2)),
                    None => exists|ru: EvalResult| #[trigger] kept_budget(ru, f2) && (match update {
                        None => ru == Ok::<(Outcome, Heap, Fuel), Error>(
                            (Outcome::Normal(Value::Undefined), h2, f2),
                        ),
                        Some(u) => sem_eval(host, u, env, h2, f2, ru),
                    }) && match ru {
                        Err(e) => r == Err::<(Completion, Heap, Env, Fuel), Error>(e),
                        Ok((Outcome::Throw(v), h3, f3)) => r == Ok::<(Completion, Heap, Env, Fuel), Error>(
                            (Completion::Throw(v), h3, env, f3),
                        ),
                        Ok((Outcome::Normal(_), h3, f3)) => sem_for_loop(host, test, update, body, env, h3, f3, r),
                    },
                },
            }
        },
    }
}

/// `return`: with no argument `undefined`, else the argument's value;
/// a throwing argument throws.
pub open spec fn sem_return<H: Host>(host: &H, argument: Option<Expression>, env: Env, heap: Heap, fuel: Fuel, r: StmtResult) -> bool
    decreases fuel.spec_remaining(), 0int, 1int, 0int,
{
    match argument {
        None => r == Ok::<(Completion, Heap, Env, Fuel), Error>(
            (Completion::Return(Value::Undefined), heap, env, fuel),
        ),
        Some(e) => exists|r1: EvalResult| #[trigger] spent_budget(r1, fuel) && sem_eval(host, e, env, heap, fuel, r1)
            && match r1 {
            Err(x) => r == Err::<(Completion, Heap, Env, Fuel), Error>(x),
            Ok((Outcome::Normal(v), h, f)) => r == Ok::<(Completion, Heap, Env, Fuel), Error>(
                (Completion::Return(v), h, env, f),
            ),
            Ok((Outcome::Throw(v), h, f)) => r == Ok::<(Completion, Heap, Env, Fuel), Error>(
                (Completion::Throw(v), h, env, f),
            ),
        },
    }
}

/// `throw`: the argument's value, or what evaluating it throws, is
/// thrown.
pub open spec fn sem_throw<H: Host>(host: &H, argument: Expression, env: Env, heap: Heap, fuel: Fuel, r: StmtResult) -> bool
    decreases fuel.spec_remaining(), 0int, 1int, 0int,
{
    exists|r1: EvalResult| #[trigger] spent_budget(r1, fuel) && sem_eval(host, argument, env, heap, fuel, r1) && match r1 {
        Err(x) => r == Err::<(Completion, Heap, Env, Fuel), Error>(x),
        Ok((Outcome::Normal(v), h, f)) => r == Ok::<(Completion, Heap, Env, Fuel), Error>(
            (Completion::Throw(v), h, env, f),
        ),
        Ok((Outcome::Throw(v), h, f)) => r == Ok::<(Completion, Heap, Env, Fuel), Error>(
            (Completion::Throw(v), h, env, f),
        ),
    }
}

/// `try`: the protected block, then the handler for a throw, then the
/// `finally` block.
pub open spec fn sem_try<H: Host>(host: &H, 
    block: Seq<Statement>,
    handler: Option<CatchBlock>,
    finalizer: Option<Vec<Statement>>,
    env: Env,
    heap: Heap,
    fuel: Fuel,
    r: StmtResult,
) -> bool
    decreases fuel.spec_remaining(), 0int, 5int, 0int,
{
    exists|r1: StmtResult| #[trigger] stmt_kept_budget(r1, fuel) && sem_block(host, block, env, heap, fuel, r1) && match r1 {
        Err(e) => r == Err::<(Completion, Heap, Env, Fuel), Error>(e),
        Ok((c, h, scope, f)) => exists|r2: StmtResult| #[trigger] stmt_kept_budget(r2, f) && sem_catch_phase(host, 
            c,
            h,
            scope,
            f,
            handler,
            env,
            r2,
        ) && match r2 {
            Err(e) => r == Err::<(Completion, Heap, Env, Fuel), Error>(e),
            Ok((c2, h2, scope2, f2)) => sem_finalizer(host, finalizer, c2, h2, scope2, f2, env, r),
        },
    }
}

/// A `throw` out of the protected block runs the handler, if any; any
/// other completion passes through.
pub open spec fn sem_catch_phase<H: Host>(host: &H, 
    completion: Completion,
    heap: Heap,
    scope: Env,
    fuel: Fuel,
    handler: Option<CatchBlock>,
    env: Env,
    r: StmtResult,
) -> bool
    decreases fuel.spec_remaining(), 0int, 4int, 0int,
{
    match completion {
        Completion::Throw(thrown) => match handler {
            Some(clause) => sem_catch_clause(host, clause, thrown, env, heap, fuel, r),
            None => r == Ok::<(Completion, Heap, Env, Fuel), Error>((Completion::Throw(thrown), heap, scope, fuel)),
        },
        _ => r == Ok::<(Completion, Heap, Env, Fuel), Error>((completion, heap, scope, fuel)),
    }
}

/// A `catch` clause: a parameter name is bound to the thrown value in a
/// fresh mutable cell (a destructuring parameter binds nothing); then the
/// clause's block runs, and the environment after it is `env`.
pub open spec fn sem_catch_clause<H: Host>(host: &H, clause: CatchBlock, thrown: Value, env: Env, heap: Heap, fuel: Fuel, r: StmtResult) -> bool
    decreases fuel.spec_remaining(), 0int, 3int, 0int,
{
    match clause.param {
        Some(Pattern::Identifier(id)) => exists|catch_env: Env, h: Heap|
            #![trigger allocated_cell(heap, h, thrown, true), extended_with_cell(catch_env, env, id@, heap.spec_cells().len())]
            allocated_cell(heap, h, thrown, true) && extended_with_cell(catch_env, env, id@, heap.spec_cells().len())
            && exists|r1: StmtResult| #[trigger] stmt_kept_budget(r1, fuel) && sem_block(host, clause.body@, catch_env, h, fuel, r1)
            && match r1 {
            Err(e) => r == Err::<(Completion, Heap, Env, Fuel), Error>(e),
            Ok((c, h2, _scope, f2)) => r == Ok::<(Completion, Heap, Env, Fuel), Error>((c, h2, env, f2)),
        },
        _ => exists|r1: StmtResult| #[trigger] stmt_kept_budget(r1, fuel) && sem_block(host, clause.body@, env, heap, fuel, r1)
            && match r1 {
            Err(e) => r == Err::<(Completion, Heap, Env, Fuel), Error>(e),
            Ok((c, h2, _scope, f2)) => r == Ok::<(Completion, Heap, Env, Fuel), Error>((c, h2, env, f2)),
        },
    }
}

/// The `finally` block, if any: an abrupt completion of it replaces the
/// pending one.
pub open spec fn sem_finalizer<H: Host>(host: &H, 
    finalizer: Option<Vec<Statement>>,
    completion: Completion,
    heap: Heap,
    scope: Env,
    fuel: Fuel,
    env: Env,
    r: StmtResult,
) -> bool
    decreases fuel.spec_remaining(), 0int, 3int, 0int,
{
    match finalizer {
        Some(fin) => exists|r1: StmtResult| #[trigger] stmt_kept_budget(r1, fuel) && sem_block(host, fin@, env, heap, fuel, r1)
            && match r1 {
            Err(e) => r == Err::<(Completion, Heap, Env, Fuel), Error>(e),
            Ok((fc, h, _inner, f)) => r == Ok::<(Completion, Heap, Env, Fuel), Error>(
                (spec_finally_completion(completion, fc), h, scope, f),
            ),
        },
        None => r == Ok::<(Completion, Heap, Env, Fuel), Error>((completion, heap, scope, fuel)),
    }
}

/// A variable declaration declares its declarators in order.
pub open spec fn sem_variable_declaration<H: Host>(host: &H, decl: Declaration, env: Env, heap: Heap, fuel: Fuel, r: StmtResult) -> bool
    decreases fuel.spec_remaining(), 0int, 2int, 0int,
{
    sem_declarators_from(host, decl.declarators@, 0, env, declares_mutable(decl.kind), heap, fuel, r)
}

/// Declarators from the `i`-th on, in `scope`: the initialiser's value
/// (or `undefined`) goes into a fresh cell bound to the name; a throwing
/// initialiser stops the declaration; a pattern that binds no plain name
/// is rejected.
pub open spec fn sem_declarators_from<H: Host>(host: &H, 
    decls: Seq<Declarator>,
    i: nat,
    scope: Env,
    mutable: bool,
    heap: Heap,
    fuel: Fuel,
    r: StmtResult,
) -> bool
    decreases fuel.spec_remaining(), 0int, 1int, decls.len() - i,
{
    if i >= decls.len() {
        r == Ok::<(Completion, Heap, Env, Fuel), Error>((Completion::Normal(Value::Undefined), heap, scope, fuel))
    } else {
        exists|r1: EvalResult| #[trigger] kept_budget(r1, fuel) && (match declared_init(decls[i as int]) {
            None => r1 == Ok::<(Outcome, Heap, Fuel), Error>((Outcome::Normal(Value::Undefined), heap, fuel)),
            Some(e) => sem_eval(host, e, scope, heap, fuel, r1),
        }) && match r1 {
            Err(e) => r == Err::<(Completion, Heap, Env, Fuel), Error>(e),
            Ok((Outcome::Throw(v), h, f)) => r == Ok::<(Completion, Heap, Env, Fuel), Error>(
                (Completion::Throw(v), h, scope, f),
            ),
            Ok((Outcome::Normal(value), h, f)) => match declared_name(decls[i as int]) {
                Some(n) => exists|next: Env, h2: Heap|
                    #![trigger allocated_cell(h, h2, value, mutable), extended_with_cell(next, scope, n@, h.spec_cells().len())]
                    allocated_cell(h, h2, value, mutable) && extended_with_cell(next, scope, n@, h.spec_cells().len())
                    && sem_declarators_from(host, decls, i + 1, next, mutable, h2, f, r),
                None => r == Err::<(Completion, Heap, Env, Fuel), Error>(
                    Error::Unsupported { feature: "destructuring in variable declarations" },
                ),
            },
        }
    }
}

/// What a function body gives from its block's result.
pub open spec fn body_of_block(r1: StmtResult, r: BodyResult) -> bool {
    match r1 {
        Err(e) => r == Err::<(Completion, Heap, Fuel), Error>(e),
        Ok((c, h, _scope, f)) => r == Ok::<(Completion, Heap, Fuel), Error>((c, h, f)),
    }
}

/// A function body in `env`: a statement block, or an arrow body (a
/// concise expression body returns its value).
pub open spec fn sem_execute_body<H: Host>(host: &H, body: FunctionBody, env: Env, heap: Heap, fuel: Fuel, r: BodyResult) -> bool
    decreases fuel.spec_remaining(), 0int, 3int, 0int,
{
    match body {
        FunctionBody::Statements(stmts) => exists|r1: StmtResult| #[trigger] stmt_kept_budget(r1, fuel) && sem_block(host, 
            stmts@,
            env,
            heap,
            fuel,
            r1,
        ) && body_of_block(r1, r),
        FunctionBody::Arrow(arrow) => match *arrow {
            ArrowCodeBody::Expression(expr) => exists|r1: EvalResult| #[trigger] spent_budget(r1, fuel) && sem_eval(host, 
                *expr,
                env,
                heap,
                fuel,
                r1,
            ) && match r1 {
                Err(e) => r == Err::<(Completion, Heap, Fuel), Error>(e),
                Ok((Outcome::Normal(v), h, f)) => r == Ok::<(Completion, Heap, Fuel), Error>(
                    (Completion::Return(v), h, f),
                ),
                Ok((Outcome::Throw(v), h, f)) => r == Ok::<(Completion, Heap, Fuel), Error>(
                    (Completion::Throw(v), h, f),
                ),
            },
            ArrowCodeBody::Block(stmts) => exists|r1: StmtResult| #[trigger] stmt_kept_budget(r1, fuel) && sem_block(host, 
                stmts@,
                env,
                heap,
                fuel,
                r1,
            ) && body_of_block(r1, r),
        },
    }
}

/// Evaluate a single statement.  Each statement costs one unit of fuel,
/// paid before anything else.
pub fn eval_statement<H: Host>(statement: &Statement, env: &Env, heap: Heap, fuel: Fuel, host: &H) -> (r:
    StmtResult)
    ensures
        fuel.spec_remaining() == 0 ==> r == Err::<(Completion, Heap, Env, Fuel), Error>(
            Error::FuelExhausted { limit: fuel.spec_limit() },
        ),
        stmt_spent_budget(r, fuel),
        sem_statement(host, *statement, *env, heap, fuel, r),
        fuel.spec_remaining() > 0 ==> (spec_unsupported_statement(*statement) matches Some(feature)
            ==> r == Err::<(Completion, Heap, Env, Fuel), Error>(Error::Unsupported { feature })),
        fuel.spec_remaining() > 0 ==> (spec_simple_completion(*statement) matches Some(c) ==> (r matches Ok(
            (c2, h, e, f),
        ) && c2 == c && h == heap && e == *env && spent_one(f, fuel))),
        fuel.spec_remaining() > 0 ==> (*statement matches Statement::Return { argument } ==> (argument is None
            ==> (r matches Ok((c, h, e, f)) && c == Completion::Return(Value::Undefined) && h == heap && e
            == *env && spent_one(f, fuel)))),
        fuel.spec_remaining() > 0 ==> (*statement matches Statement::Block { body } ==> (body@.len() == 0 ==> (
        r matches Ok((c, h, e, f)) && c == Completion::Normal(Value::Undefined) && h == heap && e == *env
            && spent_one(f, fuel)))),
        fuel.spec_remaining() > 0 ==> (*statement matches Statement::FunctionDeclaration(func) ==> (r matches Ok(
            (c, h, e, f),
        ) && spent_one(f, fuel) && spec_function_declared(func, *env, heap, c, h, e))),
        fuel.spec_remaining() > 0 ==> (*statement is Block || *statement is Expression || *statement is While
            || *statement is DoWhile || *statement is For || *statement is Throw || *statement is Try) ==> (
        r matches Ok((_, _, e, _)) ==> e == *env),
    decreases fuel.spec_remaining(), 0int, 0int, 0int,
{
    let f1 = match fuel.spend() {
        Ok(f) => f,
        Err(e) => {
            return Err(e);
        },
    };
    match statement {
        Statement::Block { body } => eval_block(body.as_slice(), env, heap, f1, host),
        Statement::Empty | Statement::Debugger => Ok(
            (Completion::Normal(Value::Undefined), heap, env.clone(), f1),
        ),
        Statement::Expression { expression } => eval_expression_statement(
            expression,
            env,
            heap,
            f1,
            host,
        ),
        Statement::If { test, consequent, alternate } => eval_if(
            test,
            consequent,
            alternate,
            env,
            heap,
            f1,
            host,
        ),
        Statement::While { test, body } => eval_while(test, body, env, heap, f1, host),
        Statement::DoWhile { body, test } => eval_do_while(body, test, env, heap, f1, host),
        Statement::For { init, test, update, body } => eval_for(
            init,
            test,
            update,
            body,
            env,
            heap,
            f1,
            host,
        ),
        Statement::Return { argument } => eval_return(argument, env, heap, f1, host),
        Statement::Throw { argument } => eval_throw(argument, env, heap, f1, host),
        Statement::Try { block, handler, finalizer } => eval_try(
            block.as_slice(),
            handler,
            finalizer,
            env,
            heap,
            f1,
            host,
        ),
        Statement::Break => Ok((Completion::Break, heap, env.clone(), f1)),
        Statement::Continue => Ok((Completion::Continue, heap, env.clone(), f1)),
        Statement::VariableDeclaration(decl) => eval_variable_declaration(decl, env, heap, f1, host),
        Statement::FunctionDeclaration(func) => eval_function_declaration(func, env, heap, f1),
        Statement::Switch => Err(Error::Unsupported { feature: "switch statement" }),
        Statement::ForIn => Err(Error::Unsupported { feature: "for-in statement" }),
        Statement::ForOf => Err(Error::Unsupported { feature: "for-of statement" }),
        Statement::Labeled => Err(Error::Unsupported { feature: "labeled statement" }),
        Statement::ClassDeclaration => Err(Error::Unsupported { feature: "class declaration" }),
    }
}

/// Evaluate a statement list as a block: statements run in order, each
/// seeing the declarations of those before it; the first abrupt
/// completion ends the block.  A block that completes normally has the
/// value of its last statement that produced one.  Declarations do not
/// leak out: the environment after the block is the one before it.
pub fn eval_block<H: Host>(body: &[Statement], env: &Env, heap: Heap, fuel: Fuel, host: &H) -> (r:
    StmtResult)
    ensures
        stmt_kept_budget(r, fuel),
        sem_block(host, body@, *env, heap, fuel, r),
        r matches Ok((_, _, e, _)) ==> e == *env,
        body@.len() == 0 ==> r == Ok::<(Completion, Heap, Env, Fuel), Error>(
            (Completion::Normal(Value::Undefined), heap, *env, fuel),
        ),
        body@.len() > 0 && fuel.spec_remaining() == 0 ==> r == Err::<(Completion, Heap, Env, Fuel), Error>(
            Error::FuelExhausted { limit: fuel.spec_limit() },
        ),
    decreases fuel.spec_remaining(), 0int, 1int, 0int,
{
    let mut scope = env.clone();
    let mut last = Value::Undefined;
    let mut h = heap;
    let mut f = fuel;
    let mut i: usize = 0;
    while i < body.len()
        invariant
            i <= body@.len(),
            fuel_le(f, fuel),
            body@.len() == 0 ==> (last == Value::Undefined && h == heap && f == fuel),
            i == 0 ==> f == fuel,
            fuel.spec_remaining() == 0 ==> i == 0,
            forall|res: StmtResult|
                sem_block_from(host, body@, i as nat, scope, last, *env, h, f, res) ==> sem_block(host, 
                    body@,
                    *env,
                    heap,
                    fuel,
                    res,
                ),
        decreases body@.len() - i,
    {
        match eval_statement(&body[i], &scope, h, f, host) {
            Err(e) => {
                let res = Err(e);
                assert(sem_block_from(host, body@, i as nat, scope, last, *env, h, f, res));
                return res;
            },
            Ok((completion, h2, next_scope, f2)) => {
                if completion.is_abrupt() {
                    let res = Ok((completion, h2, env.clone(), f2));
                    assert(sem_block_from(host, body@, i as nat, scope, last, *env, h, f, res));
                    return res;
                }
                assert forall|res: StmtResult|
                    sem_block_from(host, 
                        body@,
                        (i + 1) as nat,
                        next_scope,
                        completion->Normal_0,
                        *env,
                        h2,
                        f2,
                        res,
                    ) implies sem_block_from(host, body@, i as nat, scope, last, *env, h, f, res) by {};
                match completion {
                    Completion::Normal(v) => {
                        last = v;
                    },
                    _ => {},
                }
                scope = next_scope;
                h = h2;
                f = f2;
            },
        }
        i = i + 1;
    }
    Ok((Completion::Normal(last), h, env.clone(), f))
}

fn eval_expression_statement<H: Host>(
    expression: &Expression,
    env: &Env,
    heap: Heap,
    fuel: Fuel,
    host: &H,
) -> (r: StmtResult)
    ensures
        sem_expression_statement(host, *expression, *env, heap, fuel, r),
        stmt_spent_budget(r, fuel),
        r matches Ok((_, _, e, _)) ==> e == *env,
    decreases fuel.spec_remaining(), 0int, 1int, 0int,
{
    match eval(expression, env, heap, fuel, host) {
        Err(e) => Err(e),
        Ok((Outcome::Normal(v), h, f)) => Ok((Completion::Normal(v), h, env.clone(), f)),
        Ok((Outcome::Throw(v), h, f)) => Ok((Completion::Throw(v), h, env.clone(), f)),
    }
}

fn eval_if<H: Host>(
    test: &Expression,
    consequent: &Statement,
    alternate: &Option<Box<Statement>>,
    env: &Env,
    heap: Heap,
    fuel: Fuel,
    host: &H,
) -> (r: StmtResult)
    ensures
        sem_if(host, *test, *consequent, *alternate, *env, heap, fuel, r),
        stmt_spent_budget(r, fuel),
    decreases fuel.spec_remaining(), 0int, 1int, 0int,
{
    match eval(test, env, heap, fuel, host) {
        Err(e) => Err(e),
        Ok((Outcome::Throw(v), h, f)) => Ok((Completion::Throw(v), h, env.clone(), f)),
        Ok((Outcome::Normal(v), h, f)) => {
            if to_boolean(&v) {
                eval_statement(consequent, env, h, f, host)
            } else {
                match alternate {
                    Some(alt) => eval_statement(alt, env, h, f, host),
                    None => Ok((Completion::Normal(Value::Undefined), h, env.clone(), f)),
                }
            }
        },
    }
}

/// What a loop does after its body completed with a given completion.
enum LoopStep {
    /// Run the next iteration.
    Next,
    /// Leave the loop with this completion.
    Exit(Completion),
}

/// `break` leaves the loop normally, `return` and `throw` leave it with
/// their completion, `continue` and normal completion go on.
fn after_body(c: Completion) -> (r: LoopStep)
    ensures
        match loop_exit(c) {
            Some(c2) => r == LoopStep::Exit(c2),
            None => r is Next,
        },
        c is Break ==> r == LoopStep::Exit(Completion::Normal(Value::Undefined)),
        (c is Return || c is Throw) ==> r == LoopStep::Exit(c),
        (c is Continue || c is Normal) ==> r is Next,
{
    match c {
        Completion::Break => LoopStep::Exit(Completion::Normal(Value::Undefined)),
        Completion::Return(v) => LoopStep::Exit(Completion::Return(v)),
        Completion::Throw(v) => LoopStep::Exit(Completion::Throw(v)),
        Completion::Continue | Completion::Normal(_) => LoopStep::Next,
    }
}

fn eval_while<H: Host>(test: &Expression, body: &Statement, env: &Env, heap: Heap, fuel: Fuel, host: &H) -> (r:
    StmtResult)
    ensures
        sem_while(host, *test, *body, *env, heap, fuel, r),
        stmt_spent_budget(r, fuel),
        r matches Ok((_, _, e, _)) ==> e == *env,
    decreases fuel.spec_remaining(), 0int, 1int, 0int,
{
    let mut h = heap;
    let mut f = fuel;
    loop
        invariant
            fuel_le(f, fuel),
            forall|res: StmtResult|
                sem_while(host, *test, *body, *env, h, f, res) ==> sem_while(host, *test, *body, *env, heap, fuel, res),
        decreases f.spec_remaining(),
    {
        match eval(test, env, h, f, host) {
            Err(e) => {
                let res = Err(e);
                assert(sem_while(host, *test, *body, *env, h, f, res));
                return res;
            },
            Ok((Outcome::Throw(v), h2, f2)) => {
                let res = Ok((Completion::Throw(v), h2, env.clone(), f2));
                assert(sem_while(host, *test, *body, *env, h, f, res));
                return res;
            },
            Ok((Outcome::Normal(tv), h2, f2)) => {
                if !to_boolean(&tv) {
                    let res = Ok((Completion::Normal(Value::Undefined), h2, env.clone(), f2));
                    assert(sem_while(host, *test, *body, *env, h, f, res));
                    return res;
                }
                match eval_statement(body, env, h2, f2, host) {
                    Err(e) => {
                        let res = Err(e);
                        assert(sem_while(host, *test, *body, *env, h, f, res));
                        return res;
                    },
                    Ok((c, h3, _scope, f3)) => match after_body(c) {
                        LoopStep::Exit(c2) => {
                            let res = Ok((c2, h3, env.clone(), f3));
                            assert(sem_while(host, *test, *body, *env, h, f, res));
                            return res;
                        },
                        LoopStep::Next => {
                            assert forall|res: StmtResult|
                                sem_while(host, *test, *body, *env, h3, f3, res) implies sem_while(host, 
                                    *test,
                                    *body,
                                    *env,
                                    h,
                                    f,
                                    res,
                                ) by {};
                            h = h3;
                            f = f3;
                        },
                    },
                }
            },
        }
    }
}

fn eval_do_while<H: Host>(body: &Statement, test: &Expression, env: &Env, heap: Heap, fuel: Fuel, host: &H) -> (r:
    StmtResult)
    ensures
        sem_do_while(host, *body, *test, *env, heap, fuel, r),
        stmt_spent_budget(r, fuel),
        r matches Ok((_, _, e, _)) ==> e == *env,
    decreases fuel.spec_remaining(), 0int, 2int, 0int,
{
    match eval_statement(body, env, heap, fuel, host) {
        Err(e) => Err(e),
        Ok((c, h, _scope, f)) => match after_body(c) {
            LoopStep::Exit(c2) => Ok((c2, h, env.clone(), f)),
            LoopStep::Next => eval_while(test, body, env, h, f, host),
        },
    }
}

fn eval_for<H: Host>(
    init: &Option<ForStart>,
    test: &Option<Expression>,
    update: &Option<Expression>,
    body: &Statement,
    env: &Env,
    heap: Heap,
    fuel: Fuel,
    host: &H,
) -> (r: StmtResult)
    ensures
        sem_for(host, *init, *test, *update, *body, *env, heap, fuel, r),
        stmt_kept_budget(r, fuel),
        r matches Ok((_, _, e, _)) ==> e == *env,
    decreases fuel.spec_remaining(), 0int, 3int, 0int,
{
    let init_result: StmtResult = match init {
        None => Ok((Completion::Normal(Value::Undefined), heap, env.clone(), fuel)),
        Some(ForStart::Declaration(decl)) => eval_variable_declaration(decl, env, heap, fuel, host),
        Some(ForStart::Expression(expr)) => match eval(expr, env, heap, fuel, host) {
            Err(e) => Err(e),
            Ok((_outcome, h, f)) => Ok((Completion::Normal(Value::Undefined), h, env.clone(), f)),
        },
    };
    assert(stmt_kept_budget(init_result, fuel));
    match init_result {
        Err(e) => Err(e),
        Ok((_completion, h, loop_env, f)) => match eval_for_loop(test, update, body, &loop_env, h, f, host) {
            Err(e) => Err(e),
            Ok((c, h2, _scope, f2)) => Ok((c, h2, env.clone(), f2)),
        },
    }
}

/// The iterations of a `for` loop: test, body, update, until the test is
/// falsy or the body leaves the loop.  A throw from the test, the body or
/// the update ends the loop with that throw.
fn eval_for_loop<H: Host>(
    test: &Option<Expression>,
    update: &Option<Expression>,
    body: &Statement,
    env: &Env,
    heap: Heap,
    fuel: Fuel,
    host: &H,
) -> (r: StmtResult)
    ensures
        sem_for_loop(host, *test, *update, *body, *env, heap, fuel, r),
        stmt_kept_budget(r, fuel),
    decreases fuel.spec_remaining(), 0int, 1int, 0int,
{
    let mut h = heap;
    let mut f = fuel;
    loop
        invariant
            fuel_le(f, fuel),
            forall|res: StmtResult|
                sem_for_loop(host, *test, *update, *body, *env, h, f, res) ==> sem_for_loop(host, 
                    *test,
                    *update,
                    *body,
                    *env,
                    heap,
                    fuel,
                    res,
                ),
        decreases f.spec_remaining(),
    {
        let ghost h0 = h;
        let test_result: EvalResult = match test {
            None => Ok((Outcome::Normal(Value::Boolean(true)), h, f)),
            Some(t) => eval(t, env, h, f, host),
        };
        assert(kept_budget(test_result, f));
        let (proceed, h1, f1) = match test_result {
            Err(e) => {
                let res = Err(e);
                assert(sem_for_loop(host, *test, *update, *body, *env, h0, f, res));
                return res;
            },
            Ok((Outcome::Throw(v), h1, f1)) => {
                let res = Ok((Completion::Throw(v), h1, env.clone(), f1));
                assert(sem_for_loop(host, *test, *update, *body, *env, h0, f, res));
                return res;
            },
            Ok((Outcome::Normal(v), h1, f1)) => (to_boolean(&v), h1, f1),
        };
        if !proceed {
            let res = Ok((Completion::Normal(Value::Undefined), h1, env.clone(), f1));
            assert(sem_for_loop(host, *test, *update, *body, *env, h0, f, res));
            return res;
        }
        match eval_statement(body, env, h1, f1, host) {
            Err(e) => {
                let res = Err(e);
                assert(sem_for_loop(host, *test, *update, *body, *env, h0, f, res));
                return res;
            },
            Ok((c, h2, _scope, f2)) => match after_body(c) {
                LoopStep::Exit(c2) => {
                    let res = Ok((c2, h2, env.clone(), f2));
                    assert(sem_for_loop(host, *test, *update, *body, *env, h0, f, res));
                    return res;
                },
                LoopStep::Next => {
                    let update_result: EvalResult = match update {
                        None => Ok((Outcome::Normal(Value::Undefined), h2, f2)),
                        Some(u) => eval(u, env, h2, f2, host),
                    };
                    assert(kept_budget(update_result, f2));
                    match update_result {
                        Err(e) => {
                            let res = Err(e);
                            assert(sem_for_loop(host, *test, *update, *body, *env, h0, f, res));
                            return res;
                        },
                        Ok((Outcome::Throw(v), h3, f3)) => {
                            let res = Ok((Completion::Throw(v), h3, env.clone(), f3));
                            assert(sem_for_loop(host, *test, *update, *body, *env, h0, f, res));
                            return res;
                        },
                        Ok((Outcome::Normal(_), h3, f3)) => {
                            assert forall|res: StmtResult|
                                sem_for_loop(host, *test, *update, *body, *env, h3, f3, res) implies sem_for_loop(host, 
                                    *test,
                                    *update,
                                    *body,
                                    *env,
                                    h0,
                                    f,
                                    res,
                                ) by {};
                            h = h3;
                            f = f3;
                        },
                    }
                },
            },
        }
    }
}

fn eval_return<H: Host>(argument: &Option<Expression>, env: &Env, heap: Heap, fuel: Fuel, host: &H) -> (r:
    StmtResult)
    ensures
        sem_return(host, *argument, *env, heap, fuel, r),
        stmt_kept_budget(r, fuel),
        argument is None ==> r == Ok::<(Completion, Heap, Env, Fuel), Error>(
            (Completion::Return(Value::Undefined), heap, *env, fuel),
        ),
        r matches Ok((c, _, e, _)) ==> e == *env && (c is Return || c is Throw),
    decreases fuel.spec_remaining(), 0int, 1int, 0int,
{
    match argument {
        None => Ok((Completion::Return(Value::Undefined), heap, env.clone(), fuel)),
        Some(expr) => match eval(expr, env, heap, fuel, host) {
            Err(e) => Err(e),
            Ok((Outcome::Normal(v), h, f)) => Ok((Completion::Return(v), h, env.clone(), f)),
            Ok((Outcome::Throw(v), h, f)) => Ok((Completion::Throw(v), h, env.clone(), f)),
        },
    }
}

fn eval_throw<H: Host>(argument: &Expression, env: &Env, heap: Heap, fuel: Fuel, host: &H) -> (r:
    StmtResult)
    ensures
        sem_throw(host, *argument, *env, heap, fuel, r),
        stmt_spent_budget(r, fuel),
        r matches Ok((c, _, e, _)) ==> e == *env && c is Throw,
    decreases fuel.spec_remaining(), 0int, 1int, 0int,
{
    match eval(argument, env, heap, fuel, host) {
        Err(e) => Err(e),
        Ok((Outcome::Normal(v), h, f)) => Ok((Completion::Throw(v), h, env.clone(), f)),
        Ok((Outcome::Throw(v), h, f)) => Ok((Completion::Throw(v), h, env.clone(), f)),
    }
}

fn eval_try<H: Host>(
    block: &[Statement],
    handler: &Option<CatchBlock>,
    finalizer: &Option<Vec<Statement>>,
    env: &Env,
    heap: Heap,
    fuel: Fuel,
    host: &H,
) -> (r: StmtResult)
    ensures
        sem_try(host, block@, *handler, *finalizer, *env, heap, fuel, r),
        stmt_kept_budget(r, fuel),
        r matches Ok((_, _, e, _)) ==> e == *env,
    decreases fuel.spec_remaining(), 0int, 4int, 0int,
{
    match eval_block(block, env, heap, fuel, host) {
        Err(e) => Err(e),
        Ok((c, h, scope, f)) => match run_catch_phase(c, h, scope, f, handler, env, host) {
            Err(e) => Err(e),
            Ok((c2, h2, scope2, f2)) => run_finalizer(finalizer, c2, h2, scope2, f2, env, host),
        },
    }
}

/// A `throw` out of the protected block runs the handler, if any; every
/// other completion passes through.
fn run_catch_phase<H: Host>(
    completion: Completion,
    heap: Heap,
    scope: Env,
    fuel: Fuel,
    handler: &Option<CatchBlock>,
    env: &Env,
    host: &H,
) -> (r: StmtResult)
    ensures
        sem_catch_phase(host, completion, heap, scope, fuel, *handler, *env, r),
        stmt_kept_budget(r, fuel),
        !(completion is Throw) || handler is None ==> r == Ok::<(Completion, Heap, Env, Fuel), Error>(
            (completion, heap, scope, fuel),
        ),
        scope == *env ==> (r matches Ok((_, _, e, _)) ==> e == *env),
    decreases fuel.spec_remaining(), 0int, 3int, 0int,
{
    match completion {
        Completion::Throw(thrown) => match handler {
            Some(clause) => run_catch_clause(clause, thrown, env, heap, fuel, host),
            None => Ok((Completion::Throw(thrown), heap, scope, fuel)),
        },
        other => Ok((other, heap, scope, fuel)),
    }
}

/// Run a `catch` clause with its parameter bound to the thrown value in
/// a fresh mutable cell.
fn run_catch_clause<H: Host>(
    clause: &CatchBlock,
    thrown: Value,
    env: &Env,
    heap: Heap,
    fuel: Fuel,
    host: &H,
) -> (r: StmtResult)
    ensures
        sem_catch_clause(host, *clause, thrown, *env, heap, fuel, r),
        stmt_kept_budget(r, fuel),
        r matches Ok((_, _, e, _)) ==> e == *env,
    decreases fuel.spec_remaining(), 0int, 2int, 0int,
{
    let ghost heap0 = heap;
    let (catch_env, h) = match &clause.param {
        Some(Pattern::Identifier(id)) => {
            let (cell, h) = heap.alloc_cell(Cell::new(thrown, true));
            let catch_env = env.extend_cell(id.as_str(), cell);
            assert(allocated_cell(heap0, h, thrown, true));
            assert(extended_with_cell(catch_env, *env, id@, heap0.spec_cells().len()));
            (catch_env, h)
        },
        _ => (env.clone(), heap),
    };
    match eval_block(clause.body.as_slice(), &catch_env, h, fuel, host) {
        Err(e) => Err(e),
        Ok((c, h2, _scope, f2)) => Ok((c, h2, env.clone(), f2)),
    }
}

/// The completion of a `try` statement once its `finally` block ran: an
/// abrupt `finally` wins, a normal one leaves the earlier completion.
fn finally_completion(pending: Completion, fin: Completion) -> (r: Completion)
    ensures
        fin is Normal ==> r == pending,
        !(fin is Normal) ==> r == fin,
{
    if fin.is_abrupt() {
        fin
    } else {
        pending
    }
}

fn run_finalizer<H: Host>(
    finalizer: &Option<Vec<Statement>>,
    completion: Completion,
    heap: Heap,
    scope: Env,
    fuel: Fuel,
    env: &Env,
    host: &H,
) -> (r: StmtResult)
    ensures
        sem_finalizer(host, *finalizer, completion, heap, scope, fuel, *env, r),
        stmt_kept_budget(r, fuel),
        finalizer is None ==> r == Ok::<(Completion, Heap, Env, Fuel), Error>(
            (completion, heap, scope, fuel),
        ),
        r matches Ok((_, _, e, _)) ==> e == scope,
    decreases fuel.spec_remaining(), 0int, 2int, 0int,
{
    match finalizer {
        Some(fin) => match eval_block(fin.as_slice(), env, heap, fuel, host) {
            Err(e) => Err(e),
            Ok((fc, h, _inner, f)) => Ok((finally_completion(completion, fc), h, scope, f)),
        },
        None => Ok((completion, heap, scope, fuel)),
    }
}

fn eval_variable_declaration<H: Host>(
    decl: &Declaration,
    env: &Env,
    heap: Heap,
    fuel: Fuel,
    host: &H,
) -> (r: StmtResult)
    ensures
        sem_variable_declaration(host, *decl, *env, heap, fuel, r),
        stmt_kept_budget(r, fuel),
    decreases fuel.spec_remaining(), 0int, 2int, 0int,
{
    let mutable = match decl.kind {
        DeclarationKind::Var | DeclarationKind::Let => true,
        DeclarationKind::Const => false,
    };
    eval_declarators(decl.declarators.as_slice(), env.clone(), heap, fuel, mutable, host)
}

/// The name a declarator binds and the default initialiser its pattern
/// carries (`let x = e` parses as an identifier with `init`; a pattern
/// default `x = e` is also accepted).  Other patterns bind no plain name.
fn normalise_declarator(d: &Declarator) -> (r: (Option<&String>, Option<&Expression>))
    ensures
        match d.id {
            Pattern::Identifier(n) => (r.0 matches Some(m) && *m == n) && r.1 is None,
            Pattern::Assignment { left, right } => match *left {
                Pattern::Identifier(n) => (r.0 matches Some(m) && *m == n) && (r.1 matches Some(e)
                    && *e == *right),
                _ => r.0 is None && r.1 is None,
            },
            _ => r.0 is None && r.1 is None,
        },
{
    match &d.id {
        Pattern::Identifier(id) => (Some(id), None),
        Pattern::Assignment { left, right } => match &**left {
            Pattern::Identifier(id) => (Some(id), Some(&**right)),
            _ => (None, None),
        },
        _ => (None, None),
    }
}

/// Declare each declarator in turn: evaluate its initialiser (or take
/// `undefined`) and bind the name to a fresh cell, mutable unless the
/// declaration is `const`.  A throwing initialiser stops the declaration.
fn eval_declarators<H: Host>(
    decls: &[Declarator],
    env: Env,
    heap: Heap,
    fuel: Fuel,
    mutable: bool,
    host: &H,
) -> (r: StmtResult)
    ensures
        sem_declarators_from(host, decls@, 0, env, mutable, heap, fuel, r),
        stmt_kept_budget(r, fuel),
        decls@.len() == 0 ==> r == Ok::<(Completion, Heap, Env, Fuel), Error>(
            (Completion::Normal(Value::Undefined), heap, env, fuel),
        ),
    decreases fuel.spec_remaining(), 0int, 1int, 0int,
{
    let mut scope = env;
    let mut h = heap;
    let mut f = fuel;
    let mut i: usize = 0;
    while i < decls.len()
        invariant
            i <= decls@.len(),
            fuel_le(f, fuel),
            decls@.len() == 0 ==> (scope == env && h == heap && f == fuel),
            forall|res: StmtResult|
                sem_declarators_from(host, decls@, i as nat, scope, mutable, h, f, res) ==> sem_declarators_from(host, 
                    decls@,
                    0,
                    env,
                    mutable,
                    heap,
                    fuel,
                    res,
                ),
        decreases decls@.len() - i,
    {
        let ghost h0 = h;
        let d = &decls[i];
        let (name, default_init) = normalise_declarator(d);
        let init = match &d.init {
            Some(e) => Some(e),
            None => default_init,
        };
        assert(match declared_init(decls@[i as int]) {
            Some(e) => init matches Some(x) && *x == e,
            None => init is None,
        });
        assert(match declared_name(decls@[i as int]) {
            Some(m) => name matches Some(x) && *x == m,
            None => name is None,
        });
        let init_result: EvalResult = match init {
            None => Ok((Outcome::Normal(Value::Undefined), h, f)),
            Some(e) => eval(e, &scope, h, f, host),
        };
        assert(kept_budget(init_result, f));
        match init_result {
            Err(err) => {
                let res = Err(err);
                assert(sem_declarators_from(host, decls@, i as nat, scope, mutable, h0, f, res));
                return res;
            },
            Ok((Outcome::Throw(v), h1, f1)) => {
                let res = Ok((Completion::Throw(v), h1, scope, f1));
                assert(sem_declarators_from(host, decls@, i as nat, scope, mutable, h0, f, res));
                return res;
            },
            Ok((Outcome::Normal(value), h1, f1)) => match name {
                Some(n) => {
                    let ghost scope0 = scope;
                    let ghost h1_0 = h1;
                    let (cell, h2) = h1.alloc_cell(Cell::new(value, mutable));
                    scope = scope.extend_cell(n.as_str(), cell);
                    assert(allocated_cell(h1_0, h2, value, mutable));
                    assert(extended_with_cell(scope, scope0, n@, h1_0.spec_cells().len()));
                    assert forall|res: StmtResult|
                        sem_declarators_from(host, decls@, (i + 1) as nat, scope, mutable, h2, f1, res) implies sem_declarators_from(host, 
                            decls@,
                            i as nat,
                            scope0,
                            mutable,
                            h0,
                            f,
                            res,
                        ) by {};
                    h = h2;
                    f = f1;
                },
                None => {
                    let res = Err(Error::Unsupported { feature: "destructuring in variable declarations" });
                    assert(sem_declarators_from(host, decls@, i as nat, scope, mutable, h0, f, res));
                    return res;
                },
            },
        }
        i = i + 1;
    }
    Ok((Completion::Normal(Value::Undefined), h, scope, f))
}

/// A copy of an optional name.
pub fn clone_name(name: &Option<String>) -> (r: Option<String>)
    ensures
        r == *name,
{
    match name {
        Some(n) => Some(n.clone()),
        None => None,
    }
}

/// `f` is the closure a `function` declaration or expression makes of
/// `func` in `env`.
pub open spec fn is_function_closure(def: FunctionDef, func: FunctionCode, env: Env) -> bool {
    &&& def.spec_name() == func.id
    &&& def.spec_params() == func.params
    &&& def.spec_body() == FunctionBody::Statements(func.body)
    &&& def.spec_captured_env() == env
    &&& !def.spec_is_arrow()
}

/// What a function declaration does: it completes normally; the
/// environment gains the function's name (empty when it has none) bound
/// to a fresh mutable cell; that cell holds a fresh function closing over
/// the extended environment, so the body can call itself; nothing else
/// changes.
pub open spec fn spec_function_declared(func: FunctionCode, env: Env, heap: Heap, c: Completion, h: Heap, e: Env) -> bool {
    &&& c == Completion::Normal(Value::Undefined)
    &&& e matches Env::Cons { name, binding: Binding::Cell(cell), rest }
    &&& name@ == (match func.id {
        Some(n) => n@,
        None => Seq::<char>::empty(),
    })
    &&& *rest == env
    &&& cell.spec_raw() == heap.spec_cells().len()
    &&& h.spec_cells().len() == heap.spec_cells().len() + 1
    &&& h.spec_cells().drop_last() == heap.spec_cells()
    &&& h.spec_cells().last().spec_mutable()
    &&& h.spec_cells().last().spec_value() matches Value::Function(id)
    &&& id.spec_raw() == heap.spec_functions().len()
    &&& h.spec_functions().drop_last() == heap.spec_functions()
    &&& h.spec_functions().len() == heap.spec_functions().len() + 1
    &&& is_function_closure(h.spec_functions().last(), func, e)
    &&& h.spec_objects() == heap.spec_objects()
    &&& h.spec_promises() == heap.spec_promises()
}

/// A declared function can call itself: in the environment it closes
/// over, its name resolves, in the heap the declaration leaves, to the
/// function itself.
pub proof fn lemma_declared_function_sees_itself(
    func: FunctionCode,
    env: Env,
    heap: Heap,
    c: Completion,
    h: Heap,
    e: Env,
)
    requires
        spec_function_declared(func, env, heap, c, h, e),
    ensures
        h.spec_cells().last().spec_value() matches Value::Function(id) && h.spec_function(id) == Some(
            h.spec_functions().last(),
        ) && spec_identifier_outcome(
            e->name@,
            h.spec_functions().last().spec_captured_env(),
            h,
            Outcome::Normal(Value::Function(id)),
        ),
{
}

/// A function declaration: allocate a mutable cell for the name, extend
/// the environment with it, allocate the function closing over that
/// extended environment (so the body can call itself), and store the
/// function into the cell.
fn eval_function_declaration(func: &FunctionCode, env: &Env, heap: Heap, fuel: Fuel) -> (r: StmtResult)
    ensures
        r matches Ok((c, h, e, f)) && f == fuel && spec_function_declared(*func, *env, heap, c, h, e),
{
    let name = match &func.id {
        Some(n) => n.clone(),
        None => String::new(),
    };
    let (cell, h1) = heap.alloc_cell(Cell::new(Value::Undefined, true));
    let new_env = env.extend_cell(name.as_str(), cell);
    let def = FunctionDef::new(
        clone_name(&func.id),
        Arc::clone(&func.params),
        FunctionBody::Statements(Arc::clone(&func.body)),
        new_env.clone(),
        false,
    );
    let (id, h2) = h1.alloc_function(def);
    match h2.store_cell(cell, Value::Function(id)) {
        Ok(h3) => {
            assert(h3.spec_cells().drop_last() =~= heap.spec_cells()) by {
                assert forall|j: int| 0 <= j < heap.spec_cells().len() implies h3.spec_cells().drop_last()[j]
                    == heap.spec_cells()[j] by {
                    assert(h3.spec_cells()[j] == h2.spec_cells()[j]);
                }
            }
            assert(h2.spec_functions().drop_last() =~= heap.spec_functions());
            Ok((Completion::Normal(Value::Undefined), h3, new_env, fuel))
        },
        Err(h3) => Ok(
            (
                Completion::Throw(Value::String(concat("TypeError: failed to bind function ", name.as_str()))),
                h3,
                new_env,
                fuel,
            ),
        ),
    }
}

/// Evaluate a function body in `env`.  A concise arrow body's value is
/// returned as if by `return`.
pub fn execute_body<H: Host>(body: &FunctionBody, env: &Env, heap: Heap, fuel: Fuel, host: &H) -> (r:
    BodyResult)
    ensures
        sem_execute_body(host, *body, *env, heap, fuel, r),
        body_kept_budget(r, fuel),
    decreases fuel.spec_remaining(), 0int, 2int, 0int,
{
    match body {
        FunctionBody::Statements(stmts) => match eval_block(stmts.as_slice(), env, heap, fuel, host) {
            Err(e) => Err(e),
            Ok((c, h, _scope, f)) => Ok((c, h, f)),
        },
        FunctionBody::Arrow(arrow) => match &**arrow {
            ArrowCodeBody::Expression(expr) => match eval(expr, env, heap, fuel, host) {
                Err(e) => Err(e),
                Ok((Outcome::Normal(v), h, f)) => Ok((Completion::Return(v), h, f)),
                Ok((Outcome::Throw(v), h, f)) => Ok((Completion::Throw(v), h, f)),
            },
            ArrowCodeBody::Block(stmts) => match eval_block(stmts.as_slice(), env, heap, fuel, host) {
                Err(e) => Err(e),
                Ok((c, h, _scope, f)) => Ok((c, h, f)),
            },
        },
    }
}

} // verus!
