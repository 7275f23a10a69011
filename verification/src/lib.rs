//! Tree-walking ECMAScript engine with a persistent heap and a step budget.

use vstd::prelude::*;

pub mod assoc;
pub mod ast;
pub mod call;
pub mod chain;
pub mod coercion;
pub mod completion;
pub mod error;
pub mod expression;
pub mod front;
pub mod fuel;
pub mod heap;
pub mod laws;
pub mod host;
pub mod literal;
pub mod env;
pub mod number;
pub mod operator;
pub mod outcome;
pub mod promise;
pub mod property;
pub mod statement;
pub mod text;
pub mod value;

pub use crate::env::Binding;
pub use crate::error::Error;
pub use crate::promise::{PromiseHandler, PromiseState};
pub use crate::value::{Cell, NativeFn, Value};

use crate::ast::Program;
use crate::completion::Completion;
use crate::env::Env;
use crate::front::{parse_source, spec_parse_source, FrontEndError};
use crate::fuel::Fuel;
use crate::heap::Heap;
use crate::host::Host;
use crate::number::{NAN, POSITIVE_INFINITY};
use crate::statement::{eval_block, sem_block, stmt_kept_budget, StmtResult};
use crate::value::render_admits;

verus! {

/// Default step budget.
pub const DEFAULT_FUEL: u64 = 100_000;

/// The environment scripts start in: `undefined`, `NaN` and `Infinity`
/// bound directly, nothing else.
pub open spec fn is_initial_env(env: Env) -> bool {
    &&& env.spec_lookup("undefined"@) == Some(Binding::Direct(Value::Undefined))
    &&& env.spec_lookup("NaN"@) == Some(Binding::Direct(Value::Number(NAN)))
    &&& env.spec_lookup("Infinity"@) == Some(Binding::Direct(Value::Number(POSITIVE_INFINITY)))
    &&& forall|name: Seq<char>|
        name != "undefined"@ && name != "NaN"@ && name != "Infinity"@ ==> #[trigger] env.spec_lookup(name) is None
}

/// A heap with nothing allocated.
pub open spec fn is_empty_heap(heap: Heap) -> bool {
    &&& heap.spec_objects().len() == 0
    &&& heap.spec_functions().len() == 0
    &&& heap.spec_cells().len() == 0
    &&& heap.spec_promises().len() == 0
}

/// The environment `Env::empty()` extended directly with `undefined`,
/// then `NaN`, then `Infinity`, binding the values of those names.
pub open spec fn is_initial_chain(env: Env) -> bool {
    &&& env matches Env::Cons { name: n3, binding: b3, rest: r3 }
    &&& n3@ == "Infinity"@ && b3 == Binding::Direct(Value::Number(POSITIVE_INFINITY))
    &&& *r3 matches Env::Cons { name: n2, binding: b2, rest: r2 }
    &&& n2@ == "NaN"@ && b2 == Binding::Direct(Value::Number(NAN))
    &&& *r2 matches Env::Cons { name: n1, binding: b1, rest: r1 }
    &&& n1@ == "undefined"@ && b1 == Binding::Direct(Value::Undefined)
    &&& *r1 == Env::Empty
}

/// The state a script starts in: the initial environment chain (which
/// binds exactly `undefined`, `NaN` and `Infinity`) and an empty heap.
pub open spec fn initial_state(env: Env, heap: Heap) -> bool {
    is_initial_chain(env) && is_initial_env(env) && is_empty_heap(heap)
}

/// The environment scripts start in.
fn initial_env() -> (r: Env)
    ensures
        is_initial_chain(r),
        is_initial_env(r),
{
    let e0 = Env::empty();
    let e1 = e0.extend_direct("undefined", Value::Undefined);
    let e2 = e1.extend_direct("NaN", Value::Number(NAN));
    let e3 = e2.extend_direct("Infinity", Value::Number(POSITIVE_INFINITY));
    proof {
        reveal_strlit("undefined");
        reveal_strlit("NaN");
        reveal_strlit("Infinity");
        assert("undefined"@ != "NaN"@ && "undefined"@ != "Infinity"@ && "NaN"@ != "Infinity"@) by {
            assert("undefined"@.len() != "NaN"@.len());
            assert("undefined"@[0] != "Infinity"@[0]);
            assert("NaN"@.len() != "Infinity"@.len());
        }
        env::lemma_lookup_extended_same(e2, e3->name, Binding::Direct(Value::Number(POSITIVE_INFINITY)));
        env::lemma_lookup_extended_same(e1, e2->name, Binding::Direct(Value::Number(NAN)));
        env::lemma_lookup_extended_same(e0, e1->name, Binding::Direct(Value::Undefined));
        env::lemma_lookup_extended_other(e2, e3->name, Binding::Direct(Value::Number(POSITIVE_INFINITY)), "NaN"@);
        env::lemma_lookup_extended_other(e2, e3->name, Binding::Direct(Value::Number(POSITIVE_INFINITY)), "undefined"@);
        env::lemma_lookup_extended_other(e1, e2->name, Binding::Direct(Value::Number(NAN)), "undefined"@);
        assert forall|name: Seq<char>|
            name != "undefined"@ && name != "NaN"@ && name != "Infinity"@ implies #[trigger] e3.spec_lookup(name)
                is None by {
            env::lemma_lookup_extended_other(e2, e3->name, Binding::Direct(Value::Number(POSITIVE_INFINITY)), name);
            env::lemma_lookup_extended_other(e1, e2->name, Binding::Direct(Value::Number(NAN)), name);
            env::lemma_lookup_extended_other(e0, e1->name, Binding::Direct(Value::Undefined), name);
            env::lemma_lookup_empty(name);
        }
    }
    e3
}

/// The result of a script whose body completed with `completion`,
/// leaving `heap`: the value of a normal completion (or of a top-level
/// `return`); an uncaught `throw` becomes [`Error::UncaughtException`]
/// carrying the thrown value's rendering; a stray `break` or `continue`
/// gives `undefined`.
pub open spec fn script_result<H: Host>(host: &H, completion: Completion, heap: Heap, r: Result<(Value, Heap), Error>) -> bool {
    match completion {
        Completion::Normal(v) | Completion::Return(v) => r == Ok::<(Value, Heap), Error>((v, heap)),
        Completion::Break | Completion::Continue => r == Ok::<(Value, Heap), Error>((Value::Undefined, heap)),
        Completion::Throw(v) => r matches Err(Error::UncaughtException { rendered }) && render_admits(
            host,
            v,
            rendered@,
        ),
    }
}

/// Running a program: a script's body as a block in `env`, from `heap`
/// with `fuel`, then its result; modules are not run.
pub open spec fn sem_program<H: Host>(host: &H, program: Program, env: Env, heap: Heap, fuel: Fuel, r: Result<(Value, Heap), Error>) -> bool {
    match program {
        Program::Script { body } => exists|r1: StmtResult| #[trigger] stmt_kept_budget(r1, fuel) && sem_block(host, 
            body@,
            env,
            heap,
            fuel,
            r1,
        ) && match r1 {
            Err(e) => r == Err::<(Value, Heap), Error>(e),
            Ok((c, h, _env, _fuel)) => script_result(host, c, h, r),
        },
        Program::Module => r == Err::<(Value, Heap), Error>(
            Error::Unsupported { feature: "module evaluation (v0 supports Script only)" },
        ),
    }
}

/// The result of a script from the completion of its body.
pub fn finish_script<H: Host>(completion: Completion, heap: Heap, host: &H) -> (r: Result<(Value, Heap), Error>)
    ensures
        script_result(host, completion, heap, r),
{
    match completion {
        Completion::Normal(v) | Completion::Return(v) => Ok((v, heap)),
        Completion::Throw(v) => Err(Error::UncaughtException { rendered: v.render(host) }),
        Completion::Break | Completion::Continue => Ok((Value::Undefined, heap)),
    }
}

/// Evaluate a parsed program in the given environment, heap and fuel,
/// returning the script's value and the final heap.  Embedders use this
/// to start from environments holding their own bindings.
pub fn evaluate_program_with<H: Host>(program: &Program, env: Env, heap: Heap, fuel: Fuel, host: &H) -> (r:
    Result<(Value, Heap), Error>)
    ensures
        sem_program(host, *program, env, heap, fuel, r),
        *program is Module ==> r == Err::<(Value, Heap), Error>(
            Error::Unsupported { feature: "module evaluation (v0 supports Script only)" },
        ),
        *program matches Program::Script { body } ==> (body@.len() == 0 ==> r == Ok::<(Value, Heap), Error>(
            (Value::Undefined, heap),
        )),
        *program matches Program::Script { body } ==> (body@.len() > 0 && fuel.spec_remaining() == 0 ==> r
            == Err::<(Value, Heap), Error>(Error::FuelExhausted { limit: fuel.spec_limit() })),
{
    match program {
        Program::Script { body } => match eval_block(body.as_slice(), &env, heap, fuel, host) {
            Err(e) => Err(e),
            Ok((completion, h, _env, _fuel)) => finish_script(completion, h, host),
        },
        Program::Module => Err(Error::Unsupported { feature: "module evaluation (v0 supports Script only)" }),
    }
}

/// Evaluate a parsed program with the given fuel, from the initial
/// environment and an empty heap.
pub fn evaluate_program<H: Host>(program: &Program, fuel: Fuel, host: &H) -> (r: Result<(Value, Heap), Error>)
    ensures
        exists|env: Env, heap: Heap| #[trigger] initial_state(env, heap) && sem_program(host, *program, env, heap, fuel, r),
        *program is Module ==> r == Err::<(Value, Heap), Error>(
            Error::Unsupported { feature: "module evaluation (v0 supports Script only)" },
        ),
        *program matches Program::Script { body } ==> (body@.len() > 0 && fuel.spec_remaining() == 0 ==> r
            == Err::<(Value, Heap), Error>(Error::FuelExhausted { limit: fuel.spec_limit() })),
        *program matches Program::Script { body } ==> (body@.len() == 0 ==> (r matches Ok((v, h)) && v
            == Value::Undefined && h.spec_objects().len() == 0 && h.spec_cells().len() == 0)),
{
    let env = initial_env();
    let heap = Heap::new();
    assert(initial_state(env, heap));
    evaluate_program_with(program, env, heap, fuel, host)
}

/// Lex, parse and evaluate `source` with `fuel`, from the initial
/// environment and an empty heap, returning the script's value and the
/// final heap.  A lexer or parser failure is returned as
/// [`Error::Lex`] or [`Error::Parse`].
pub fn run_source<H: Host>(source: &str, fuel: Fuel, host: &H) -> (r: Result<(Value, Heap), Error>)
    ensures
        spec_parse_source(source@) matches Err(FrontEndError::Lex { message }) ==> r == Err::<(Value, Heap), Error>(
            Error::Lex { message },
        ),
        spec_parse_source(source@) matches Err(FrontEndError::Parse { message }) ==> r == Err::<
            (Value, Heap),
            Error,
        >(Error::Parse { message }),
        spec_parse_source(source@) matches Ok(p) ==> exists|env: Env, heap: Heap| #[trigger]
            initial_state(env, heap) && sem_program(host, p, env, heap, fuel, r),
{
    match parse_source(source) {
        Err(FrontEndError::Lex { message }) => Err(Error::Lex { message }),
        Err(FrontEndError::Parse { message }) => Err(Error::Parse { message }),
        Ok(program) => evaluate_program(&program, fuel, host),
    }
}

/// A script's result is its body's: whatever running the body as a block
/// may give, a program may give it mapped as `script_result` says (a
/// normal completion or `return` gives its value, a `throw` becomes
/// `UncaughtException`, `break` and `continue` give `undefined`), and an
/// error of the block passes through unchanged.
pub proof fn lemma_script_result_of_block<H: Host>(host: &H, 
    body: Vec<crate::ast::Statement>,
    env: Env,
    heap: Heap,
    fuel: Fuel,
    r1: StmtResult,
    r: Result<(Value, Heap), Error>,
)
    requires
        sem_block(host, body@, env, heap, fuel, r1),
        stmt_kept_budget(r1, fuel),
        match r1 {
            Err(e) => r == Err::<(Value, Heap), Error>(e),
            Ok((c, h, _env, _fuel)) => script_result(host, c, h, r),
        },
    ensures
        sem_program(host, Program::Script { body }, env, heap, fuel, r),
{
}

/// Running a program from the initial state is running it with
/// `evaluate_program_with` from an environment binding just `undefined`,
/// `NaN` and `Infinity` and an empty heap: whatever the latter may give
/// from such a state, `evaluate_program`'s contract admits.
pub proof fn lemma_initial_run<H: Host>(host: &H, program: Program, env: Env, heap: Heap, fuel: Fuel, r: Result<(Value, Heap), Error>)
    requires
        initial_state(env, heap),
        sem_program(host, program, env, heap, fuel, r),
    ensures
        exists|e: Env, h: Heap| #[trigger] initial_state(e, h) && sem_program(host, program, e, h, fuel, r),
{
}

} // verus!
