//! Promise values, `.then` / `.catch` dispatch, and settlement.
//!
//! - A `Resolved(v)` promise: `.then(cb)` invokes `cb(v)` at once and
//!   returns a new promise holding the outcome of the call; without a
//!   callable `cb` the value passes through into a new `Resolved`
//!   promise.
//! - A `Rejected(v)` promise: `.then(cb)` passes the rejection through;
//!   `.then(null, cb)` and `.catch(cb)` invoke `cb(v)` and the handled
//!   rejection recovers.
//! - A `Pending` promise: `.then` queues a handler paired with a fresh
//!   pending child promise.  [`resolve`] / [`reject`] settle a pending
//!   promise and drain its queue, settling each child with its handler's
//!   outcome, recursively.  A settled promise never changes again: later
//!   settlements of it do nothing.

use vstd::prelude::*;

use crate::call::{call_function, is_callable, sem_call_function, spec_is_callable};
use crate::env::{Binding, Env};
use crate::error::Error;
use crate::fuel::{fuel_le, Fuel};
use crate::heap::Heap;
use crate::host::Host;
use crate::outcome::{is_type_error, kept_budget, type_error, EvalResult, Outcome};
use crate::value::{Cell, NativeFn, PromiseId, Value};

verus! {

/// One queued handler of a pending promise.  Either callback may be
/// absent; `chained` is the downstream promise that receives the
/// handler's outcome.
#[derive(Debug)]
pub struct PromiseHandler {
    on_resolve: Option<Value>,
    on_reject: Option<Value>,
    chained: PromiseId,
}

fn clone_optional_value(v: &Option<Value>) -> (r: Option<Value>)
    ensures
        r == *v,
{
    match v {
        Some(x) => Some(x.clone()),
        None => None,
    }
}

impl Clone for PromiseHandler {
    fn clone(&self) -> (r: Self)
        ensures
            r == *self,
    {
        PromiseHandler {
            on_resolve: clone_optional_value(&self.on_resolve),
            on_reject: clone_optional_value(&self.on_reject),
            chained: self.chained,
        }
    }
}

impl PromiseHandler {
    /// The callback run on resolution.
    pub closed spec fn spec_on_resolve(self) -> Option<Value> {
        self.on_resolve
    }

    /// The callback run on rejection.
    pub closed spec fn spec_on_reject(self) -> Option<Value> {
        self.on_reject
    }

    /// The downstream promise.
    pub closed spec fn spec_chained(self) -> PromiseId {
        self.chained
    }

    /// Build a handler targeting `chained`.
    pub fn new(on_resolve: Option<Value>, on_reject: Option<Value>, chained: PromiseId) -> (r: Self)
        ensures
            r.spec_on_resolve() == on_resolve,
            r.spec_on_reject() == on_reject,
            r.spec_chained() == chained,
    {
        PromiseHandler { on_resolve, on_reject, chained }
    }

    /// The on-resolve callback, if any.
    pub fn on_resolve(&self) -> (r: Option<&Value>)
        ensures
            r matches Some(v) ==> self.spec_on_resolve() == Some(*v),
            r is None ==> self.spec_on_resolve() is None,
    {
        match &self.on_resolve {
            Some(v) => Some(v),
            None => None,
        }
    }

    /// The on-reject callback, if any.
    pub fn on_reject(&self) -> (r: Option<&Value>)
        ensures
            r matches Some(v) ==> self.spec_on_reject() == Some(*v),
            r is None ==> self.spec_on_reject() is None,
    {
        match &self.on_reject {
            Some(v) => Some(v),
            None => None,
        }
    }

    /// The downstream promise this handler settles.
    pub fn chained(&self) -> (r: PromiseId)
        ensures
            r == self.spec_chained(),
    {
        self.chained
    }
}

/// A promise's lifecycle state.
#[derive(Debug)]
pub enum PromiseState {
    /// Awaiting settlement, with the handlers queued so far.
    Pending(Vec<PromiseHandler>),
    /// Resolved with a value.
    Resolved(Value),
    /// Rejected with a value.
    Rejected(Value),
}

/// Copy of a handler queue.
pub fn clone_handlers(hs: &Vec<PromiseHandler>) -> (r: Vec<PromiseHandler>)
    ensures
        r@ == hs@,
{
    let mut r: Vec<PromiseHandler> = Vec::new();
    let mut i: usize = 0;
    while i < hs.len()
        invariant
            i <= hs@.len(),
            r@ == hs@.take(i as int),
        decreases hs@.len() - i,
    {
        r.push(hs[i].clone());
        assert(hs@.take(i as int).push(hs@[i as int]) =~= hs@.take(i + 1));
        i = i + 1;
    }
    assert(hs@.take(hs@.len() as int) =~= hs@);
    r
}

impl PromiseState {
    /// The same state, as a separate value.
    pub fn duplicate(&self) -> (r: Self)
        ensures
            match (*self, r) {
                (PromiseState::Pending(a), PromiseState::Pending(b)) => a@ == b@,
                (PromiseState::Resolved(a), PromiseState::Resolved(b)) => a == b,
                (PromiseState::Rejected(a), PromiseState::Rejected(b)) => a == b,
                _ => false,
            },
    {
        match self {
            PromiseState::Pending(hs) => PromiseState::Pending(clone_handlers(hs)),
            PromiseState::Resolved(v) => PromiseState::Resolved(v.clone()),
            PromiseState::Rejected(v) => PromiseState::Rejected(v.clone()),
        }
    }
}

/// Every handler queued on the promise numbered `index` targets a promise
/// allocated after it.
pub open spec fn handlers_point_forward(state: PromiseState, index: int) -> bool {
    state matches PromiseState::Pending(hs) ==> forall|k: int|
        0 <= k < hs@.len() ==> (#[trigger] hs@[k]).spec_chained().spec_raw() > index
}

/// The argument at position `i`, if one was passed.
pub open spec fn spec_arg(args: Seq<Value>, i: int) -> Option<Value> {
    if 0 <= i < args.len() {
        Some(args[i])
    } else {
        None
    }
}

/// The argument at position `i`, if one was passed.
fn arg(args: &Vec<Value>, i: usize) -> (r: Option<Value>)
    ensures
        r == spec_arg(args@, i as int),
{
    if i < args.len() {
        Some(args[i].clone())
    } else {
        None
    }
}

/// The argument list holding just `value`.
fn single_argument(value: Value) -> (r: Vec<Value>)
    ensures
        r@ == seq![value],
{
    let mut r: Vec<Value> = Vec::new();
    r.push(value);
    r
}

/// A callback that is present and callable.
pub open spec fn is_callable_callback(callback: Option<Value>) -> bool {
    callback matches Some(v) && spec_is_callable(v)
}

/// The promise a value is a handle to, if it is one.
pub fn promise_id_of(value: &Value) -> (r: Option<PromiseId>)
    ensures
        *value matches Value::Promise(id) ==> r == Some(id),
        !(*value is Promise) ==> r is None,
{
    match value {
        Value::Promise(id) => Some(*id),
        _ => None,
    }
}

/// `r` allocated one promise in `state` and returned it, changing
/// nothing else.
pub open spec fn allocated_promise(heap: Heap, fuel: Fuel, state: PromiseState, r: EvalResult) -> bool {
    r matches Ok((Outcome::Normal(Value::Promise(p)), h, f)) && {
        &&& f == fuel
        &&& p.spec_raw() == heap.spec_promises().len()
        &&& h.spec_promises() == heap.spec_promises().push(state)
        &&& h.spec_objects() == heap.spec_objects()
        &&& h.spec_functions() == heap.spec_functions()
        &&& h.spec_cells() == heap.spec_cells()
    }
}

/// `r` queued a handler with the given callbacks on the pending promise
/// `source`, whose queue was `handlers`, targeting a fresh pending
/// promise that it returned; nothing else changed.
pub open spec fn queued_handler(
    heap: Heap,
    fuel: Fuel,
    source: PromiseId,
    handlers: Seq<PromiseHandler>,
    on_resolve: Option<Value>,
    on_reject: Option<Value>,
    r: EvalResult,
) -> bool {
    r matches Ok((Outcome::Normal(Value::Promise(child)), h, f)) && {
        &&& f == fuel
        &&& child.spec_raw() == heap.spec_promises().len()
        &&& h.spec_promises().len() == heap.spec_promises().len() + 1
        &&& h.spec_promises()[child.spec_raw() as int] matches PromiseState::Pending(fresh) && fresh@.len()
            == 0
        &&& h.spec_promises()[source.spec_raw() as int] matches PromiseState::Pending(queue) && queue@.len()
            == handlers.len() + 1 && queue@.drop_last() == handlers && queue@.last().spec_on_resolve()
            == on_resolve && queue@.last().spec_on_reject() == on_reject && queue@.last().spec_chained()
            == child
        &&& forall|j: int|
            0 <= j < heap.spec_promises().len() && j != source.spec_raw() ==> #[trigger] h.spec_promises()[j]
                == heap.spec_promises()[j]
        &&& h.spec_objects() == heap.spec_objects()
        &&& h.spec_functions() == heap.spec_functions()
        &&& h.spec_cells() == heap.spec_cells()
    }
}

/// What `.then(on_resolve, on_reject)` on promise `id` gives wherever no
/// callback runs: a missing promise throws a `TypeError`; a settled
/// promise whose matching callback is absent or not callable passes its
/// state on to a fresh promise; a pending promise queues the handler.
pub open spec fn settled_without_callback(
    heap: Heap,
    fuel: Fuel,
    id: PromiseId,
    on_resolve: Option<Value>,
    on_reject: Option<Value>,
    r: EvalResult,
) -> bool {
    match heap.spec_promise(id) {
        None => r matches Ok((Outcome::Throw(v), h, f)) && is_type_error(v, "promise missing from heap"@)
            && h == heap && f == fuel,
        Some(PromiseState::Resolved(v)) => !is_callable_callback(on_resolve) ==> allocated_promise(
            heap,
            fuel,
            PromiseState::Resolved(v),
            r,
        ),
        Some(PromiseState::Rejected(v)) => !is_callable_callback(on_reject) ==> allocated_promise(
            heap,
            fuel,
            PromiseState::Rejected(v),
            r,
        ),
        Some(PromiseState::Pending(hs)) => queued_handler(heap, fuel, id, hs@, on_resolve, on_reject, r),
    }
}

/// `.then(onResolve, onReject)` on a value: a `TypeError` unless `this`
/// is a promise; otherwise the promise is settled against the callbacks.
pub fn then_impl<H: Host>(args: Vec<Value>, this: Value, heap: Heap, fuel: Fuel, host: &H) -> (r: EvalResult)
    ensures
        sem_then(host, args@, this, heap, fuel, r),
        kept_budget(r, fuel),
        !(this is Promise) ==> (r matches Ok((Outcome::Throw(v), h, f)) && is_type_error(
            v,
            "Promise.prototype.then called on non-promise"@,
        ) && h == heap && f == fuel),
        this matches Value::Promise(id) ==> settled_without_callback(
            heap,
            fuel,
            id,
            spec_arg(args@, 0),
            spec_arg(args@, 1),
            r,
        ),
    decreases fuel.spec_remaining(), 0int, 7int, 0int,
{
    match promise_id_of(&this) {
        Some(id) => settle(id, arg(&args, 0), arg(&args, 1), heap, fuel, host),
        None => Ok((Outcome::Throw(type_error("Promise.prototype.then called on non-promise")), heap, fuel)),
    }
}

/// `.catch(onReject)`: `.then(undefined, onReject)`.
pub fn catch_impl<H: Host>(args: Vec<Value>, this: Value, heap: Heap, fuel: Fuel, host: &H) -> (r: EvalResult)
    ensures
        sem_catch(host, args@, this, heap, fuel, r),
        kept_budget(r, fuel),
        !(this is Promise) ==> (r matches Ok((Outcome::Throw(v), h, f)) && is_type_error(
            v,
            "Promise.prototype.catch called on non-promise"@,
        ) && h == heap && f == fuel),
        this matches Value::Promise(id) ==> settled_without_callback(
            heap,
            fuel,
            id,
            None,
            spec_arg(args@, 0),
            r,
        ),
    decreases fuel.spec_remaining(), 0int, 7int, 0int,
{
    match promise_id_of(&this) {
        Some(id) => settle(id, None, arg(&args, 0), heap, fuel, host),
        None => Ok((Outcome::Throw(type_error("Promise.prototype.catch called on non-promise")), heap, fuel)),
    }
}

/// Dispatch `.then` on promise `id` by its state.
fn settle<H: Host>(
    id: PromiseId,
    on_resolve: Option<Value>,
    on_reject: Option<Value>,
    heap: Heap,
    fuel: Fuel,
    host: &H,
) -> (r: EvalResult)
    ensures
        sem_settle(host, id, on_resolve, on_reject, heap, fuel, r),
        kept_budget(r, fuel),
        settled_without_callback(heap, fuel, id, on_resolve, on_reject, r),
        heap.spec_promise(id) is Some ==> (r matches Ok((o, _, _)) ==> o matches Outcome::Normal(
            Value::Promise(_),
        )),
    decreases fuel.spec_remaining(), 0int, 6int, 0int,
{
    let state = match heap.promise(id) {
        Some(s) => Some(s.duplicate()),
        None => None,
    };
    match state {
        Some(PromiseState::Resolved(v)) => fire_resolve_handler(v, on_resolve, heap, fuel, host),
        Some(PromiseState::Rejected(v)) => fire_reject_handler(v, on_reject, heap, fuel, host),
        Some(PromiseState::Pending(hs)) => queue_handler(id, hs, on_resolve, on_reject, heap, fuel),
        None => Ok((Outcome::Throw(type_error("promise missing from heap")), heap, fuel)),
    }
}

/// A resolved promise meets `.then(onResolve)`: the callback runs on the
/// value and a fresh promise holds its outcome; without a callable
/// callback the value passes through.
fn fire_resolve_handler<H: Host>(value: Value, on_resolve: Option<Value>, heap: Heap, fuel: Fuel, host: &H) -> (r:
    EvalResult)
    ensures
        sem_fire_resolve(host, value, on_resolve, heap, fuel, r),
        kept_budget(r, fuel),
        !is_callable_callback(on_resolve) ==> allocated_promise(heap, fuel, PromiseState::Resolved(value), r),
        r matches Ok((o, _, _)) ==> o matches Outcome::Normal(Value::Promise(_)),
    decreases fuel.spec_remaining(), 0int, 5int, 0int,
{
    match on_resolve {
        Some(callback) => {
            if is_callable(&callback) {
                match call_function(&callback, &Value::Undefined, single_argument(value), heap, fuel, host) {
                    Err(e) => Err(e),
                    Ok((o, h, f)) => Ok(chain_outcome(o, h, f)),
                }
            } else {
                Ok(alloc_settled(PromiseState::Resolved(value), heap, fuel))
            }
        },
        None => Ok(alloc_settled(PromiseState::Resolved(value), heap, fuel)),
    }
}

/// A rejected promise meets `.then(_, onReject)` or `.catch(onReject)`:
/// the callback runs on the reason and a fresh promise holds its outcome
/// (a handled rejection recovers); without a callable callback the
/// rejection passes through.
fn fire_reject_handler<H: Host>(value: Value, on_reject: Option<Value>, heap: Heap, fuel: Fuel, host: &H) -> (r:
    EvalResult)
    ensures
        sem_fire_reject(host, value, on_reject, heap, fuel, r),
        kept_budget(r, fuel),
        !is_callable_callback(on_reject) ==> allocated_promise(heap, fuel, PromiseState::Rejected(value), r),
        r matches Ok((o, _, _)) ==> o matches Outcome::Normal(Value::Promise(_)),
    decreases fuel.spec_remaining(), 0int, 5int, 0int,
{
    match on_reject {
        Some(callback) => {
            if is_callable(&callback) {
                match call_function(&callback, &Value::Undefined, single_argument(value), heap, fuel, host) {
                    Err(e) => Err(e),
                    Ok((o, h, f)) => Ok(chain_outcome(o, h, f)),
                }
            } else {
                Ok(alloc_settled(PromiseState::Rejected(value), heap, fuel))
            }
        },
        None => Ok(alloc_settled(PromiseState::Rejected(value), heap, fuel)),
    }
}

/// Queue a handler on the pending promise `source` and return the fresh
/// pending promise it will settle.
fn queue_handler(
    source: PromiseId,
    existing: Vec<PromiseHandler>,
    on_resolve: Option<Value>,
    on_reject: Option<Value>,
    heap: Heap,
    fuel: Fuel,
) -> (r: EvalResult)
    requires
        heap.spec_promise(source) matches Some(PromiseState::Pending(hs)) && hs@ == existing@,
        handlers_point_forward(PromiseState::Pending(existing), source.spec_raw() as int),
    ensures
        queued_handler(heap, fuel, source, existing@, on_resolve, on_reject, r),
{
    let ghost before = existing@;
    assert forall|k: int| 0 <= k < before.len() implies before[k].spec_chained().spec_raw() > source.spec_raw() by {
        let st = PromiseState::Pending(existing);
        assert(handlers_point_forward(st, source.spec_raw() as int));
        assert(st->Pending_0@[k] == before[k]);
    }
    assert(source.spec_raw() < heap.spec_promises().len());
    let (chained, h1) = heap.alloc_promise(PromiseState::Pending(Vec::new()));
    let handler = PromiseHandler::new(on_resolve, on_reject, chained);
    let mut extended = existing;
    extended.push(handler);
    assert(extended@.drop_last() =~= before);
    assert(handlers_point_forward(PromiseState::Pending(extended), source.spec_raw() as int)) by {
        assert forall|k: int| 0 <= k < extended@.len() implies (#[trigger] extended@[k]).spec_chained().spec_raw()
            > source.spec_raw() by {
            if k < before.len() {
                assert(extended@[k] == before[k]);
            } else {
                assert(extended@[k] == handler);
            }
        }
    }
    let h2 = match h1.store_promise(source, PromiseState::Pending(extended)) {
        Ok(h) => h,
        Err(h) => h,
    };
    Ok((Outcome::Normal(Value::Promise(chained)), h2, fuel))
}

/// A fresh promise holding a callback's outcome: resolved with its value,
/// or rejected with what it threw.
fn chain_outcome(outcome: Outcome, heap: Heap, fuel: Fuel) -> (r: (Outcome, Heap, Fuel))
    ensures
        chained_promise(outcome, heap, fuel, Ok(r)),
        outcome matches Outcome::Normal(v) ==> allocated_promise(
            heap,
            fuel,
            PromiseState::Resolved(v),
            Ok(r),
        ),
        outcome matches Outcome::Throw(v) ==> allocated_promise(
            heap,
            fuel,
            PromiseState::Rejected(v),
            Ok(r),
        ),
{
    match outcome {
        Outcome::Normal(v) => alloc_settled(PromiseState::Resolved(v), heap, fuel),
        Outcome::Throw(v) => alloc_settled(PromiseState::Rejected(v), heap, fuel),
    }
}

/// Allocate a settled promise and return it.
fn alloc_settled(state: PromiseState, heap: Heap, fuel: Fuel) -> (r: (Outcome, Heap, Fuel))
    requires
        !(state is Pending),
    ensures
        allocated_promise(heap, fuel, state, Ok(r)),
{
    let ghost s = state;
    let (id, h) = heap.alloc_promise(state);
    (Outcome::Normal(Value::Promise(id)), h, fuel)
}

/// The settled state a value moves a promise to.
pub open spec fn settled_state(value: Value, was_resolved: bool) -> PromiseState {
    if was_resolved {
        PromiseState::Resolved(value)
    } else {
        PromiseState::Rejected(value)
    }
}

/// Settling promise `id` into `state` where no handler runs: a promise
/// that is not pending (or not allocated) is left as it is and the call
/// does nothing; a pending promise without handlers takes the state.
pub open spec fn settles_plainly(heap: Heap, fuel: Fuel, id: PromiseId, state: PromiseState, r: EvalResult) -> bool {
    match heap.spec_promise(id) {
        Some(PromiseState::Pending(hs)) => hs@.len() == 0 ==> (r matches Ok((o, h, f)) && o
            == Outcome::Normal(Value::Undefined) && f == fuel && h.spec_promises()
            == heap.spec_promises().update(id.spec_raw() as int, state) && h.spec_objects()
            == heap.spec_objects() && h.spec_functions() == heap.spec_functions() && h.spec_cells()
            == heap.spec_cells()),
        _ => r == Ok::<(Outcome, Heap, Fuel), Error>((Outcome::Normal(Value::Undefined), heap, fuel)),
    }
}

/// A fresh promise holding a callback's outcome: resolved with its value,
/// or rejected with what it threw.
pub open spec fn chained_promise(o: Outcome, h: Heap, f: Fuel, r: EvalResult) -> bool {
    match o {
        Outcome::Normal(v) => allocated_promise(h, f, PromiseState::Resolved(v), r),
        Outcome::Throw(v) => allocated_promise(h, f, PromiseState::Rejected(v), r),
    }
}

/// `.then(on_resolve)` on a promise resolved with `value`: a callable
/// callback runs on the value and a fresh promise holds its outcome;
/// otherwise the value passes through to a fresh resolved promise.
pub open spec fn sem_fire_resolve<H: Host>(host: &H, value: Value, on_resolve: Option<Value>, heap: Heap, fuel: Fuel, r: EvalResult) -> bool
    decreases fuel.spec_remaining(), 0int, 6int, 0int,
{
    if is_callable_callback(on_resolve) {
        exists|r1: EvalResult| #[trigger] kept_budget(r1, fuel) && sem_call_function(host, 
            on_resolve->0,
            Value::Undefined,
            seq![value],
            heap,
            fuel,
            r1,
        ) && match r1 {
            Err(e) => r == Err::<(Outcome, Heap, Fuel), Error>(e),
            Ok((o, h, f)) => chained_promise(o, h, f, r),
        }
    } else {
        allocated_promise(heap, fuel, PromiseState::Resolved(value), r)
    }
}

/// `.then(_, on_reject)` on a promise rejected with `value`: a callable
/// callback runs on the reason and a fresh promise holds its outcome (a
/// handled rejection recovers); otherwise the rejection passes through.
pub open spec fn sem_fire_reject<H: Host>(host: &H, value: Value, on_reject: Option<Value>, heap: Heap, fuel: Fuel, r: EvalResult) -> bool
    decreases fuel.spec_remaining(), 0int, 6int, 0int,
{
    if is_callable_callback(on_reject) {
        exists|r1: EvalResult| #[trigger] kept_budget(r1, fuel) && sem_call_function(host, 
            on_reject->0,
            Value::Undefined,
            seq![value],
            heap,
            fuel,
            r1,
        ) && match r1 {
            Err(e) => r == Err::<(Outcome, Heap, Fuel), Error>(e),
            Ok((o, h, f)) => chained_promise(o, h, f, r),
        }
    } else {
        allocated_promise(heap, fuel, PromiseState::Rejected(value), r)
    }
}

/// `.then(on_resolve, on_reject)` on the promise `id`, by its state: a
/// settled promise fires the matching callback, a pending one queues the
/// handler, a missing one throws a `TypeError`.
pub open spec fn sem_settle<H: Host>(host: &H, 
    id: PromiseId,
    on_resolve: Option<Value>,
    on_reject: Option<Value>,
    heap: Heap,
    fuel: Fuel,
    r: EvalResult,
) -> bool
    decreases fuel.spec_remaining(), 0int, 7int, 0int,
{
    match heap.spec_promise(id) {
        None => r matches Ok((Outcome::Throw(v), h, f)) && is_type_error(v, "promise missing from heap"@) && h == heap
            && f == fuel,
        Some(PromiseState::Resolved(v)) => sem_fire_resolve(host, v, on_resolve, heap, fuel, r),
        Some(PromiseState::Rejected(v)) => sem_fire_reject(host, v, on_reject, heap, fuel, r),
        Some(PromiseState::Pending(hs)) => queued_handler(heap, fuel, id, hs@, on_resolve, on_reject, r),
    }
}

/// `.then(on_resolve, on_reject)`: only promises have it.
pub open spec fn sem_then<H: Host>(host: &H, args: Seq<Value>, this: Value, heap: Heap, fuel: Fuel, r: EvalResult) -> bool
    decreases fuel.spec_remaining(), 0int, 8int, 0int,
{
    match this {
        Value::Promise(id) => sem_settle(host, id, spec_arg(args, 0), spec_arg(args, 1), heap, fuel, r),
        _ => r matches Ok((Outcome::Throw(v), h, f)) && is_type_error(v, "Promise.prototype.then called on non-promise"@)
            && h == heap && f == fuel,
    }
}

/// `.catch(on_reject)`: `.then(undefined, on_reject)`.
pub open spec fn sem_catch<H: Host>(host: &H, args: Seq<Value>, this: Value, heap: Heap, fuel: Fuel, r: EvalResult) -> bool
    decreases fuel.spec_remaining(), 0int, 8int, 0int,
{
    match this {
        Value::Promise(id) => sem_settle(host, id, None, spec_arg(args, 0), heap, fuel, r),
        _ => r matches Ok((Outcome::Throw(v), h, f)) && is_type_error(v, "Promise.prototype.catch called on non-promise"@)
            && h == heap && f == fuel,
    }
}

/// `h` is `heap` with the promise `id` moved to `state`, nothing else
/// changed.
pub open spec fn settled_heap(heap: Heap, h: Heap, id: PromiseId, state: PromiseState) -> bool {
    &&& h.spec_promises() == heap.spec_promises().update(id.spec_raw() as int, state)
    &&& h.spec_objects() == heap.spec_objects()
    &&& h.spec_functions() == heap.spec_functions()
    &&& h.spec_cells() == heap.spec_cells()
}

/// Settling the promise `id` with `value`: a pending promise takes the
/// settled state, then its queued handlers fire in order; any other
/// promise, or none, is left as it is and the call gives `undefined`.
pub open spec fn sem_settle_pending<H: Host>(host: &H, 
    id: PromiseId,
    value: Value,
    was_resolved: bool,
    heap: Heap,
    fuel: Fuel,
    r: EvalResult,
) -> bool
    decreases fuel.spec_remaining(), u64::MAX as int + 1 - id.spec_raw(), 3int, 0int,
{
    match heap.spec_promise(id) {
        Some(PromiseState::Pending(hs)) => exists|h: Heap| #[trigger] settled_heap(
            heap,
            h,
            id,
            settled_state(value, was_resolved),
        ) && sem_drain_from(host, hs@, 0, value, was_resolved, id, Outcome::Normal(Value::Undefined), h, fuel, r),
        _ => r == Ok::<(Outcome, Heap, Fuel), Error>((Outcome::Normal(Value::Undefined), heap, fuel)),
    }
}

/// Resolving the promise `id` with `value`.
pub open spec fn sem_resolve<H: Host>(host: &H, id: PromiseId, value: Value, heap: Heap, fuel: Fuel, r: EvalResult) -> bool
    decreases fuel.spec_remaining(), u64::MAX as int + 1 - id.spec_raw(), 4int, 0int,
{
    sem_settle_pending(host, id, value, true, heap, fuel, r)
}

/// Rejecting the promise `id` with `value`.
pub open spec fn sem_reject<H: Host>(host: &H, id: PromiseId, value: Value, heap: Heap, fuel: Fuel, r: EvalResult) -> bool
    decreases fuel.spec_remaining(), u64::MAX as int + 1 - id.spec_raw(), 4int, 0int,
{
    sem_settle_pending(host, id, value, false, heap, fuel, r)
}

/// Firing the handlers of the settled promise `source` from the `i`-th
/// on; the outcome is the last handler's (`last` so far).
pub open spec fn sem_drain_from<H: Host>(host: &H, 
    handlers: Seq<PromiseHandler>,
    i: nat,
    value: Value,
    was_resolved: bool,
    source: PromiseId,
    last: Outcome,
    heap: Heap,
    fuel: Fuel,
    r: EvalResult,
) -> bool
    decreases fuel.spec_remaining(), u64::MAX as int + 1 - source.spec_raw(), 2int, handlers.len() - i,
{
    if i >= handlers.len() {
        r == Ok::<(Outcome, Heap, Fuel), Error>((last, heap, fuel))
    } else {
        exists|r1: EvalResult| #[trigger] kept_budget(r1, fuel) && sem_fire_one(host, 
            handlers[i as int],
            value,
            was_resolved,
            source,
            heap,
            fuel,
            r1,
        ) && match r1 {
            Err(e) => r == Err::<(Outcome, Heap, Fuel), Error>(e),
            Ok((o, h, f)) => sem_drain_from(host, handlers, i + 1, value, was_resolved, source, o, h, f, r),
        }
    }
}

/// Firing one handler of the settled promise `source`: its callback for
/// the settlement runs on `value` and its downstream promise (allocated
/// after `source`) is resolved with the callback's value or rejected with
/// what it threw; without a callable callback the settlement passes on
/// unchanged.
pub open spec fn sem_fire_one<H: Host>(host: &H, 
    handler: PromiseHandler,
    value: Value,
    was_resolved: bool,
    source: PromiseId,
    heap: Heap,
    fuel: Fuel,
    r: EvalResult,
) -> bool
    decreases fuel.spec_remaining(), u64::MAX as int + 1 - source.spec_raw(), 1int, 0int,
{
    let callback = if was_resolved {
        handler.spec_on_resolve()
    } else {
        handler.spec_on_reject()
    };
    let chained = handler.spec_chained();
    &&& chained.spec_raw() > source.spec_raw()
    &&& if is_callable_callback(callback) {
        exists|r1: EvalResult| #[trigger] kept_budget(r1, fuel) && sem_call_function(host, 
            callback->0,
            Value::Undefined,
            seq![value],
            heap,
            fuel,
            r1,
        ) && match r1 {
            Err(e) => r == Err::<(Outcome, Heap, Fuel), Error>(e),
            Ok((Outcome::Normal(result), h, f)) => sem_resolve(host, chained, result, h, f, r),
            Ok((Outcome::Throw(thrown), h, f)) => sem_reject(host, chained, thrown, h, f, r),
        }
    } else if was_resolved {
        sem_resolve(host, chained, value, heap, fuel, r)
    } else {
        sem_reject(host, chained, value, heap, fuel, r)
    }
}

/// The value a settling hook settles with: its second argument,
/// `undefined` when not passed.
pub open spec fn hook_value(args: Seq<Value>) -> Value {
    match spec_arg(args, 1) {
        Some(v) => v,
        None => Value::Undefined,
    }
}

/// `__resolve_promise(promise, value)`.
pub open spec fn sem_resolve_hook<H: Host>(host: &H, args: Seq<Value>, heap: Heap, fuel: Fuel, r: EvalResult) -> bool
    decreases fuel.spec_remaining(), u64::MAX as int + 1, 5int, 0int,
{
    match spec_arg(args, 0) {
        Some(Value::Promise(id)) => sem_resolve(host, id, hook_value(args), heap, fuel, r),
        _ => r == Ok::<(Outcome, Heap, Fuel), Error>((Outcome::Normal(Value::Undefined), heap, fuel)),
    }
}

/// `__reject_promise(promise, value)`.
pub open spec fn sem_reject_hook<H: Host>(host: &H, args: Seq<Value>, heap: Heap, fuel: Fuel, r: EvalResult) -> bool
    decreases fuel.spec_remaining(), u64::MAX as int + 1, 5int, 0int,
{
    match spec_arg(args, 0) {
        Some(Value::Promise(id)) => sem_reject(host, id, hook_value(args), heap, fuel, r),
        _ => r == Ok::<(Outcome, Heap, Fuel), Error>((Outcome::Normal(Value::Undefined), heap, fuel)),
    }
}

/// A promise settles once: resolving a pending promise that has no
/// handlers leaves it resolved with the value, and settling it again
/// afterwards, either way, gives `undefined` and changes nothing.
pub proof fn lemma_promise_settles_once<H: Host>(host: &H, 
    id: PromiseId,
    value: Value,
    later: Value,
    later_resolves: bool,
    heap: Heap,
    fuel: Fuel,
    r1: EvalResult,
    r2: EvalResult,
)
    requires
        heap.spec_promise(id) matches Some(PromiseState::Pending(hs)) && hs@.len() == 0,
        sem_resolve(host, id, value, heap, fuel, r1),
        r1 matches Ok((_, h1, f1)) && sem_settle_pending(host, id, later, later_resolves, h1, f1, r2),
    ensures
        r1 matches Ok((o, h1, f1)) && o == Outcome::Normal(Value::Undefined) && f1 == fuel && h1.spec_promise(id)
            == Some(PromiseState::Resolved(value)) && r2 == Ok::<(Outcome, Heap, Fuel), Error>(
            (Outcome::Normal(Value::Undefined), h1, f1),
        ),
{
    reveal_with_fuel(sem_drain_from, 2);
}

/// Resolve the promise `id` with `value` and run its queued handlers,
/// each settling its downstream promise with the outcome of its
/// callback (or with `value` itself when it has none).  A promise that
/// is already settled never changes: resolving it again does nothing.
pub fn resolve<H: Host>(promise_id: PromiseId, value: Value, heap: Heap, fuel: Fuel, host: &H) -> (r: EvalResult)
    ensures
        sem_resolve(host, promise_id, value, heap, fuel, r),
        kept_budget(r, fuel),
        settles_plainly(heap, fuel, promise_id, PromiseState::Resolved(value), r),
    decreases fuel.spec_remaining(), u64::MAX as int + 1 - promise_id.spec_raw(), 4int, 0int,
{
    settle_pending(promise_id, value, true, heap, fuel, host)
}

/// Reject the promise `id` with `value` and run its queued handlers'
/// rejection callbacks.  A settled promise never changes.
pub fn reject<H: Host>(promise_id: PromiseId, value: Value, heap: Heap, fuel: Fuel, host: &H) -> (r: EvalResult)
    ensures
        sem_reject(host, promise_id, value, heap, fuel, r),
        kept_budget(r, fuel),
        settles_plainly(heap, fuel, promise_id, PromiseState::Rejected(value), r),
    decreases fuel.spec_remaining(), u64::MAX as int + 1 - promise_id.spec_raw(), 4int, 0int,
{
    settle_pending(promise_id, value, false, heap, fuel, host)
}

fn settle_pending<H: Host>(
    promise_id: PromiseId,
    value: Value,
    was_resolved: bool,
    heap: Heap,
    fuel: Fuel,
    host: &H,
) -> (r: EvalResult)
    ensures
        sem_settle_pending(host, promise_id, value, was_resolved, heap, fuel, r),
        kept_budget(r, fuel),
        settles_plainly(heap, fuel, promise_id, settled_state(value, was_resolved), r),
    decreases fuel.spec_remaining(), u64::MAX as int + 1 - promise_id.spec_raw(), 3int, 0int,
{
    let queue = match heap.promise(promise_id) {
        Some(PromiseState::Pending(hs)) => Some(clone_handlers(hs)),
        _ => None,
    };
    match queue {
        Some(handlers) => {
            let state = if was_resolved {
                PromiseState::Resolved(value.clone())
            } else {
                PromiseState::Rejected(value.clone())
            };
            let ghost heap0 = heap;
            let ghost state0 = state;
            let h = match heap.store_promise(promise_id, state) {
                Ok(h) => h,
                Err(h) => h,
            };
            assert(settled_heap(heap0, h, promise_id, settled_state(value, was_resolved)));
            drain_handlers(handlers, value, was_resolved, Ghost(promise_id), h, fuel, host)
        },
        None => Ok((Outcome::Normal(Value::Undefined), heap, fuel)),
    }
}

/// Fire the queued handlers of the promise `source` in order.  The
/// outcome is the last handler's, `undefined` when there are none.
fn drain_handlers<H: Host>(
    handlers: Vec<PromiseHandler>,
    value: Value,
    was_resolved: bool,
    Ghost(source): Ghost<PromiseId>,
    heap: Heap,
    fuel: Fuel,
    host: &H,
) -> (r: EvalResult)
    requires
        forall|k: int| 0 <= k < handlers@.len() ==> (#[trigger] handlers@[k]).spec_chained().spec_raw() > source.spec_raw(),
    ensures
        sem_drain_from(host, handlers@, 0, value, was_resolved, source, Outcome::Normal(Value::Undefined), heap, fuel, r),
        kept_budget(r, fuel),
        handlers@.len() == 0 ==> r == Ok::<(Outcome, Heap, Fuel), Error>(
            (Outcome::Normal(Value::Undefined), heap, fuel),
        ),
    decreases fuel.spec_remaining(), u64::MAX as int + 1 - source.spec_raw(), 2int, 0int,
{
    let mut last = Outcome::Normal(Value::Undefined);
    let mut h = heap;
    let mut f = fuel;
    let mut i: usize = 0;
    while i < handlers.len()
        invariant
            i <= handlers@.len(),
            fuel_le(f, fuel),
            forall|k: int| 0 <= k < handlers@.len() ==> (#[trigger] handlers@[k]).spec_chained().spec_raw() > source.spec_raw(),
            handlers@.len() == 0 ==> (last == Outcome::Normal(Value::Undefined) && h == heap && f == fuel),
            forall|res: EvalResult|
                sem_drain_from(host, handlers@, i as nat, value, was_resolved, source, last, h, f, res) ==> sem_drain_from(host, 
                    handlers@,
                    0,
                    value,
                    was_resolved,
                    source,
                    Outcome::Normal(Value::Undefined),
                    heap,
                    fuel,
                    res,
                ),
        decreases handlers@.len() - i,
    {
        let ghost last0 = last;
        let ghost h0 = h;
        match fire_one_handler(handlers[i].clone(), value.clone(), was_resolved, Ghost(source), h, f, host) {
            Err(e) => {
                let res = Err(e);
                assert(sem_drain_from(host, handlers@, i as nat, value, was_resolved, source, last0, h0, f, res));
                return res;
            },
            Ok((o, h2, f2)) => {
                assert forall|res: EvalResult|
                    sem_drain_from(host, handlers@, (i + 1) as nat, value, was_resolved, source, o, h2, f2, res) implies sem_drain_from(host, 
                        handlers@,
                        0,
                        value,
                        was_resolved,
                        source,
                        Outcome::Normal(Value::Undefined),
                        heap,
                        fuel,
                        res,
                    ) by {
                    assert(sem_drain_from(host, handlers@, i as nat, value, was_resolved, source, last0, h0, f, res));
                };
                last = o;
                h = h2;
                f = f2;
            },
        }
        i = i + 1;
    }
    let res = Ok((last, h, f));
    assert(sem_drain_from(host, handlers@, i as nat, value, was_resolved, source, last, h, f, res));
    res
}

/// Fire one handler: run its callback for the settlement and settle the
/// downstream promise with the callback's outcome; without a callable
/// callback the settlement passes to the downstream promise unchanged.
fn fire_one_handler<H: Host>(
    handler: PromiseHandler,
    value: Value,
    was_resolved: bool,
    Ghost(source): Ghost<PromiseId>,
    heap: Heap,
    fuel: Fuel,
    host: &H,
) -> (r: EvalResult)
    requires
        handler.spec_chained().spec_raw() > source.spec_raw(),
    ensures
        sem_fire_one(host, handler, value, was_resolved, source, heap, fuel, r),
        kept_budget(r, fuel),
    decreases fuel.spec_remaining(), u64::MAX as int + 1 - source.spec_raw(), 1int, 0int,
{
    let callback = if was_resolved {
        clone_optional_value_ref(handler.on_resolve())
    } else {
        clone_optional_value_ref(handler.on_reject())
    };
    let chained = handler.chained();
    match callback {
        Some(cb) => {
            if is_callable(&cb) {
                match call_function(&cb, &Value::Undefined, single_argument(value), heap, fuel, host) {
                    Err(e) => Err(e),
                    Ok((Outcome::Normal(result), h, f)) => resolve(chained, result, h, f, host),
                    Ok((Outcome::Throw(thrown), h, f)) => reject(chained, thrown, h, f, host),
                }
            } else if was_resolved {
                resolve(chained, value, heap, fuel, host)
            } else {
                reject(chained, value, heap, fuel, host)
            }
        },
        None => {
            if was_resolved {
                resolve(chained, value, heap, fuel, host)
            } else {
                reject(chained, value, heap, fuel, host)
            }
        },
    }
}

fn clone_optional_value_ref(v: Option<&Value>) -> (r: Option<Value>)
    ensures
        v matches Some(x) ==> r == Some(*x),
        v is None ==> r is None,
{
    match v {
        Some(x) => Some(x.clone()),
        None => None,
    }
}

/// `__resolve_promise(promise, value)`: resolve `promise` (when it is
/// one) with `value` (`undefined` when not passed).
pub fn resolve_test_hook<H: Host>(args: Vec<Value>, this: Value, heap: Heap, fuel: Fuel, host: &H) -> (r:
    EvalResult)
    ensures
        sem_resolve_hook(host, args@, heap, fuel, r),
        kept_budget(r, fuel),
        !(spec_arg(args@, 0) matches Some(Value::Promise(_))) ==> r == Ok::<(Outcome, Heap, Fuel), Error>(
            (Outcome::Normal(Value::Undefined), heap, fuel),
        ),
        spec_arg(args@, 0) matches Some(Value::Promise(id)) ==> settles_plainly(
            heap,
            fuel,
            id,
            PromiseState::Resolved(
                match spec_arg(args@, 1) {
                    Some(v) => v,
                    None => Value::Undefined,
                },
            ),
            r,
        ),
    decreases fuel.spec_remaining(), u64::MAX as int + 1, 5int, 0int,
{
    let id = if args.len() > 0 {
        promise_id_of(&args[0])
    } else {
        None
    };
    let value = if args.len() > 1 {
        args[1].clone()
    } else {
        Value::Undefined
    };
    match id {
        Some(p) => resolve(p, value, heap, fuel, host),
        None => Ok((Outcome::Normal(Value::Undefined), heap, fuel)),
    }
}

/// `__reject_promise(promise, value)`: reject `promise` (when it is one)
/// with `value` (`undefined` when not passed).
pub fn reject_test_hook<H: Host>(args: Vec<Value>, this: Value, heap: Heap, fuel: Fuel, host: &H) -> (r:
    EvalResult)
    ensures
        sem_reject_hook(host, args@, heap, fuel, r),
        kept_budget(r, fuel),
        !(spec_arg(args@, 0) matches Some(Value::Promise(_))) ==> r == Ok::<(Outcome, Heap, Fuel), Error>(
            (Outcome::Normal(Value::Undefined), heap, fuel),
        ),
        spec_arg(args@, 0) matches Some(Value::Promise(id)) ==> settles_plainly(
            heap,
            fuel,
            id,
            PromiseState::Rejected(
                match spec_arg(args@, 1) {
                    Some(v) => v,
                    None => Value::Undefined,
                },
            ),
            r,
        ),
    decreases fuel.spec_remaining(), u64::MAX as int + 1, 5int, 0int,
{
    let id = if args.len() > 0 {
        promise_id_of(&args[0])
    } else {
        None
    };
    let value = if args.len() > 1 {
        args[1].clone()
    } else {
        Value::Undefined
    };
    match id {
        Some(p) => reject(p, value, heap, fuel, host),
        None => Ok((Outcome::Normal(Value::Undefined), heap, fuel)),
    }
}

/// Bind `__resolve_promise` and `__reject_promise` to the settling hooks
/// in fresh immutable cells, so that scripts can drive pending promises.
pub fn install_test_hooks(env: Env, heap: Heap) -> (r: (Env, Heap))
    ensures
        r.1.spec_cells().len() == heap.spec_cells().len() + 2,
        r.1.spec_cells().subrange(0, heap.spec_cells().len() as int) == heap.spec_cells(),
        r.1.spec_objects() == heap.spec_objects(),
        r.1.spec_functions() == heap.spec_functions(),
        r.1.spec_promises() == heap.spec_promises(),
        r.0.spec_lookup("__resolve_promise"@) matches Some(Binding::Cell(c)) && r.1.spec_cell(c) matches Some(
            cell,
        ) && cell.spec_value() == Value::Native(NativeFn::ResolvePromise) && !cell.spec_mutable(),
        r.0.spec_lookup("__reject_promise"@) matches Some(Binding::Cell(c)) && r.1.spec_cell(c) matches Some(
            cell,
        ) && cell.spec_value() == Value::Native(NativeFn::RejectPromise) && !cell.spec_mutable(),
        forall|name: Seq<char>|
            name != "__resolve_promise"@ && name != "__reject_promise"@ ==> #[trigger] r.0.spec_lookup(name)
                == env.spec_lookup(name),
{
    let (resolve_cell, h1) = heap.alloc_cell(Cell::new(Value::Native(NativeFn::ResolvePromise), false));
    let (reject_cell, h2) = h1.alloc_cell(Cell::new(Value::Native(NativeFn::RejectPromise), false));
    let e1 = env.extend_cell("__resolve_promise", resolve_cell);
    let e2 = e1.extend_cell("__reject_promise", reject_cell);
    proof {
        reveal_strlit("__resolve_promise");
        reveal_strlit("__reject_promise");
        assert("__resolve_promise"@ != "__reject_promise"@) by {
            assert("__resolve_promise"@[4] != "__reject_promise"@[4]);
        }
        assert(h2.spec_cells().subrange(0, heap.spec_cells().len() as int) =~= heap.spec_cells());
        crate::env::lemma_lookup_extended_same(env, e1->name, Binding::Cell(resolve_cell));
        crate::env::lemma_lookup_extended_same(e1, e2->name, Binding::Cell(reject_cell));
        crate::env::lemma_lookup_extended_other(e1, e2->name, Binding::Cell(reject_cell), "__resolve_promise"@);
        assert forall|name: Seq<char>| name != "__resolve_promise"@ && name != "__reject_promise"@ implies #[trigger] e2.spec_lookup(
            name,
        ) == env.spec_lookup(name) by {
            crate::env::lemma_lookup_extended_other(e1, e2->name, Binding::Cell(reject_cell), name);
            crate::env::lemma_lookup_extended_other(env, e1->name, Binding::Cell(resolve_cell), name);
        }
        assert(h2.spec_cells()[heap.spec_cells().len() as int] == h1.spec_cells()[heap.spec_cells().len() as int]);
    }
    (e2, h2)
}

/// `.catch(f)` on a settled promise is `.then(undefined, f)`: the two
/// admit the same results.
pub proof fn lemma_catch_is_then_undefined<H: Host>(host: &H, args: Seq<Value>, id: PromiseId, heap: Heap, fuel: Fuel, r: EvalResult)
    requires
        heap.spec_promise(id) matches Some(s) && !(s is Pending),
    ensures
        sem_catch(host, args, Value::Promise(id), heap, fuel, r) == sem_then(host, 
            seq![Value::Undefined, if args.len() > 0 { args[0] } else { Value::Undefined }],
            Value::Promise(id),
            heap,
            fuel,
            r,
        ),
{
    let then_args = seq![Value::Undefined, if args.len() > 0 { args[0] } else { Value::Undefined }];
    assert(spec_arg(then_args, 0) == Some(Value::Undefined));
    assert(!is_callable_callback(Some(Value::Undefined)));
    assert(!is_callable_callback(None));
    if args.len() > 0 {
        assert(spec_arg(then_args, 1) == spec_arg(args, 0));
    } else {
        assert(spec_arg(then_args, 1) == Some(Value::Undefined));
    }
}

} // verus!
