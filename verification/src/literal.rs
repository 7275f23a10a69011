//! Array and object literals, spread, and argument lists.
//!
//! Arrays are objects whose elements live under the decimal texts of
//! their indices, with a `length` property.

use vstd::prelude::*;

use crate::assoc::{
    assoc_delete, assoc_insert, assoc_lookup, assoc_map, has_key, keys_unique, lemma_assoc_at,
    lemma_assoc_push,
};
use crate::ast::{Expression, ObjectEntry, EntryKind, PropertyName};
use crate::coercion::text_admits;
use crate::coercion::{to_property_key, to_uint32, uint32_admits};
use crate::env::Env;
use crate::error::Error;
use crate::expression::{eval, sem_eval};
use crate::fuel::{fuel_le, Fuel};
use crate::heap::Heap;
use crate::host::Host;
use crate::outcome::{kept_budget, spent_budget, EvalResult, Outcome};
use crate::number::{clamped_length, encodes_integer, integer_to_number};
use crate::text::{
    char_at, decimal, is_digit, lemma_decimal_digits, lemma_decimal_injective, spec_decimal, text_eq,
};
use crate::value::{lemma_entries_map_unique, AccessorPair, Object, ObjectId, Value};

verus! {

/// The element at index `i` of an array-like object's data: the
/// property named by the decimal text of `i`, `undefined` when absent.
pub open spec fn array_element(data: Map<Seq<char>, Value>, i: nat) -> Value {
    if data.contains_key(spec_decimal(i)) {
        data[spec_decimal(i)]
    } else {
        Value::Undefined
    }
}

/// `key` names an index below `n`.
pub open spec fn is_index_key(key: Seq<char>, n: nat) -> bool {
    exists|i: nat| i < n && key == #[trigger] spec_decimal(i)
}

/// The one-character strings of `s`, in order.
fn string_chars(s: &str) -> (r: Vec<Value>)
    ensures
        r@.len() == s@.len(),
        forall|i: int| 0 <= i < r@.len() ==> (#[trigger] r@[i] matches Value::String(c) && c@ == seq![s@[i]]),
{
    let len = s.unicode_len();
    let mut r: Vec<Value> = Vec::new();
    let mut i: usize = 0;
    while i < len
        invariant
            i <= len,
            len == s@.len(),
            r@.len() == i,
            forall|j: int| 0 <= j < i ==> (#[trigger] r@[j] matches Value::String(c) && c@ == seq![s@[j]]),
        decreases len - i,
    {
        r.push(Value::String(char_at(s, i)));
        i = i + 1;
    }
    r
}

/// The elements of an array-like object: `length` (as `ToUint32`)
/// elements, each read from the property named by its index.
fn spread_array_object<H: Host>(obj: &Object, host: &H) -> (r: Vec<Value>)
    ensures
        forall|i: int| 0 <= i < r@.len() ==> #[trigger] r@[i] == array_element(obj.data(), i as nat),
        !obj.data().contains_key("length"@) ==> r@.len() == 0,
        obj.data().contains_key("length"@) ==> r@.len() <= u32::MAX && uint32_admits(host, 
            obj.data()["length"@],
            r@.len() as u32,
        ),
{
    let length: u32 = match obj.get("length") {
        Some(v) => to_uint32(v, host),
        None => 0,
    };
    let mut r: Vec<Value> = Vec::new();
    let mut i: u32 = 0;
    while i < length
        invariant
            i <= length,
            r@.len() == i,
            forall|j: int| 0 <= j < i ==> #[trigger] r@[j] == array_element(obj.data(), j as nat),
            !obj.data().contains_key("length"@) ==> length == 0,
        decreases length - i,
    {
        let key = decimal(i as u64);
        let v = match obj.get(key.as_str()) {
            Some(v) => v.clone(),
            None => Value::Undefined,
        };
        r.push(v);
        i = i + 1;
    }
    r
}

/// What `...value` contributes to an array or an argument list: the
/// elements of an array-like object, the characters of a string, and
/// nothing for any other value.
pub fn spread_items<H: Host>(value: &Value, heap: &Heap, host: &H) -> (r: Vec<Value>)
    ensures
        spread_admits(host, *value, *heap, r@),
{
    match value {
        Value::Object(id) => match heap.object(*id) {
            Some(obj) => spread_array_object(obj, host),
            None => Vec::new(),
        },
        Value::String(s) => string_chars(s.as_str()),
        _ => Vec::new(),
    }
}

/// `"length"` is not the decimal text of any number.
proof fn lemma_length_is_not_index(i: nat)
    ensures
        spec_decimal(i) != "length"@,
{
    reveal_strlit("length");
    lemma_decimal_digits(i);
    assert(is_digit(spec_decimal(i)[0]));
    assert(!is_digit("length"@[0]));
}

/// The array object holding `values`: element `i` under the decimal text
/// of `i`, and `length`.
pub fn build_array_object(values: &Vec<Value>) -> (r: Object)
    ensures
        is_array_object(r, values@),
{
    let n = values.len();
    let mut props: Vec<(String, Value)> = Vec::new();
    let mut i: usize = 0;
    while i < n
        invariant
            i <= n,
            n == values@.len(),
            props@.len() == i,
            forall|j: int| 0 <= j < i ==> (#[trigger] props@[j]).0@ == spec_decimal(j as nat) && props@[j].1
                == values@[j],
        decreases n - i,
    {
        props.push((decimal(i as u64), values[i].clone()));
        i = i + 1;
    }
    let length: u32 = if n <= 0xFFFF_FFFF {
        n as u32
    } else {
        0xFFFF_FFFF
    };
    let ghost elements = props@;
    props.push(("length".to_owned(), Value::Number(integer_to_number(length as i64))));
    proof {
        let s = props@;
        assert forall|a: int, b: int| 0 <= a < s.len() && 0 <= b < s.len() && a != b implies #[trigger] s[a].0@
            != #[trigger] s[b].0@ by {
            if a < n && b < n {
                if s[a].0@ == s[b].0@ {
                    lemma_decimal_injective(a as nat, b as nat);
                }
            } else if a < n {
                lemma_length_is_not_index(a as nat);
            } else {
                lemma_length_is_not_index(b as nat);
            }
        }
        lemma_entries_map_unique(s);
        assert forall|j: int| 0 <= j < n implies #[trigger] assoc_map(s).contains_key(spec_decimal(j as nat))
            && assoc_map(s)[spec_decimal(j as nat)] == values@[j] by {
            lemma_assoc_at(s, j);
        }
        lemma_assoc_at(s, n as int);
        assert forall|k: Seq<char>| #[trigger] assoc_map(s).contains_key(k) implies k == "length"@
            || is_index_key(k, n as nat) by {
            let j = choose|j: int| 0 <= j < s.len() && #[trigger] s[j].0@ == k;
            if j < n {
                assert(k == spec_decimal(j as nat));
            }
        }
    }
    Object::from_properties(props)
}

/// The values gathered for an array literal or an argument list, or the
/// value thrown while gathering them.
pub enum Collected {
    /// All elements evaluated.
    Values(Vec<Value>),
    /// An element threw.
    Throw(Value),
}

/// The items `...value` may contribute: the characters of a string; for
/// an array-like object, its elements in order, as many as `ToUint32` of
/// its `length` (none without a `length`); nothing for any other value.
pub open spec fn spread_admits<H: Host>(host: &H, value: Value, heap: Heap, items: Seq<Value>) -> bool {
    &&& value matches Value::String(s) ==> items.len() == s@.len() && forall|i: int|
        0 <= i < items.len() ==> (#[trigger] items[i] matches Value::String(c) && c@ == seq![s@[i]])
    &&& value matches Value::Object(id) ==> match heap.spec_object(id) {
        Some(obj) => (forall|i: int| 0 <= i < items.len() ==> #[trigger] items[i] == array_element(obj.data(), i as nat))
            && (!obj.data().contains_key("length"@) ==> items.len() == 0) && (obj.data().contains_key("length"@)
            ==> items.len() <= u32::MAX && uint32_admits(host, obj.data()["length"@], items.len() as u32)),
        None => items.len() == 0,
    }
    &&& !(value is String || value is Object) ==> items.len() == 0
}

/// The array object holding `values`: element `i` under the decimal text
/// of `i`, a numeric `length`, no other key and no accessors.
pub open spec fn is_array_object(o: Object, values: Seq<Value>) -> bool {
    &&& o.accessor_map() == Map::<Seq<char>, AccessorPair>::empty()
    &&& forall|i: int| 0 <= i < values.len() ==> #[trigger] o.data().contains_key(spec_decimal(i as nat))
        && o.data()[spec_decimal(i as nat)] == values[i]
    &&& o.data().contains_key("length"@)
    &&& o.data()["length"@] matches Value::Number(b) && encodes_integer(b, clamped_length(values.len()))
    &&& forall|k: Seq<char>| #[trigger] o.data().contains_key(k) ==> k == "length"@ || is_index_key(k, values.len())
}

/// `after` is `before` with one more object, numbered `id`, and nothing
/// else changed.
pub open spec fn allocated_object(before: Heap, after: Heap, id: ObjectId) -> bool {
    &&& id.spec_raw() == before.spec_objects().len()
    &&& after.spec_objects() == before.spec_objects().push(after.spec_objects().last())
    &&& after.spec_functions() == before.spec_functions()
    &&& after.spec_cells() == before.spec_cells()
    &&& after.spec_promises() == before.spec_promises()
}

/// Gathering values: on success the remaining fuel is at most what it
/// started with.
pub open spec fn collect_kept_budget(r: Result<(Collected, Heap, Fuel), Error>, fuel: Fuel) -> bool {
    r matches Ok((_, _, f)) ==> fuel_le(f, fuel)
}

/// The elements of an array literal from the `i`-th on, `acc` holding
/// the values gathered so far: a hole gives `undefined`, `...x` the items
/// of `x`, any other element its value; a throw stops the gathering.
pub open spec fn sem_collect_from<H: Host>(host: &H, 
    elements: Seq<Option<Expression>>,
    i: nat,
    acc: Seq<Value>,
    env: Env,
    heap: Heap,
    fuel: Fuel,
    r: Result<(Collected, Heap, Fuel), Error>,
) -> bool
    decreases fuel.spec_remaining(), 0int, 1int, elements.len() - i,
{
    if i >= elements.len() {
        r matches Ok((Collected::Values(vs), h, f)) && vs@ == acc && h == heap && f == fuel
    } else {
        match elements[i as int] {
            None => sem_collect_from(host, elements, i + 1, acc.push(Value::Undefined), env, heap, fuel, r),
            Some(Expression::Spread { argument }) => exists|r1: EvalResult| #[trigger] spent_budget(r1, fuel)
                && sem_eval(host, *argument, env, heap, fuel, r1) && match r1 {
                Err(e) => r == Err::<(Collected, Heap, Fuel), Error>(e),
                Ok((Outcome::Throw(v), h, f)) => r == Ok::<(Collected, Heap, Fuel), Error>((Collected::Throw(v), h, f)),
                Ok((Outcome::Normal(v), h, f)) => exists|items: Seq<Value>| #[trigger] spread_admits(host, v, h, items)
                    && sem_collect_from(host, elements, i + 1, acc + items, env, h, f, r),
            },
            Some(expr) => exists|r1: EvalResult| #[trigger] spent_budget(r1, fuel) && sem_eval(host, expr, env, heap, fuel, r1)
                && match r1 {
                Err(e) => r == Err::<(Collected, Heap, Fuel), Error>(e),
                Ok((Outcome::Throw(v), h, f)) => r == Ok::<(Collected, Heap, Fuel), Error>((Collected::Throw(v), h, f)),
                Ok((Outcome::Normal(v), h, f)) => sem_collect_from(host, elements, i + 1, acc.push(v), env, h, f, r),
            },
        }
    }
}

/// Call arguments from the `i`-th on, `acc` holding the values gathered
/// so far: `...x` gives the items of `x`, any other argument its value.
pub open spec fn sem_arguments_from<H: Host>(host: &H, 
    args: Seq<Expression>,
    i: nat,
    acc: Seq<Value>,
    env: Env,
    heap: Heap,
    fuel: Fuel,
    r: Result<(Collected, Heap, Fuel), Error>,
) -> bool
    decreases fuel.spec_remaining(), 0int, 1int, args.len() - i,
{
    if i >= args.len() {
        r matches Ok((Collected::Values(vs), h, f)) && vs@ == acc && h == heap && f == fuel
    } else {
        match args[i as int] {
            Expression::Spread { argument } => exists|r1: EvalResult| #[trigger] spent_budget(r1, fuel) && sem_eval(host, 
                *argument,
                env,
                heap,
                fuel,
                r1,
            ) && match r1 {
                Err(e) => r == Err::<(Collected, Heap, Fuel), Error>(e),
                Ok((Outcome::Throw(v), h, f)) => r == Ok::<(Collected, Heap, Fuel), Error>((Collected::Throw(v), h, f)),
                Ok((Outcome::Normal(v), h, f)) => exists|items: Seq<Value>| #[trigger] spread_admits(host, v, h, items)
                    && sem_arguments_from(host, args, i + 1, acc + items, env, h, f, r),
            },
            expr => exists|r1: EvalResult| #[trigger] spent_budget(r1, fuel) && sem_eval(host, expr, env, heap, fuel, r1)
                && match r1 {
                Err(e) => r == Err::<(Collected, Heap, Fuel), Error>(e),
                Ok((Outcome::Throw(v), h, f)) => r == Ok::<(Collected, Heap, Fuel), Error>((Collected::Throw(v), h, f)),
                Ok((Outcome::Normal(v), h, f)) => sem_arguments_from(host, args, i + 1, acc.push(v), env, h, f, r),
            },
        }
    }
}

/// A whole argument list.
pub open spec fn sem_arguments<H: Host>(host: &H, args: Seq<Expression>, env: Env, heap: Heap, fuel: Fuel, r: Result<(Collected, Heap, Fuel), Error>) -> bool
    decreases fuel.spec_remaining(), 0int, 2int, 0int,
{
    sem_arguments_from(host, args, 0, Seq::empty(), env, heap, fuel, r)
}

/// An array literal: the elements gathered, then a fresh array object
/// holding them.
pub open spec fn sem_array<H: Host>(host: &H, elements: Seq<Option<Expression>>, env: Env, heap: Heap, fuel: Fuel, r: EvalResult) -> bool
    decreases fuel.spec_remaining(), 0int, 2int, 0int,
{
    exists|r1: Result<(Collected, Heap, Fuel), Error>| #[trigger] collect_kept_budget(r1, fuel) && sem_collect_from(host, 
        elements,
        0,
        Seq::empty(),
        env,
        heap,
        fuel,
        r1,
    ) && match r1 {
        Err(e) => r == Err::<(Outcome, Heap, Fuel), Error>(e),
        Ok((Collected::Throw(v), h, f)) => r == Ok::<(Outcome, Heap, Fuel), Error>((Outcome::Throw(v), h, f)),
        Ok((Collected::Values(vs), h, f)) => r matches Ok((Outcome::Normal(Value::Object(id)), h2, f2)) && f2 == f
            && allocated_object(h, h2, id) && is_array_object(h2.spec_objects().last(), vs@),
    }
}

/// A property key: a name or string as that string, a number as that
/// number, a computed key as its expression's value.
pub open spec fn sem_property_key<H: Host>(host: &H, key: PropertyName, env: Env, heap: Heap, fuel: Fuel, r: EvalResult) -> bool
    decreases fuel.spec_remaining(), 0int, 1int, 0int,
{
    match key {
        PropertyName::Identifier(n) => r == Ok::<(Outcome, Heap, Fuel), Error>(
            (Outcome::Normal(Value::String(n)), heap, fuel),
        ),
        PropertyName::String(n) => r == Ok::<(Outcome, Heap, Fuel), Error>((Outcome::Normal(Value::String(n)), heap, fuel)),
        PropertyName::Number(n) => r == Ok::<(Outcome, Heap, Fuel), Error>((Outcome::Normal(Value::Number(n)), heap, fuel)),
        PropertyName::Computed(expr) => sem_eval(host, *expr, env, heap, fuel, r),
        PropertyName::Private(_) => r == Err::<(Outcome, Heap, Fuel), Error>(
            Error::Unsupported { feature: "private property key" },
        ),
    }
}

/// The member maps after adding one half of an accessor for `key`: the
/// data entry on the key goes, the accessor on the key gains the half and
/// keeps the other one it had.
pub open spec fn accessor_half_added(
    dm: Map<Seq<char>, Value>,
    am: Map<Seq<char>, AccessorPair>,
    key: Seq<char>,
    function: Value,
    getter: bool,
    dm2: Map<Seq<char>, Value>,
    am2: Map<Seq<char>, AccessorPair>,
) -> bool {
    &&& dm2 == dm.remove(key)
    &&& am2.dom() == am.dom().insert(key)
    &&& forall|k: Seq<char>| k != key && #[trigger] am2.contains_key(k) ==> am2[k] == am[k]
    &&& getter ==> am2[key].spec_get() == Some(function) && am2[key].spec_set() == (if am.contains_key(key) {
        am[key].spec_set()
    } else {
        None
    })
    &&& !getter ==> am2[key].spec_set() == Some(function) && am2[key].spec_get() == (if am.contains_key(key) {
        am[key].spec_get()
    } else {
        None
    })
}

/// The member maps after a property member of the given kind: a data
/// member or method sets the data entry (evicting an accessor on the
/// key); a getter or setter adds its half of an accessor.
pub open spec fn member_added(
    dm: Map<Seq<char>, Value>,
    am: Map<Seq<char>, AccessorPair>,
    kind: EntryKind,
    key: Seq<char>,
    value: Value,
    dm2: Map<Seq<char>, Value>,
    am2: Map<Seq<char>, AccessorPair>,
) -> bool {
    match kind {
        EntryKind::Init | EntryKind::Method => dm2 == dm.insert(key, value) && am2 == am.remove(key),
        EntryKind::Getter => accessor_half_added(dm, am, key, value, true, dm2, am2),
        EntryKind::Setter => accessor_half_added(dm, am, key, value, false, dm2, am2),
    }
}

/// Resolving a member: on success the remaining fuel is at most what it
/// started with.
pub open spec fn member_kept_budget(r: Result<(MemberOutcome, Heap, Fuel), Error>, fuel: Fuel) -> bool {
    r matches Ok((_, _, f)) ==> fuel_le(f, fuel)
}

/// A property member on the members `dm` (data) and `am` (accessors)
/// resolved so far: the key, its string form, the value, then the maps
/// updated as the member's kind says.
pub open spec fn sem_property_member<H: Host>(host: &H, 
    key: PropertyName,
    value: Expression,
    kind: EntryKind,
    dm: Map<Seq<char>, Value>,
    am: Map<Seq<char>, AccessorPair>,
    env: Env,
    heap: Heap,
    fuel: Fuel,
    r: Result<(MemberOutcome, Heap, Fuel), Error>,
) -> bool
    decreases fuel.spec_remaining(), 0int, 2int, 0int,
{
    exists|r1: EvalResult| #[trigger] kept_budget(r1, fuel) && sem_property_key(host, key, env, heap, fuel, r1) && match r1 {
        Err(e) => r == Err::<(MemberOutcome, Heap, Fuel), Error>(e),
        Ok((Outcome::Throw(v), h, f)) => r == Ok::<(MemberOutcome, Heap, Fuel), Error>((MemberOutcome::Throw(v), h, f)),
        Ok((Outcome::Normal(kv), h, f)) => exists|name: Seq<char>| #[trigger] text_admits(host, kv, name) && exists|
            r2: EvalResult,
        | #[trigger] spent_budget(r2, f) && sem_eval(host, value, env, h, f, r2) && match r2 {
            Err(e) => r == Err::<(MemberOutcome, Heap, Fuel), Error>(e),
            Ok((Outcome::Throw(v), h2, f2)) => r == Ok::<(MemberOutcome, Heap, Fuel), Error>(
                (MemberOutcome::Throw(v), h2, f2),
            ),
            Ok((Outcome::Normal(v), h2, f2)) => r matches Ok((MemberOutcome::Acc(a), h3, f3)) && h3 == h2 && f3 == f2
                && member_added(dm, am, kind, name, v, a.data_map(), a.accessor_map()),
        },
    }
}

/// One member of an object literal on the members resolved so far: a
/// property member, or `...x`, which copies the data properties of the
/// object `x` but its `length` (other values add nothing).
pub open spec fn sem_one_member<H: Host>(host: &H, 
    member: ObjectEntry,
    dm: Map<Seq<char>, Value>,
    am: Map<Seq<char>, AccessorPair>,
    env: Env,
    heap: Heap,
    fuel: Fuel,
    r: Result<(MemberOutcome, Heap, Fuel), Error>,
) -> bool
    decreases fuel.spec_remaining(), 0int, 3int, 0int,
{
    match member {
        ObjectEntry::Property { key, value, kind } => sem_property_member(host, key, value, kind, dm, am, env, heap, fuel, r),
        ObjectEntry::Spread { argument } => exists|r1: EvalResult| #[trigger] spent_budget(r1, fuel) && sem_eval(host, 
            argument,
            env,
            heap,
            fuel,
            r1,
        ) && match r1 {
            Err(e) => r == Err::<(MemberOutcome, Heap, Fuel), Error>(e),
            Ok((Outcome::Throw(v), h, f)) => r == Ok::<(MemberOutcome, Heap, Fuel), Error>(
                (MemberOutcome::Throw(v), h, f),
            ),
            Ok((Outcome::Normal(v), h, f)) => r matches Ok((MemberOutcome::Acc(a), h2, f2)) && h2 == h && f2 == f
                && a.accessor_map() == am && a.data_map() == (match v {
                Value::Object(id) => match h.spec_object(id) {
                    Some(obj) => dm.union_prefer_right(obj.data().remove("length"@)),
                    None => dm,
                },
                _ => dm,
            }),
        },
    }
}

/// The members of an object literal from the `i`-th on, `dm` and `am`
/// holding those resolved so far; at the end a fresh object holds the
/// data entries whose keys carry no accessor, and the accessors.
pub open spec fn sem_object_from<H: Host>(host: &H, 
    members: Seq<ObjectEntry>,
    i: nat,
    dm: Map<Seq<char>, Value>,
    am: Map<Seq<char>, AccessorPair>,
    env: Env,
    heap: Heap,
    fuel: Fuel,
    r: EvalResult,
) -> bool
    decreases fuel.spec_remaining(), 0int, 4int, members.len() - i,
{
    if i >= members.len() {
        r matches Ok((Outcome::Normal(Value::Object(id)), h, f)) && f == fuel && allocated_object(heap, h, id)
            && h.spec_objects().last().data() == dm.remove_keys(am.dom()) && h.spec_objects().last().accessor_map()
            == am
    } else {
        exists|r1: Result<(MemberOutcome, Heap, Fuel), Error>| #[trigger] member_kept_budget(r1, fuel) && sem_one_member(host, 
            members[i as int],
            dm,
            am,
            env,
            heap,
            fuel,
            r1,
        ) && match r1 {
            Err(e) => r == Err::<(Outcome, Heap, Fuel), Error>(e),
            Ok((MemberOutcome::Throw(v), h, f)) => r == Ok::<(Outcome, Heap, Fuel), Error>((Outcome::Throw(v), h, f)),
            Ok((MemberOutcome::Acc(a), h, f)) => sem_object_from(host, 
                members,
                i + 1,
                a.data_map(),
                a.accessor_map(),
                env,
                h,
                f,
                r,
            ),
        }
    }
}

/// An object literal.
pub open spec fn sem_object<H: Host>(host: &H, members: Seq<ObjectEntry>, env: Env, heap: Heap, fuel: Fuel, r: EvalResult) -> bool
    decreases fuel.spec_remaining(), 0int, 5int, 0int,
{
    sem_object_from(host, members, 0, Map::empty(), Map::empty(), env, heap, fuel, r)
}

/// Evaluate the elements of an array literal left to right.  A hole is
/// `undefined`; `...x` contributes the items of `x`.
fn collect_array_values<H: Host>(
    elements: &Vec<Option<Expression>>,
    env: &Env,
    heap: Heap,
    fuel: Fuel,
    host: &H,
) -> (r: Result<(Collected, Heap, Fuel), Error>)
    ensures
        collect_kept_budget(r, fuel),
        sem_collect_from(host, elements@, 0, Seq::empty(), *env, heap, fuel, r),
    decreases fuel.spec_remaining(), 0int, 1int, 0int,
{
    let mut acc: Vec<Value> = Vec::new();
    let mut h = heap;
    let mut f = fuel;
    let mut i: usize = 0;
    while i < elements.len()
        invariant
            i <= elements@.len(),
            fuel_le(f, fuel),
            forall|res: Result<(Collected, Heap, Fuel), Error>|
                sem_collect_from(host, elements@, i as nat, acc@, *env, h, f, res) ==> sem_collect_from(host, 
                    elements@,
                    0,
                    Seq::empty(),
                    *env,
                    heap,
                    fuel,
                    res,
                ),
        decreases elements@.len() - i,
    {
        let ghost acc0 = acc@;
        let ghost h0 = h;
        match &elements[i] {
            None => {
                acc.push(Value::Undefined);
                assert forall|res: Result<(Collected, Heap, Fuel), Error>|
                    sem_collect_from(host, elements@, (i + 1) as nat, acc@, *env, h, f, res) implies sem_collect_from(host, 
                        elements@,
                        i as nat,
                        acc0,
                        *env,
                        h0,
                        f,
                        res,
                    ) by {};
            },
            Some(Expression::Spread { argument }) => match eval(argument, env, h, f, host) {
                Err(e) => {
                    let res = Err(e);
                    assert(sem_collect_from(host, elements@, i as nat, acc0, *env, h0, f, res));
                    return res;
                },
                Ok((Outcome::Throw(v), h2, f2)) => {
                    let res = Ok((Collected::Throw(v), h2, f2));
                    assert(sem_collect_from(host, elements@, i as nat, acc0, *env, h0, f, res));
                    return res;
                },
                Ok((Outcome::Normal(v), h2, f2)) => {
                    let mut items = spread_items(&v, &h2, host);
                    let ghost items0 = items@;
                    acc.append(&mut items);
                    assert forall|res: Result<(Collected, Heap, Fuel), Error>|
                        sem_collect_from(host, elements@, (i + 1) as nat, acc@, *env, h2, f2, res) implies sem_collect_from(host, 
                            elements@,
                            i as nat,
                            acc0,
                            *env,
                            h0,
                            f,
                            res,
                        ) by {
                        assert(acc@ == acc0 + items0);
                        assert(spread_admits(host, v, h2, items0));
                    };
                    h = h2;
                    f = f2;
                },
            },
            Some(expr) => match eval(expr, env, h, f, host) {
                Err(e) => {
                    let res = Err(e);
                    assert(sem_collect_from(host, elements@, i as nat, acc0, *env, h0, f, res));
                    return res;
                },
                Ok((Outcome::Throw(v), h2, f2)) => {
                    let res = Ok((Collected::Throw(v), h2, f2));
                    assert(sem_collect_from(host, elements@, i as nat, acc0, *env, h0, f, res));
                    return res;
                },
                Ok((Outcome::Normal(v), h2, f2)) => {
                    acc.push(v);
                    assert forall|res: Result<(Collected, Heap, Fuel), Error>|
                        sem_collect_from(host, elements@, (i + 1) as nat, acc@, *env, h2, f2, res) implies sem_collect_from(host, 
                            elements@,
                            i as nat,
                            acc0,
                            *env,
                            h0,
                            f,
                            res,
                        ) by {};
                    h = h2;
                    f = f2;
                },
            },
        }
        i = i + 1;
    }
    let res = Ok((Collected::Values(acc), h, f));
    assert(sem_collect_from(host, elements@, i as nat, acc@, *env, h, f, res));
    res
}

/// Evaluate call arguments left to right; `...x` contributes the items of
/// `x`.
pub fn eval_arguments<H: Host>(args: &Vec<Expression>, env: &Env, heap: Heap, fuel: Fuel, host: &H) -> (r:
    Result<(Collected, Heap, Fuel), Error>)
    ensures
        collect_kept_budget(r, fuel),
        sem_arguments(host, args@, *env, heap, fuel, r),
        args@.len() == 0 ==> (r matches Ok((Collected::Values(vs), h, f)) && vs@.len() == 0 && h == heap
            && f == fuel),
    decreases fuel.spec_remaining(), 0int, 1int, 0int,
{
    let mut acc: Vec<Value> = Vec::new();
    let mut h = heap;
    let mut f = fuel;
    let mut i: usize = 0;
    while i < args.len()
        invariant
            i <= args@.len(),
            fuel_le(f, fuel),
            args@.len() == 0 ==> (acc@.len() == 0 && h == heap && f == fuel),
            forall|res: Result<(Collected, Heap, Fuel), Error>|
                sem_arguments_from(host, args@, i as nat, acc@, *env, h, f, res) ==> sem_arguments(host, 
                    args@,
                    *env,
                    heap,
                    fuel,
                    res,
                ),
        decreases args@.len() - i,
    {
        let ghost acc0 = acc@;
        let ghost h0 = h;
        match &args[i] {
            Expression::Spread { argument } => match eval(argument, env, h, f, host) {
                Err(e) => {
                    let res = Err(e);
                    assert(sem_arguments_from(host, args@, i as nat, acc0, *env, h0, f, res));
                    return res;
                },
                Ok((Outcome::Throw(v), h2, f2)) => {
                    let res = Ok((Collected::Throw(v), h2, f2));
                    assert(sem_arguments_from(host, args@, i as nat, acc0, *env, h0, f, res));
                    return res;
                },
                Ok((Outcome::Normal(v), h2, f2)) => {
                    let mut items = spread_items(&v, &h2, host);
                    let ghost items0 = items@;
                    acc.append(&mut items);
                    assert forall|res: Result<(Collected, Heap, Fuel), Error>|
                        sem_arguments_from(host, args@, (i + 1) as nat, acc@, *env, h2, f2, res) implies sem_arguments_from(host, 
                            args@,
                            i as nat,
                            acc0,
                            *env,
                            h0,
                            f,
                            res,
                        ) by {
                        assert(acc@ == acc0 + items0);
                        assert(spread_admits(host, v, h2, items0));
                    };
                    h = h2;
                    f = f2;
                },
            },
            expr => match eval(expr, env, h, f, host) {
                Err(e) => {
                    let res = Err(e);
                    assert(sem_arguments_from(host, args@, i as nat, acc0, *env, h0, f, res));
                    return res;
                },
                Ok((Outcome::Throw(v), h2, f2)) => {
                    let res = Ok((Collected::Throw(v), h2, f2));
                    assert(sem_arguments_from(host, args@, i as nat, acc0, *env, h0, f, res));
                    return res;
                },
                Ok((Outcome::Normal(v), h2, f2)) => {
                    acc.push(v);
                    assert forall|res: Result<(Collected, Heap, Fuel), Error>|
                        sem_arguments_from(host, args@, (i + 1) as nat, acc@, *env, h2, f2, res) implies sem_arguments_from(host, 
                            args@,
                            i as nat,
                            acc0,
                            *env,
                            h0,
                            f,
                            res,
                        ) by {};
                    h = h2;
                    f = f2;
                },
            },
        }
        i = i + 1;
    }
    let res = Ok((Collected::Values(acc), h, f));
    assert(sem_arguments_from(host, args@, i as nat, acc@, *env, h, f, res));
    res
}

/// An array literal: gather the elements, then allocate the array
/// object.
pub fn eval_array<H: Host>(elements: &Vec<Option<Expression>>, env: &Env, heap: Heap, fuel: Fuel, host: &H) -> (r:
    EvalResult)
    ensures
        kept_budget(r, fuel),
        sem_array(host, elements@, *env, heap, fuel, r),
    decreases fuel.spec_remaining(), 0int, 2int, 0int,
{
    match collect_array_values(elements, env, heap, fuel, host) {
        Err(e) => Err(e),
        Ok((Collected::Throw(v), h, f)) => Ok((Outcome::Throw(v), h, f)),
        Ok((Collected::Values(values), h, f)) => {
            let object = build_array_object(&values);
            let (id, h2) = h.alloc_object(object);
            Ok((Outcome::Normal(Value::Object(id)), h2, f))
        },
    }
}

/// The data map after spreading `entries` into `m`: each entry but one
/// keyed `length` is written in order.
pub open spec fn spread_entries(m: Map<Seq<char>, Value>, entries: Seq<(String, Value)>) -> Map<
    Seq<char>,
    Value,
>
    decreases entries.len(),
{
    if entries.len() == 0 {
        m
    } else {
        let before = spread_entries(m, entries.drop_last());
        if entries.last().0@ == "length"@ {
            before
        } else {
            before.insert(entries.last().0@, entries.last().1)
        }
    }
}

/// Spreading entries with distinct keys into `m` writes every one of them
/// but `length`, whatever their order.
proof fn lemma_spread_entries(m: Map<Seq<char>, Value>, entries: Seq<(String, Value)>)
    requires
        keys_unique(entries),
    ensures
        spread_entries(m, entries) == m.union_prefer_right(assoc_map(entries).remove("length"@)),
    decreases entries.len(),
{
    if entries.len() == 0 {
        assert(assoc_map(entries) =~= Map::<Seq<char>, Value>::empty());
        assert(m.union_prefer_right(assoc_map(entries).remove("length"@)) =~= m);
    } else {
        let prefix = entries.drop_last();
        let last = entries.last();
        assert forall|a: int, b: int| 0 <= a < prefix.len() && 0 <= b < prefix.len() && a != b implies #[trigger] prefix[a].0@
            != #[trigger] prefix[b].0@ by {
            assert(entries[a].0@ != entries[b].0@);
        }
        lemma_spread_entries(m, prefix);
        assert(!has_key(prefix, last.0@)) by {
            if has_key(prefix, last.0@) {
                let j = choose|j: int| 0 <= j < prefix.len() && #[trigger] prefix[j].0@ == last.0@;
                assert(entries[j].0@ != entries[entries.len() - 1].0@);
            }
        }
        lemma_assoc_push(prefix, last);
        assert(prefix.push(last) =~= entries);
        if last.0@ == "length"@ {
            assert(assoc_map(entries).remove("length"@) =~= assoc_map(prefix).remove("length"@));
        } else {
            assert(m.union_prefer_right(assoc_map(entries).remove("length"@)) =~= m.union_prefer_right(
                assoc_map(prefix).remove("length"@),
            ).insert(last.0@, last.1));
        }
    }
}

/// The members of an object literal resolved so far: data entries and
/// accessor entries, each keyed once.  A data member evicts an accessor
/// on its key and an accessor member evicts a data entry; entries spread
/// in from another object leave accessors in place, and when the object
/// is built an accessor wins over a data entry on the same key.
pub struct ObjectAcc {
    data: Vec<(String, Value)>,
    accessors: Vec<(String, AccessorPair)>,
}

/// Keys of an entry list prefix stay distinct.
proof fn lemma_take_unique<V>(s: Seq<(String, V)>, i: int)
    requires
        keys_unique(s),
        0 <= i <= s.len(),
    ensures
        keys_unique(s.take(i)),
{
    assert forall|a: int, b: int| 0 <= a < i && 0 <= b < i && a != b implies #[trigger] s.take(i)[a].0@
        != #[trigger] s.take(i)[b].0@ by {
        assert(s[a].0@ != s[b].0@);
    }
}

impl ObjectAcc {
    /// Keys are distinct within each kind of entry.
    #[verifier::type_invariant]
    spec fn wf(self) -> bool {
        keys_unique(self.data@) && keys_unique(self.accessors@)
    }

    /// The data entries.
    pub closed spec fn data_map(self) -> Map<Seq<char>, Value> {
        assoc_map(self.data@)
    }

    /// The accessor entries.
    pub closed spec fn accessor_map(self) -> Map<Seq<char>, AccessorPair> {
        assoc_map(self.accessors@)
    }

    /// No members yet.
    pub fn new() -> (r: Self)
        ensures
            r.data_map() == Map::<Seq<char>, Value>::empty(),
            r.accessor_map() == Map::<Seq<char>, AccessorPair>::empty(),
    {
        let r = ObjectAcc { data: Vec::new(), accessors: Vec::new() };
        assert(r.data_map() =~= Map::<Seq<char>, Value>::empty());
        assert(r.accessor_map() =~= Map::<Seq<char>, AccessorPair>::empty());
        r
    }

    /// A data member `key: value`.
    pub fn with_data(self, key: String, value: Value) -> (r: Self)
        ensures
            r.data_map() == self.data_map().insert(key@, value),
            r.accessor_map() == self.accessor_map().remove(key@),
    {
        proof {
            use_type_invariant(&self);
        }
        let ObjectAcc { mut data, mut accessors } = self;
        assoc_delete(&mut accessors, &key);
        assoc_insert(&mut data, key, value);
        ObjectAcc { data, accessors }
    }

    /// The accessor half `get` (or `set`) for `key`, keeping the other
    /// half of an accessor already there.
    pub fn with_accessor_half(self, key: String, function: Value, getter: bool) -> (r: Self)
        ensures
            r.data_map() == self.data_map().remove(key@),
            r.accessor_map().dom() == self.accessor_map().dom().insert(key@),
            forall|k: Seq<char>| k != key@ && #[trigger] r.accessor_map().contains_key(k) ==> r.accessor_map()[k]
                == self.accessor_map()[k],
            getter ==> r.accessor_map()[key@].spec_get() == Some(function),
            getter ==> r.accessor_map()[key@].spec_set() == (if self.accessor_map().contains_key(key@) {
                self.accessor_map()[key@].spec_set()
            } else {
                None
            }),
            !getter ==> r.accessor_map()[key@].spec_set() == Some(function),
            !getter ==> r.accessor_map()[key@].spec_get() == (if self.accessor_map().contains_key(key@) {
                self.accessor_map()[key@].spec_get()
            } else {
                None
            }),
    {
        proof {
            use_type_invariant(&self);
        }
        let ObjectAcc { mut data, mut accessors } = self;
        assoc_delete(&mut data, &key);
        let existing = match assoc_lookup(&accessors, &key) {
            Some(p) => p.clone(),
            None => AccessorPair::default(),
        };
        let pair = if getter {
            existing.with_get(function)
        } else {
            existing.with_set(function)
        };
        assoc_insert(&mut accessors, key, pair);
        ObjectAcc { data, accessors }
    }

    /// Spread the data entries of another object in, except `length`.
    pub fn with_spread_data(self, extension: &Vec<(String, Value)>) -> (r: Self)
        ensures
            r.data_map() == spread_entries(self.data_map(), extension@),
            r.accessor_map() == self.accessor_map(),
    {
        proof {
            use_type_invariant(&self);
        }
        let ObjectAcc { mut data, accessors } = self;
        let ghost m0 = assoc_map(data@);
        let mut i: usize = 0;
        while i < extension.len()
            invariant
                i <= extension@.len(),
                keys_unique(data@),
                assoc_map(data@) == spread_entries(m0, extension@.take(i as int)),
            decreases extension@.len() - i,
        {
            assert(extension@.take(i + 1).drop_last() =~= extension@.take(i as int));
            if !text_eq(extension[i].0.as_str(), "length") {
                assoc_insert(&mut data, extension[i].0.clone(), extension[i].1.clone());
            }
            i = i + 1;
        }
        assert(extension@.take(extension@.len() as int) =~= extension@);
        ObjectAcc { data, accessors }
    }

    /// The object the members describe: the data entries whose keys carry
    /// no accessor, and the accessors.
    pub fn into_object(self) -> (r: Object)
        ensures
            r.data() == self.data_map().remove_keys(self.accessor_map().dom()),
            r.accessor_map() == self.accessor_map(),
    {
        proof {
            use_type_invariant(&self);
        }
        let ObjectAcc { data, accessors } = self;
        let ghost dm = assoc_map(data@);
        proof {
            lemma_entries_map_unique(data@);
            assert(assoc_map(accessors@.take(0)) =~= Map::<Seq<char>, AccessorPair>::empty());
            assert(dm.remove_keys(Set::<Seq<char>>::empty()) =~= dm);
        }
        let mut obj = Object::from_properties(data);
        let mut i: usize = 0;
        while i < accessors.len()
            invariant
                i <= accessors@.len(),
                keys_unique(accessors@),
                obj.data() == dm.remove_keys(assoc_map(accessors@.take(i as int)).dom()),
                obj.accessor_map() == assoc_map(accessors@.take(i as int)),
            decreases accessors@.len() - i,
        {
            let ghost before = accessors@.take(i as int);
            let key = accessors[i].0.clone();
            let pair = accessors[i].1.clone();
            obj = obj.with_accessor(key, pair);
            proof {
                lemma_take_unique(accessors@, i as int);
                assert(!has_key(before, accessors@[i as int].0@)) by {
                    if has_key(before, accessors@[i as int].0@) {
                        let j = choose|j: int| 0 <= j < before.len() && #[trigger] before[j].0@
                            == accessors@[i as int].0@;
                        assert(accessors@[j].0@ == accessors@[i as int].0@);
                    }
                }
                lemma_assoc_push(before, accessors@[i as int]);
                assert(before.push(accessors@[i as int]) =~= accessors@.take(i + 1));
                assert(dm.remove_keys(assoc_map(before).dom()).remove(accessors@[i as int].0@) =~= dm.remove_keys(
                    assoc_map(accessors@.take(i + 1)).dom(),
                ));
            }
            i = i + 1;
        }
        assert(accessors@.take(accessors@.len() as int) =~= accessors@);
        obj
    }
}

/// The members resolved so far, or the value thrown while resolving one.
pub enum MemberOutcome {
    /// The accumulated members.
    Acc(ObjectAcc),
    /// A member threw.
    Throw(Value),
}

/// Evaluate a property key: a name or string as is, a number as its
/// value, a computed key by evaluating it.
fn eval_property_key<H: Host>(key: &PropertyName, env: &Env, heap: Heap, fuel: Fuel, host: &H) -> (r: EvalResult)
    ensures
        sem_property_key(host, *key, *env, heap, fuel, r),
        kept_budget(r, fuel),
        key matches PropertyName::Identifier(n) ==> r == Ok::<(Outcome, Heap, Fuel), Error>(
            (Outcome::Normal(Value::String(*n)), heap, fuel),
        ),
        key matches PropertyName::String(n) ==> r == Ok::<(Outcome, Heap, Fuel), Error>(
            (Outcome::Normal(Value::String(*n)), heap, fuel),
        ),
        key matches PropertyName::Number(n) ==> r == Ok::<(Outcome, Heap, Fuel), Error>(
            (Outcome::Normal(Value::Number(*n)), heap, fuel),
        ),
        key is Private ==> r == Err::<(Outcome, Heap, Fuel), Error>(
            Error::Unsupported { feature: "private property key" },
        ),
    decreases fuel.spec_remaining(), 0int, 1int, 0int,
{
    match key {
        PropertyName::Identifier(n) => Ok((Outcome::Normal(Value::String(n.clone())), heap, fuel)),
        PropertyName::String(n) => Ok((Outcome::Normal(Value::String(n.clone())), heap, fuel)),
        PropertyName::Number(n) => Ok((Outcome::Normal(Value::Number(*n)), heap, fuel)),
        PropertyName::Computed(expr) => eval(expr, env, heap, fuel, host),
        PropertyName::Private(_) => Err(Error::Unsupported { feature: "private property key" }),
    }
}

/// A property member: evaluate the key, then the value, and record it as
/// data (`key: value`, methods) or as one half of an accessor.
fn eval_property_member<H: Host>(
    key: &PropertyName,
    value: &Expression,
    kind: EntryKind,
    acc: ObjectAcc,
    env: &Env,
    heap: Heap,
    fuel: Fuel,
    host: &H,
) -> (r: Result<(MemberOutcome, Heap, Fuel), Error>)
    ensures
        sem_property_member(host, *key, *value, kind, acc.data_map(), acc.accessor_map(), *env, heap, fuel, r),
        member_kept_budget(r, fuel),
    decreases fuel.spec_remaining(), 0int, 2int, 0int,
{
    match eval_property_key(key, env, heap, fuel, host) {
        Err(e) => Err(e),
        Ok((Outcome::Throw(v), h, f)) => Ok((MemberOutcome::Throw(v), h, f)),
        Ok((Outcome::Normal(key_value), h, f)) => {
            let name = to_property_key(&key_value, &h, host);
            match eval(value, env, h, f, host) {
                Err(e) => Err(e),
                Ok((Outcome::Throw(v), h2, f2)) => Ok((MemberOutcome::Throw(v), h2, f2)),
                Ok((Outcome::Normal(v), h2, f2)) => {
                    let extended = match kind {
                        EntryKind::Init | EntryKind::Method => acc.with_data(name, v),
                        EntryKind::Getter => acc.with_accessor_half(name, v, true),
                        EntryKind::Setter => acc.with_accessor_half(name, v, false),
                    };
                    Ok((MemberOutcome::Acc(extended), h2, f2))
                },
            }
        },
    }
}

/// Resolve one member of an object literal.  `...x` copies the data
/// properties of the object `x` (other values contribute nothing).
fn eval_one_object_member<H: Host>(
    member: &ObjectEntry,
    acc: ObjectAcc,
    env: &Env,
    heap: Heap,
    fuel: Fuel,
    host: &H,
) -> (r: Result<(MemberOutcome, Heap, Fuel), Error>)
    ensures
        sem_one_member(host, *member, acc.data_map(), acc.accessor_map(), *env, heap, fuel, r),
        member_kept_budget(r, fuel),
    decreases fuel.spec_remaining(), 0int, 3int, 0int,
{
    match member {
        ObjectEntry::Property { key, value, kind } => eval_property_member(
            key,
            value,
            *kind,
            acc,
            env,
            heap,
            fuel,
            host,
        ),
        ObjectEntry::Spread { argument } => match eval(argument, env, heap, fuel, host) {
            Err(e) => Err(e),
            Ok((Outcome::Throw(v), h, f)) => Ok((MemberOutcome::Throw(v), h, f)),
            Ok((Outcome::Normal(Value::Object(id)), h, f)) => {
                let extended = match h.object(id) {
                    Some(obj) => {
                        let props = obj.properties();
                        proof {
                            lemma_spread_entries(acc.data_map(), props@);
                        }
                        acc.with_spread_data(props)
                    },
                    None => acc,
                };
                Ok((MemberOutcome::Acc(extended), h, f))
            },
            Ok((Outcome::Normal(_), h, f)) => Ok((MemberOutcome::Acc(acc), h, f)),
        },
    }
}

/// An object literal: resolve the members in order, then allocate the
/// object.
pub fn eval_object<H: Host>(properties: &Vec<ObjectEntry>, env: &Env, heap: Heap, fuel: Fuel, host: &H) -> (r:
    EvalResult)
    ensures
        kept_budget(r, fuel),
        sem_object(host, properties@, *env, heap, fuel, r),
    decreases fuel.spec_remaining(), 0int, 4int, 0int,
{
    let mut acc = ObjectAcc::new();
    let mut h = heap;
    let mut f = fuel;
    let mut i: usize = 0;
    while i < properties.len()
        invariant
            i <= properties@.len(),
            fuel_le(f, fuel),
            forall|res: EvalResult|
                sem_object_from(host, properties@, i as nat, acc.data_map(), acc.accessor_map(), *env, h, f, res)
                    ==> sem_object(host, properties@, *env, heap, fuel, res),
        decreases properties@.len() - i,
    {
        let ghost dm0 = acc.data_map();
        let ghost am0 = acc.accessor_map();
        let ghost h0 = h;
        match eval_one_object_member(&properties[i], acc, env, h, f, host) {
            Err(e) => {
                let res = Err(e);
                assert(sem_object_from(host, properties@, i as nat, dm0, am0, *env, h0, f, res));
                return res;
            },
            Ok((MemberOutcome::Throw(v), h2, f2)) => {
                let res = Ok((Outcome::Throw(v), h2, f2));
                assert(sem_object_from(host, properties@, i as nat, dm0, am0, *env, h0, f, res));
                return res;
            },
            Ok((MemberOutcome::Acc(a), h2, f2)) => {
                assert forall|res: EvalResult|
                    sem_object_from(host, 
                        properties@,
                        (i + 1) as nat,
                        a.data_map(),
                        a.accessor_map(),
                        *env,
                        h2,
                        f2,
                        res,
                    ) implies sem_object_from(host, properties@, i as nat, dm0, am0, *env, h0, f, res) by {};
                acc = a;
                h = h2;
                f = f2;
            },
        }
        i = i + 1;
    }
    let ghost dm = acc.data_map();
    let ghost am = acc.accessor_map();
    let ghost h0 = h;
    let (id, h2) = h.alloc_object(acc.into_object());
    let res = Ok((Outcome::Normal(Value::Object(id)), h2, f));
    assert(sem_object_from(host, properties@, i as nat, dm, am, *env, h0, f, res));
    res
}

} // verus!
