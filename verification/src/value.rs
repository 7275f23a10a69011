//! Runtime values, identifiers, cells, objects, and function definitions.

use vstd::prelude::*;

use std::sync::Arc;

use crate::assoc::{
    assoc_map, assoc_put, find_key, has_key, keys_disjoint, keys_sorted, keys_unique, lemma_assoc_at,
    lemma_assoc_push, lemma_assoc_remove, lemma_disjoint_from_maps, lemma_disjoint_maps, lemma_sorted_remove,
    lemma_sorted_unique,
};
use crate::ast::{ArrowCodeBody, Pattern, Statement};
use crate::env::Env;
use crate::host::Host;
use crate::number::{small_integer, spec_small_integer};
use crate::text::{concat, debug_quoted, decimal, signed_decimal, spec_debug_quoted, spec_decimal, spec_signed_decimal};

verus! {

/// A heap-allocated object's identifier.
#[derive(Debug, Clone, Copy, PartialEq, Eq, Structural, PartialOrd, Ord, Hash)]
pub struct ObjectId(u64);

impl ObjectId {
    /// The raw underlying id.
    pub closed spec fn spec_raw(self) -> u64 {
        self.0
    }

    /// Build an `ObjectId` from a raw integer.  The heap is the only
    /// legitimate source of ids.
    pub(crate) fn new(id: u64) -> (r: Self)
        ensures
            r.spec_raw() == id,
    {
        ObjectId(id)
    }

    /// The raw underlying id.
    pub fn raw(&self) -> (r: u64)
        ensures
            r == self.spec_raw(),
    {
        self.0
    }

    /// `obj#N`.
    pub fn render(&self) -> (s: String)
        ensures
            s@ == "obj#"@ + spec_decimal(self.spec_raw() as nat),
    {
        concat("obj#", decimal(self.0).as_str())
    }
}

/// Ids with the same raw value are the same id.
pub proof fn lemma_object_id_raw_injective(a: ObjectId, b: ObjectId)
    ensures
        a.spec_raw() == b.spec_raw() <==> a == b,
{
}

/// A heap-allocated promise's identifier.
#[derive(Debug, Clone, Copy, PartialEq, Eq, Structural, PartialOrd, Ord, Hash)]
pub struct PromiseId(u64);

impl PromiseId {
    /// The raw underlying id.
    pub closed spec fn spec_raw(self) -> u64 {
        self.0
    }

    /// Build a `PromiseId` from a raw integer.
    pub(crate) fn new(id: u64) -> (r: Self)
        ensures
            r.spec_raw() == id,
    {
        PromiseId(id)
    }

    /// The raw underlying id.
    pub fn raw(&self) -> (r: u64)
        ensures
            r == self.spec_raw(),
    {
        self.0
    }

    /// `promise#N`.
    pub fn render(&self) -> (s: String)
        ensures
            s@ == "promise#"@ + spec_decimal(self.spec_raw() as nat),
    {
        concat("promise#", decimal(self.0).as_str())
    }
}

/// Ids with the same raw value are the same id.
pub proof fn lemma_promise_id_raw_injective(a: PromiseId, b: PromiseId)
    ensures
        a.spec_raw() == b.spec_raw() <==> a == b,
{
}

/// A heap-allocated function's identifier.
#[derive(Debug, Clone, Copy, PartialEq, Eq, Structural, PartialOrd, Ord, Hash)]
pub struct FunctionId(u64);

impl FunctionId {
    /// The raw underlying id.
    pub closed spec fn spec_raw(self) -> u64 {
        self.0
    }

    /// Build a `FunctionId` from a raw integer.
    pub(crate) fn new(id: u64) -> (r: Self)
        ensures
            r.spec_raw() == id,
    {
        FunctionId(id)
    }

    /// The raw underlying id.
    pub fn raw(&self) -> (r: u64)
        ensures
            r == self.spec_raw(),
    {
        self.0
    }

    /// `fn#N`.
    pub fn render(&self) -> (s: String)
        ensures
            s@ == "fn#"@ + spec_decimal(self.spec_raw() as nat),
    {
        concat("fn#", decimal(self.0).as_str())
    }
}

/// Ids with the same raw value are the same id.
pub proof fn lemma_function_id_raw_injective(a: FunctionId, b: FunctionId)
    ensures
        a.spec_raw() == b.spec_raw() <==> a == b,
{
}

/// A heap-allocated variable cell's identifier.
#[derive(Debug, Clone, Copy, PartialEq, Eq, Structural, PartialOrd, Ord, Hash)]
pub struct CellId(u64);

impl CellId {
    /// The raw underlying id.
    pub closed spec fn spec_raw(self) -> u64 {
        self.0
    }

    /// Build a `CellId` from a raw integer.
    pub(crate) fn new(id: u64) -> (r: Self)
        ensures
            r.spec_raw() == id,
    {
        CellId(id)
    }

    /// The raw underlying id.
    pub fn raw(&self) -> (r: u64)
        ensures
            r == self.spec_raw(),
    {
        self.0
    }

    /// `cell#N`.
    pub fn render(&self) -> (s: String)
        ensures
            s@ == "cell#"@ + spec_decimal(self.spec_raw() as nat),
    {
        concat("cell#", decimal(self.0).as_str())
    }
}

/// Ids with the same raw value are the same id.
pub proof fn lemma_cell_id_raw_injective(a: CellId, b: CellId)
    ensures
        a.spec_raw() == b.spec_raw() <==> a == b,
{
}

/// A callable implemented outside the language.  The promise methods and
/// the promise-settling hooks are built in; `Host(n)` is the embedder's
/// callable number `n`, dispatched through [`crate::host::Host`].
#[derive(Debug, Clone, Copy, PartialEq, Eq, Structural)]
pub enum NativeFn {
    /// `Promise.prototype.then`.
    PromiseThen,
    /// `Promise.prototype.catch`.
    PromiseCatch,
    /// `__resolve_promise(promise, value)`.
    ResolvePromise,
    /// `__reject_promise(promise, value)`.
    RejectPromise,
    /// An embedder-supplied callable.
    Host(u64),
}

/// A runtime value.
#[derive(Debug)]
pub enum Value {
    /// The `undefined` singleton.
    Undefined,
    /// The `null` singleton.
    Null,
    /// A boolean.
    Boolean(bool),
    /// A number, as its IEEE-754 binary64 encoding (see [`crate::number`]).
    Number(u64),
    /// A string.
    String(String),
    /// A handle to a heap-allocated object.
    Object(ObjectId),
    /// A handle to a heap-allocated function.
    Function(FunctionId),
    /// A native callable.
    Native(NativeFn),
    /// A handle to a heap-allocated promise.
    Promise(PromiseId),
}

impl Clone for Value {
    fn clone(&self) -> (r: Self)
        ensures
            r == *self,
    {
        match self {
            Value::Undefined => Value::Undefined,
            Value::Null => Value::Null,
            Value::Boolean(b) => Value::Boolean(*b),
            Value::Number(n) => Value::Number(*n),
            Value::String(s) => Value::String(s.clone()),
            Value::Object(id) => Value::Object(*id),
            Value::Function(id) => Value::Function(*id),
            Value::Native(f) => Value::Native(*f),
            Value::Promise(id) => Value::Promise(*id),
        }
    }
}

/// How a value is written in diagnostics, where the language fixes it:
/// strings quoted as Rust's `Debug` quotes them, heap handles by kind and
/// number.  Numbers are written by the embedder.
pub open spec fn spec_render(value: Value) -> Option<Seq<char>> {
    match value {
        Value::Undefined => Some("undefined"@),
        Value::Null => Some("null"@),
        Value::Boolean(b) => if b {
            Some("true"@)
        } else {
            Some("false"@)
        },
        Value::Number(_) => None,
        Value::String(s) => Some(spec_debug_quoted(s@)),
        Value::Object(id) => Some("obj#"@ + spec_decimal(id.spec_raw() as nat)),
        Value::Function(id) => Some("fn#"@ + spec_decimal(id.spec_raw() as nat)),
        Value::Native(_) => Some("function [native code]"@),
        Value::Promise(_) => Some("[object Promise]"@),
    }
}

/// `text` is the diagnostic text of `value`: the fixed one; for an
/// integer in the signed 32-bit range (not `-0`), its decimal text; for
/// any other number, the host's text for that number.
pub open spec fn render_admits<H: Host>(host: &H, value: Value, text: Seq<char>) -> bool {
    match value {
        Value::Number(n) => match spec_small_integer(n) {
            Some(i) => text == spec_signed_decimal(i),
            None => host.format_gives(n, text),
        },
        _ => spec_render(value) == Some(text),
    }
}

impl Value {
    /// The diagnostic text of the value (what an uncaught exception
    /// reports): integers in decimal, other numbers as the embedder writes
    /// them, strings quoted, heap handles as `obj#N`, `fn#N`.
    pub fn render<H: Host>(&self, host: &H) -> (r: String)
        ensures
            render_admits(host, *self, r@),
    {
        match self {
            Value::Undefined => "undefined".to_owned(),
            Value::Null => "null".to_owned(),
            Value::Boolean(b) => if *b {
                "true".to_owned()
            } else {
                "false".to_owned()
            },
            Value::Number(n) => match small_integer(*n) {
                Some(i) => signed_decimal(i),
                None => host.format_number(*n),
            },
            Value::String(s) => debug_quoted(s.as_str()),
            Value::Object(id) => id.render(),
            Value::Function(id) => id.render(),
            Value::Native(_) => "function [native code]".to_owned(),
            Value::Promise(_) => "[object Promise]".to_owned(),
        }
    }
}

/// A variable cell: the current value and whether it accepts assignment.
/// `let` and `var` declarations allocate mutable cells, `const`
/// immutable ones.
#[derive(Debug)]
pub struct Cell {
    value: Value,
    mutable: bool,
}

impl Clone for Cell {
    fn clone(&self) -> (r: Self)
        ensures
            r == *self,
    {
        Cell { value: self.value.clone(), mutable: self.mutable }
    }
}

impl Cell {
    /// The stored value.
    pub closed spec fn spec_value(self) -> Value {
        self.value
    }

    /// Whether the cell accepts assignment.
    pub closed spec fn spec_mutable(self) -> bool {
        self.mutable
    }

    /// Build a cell with the given value and mutability.
    pub fn new(value: Value, mutable: bool) -> (r: Self)
        ensures
            r.spec_value() == value,
            r.spec_mutable() == mutable,
    {
        Cell { value, mutable }
    }

    /// The current value.
    pub fn value(&self) -> (r: &Value)
        ensures
            *r == self.spec_value(),
    {
        &self.value
    }

    /// Whether the cell accepts assignment.
    pub fn is_mutable(&self) -> (r: bool)
        ensures
            r == self.spec_mutable(),
    {
        self.mutable
    }

    /// Replace the value, preserving mutability.
    pub fn with_value(self, value: Value) -> (r: Self)
        ensures
            r.spec_value() == value,
            r.spec_mutable() == self.spec_mutable(),
    {
        Cell { value, mutable: self.mutable }
    }
}

/// Two cells with the same value and mutability are the same cell.
pub proof fn lemma_cell_extensional(a: Cell, b: Cell)
    ensures
        (a.spec_value() == b.spec_value() && a.spec_mutable() == b.spec_mutable()) <==> a == b,
{
}

/// The getter / setter pair backing an accessor property.  Either half may
/// be absent: a setter-only accessor reads as `undefined`, and a
/// getter-only accessor ignores assignment.
#[derive(Debug)]
pub struct AccessorPair {
    get: Option<Value>,
    set: Option<Value>,
}

fn clone_optional(v: &Option<Value>) -> (r: Option<Value>)
    ensures
        r == *v,
{
    match v {
        Some(x) => Some(x.clone()),
        None => None,
    }
}

impl Clone for AccessorPair {
    fn clone(&self) -> (r: Self)
        ensures
            r == *self,
    {
        AccessorPair { get: clone_optional(&self.get), set: clone_optional(&self.set) }
    }
}

impl Default for AccessorPair {
    fn default() -> (r: Self)
        ensures
            r.spec_get() is None,
            r.spec_set() is None,
    {
        AccessorPair { get: None, set: None }
    }
}

impl AccessorPair {
    /// The getter half.
    pub closed spec fn spec_get(self) -> Option<Value> {
        self.get
    }

    /// The setter half.
    pub closed spec fn spec_set(self) -> Option<Value> {
        self.set
    }

    /// Build an accessor with the given halves.
    pub fn new(get: Option<Value>, set: Option<Value>) -> (r: Self)
        ensures
            r.spec_get() == get,
            r.spec_set() == set,
    {
        AccessorPair { get, set }
    }

    /// The getter, if any.
    pub fn get_fn(&self) -> (r: Option<&Value>)
        ensures
            r matches Some(v) ==> self.spec_get() == Some(*v),
            r is None ==> self.spec_get() is None,
    {
        match &self.get {
            Some(v) => Some(v),
            None => None,
        }
    }

    /// The setter, if any.
    pub fn set_fn(&self) -> (r: Option<&Value>)
        ensures
            r matches Some(v) ==> self.spec_set() == Some(*v),
            r is None ==> self.spec_set() is None,
    {
        match &self.set {
            Some(v) => Some(v),
            None => None,
        }
    }

    /// A new pair with the getter replaced and the setter kept.
    pub fn with_get(&self, get: Value) -> (r: Self)
        ensures
            r.spec_get() == Some(get),
            r.spec_set() == self.spec_set(),
    {
        AccessorPair { get: Some(get), set: clone_optional(&self.set) }
    }

    /// A new pair with the setter replaced and the getter kept.
    pub fn with_set(&self, set: Value) -> (r: Self)
        ensures
            r.spec_get() == self.spec_get(),
            r.spec_set() == Some(set),
    {
        AccessorPair { get: clone_optional(&self.get), set: Some(set) }
    }
}

/// Copy of an entry list of data properties.
fn clone_properties(s: &Vec<(String, Value)>) -> (r: Vec<(String, Value)>)
    ensures
        r@ == s@,
{
    let mut r: Vec<(String, Value)> = Vec::new();
    let mut i: usize = 0;
    while i < s.len()
        invariant
            i <= s@.len(),
            r@ == s@.take(i as int),
        decreases s@.len() - i,
    {
        let e = (s[i].0.clone(), s[i].1.clone());
        r.push(e);
        assert(s@.take(i as int).push(s@[i as int]) =~= s@.take(i + 1));
        i = i + 1;
    }
    assert(s@.take(s@.len() as int) =~= s@);
    r
}

/// Copy of an entry list of accessor properties.
fn clone_accessors(s: &Vec<(String, AccessorPair)>) -> (r: Vec<(String, AccessorPair)>)
    ensures
        r@ == s@,
{
    let mut r: Vec<(String, AccessorPair)> = Vec::new();
    let mut i: usize = 0;
    while i < s.len()
        invariant
            i <= s@.len(),
            r@ == s@.take(i as int),
        decreases s@.len() - i,
    {
        let e = (s[i].0.clone(), s[i].1.clone());
        r.push(e);
        assert(s@.take(i as int).push(s@[i as int]) =~= s@.take(i + 1));
        i = i + 1;
    }
    assert(s@.take(s@.len() as int) =~= s@);
    r
}

/// The map built by inserting the entries of `s` in order: a later entry
/// overrides an earlier one with the same key.
pub open spec fn entries_map(s: Seq<(String, Value)>) -> Map<Seq<char>, Value>
    decreases s.len(),
{
    if s.len() == 0 {
        Map::empty()
    } else {
        entries_map(s.drop_last()).insert(s.last().0@, s.last().1)
    }
}

/// For an entry list whose keys are distinct, inserting the entries in
/// order builds the map the list stands for.
pub proof fn lemma_entries_map_unique(s: Seq<(String, Value)>)
    requires
        keys_unique(s),
    ensures
        entries_map(s) == assoc_map(s),
    decreases s.len(),
{
    if s.len() > 0 {
        let t = s.drop_last();
        assert(keys_unique(t));
        lemma_entries_map_unique(t);
        assert(!has_key(t, s.last().0@)) by {
            if has_key(t, s.last().0@) {
                let j = choose|j: int| 0 <= j < t.len() && #[trigger] t[j].0@ == s.last().0@;
                assert(s[j].0@ == s[s.len() - 1].0@);
            }
        }
        lemma_assoc_push(t, s.last());
        assert(t.push(s.last()) =~= s);
    } else {
        assert(assoc_map(s) =~= Map::<Seq<char>, Value>::empty());
    }
}

/// A heap-allocated object: string-keyed data properties and, separately,
/// accessor properties.  A key is never both: writing a data property
/// evicts an accessor on the same key and installing an accessor evicts
/// the data property.  Arrays are objects with numeric string keys plus a
/// `length` property.
#[derive(Debug)]
pub struct Object {
    properties: Vec<(String, Value)>,
    accessors: Vec<(String, AccessorPair)>,
}

impl Object {
    /// Keys ascend in name order within each kind of property (so each
    /// occurs once), and no key is both.
    #[verifier::type_invariant]
    spec fn wf(self) -> bool {
        &&& keys_sorted(self.properties@)
        &&& keys_sorted(self.accessors@)
        &&& keys_unique(self.properties@)
        &&& keys_unique(self.accessors@)
        &&& keys_disjoint(self.properties@, self.accessors@)
    }

    /// The data properties.
    pub closed spec fn data(self) -> Map<Seq<char>, Value> {
        assoc_map(self.properties@)
    }

    /// The accessor properties.
    pub closed spec fn accessor_map(self) -> Map<Seq<char>, AccessorPair> {
        assoc_map(self.accessors@)
    }

    /// An object without properties.
    pub fn empty() -> (r: Self)
        ensures
            r.data() == Map::<Seq<char>, Value>::empty(),
            r.accessor_map() == Map::<Seq<char>, AccessorPair>::empty(),
    {
        let r = Object { properties: Vec::new(), accessors: Vec::new() };
        assert(r.data() =~= Map::<Seq<char>, Value>::empty());
        assert(r.accessor_map() =~= Map::<Seq<char>, AccessorPair>::empty());
        r
    }

    /// An object holding the given data properties; when a key occurs more
    /// than once, the last entry wins.
    pub fn from_properties(properties: Vec<(String, Value)>) -> (r: Self)
        ensures
            r.data() == entries_map(properties@),
            r.accessor_map() == Map::<Seq<char>, AccessorPair>::empty(),
    {
        let mut obj = Object::empty();
        let mut i: usize = 0;
        while i < properties.len()
            invariant
                i <= properties@.len(),
                obj.data() == entries_map(properties@.take(i as int)),
                obj.accessor_map() == Map::<Seq<char>, AccessorPair>::empty(),
            decreases properties@.len() - i,
        {
            let key = properties[i].0.clone();
            let value = properties[i].1.clone();
            obj = obj.with(key, value);
            assert(properties@.take(i + 1).drop_last() =~= properties@.take(i as int));
            assert(obj.accessor_map() =~= Map::<Seq<char>, AccessorPair>::empty());
            i = i + 1;
        }
        assert(properties@.take(properties@.len() as int) =~= properties@);
        obj
    }

    /// Look up a data property.  Absent keys and accessor properties give
    /// `None`.
    pub fn get(&self, key: &str) -> (r: Option<&Value>)
        ensures
            r matches Some(v) ==> self.data().contains_key(key@) && self.data()[key@] == *v,
            r is None ==> !self.data().contains_key(key@),
            r is Some ==> !self.accessor_map().contains_key(key@),
    {
        proof {
            use_type_invariant(self);
        }
        let owned = key.to_owned();
        match find_key(&self.properties, &owned) {
            Some(i) => {
                proof {
                    lemma_assoc_at(self.properties@, i as int);
                    if has_key(self.accessors@, key@) {
                        let b = choose|j: int|
                            0 <= j < self.accessors@.len() && #[trigger] self.accessors@[j].0@ == key@;
                        assert(self.properties@[i as int].0@ != self.accessors@[b].0@);
                    }
                }
                Some(&self.properties[i].1)
            },
            None => None,
        }
    }

    /// All data properties in name order, each key once.
    pub fn properties(&self) -> (r: &Vec<(String, Value)>)
        ensures
            keys_sorted(r@),
            keys_unique(r@),
            assoc_map(r@) == self.data(),
    {
        proof {
            use_type_invariant(self);
        }
        &self.properties
    }

    /// Look up an accessor property.
    pub fn accessor(&self, key: &str) -> (r: Option<&AccessorPair>)
        ensures
            r matches Some(p) ==> self.accessor_map().contains_key(key@) && self.accessor_map()[key@]
                == *p,
            r is None ==> !self.accessor_map().contains_key(key@),
    {
        proof {
            use_type_invariant(self);
        }
        let owned = key.to_owned();
        match find_key(&self.accessors, &owned) {
            Some(i) => {
                proof {
                    lemma_assoc_at(self.accessors@, i as int);
                }
                Some(&self.accessors[i].1)
            },
            None => None,
        }
    }

    /// All accessor properties in name order, each key once.
    pub fn accessors(&self) -> (r: &Vec<(String, AccessorPair)>)
        ensures
            keys_sorted(r@),
            keys_unique(r@),
            assoc_map(r@) == self.accessor_map(),
    {
        proof {
            use_type_invariant(self);
        }
        &self.accessors
    }

    /// A copy with `key` set to the data property `value`; an accessor on
    /// `key` is evicted.
    pub fn with(&self, key: String, value: Value) -> (r: Self)
        ensures
            r.data() == self.data().insert(key@, value),
            r.accessor_map() == self.accessor_map().remove(key@),
    {
        proof {
            use_type_invariant(self);
        }
        let mut props = clone_properties(&self.properties);
        let mut accs = clone_accessors(&self.accessors);
        let ghost accs0 = accs@;
        let ghost props0 = props@;
        match find_key(&accs, &key) {
            Some(i) => {
                proof {
                    lemma_assoc_remove(accs0, i as int);
                    lemma_sorted_remove(accs0, i as int);
                }
                accs.remove(i);
            },
            None => {
                assert(assoc_map(accs0).remove(key@) =~= assoc_map(accs0));
            },
        }
        assoc_put(&mut props, key, value);
        proof {
            lemma_sorted_unique(props@);
            lemma_sorted_unique(accs@);
            assert forall|x: Seq<char>| !(#[trigger] assoc_map(props@).contains_key(x) && assoc_map(accs@).contains_key(x)) by {
                lemma_disjoint_maps(props0, accs0, x);
            }
            lemma_disjoint_from_maps(props@, accs@);
        }
        Object { properties: props, accessors: accs }
    }

    /// A copy with `key` set to the accessor `pair`; a data property on
    /// `key` is evicted.
    pub fn with_accessor(&self, key: String, pair: AccessorPair) -> (r: Self)
        ensures
            r.data() == self.data().remove(key@),
            r.accessor_map() == self.accessor_map().insert(key@, pair),
    {
        proof {
            use_type_invariant(self);
        }
        let mut props = clone_properties(&self.properties);
        let mut accs = clone_accessors(&self.accessors);
        let ghost props0 = props@;
        let ghost accs0 = accs@;
        match find_key(&props, &key) {
            Some(i) => {
                proof {
                    lemma_assoc_remove(props0, i as int);
                    lemma_sorted_remove(props0, i as int);
                }
                props.remove(i);
            },
            None => {
                assert(assoc_map(props0).remove(key@) =~= assoc_map(props0));
            },
        }
        assoc_put(&mut accs, key, pair);
        proof {
            lemma_sorted_unique(props@);
            lemma_sorted_unique(accs@);
            assert forall|x: Seq<char>| !(#[trigger] assoc_map(props@).contains_key(x) && assoc_map(accs@).contains_key(x)) by {
                lemma_disjoint_maps(props0, accs0, x);
            }
            lemma_disjoint_from_maps(props@, accs@);
        }
        Object { properties: props, accessors: accs }
    }

    /// A copy with the same properties.
    pub fn duplicate(&self) -> (r: Self)
        ensures
            r.data() == self.data(),
            r.accessor_map() == self.accessor_map(),
    {
        proof {
            use_type_invariant(self);
        }
        Object {
            properties: clone_properties(&self.properties),
            accessors: clone_accessors(&self.accessors),
        }
    }
}

impl Default for Object {
    fn default() -> (r: Self)
        ensures
            r.data() == Map::<Seq<char>, Value>::empty(),
            r.accessor_map() == Map::<Seq<char>, AccessorPair>::empty(),
    {
        Object::empty()
    }
}

/// Reading a key just written as data gives the written value and no
/// accessor; every other key reads as before.
pub proof fn lemma_object_with_read(obj: Object, key: Seq<char>, value: Value, other: Seq<char>, r: Object)
    requires
        r.data() == obj.data().insert(key, value),
        r.accessor_map() == obj.accessor_map().remove(key),
        other != key,
    ensures
        r.data().contains_key(key) && r.data()[key] == value,
        !r.accessor_map().contains_key(key),
        r.data().contains_key(other) == obj.data().contains_key(other),
        r.data().contains_key(other) ==> r.data()[other] == obj.data()[other],
        r.accessor_map().contains_key(other) == obj.accessor_map().contains_key(other),
        r.accessor_map().contains_key(other) ==> r.accessor_map()[other] == obj.accessor_map()[other],
{
}

/// Installing an accessor on a key leaves no data property on it; every
/// other key reads as before.
pub proof fn lemma_object_with_accessor_read(
    obj: Object,
    key: Seq<char>,
    pair: AccessorPair,
    other: Seq<char>,
    r: Object,
)
    requires
        r.data() == obj.data().remove(key),
        r.accessor_map() == obj.accessor_map().insert(key, pair),
        other != key,
    ensures
        r.accessor_map().contains_key(key) && r.accessor_map()[key] == pair,
        !r.data().contains_key(key),
        r.data().contains_key(other) == obj.data().contains_key(other),
        r.data().contains_key(other) ==> r.data()[other] == obj.data()[other],
        r.accessor_map().contains_key(other) == obj.accessor_map().contains_key(other),
        r.accessor_map().contains_key(other) ==> r.accessor_map()[other] == obj.accessor_map()[other],
{
}

/// A function's static definition: name, parameters, body, the
/// environment at the definition site (for closures), and whether it is
/// an arrow function (which has no own `this`).
#[derive(Debug)]
pub struct FunctionDef {
    name: Option<String>,
    params: Arc<Vec<Pattern>>,
    body: FunctionBody,
    captured_env: Env,
    is_arrow: bool,
}

impl Clone for FunctionDef {
    fn clone(&self) -> (r: Self)
        ensures
            r == *self,
    {
        FunctionDef {
            name: match &self.name {
                Some(n) => Some(n.clone()),
                None => None,
            },
            params: Arc::clone(&self.params),
            body: self.body.clone(),
            captured_env: self.captured_env.clone(),
            is_arrow: self.is_arrow,
        }
    }
}

impl FunctionDef {
    /// The name, if any.
    pub closed spec fn spec_name(self) -> Option<String> {
        self.name
    }

    /// The body.
    pub closed spec fn spec_body(self) -> FunctionBody {
        self.body
    }

    /// The captured environment.
    pub closed spec fn spec_captured_env(self) -> Env {
        self.captured_env
    }

    /// Whether this is an arrow function.
    pub closed spec fn spec_is_arrow(self) -> bool {
        self.is_arrow
    }

    /// The formal parameters.
    pub closed spec fn spec_params(self) -> Arc<Vec<Pattern>> {
        self.params
    }

    /// Build a function definition.
    pub fn new(
        name: Option<String>,
        params: Arc<Vec<Pattern>>,
        body: FunctionBody,
        captured_env: Env,
        is_arrow: bool,
    ) -> (r: Self)
        ensures
            r.spec_name() == name,
            r.spec_params() == params,
            r.spec_body() == body,
            r.spec_captured_env() == captured_env,
            r.spec_is_arrow() == is_arrow,
    {
        FunctionDef { name, params, body, captured_env, is_arrow }
    }

    /// The name, if any.
    pub fn name(&self) -> (r: Option<&String>)
        ensures
            r matches Some(n) ==> self.spec_name() == Some(*n),
            r is None ==> self.spec_name() is None,
    {
        match &self.name {
            Some(n) => Some(n),
            None => None,
        }
    }

    /// The formal parameters.
    pub fn params(&self) -> (r: &[Pattern])
        ensures
            r@ == (*self.spec_params())@,
    {
        self.params.as_slice()
    }

    /// The body.
    pub fn body(&self) -> (r: &FunctionBody)
        ensures
            *r == self.spec_body(),
    {
        &self.body
    }

    /// The environment at the definition site.
    pub fn captured_env(&self) -> (r: &Env)
        ensures
            *r == self.spec_captured_env(),
    {
        &self.captured_env
    }

    /// Whether the function is an arrow function.
    pub fn is_arrow(&self) -> (r: bool)
        ensures
            r == self.spec_is_arrow(),
    {
        self.is_arrow
    }
}

/// A function body: a statement list, or an arrow body (expression or
/// block).
#[derive(Debug)]
pub enum FunctionBody {
    /// A statement-list body.
    Statements(Arc<Vec<Statement>>),
    /// An arrow body.
    Arrow(Arc<ArrowCodeBody>),
}

impl Clone for FunctionBody {
    fn clone(&self) -> (r: Self)
        ensures
            r == *self,
    {
        match self {
            FunctionBody::Statements(s) => FunctionBody::Statements(Arc::clone(s)),
            FunctionBody::Arrow(a) => FunctionBody::Arrow(Arc::clone(a)),
        }
    }
}

impl FunctionBody {
    /// View the body as statements or as an arrow body.
    pub fn as_statements(&self) -> (r: ArrowOrStatements<'_>)
        ensures
            match (self, r) {
                (FunctionBody::Statements(s), ArrowOrStatements::Statements(t)) => t@ == (**s)@,
                (FunctionBody::Arrow(a), ArrowOrStatements::Arrow(b)) => *b == **a,
                _ => false,
            },
    {
        match self {
            FunctionBody::Statements(stmts) => ArrowOrStatements::Statements(stmts.as_slice()),
            FunctionBody::Arrow(body) => ArrowOrStatements::Arrow(&**body),
        }
    }
}

/// View result of [`FunctionBody::as_statements`].
pub enum ArrowOrStatements<'a> {
    /// A statement list.
    Statements(&'a [Statement]),
    /// An arrow body.
    Arrow(&'a ArrowCodeBody),
}

} // verus!
