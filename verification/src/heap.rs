//! Persistent heap of objects, function definitions, variable cells, and
//! promises.
//!
//! Each kind of entry is numbered from zero in allocation order, and
//! entries are never removed, so an id is valid exactly when it is below
//! the number of entries of its kind.  Operations consume the heap and
//! return the updated one: callers always hand the latest heap forward.

use vstd::prelude::*;

use crate::promise::{handlers_point_forward, PromiseHandler, PromiseState};
use crate::value::{Cell, CellId, FunctionDef, FunctionId, Object, ObjectId, PromiseId, Value};

verus! {

/// A persistent heap.
#[derive(Debug)]
pub struct Heap {
    objects: Vec<Object>,
    functions: Vec<FunctionDef>,
    cells: Vec<Cell>,
    promises: Vec<PromiseState>,
}

impl Heap {
    /// Handlers queued on a pending promise always target promises
    /// allocated after it.
    #[verifier::type_invariant]
    spec fn wf(self) -> bool {
        forall|p: int| 0 <= p < self.promises@.len() ==> handlers_point_forward(#[trigger] self.promises@[p], p)
    }

    /// The objects, indexed by id.
    pub closed spec fn spec_objects(self) -> Seq<Object> {
        self.objects@
    }

    /// The function definitions, indexed by id.
    pub closed spec fn spec_functions(self) -> Seq<FunctionDef> {
        self.functions@
    }

    /// The cells, indexed by id.
    pub closed spec fn spec_cells(self) -> Seq<Cell> {
        self.cells@
    }

    /// The promises, indexed by id.
    pub closed spec fn spec_promises(self) -> Seq<PromiseState> {
        self.promises@
    }

    /// The object `id` names, if allocated.
    pub open spec fn spec_object(self, id: ObjectId) -> Option<Object> {
        if id.spec_raw() < self.spec_objects().len() {
            Some(self.spec_objects()[id.spec_raw() as int])
        } else {
            None
        }
    }

    /// The function `id` names, if allocated.
    pub open spec fn spec_function(self, id: FunctionId) -> Option<FunctionDef> {
        if id.spec_raw() < self.spec_functions().len() {
            Some(self.spec_functions()[id.spec_raw() as int])
        } else {
            None
        }
    }

    /// The cell `id` names, if allocated.
    pub open spec fn spec_cell(self, id: CellId) -> Option<Cell> {
        if id.spec_raw() < self.spec_cells().len() {
            Some(self.spec_cells()[id.spec_raw() as int])
        } else {
            None
        }
    }

    /// The promise `id` names, if allocated.
    pub open spec fn spec_promise(self, id: PromiseId) -> Option<PromiseState> {
        if id.spec_raw() < self.spec_promises().len() {
            Some(self.spec_promises()[id.spec_raw() as int])
        } else {
            None
        }
    }

    /// An empty heap.
    pub fn new() -> (h: Self)
        ensures
            h.spec_objects().len() == 0,
            h.spec_functions().len() == 0,
            h.spec_cells().len() == 0,
            h.spec_promises().len() == 0,
    {
        Heap { objects: Vec::new(), functions: Vec::new(), cells: Vec::new(), promises: Vec::new() }
    }

    /// Allocate `object`, returning its id and the resulting heap.
    pub fn alloc_object(self, object: Object) -> (r: (ObjectId, Self))
        ensures
            r.0.spec_raw() == self.spec_objects().len(),
            r.1.spec_objects() == self.spec_objects().push(object),
            r.1.spec_functions() == self.spec_functions(),
            r.1.spec_cells() == self.spec_cells(),
            r.1.spec_promises() == self.spec_promises(),
    {
        proof {
            use_type_invariant(&self);
        }
        let Heap { mut objects, functions, cells, promises } = self;
        let id = ObjectId::new(objects.len() as u64);
        objects.push(object);
        (id, Heap { objects, functions, cells, promises })
    }

    /// Allocate `function`, returning its id and the resulting heap.
    pub fn alloc_function(self, function: FunctionDef) -> (r: (FunctionId, Self))
        ensures
            r.0.spec_raw() == self.spec_functions().len(),
            r.1.spec_objects() == self.spec_objects(),
            r.1.spec_functions() == self.spec_functions().push(function),
            r.1.spec_cells() == self.spec_cells(),
            r.1.spec_promises() == self.spec_promises(),
    {
        proof {
            use_type_invariant(&self);
        }
        let Heap { objects, mut functions, cells, promises } = self;
        let id = FunctionId::new(functions.len() as u64);
        functions.push(function);
        (id, Heap { objects, functions, cells, promises })
    }

    /// Allocate `cell` for a variable binding, returning its id and the
    /// resulting heap.
    pub fn alloc_cell(self, cell: Cell) -> (r: (CellId, Self))
        ensures
            r.0.spec_raw() == self.spec_cells().len(),
            r.1.spec_objects() == self.spec_objects(),
            r.1.spec_functions() == self.spec_functions(),
            r.1.spec_cells() == self.spec_cells().push(cell),
            r.1.spec_promises() == self.spec_promises(),
    {
        proof {
            use_type_invariant(&self);
        }
        let Heap { objects, functions, mut cells, promises } = self;
        let id = CellId::new(cells.len() as u64);
        cells.push(cell);
        (id, Heap { objects, functions, cells, promises })
    }

    /// Allocate a promise in `state`, returning its id and the resulting
    /// heap.  Every handler queued in a pending state must target a
    /// promise numbered above the new one: the heap keeps handlers pointing
    /// forward, which is what makes settling a promise and draining its
    /// handlers finite.  An empty pending state, or a settled one, always
    /// qualifies.
    pub fn alloc_promise(self, state: PromiseState) -> (r: (PromiseId, Self))
        requires
            handlers_point_forward(state, self.spec_promises().len() as int),
        ensures
            r.0.spec_raw() == self.spec_promises().len(),
            r.1.spec_objects() == self.spec_objects(),
            r.1.spec_functions() == self.spec_functions(),
            r.1.spec_cells() == self.spec_cells(),
            r.1.spec_promises() == self.spec_promises().push(state),
    {
        proof {
            use_type_invariant(&self);
        }
        let Heap { objects, functions, cells, mut promises } = self;
        let id = PromiseId::new(promises.len() as u64);
        promises.push(state);
        (id, Heap { objects, functions, cells, promises })
    }

    /// Replace the object at `id`.  An unknown id gives back the heap
    /// unchanged as `Err`.
    pub fn store_object(self, id: ObjectId, object: Object) -> (r: Result<Self, Self>)
        ensures
            r is Ok <==> id.spec_raw() < self.spec_objects().len(),
            r matches Ok(h) ==> h.spec_objects() == self.spec_objects().update(
                id.spec_raw() as int,
                object,
            ) && h.spec_functions() == self.spec_functions() && h.spec_cells()
                == self.spec_cells() && h.spec_promises() == self.spec_promises(),
            r matches Err(h) ==> h == self,
    {
        proof {
            use_type_invariant(&self);
        }
        if id.raw() < self.objects.len() as u64 {
            let Heap { mut objects, functions, cells, promises } = self;
            objects.set(id.raw() as usize, object);
            Ok(Heap { objects, functions, cells, promises })
        } else {
            Err(self)
        }
    }

    /// Write `value` into the cell at `id`, keeping its mutability.  An
    /// unknown id or an immutable (`const`) cell gives back the heap
    /// unchanged as `Err`.
    pub fn store_cell(self, id: CellId, value: Value) -> (r: Result<Self, Self>)
        ensures
            r is Ok <==> (self.spec_cell(id) is Some && self.spec_cell(id)->0.spec_mutable()),
            r matches Ok(h) ==> {
                &&& h.spec_cells().len() == self.spec_cells().len()
                &&& h.spec_cell(id) is Some
                &&& h.spec_cell(id)->0.spec_value() == value
                &&& h.spec_cell(id)->0.spec_mutable()
                &&& forall|j: int|
                    0 <= j < self.spec_cells().len() && j != id.spec_raw() ==> #[trigger] h.spec_cells()[j]
                        == self.spec_cells()[j]
                &&& h.spec_objects() == self.spec_objects()
                &&& h.spec_functions() == self.spec_functions()
                &&& h.spec_promises() == self.spec_promises()
            },
            r matches Err(h) ==> h == self,
    {
        proof {
            use_type_invariant(&self);
        }
        if id.raw() < self.cells.len() as u64 {
            let i = id.raw() as usize;
            if self.cells[i].is_mutable() {
                let Heap { objects, functions, mut cells, promises } = self;
                let updated = cells[i].clone().with_value(value);
                cells.set(i, updated);
                Ok(Heap { objects, functions, cells, promises })
            } else {
                Err(self)
            }
        } else {
            Err(self)
        }
    }

    /// Replace the state of the promise at `id`.  An unknown id, or a
    /// pending state with a handler that targets a promise not allocated
    /// after `id`, gives back the heap unchanged as `Err`.
    pub fn store_promise(self, id: PromiseId, state: PromiseState) -> (r: Result<Self, Self>)
        ensures
            r is Ok <==> id.spec_raw() < self.spec_promises().len() && handlers_point_forward(
                state,
                id.spec_raw() as int,
            ),
            r matches Ok(h) ==> h.spec_promises() == self.spec_promises().update(
                id.spec_raw() as int,
                state,
            ) && h.spec_objects() == self.spec_objects() && h.spec_functions()
                == self.spec_functions() && h.spec_cells() == self.spec_cells(),
            r matches Err(h) ==> h == self,
    {
        proof {
            use_type_invariant(&self);
        }
        if id.raw() < self.promises.len() as u64 && points_forward(&state, id.raw()) {
            let Heap { objects, functions, cells, mut promises } = self;
            promises.set(id.raw() as usize, state);
            Ok(Heap { objects, functions, cells, promises })
        } else {
            Err(self)
        }
    }

    /// Look up the object at `id`.
    pub fn object(&self, id: ObjectId) -> (r: Option<&Object>)
        ensures
            r matches Some(o) ==> self.spec_object(id) == Some(*o),
            r is None ==> self.spec_object(id) is None,
    {
        if id.raw() < self.objects.len() as u64 {
            Some(&self.objects[id.raw() as usize])
        } else {
            None
        }
    }

    /// Look up the function at `id`.
    pub fn function(&self, id: FunctionId) -> (r: Option<&FunctionDef>)
        ensures
            r matches Some(f) ==> self.spec_function(id) == Some(*f),
            r is None ==> self.spec_function(id) is None,
    {
        if id.raw() < self.functions.len() as u64 {
            Some(&self.functions[id.raw() as usize])
        } else {
            None
        }
    }

    /// Look up the cell at `id`.
    pub fn cell(&self, id: CellId) -> (r: Option<&Cell>)
        ensures
            r matches Some(c) ==> self.spec_cell(id) == Some(*c),
            r is None ==> self.spec_cell(id) is None,
    {
        if id.raw() < self.cells.len() as u64 {
            Some(&self.cells[id.raw() as usize])
        } else {
            None
        }
    }

    /// Look up the promise at `id`.
    pub fn promise(&self, id: PromiseId) -> (r: Option<&PromiseState>)
        ensures
            r matches Some(p) ==> self.spec_promise(id) == Some(*p),
            r is None ==> self.spec_promise(id) is None,
            r matches Some(p) ==> handlers_point_forward(*p, id.spec_raw() as int),
    {
        proof {
            use_type_invariant(self);
        }
        if id.raw() < self.promises.len() as u64 {
            Some(&self.promises[id.raw() as usize])
        } else {
            None
        }
    }

    /// Number of objects in the heap.
    pub fn object_count(&self) -> (r: usize)
        ensures
            r == self.spec_objects().len(),
    {
        self.objects.len()
    }

    /// Number of function definitions in the heap.
    pub fn function_count(&self) -> (r: usize)
        ensures
            r == self.spec_functions().len(),
    {
        self.functions.len()
    }

    /// Number of variable cells in the heap.
    pub fn cell_count(&self) -> (r: usize)
        ensures
            r == self.spec_cells().len(),
    {
        self.cells.len()
    }

    /// Number of promises in the heap.
    pub fn promise_count(&self) -> (r: usize)
        ensures
            r == self.spec_promises().len(),
    {
        self.promises.len()
    }
}

impl Default for Heap {
    fn default() -> (h: Self)
        ensures
            h.spec_objects().len() == 0,
            h.spec_functions().len() == 0,
            h.spec_cells().len() == 0,
            h.spec_promises().len() == 0,
    {
        Heap::new()
    }
}

/// Whether every handler queued in `state` targets a promise numbered
/// above `index`.
fn points_forward(state: &PromiseState, index: u64) -> (r: bool)
    ensures
        r == handlers_point_forward(*state, index as int),
{
    match state {
        PromiseState::Pending(hs) => targets_above(hs, index),
        _ => true,
    }
}

/// Whether every handler in `hs` targets a promise numbered above `index`.
fn targets_above(hs: &Vec<PromiseHandler>, index: u64) -> (r: bool)
    ensures
        r == (forall|k: int|
            0 <= k < hs@.len() ==> (#[trigger] hs@[k]).spec_chained().spec_raw() > index),
{
    let mut i: usize = 0;
    while i < hs.len()
        invariant
            i <= hs@.len(),
            forall|k: int| 0 <= k < i ==> (#[trigger] hs@[k]).spec_chained().spec_raw() > index,
        decreases hs@.len() - i,
    {
        if hs[i].chained().raw() <= index {
            return false;
        }
        i = i + 1;
    }
    true
}

/// `after` is `before` with one more cell, holding `value` with the given
/// mutability, and nothing else changed.
pub open spec fn allocated_cell(before: Heap, after: Heap, value: Value, mutable: bool) -> bool {
    &&& after.spec_cells() == before.spec_cells().push(after.spec_cells().last())
    &&& after.spec_cells().last().spec_value() == value
    &&& after.spec_cells().last().spec_mutable() == mutable
    &&& after.spec_objects() == before.spec_objects()
    &&& after.spec_functions() == before.spec_functions()
    &&& after.spec_promises() == before.spec_promises()
}

/// `after` is `before` with the mutable cell `id` now holding `value`,
/// and nothing else changed.
pub open spec fn stored_cell(before: Heap, after: Heap, id: CellId, value: Value) -> bool {
    &&& after.spec_cells().len() == before.spec_cells().len()
    &&& after.spec_cell(id) matches Some(c) && c.spec_value() == value && c.spec_mutable()
    &&& forall|j: int|
        0 <= j < before.spec_cells().len() && j != id.spec_raw() ==> #[trigger] after.spec_cells()[j]
            == before.spec_cells()[j]
    &&& after.spec_objects() == before.spec_objects()
    &&& after.spec_functions() == before.spec_functions()
    &&& after.spec_promises() == before.spec_promises()
}

/// An object read back right after its allocation is the allocated object,
/// and every object allocated before reads as it did.
pub proof fn lemma_alloc_object_read(before: Heap, after: Heap, id: ObjectId, object: Object)
    requires
        id.spec_raw() == before.spec_objects().len(),
        after.spec_objects() == before.spec_objects().push(object),
    ensures
        after.spec_object(id) == Some(object),
        before.spec_object(id) is None,
        forall|other: ObjectId|
            before.spec_object(other) is Some ==> #[trigger] after.spec_object(other)
                == before.spec_object(other),
{
}

/// A stored object is what a later read gives back; other objects keep
/// their contents.
pub proof fn lemma_store_object_read(before: Heap, after: Heap, id: ObjectId, object: Object)
    requires
        id.spec_raw() < before.spec_objects().len(),
        after.spec_objects() == before.spec_objects().update(id.spec_raw() as int, object),
    ensures
        after.spec_object(id) == Some(object),
        forall|other: ObjectId|
            other != id ==> #[trigger] after.spec_object(other) == before.spec_object(other),
{
    assert forall|other: ObjectId| other != id implies #[trigger] after.spec_object(other)
        == before.spec_object(other) by {
        crate::value::lemma_object_id_raw_injective(other, id);
    }
}

/// A cell allocated and then read back holds the allocated cell, and
/// cells allocated before are untouched.
pub proof fn lemma_alloc_cell_read(before: Heap, after: Heap, id: CellId, cell: Cell)
    requires
        id.spec_raw() == before.spec_cells().len(),
        after.spec_cells() == before.spec_cells().push(cell),
    ensures
        after.spec_cell(id) == Some(cell),
        forall|other: CellId|
            before.spec_cell(other) is Some ==> #[trigger] after.spec_cell(other)
                == before.spec_cell(other),
{
}

/// Allocation always hands out an id that was not valid before, so two
/// allocations never share an id.
pub proof fn lemma_alloc_ids_fresh(before: Heap, id: ObjectId, other: ObjectId)
    requires
        id.spec_raw() == before.spec_objects().len(),
        before.spec_object(other) is Some,
    ensures
        id != other,
{
}

} // verus!
