//! The array object (a buffer of type-erased slots with a size and a
//! capacity) and the typed, copy-on-write array that shares it.

use vstd::prelude::*;
use std::marker::PhantomData;
use std::rc::Rc;

use crate::any::{cell_of, AnyCell, AnyCompatible, AnyValue, ObjectRefCore};
use crate::error::{ArrayOp, Error};
use crate::type_index::{is_object_index, ARRAY, STATIC_OBJECT_BEGIN};

verus! {

/// The heap object behind an array: a buffer of `capacity` slots, of which
/// the first `size` hold the items and the rest are empty.
pub struct ArrayObj {
    slots: Vec<AnyCell>,
    size: usize,
}

/// A buffer of the given length whose every slot is empty.
fn none_slots(len: usize) -> (r: Vec<AnyCell>)
    ensures
        r.len() == len,
        forall|i: int| 0 <= i < len ==> #[trigger] r@[i] == AnyCell::spec_none(),
{
    let mut slots: Vec<AnyCell> = Vec::new();
    while slots.len() < len
        invariant
            slots.len() <= len,
            forall|i: int| 0 <= i < slots.len() ==> #[trigger] slots@[i] == AnyCell::spec_none(),
        decreases len - slots.len(),
    {
        slots.push(AnyCell::none());
    }
    slots
}

impl ArrayObj {
    /// The buffer is no shorter than the size, and every slot past the size
    /// is empty.
    #[verifier::type_invariant]
    spec fn inv(self) -> bool {
        &&& self.size <= self.slots.len()
        &&& forall|i: int| self.size <= i < self.slots.len() ==> #[trigger] self.slots@[i] == AnyCell::spec_none()
    }

    /// The items, in order.
    pub closed spec fn items(&self) -> Seq<AnyCell> {
        self.slots@.subrange(0, self.size as int)
    }

    /// The number of slots in the buffer.
    pub closed spec fn spec_capacity(&self) -> nat {
        self.slots.len() as nat
    }

    /// An object of the given capacity that holds no item.
    fn empty(capacity: usize) -> (r: ArrayObj)
        ensures
            r.items() == Seq::<AnyCell>::empty(),
            r.spec_capacity() == capacity,
    {
        let slots = none_slots(capacity);
        let r = ArrayObj { slots, size: 0 };
        assert(r.items() =~= Seq::<AnyCell>::empty());
        r
    }

    /// An object that holds the given slots, with no spare slot: the form in
    /// which an array made on the other side of the foreign-function
    /// boundary arrives.
    pub fn new(cells: Vec<AnyCell>) -> (r: ArrayObj)
        ensures
            r.items() == cells@,
            r.spec_capacity() == cells.len(),
    {
        let size = cells.len();
        let r = ArrayObj { slots: cells, size };
        assert(r.items() =~= cells@);
        r
    }

    /// A copy of this object whose buffer has the given capacity.
    fn copy_with_capacity(&self, capacity: usize) -> (r: ArrayObj)
        requires
            self.items().len() <= capacity,
        ensures
            r.items() == self.items(),
            r.spec_capacity() == capacity,
    {
        proof { use_type_invariant(self); }
        let size = self.size;
        let mut slots = none_slots(capacity);
        let mut i: usize = 0;
        while i < size
            invariant
                size == self.size,
                size <= self.slots.len(),
                size <= capacity,
                i <= size,
                slots.len() == capacity,
                forall|j: int| 0 <= j < i ==> #[trigger] slots@[j] == self.slots@[j],
                forall|j: int| i <= j < capacity ==> #[trigger] slots@[j] == AnyCell::spec_none(),
            decreases size - i,
        {
            slots.set(i, self.slots[i]);
            i = i + 1;
        }
        let r = ArrayObj { slots, size };
        assert(r.items() =~= self.items());
        r
    }

    /// The slot of the item at the given index.
    fn read(&self, index: usize) -> (r: AnyCell)
        requires
            index < self.items().len(),
        ensures
            r == self.items()[index as int],
    {
        proof { use_type_invariant(self); }
        self.slots[index]
    }

    /// Moves the buffer and the size out of this object, which is left
    /// empty until the caller puts an object back.
    fn take_parts(&mut self) -> (r: (Vec<AnyCell>, usize))
        ensures
            r.0@ == old(self).slots@,
            r.1 == old(self).size,
            r.1 <= r.0.len(),
            forall|i: int| r.1 <= i < r.0.len() ==> #[trigger] r.0@[i] == AnyCell::spec_none(),
    {
        proof { use_type_invariant(&*self); }
        let mut taken = ArrayObj { slots: Vec::new(), size: 0 };
        std::mem::swap(self, &mut taken);
        let ArrayObj { slots, size } = taken;
        (slots, size)
    }

    /// Writes a cell into the first spare slot.
    fn push_cell(&mut self, cell: AnyCell)
        requires
            old(self).items().len() < old(self).spec_capacity(),
        ensures
            final(self).items() == old(self).items().push(cell),
            final(self).spec_capacity() == old(self).spec_capacity(),
    {
        proof { use_type_invariant(&*self); }
        let (mut slots, size) = self.take_parts();
        slots.set(size, cell);
        *self = ArrayObj { slots, size: size + 1 };
        assert(self.items() =~= old(self).items().push(cell));
    }

    /// Shifts the items from the given index on one slot to the right, and
    /// writes the cell into the hole.
    fn insert_cell(&mut self, index: usize, cell: AnyCell)
        requires
            index <= old(self).items().len(),
            old(self).items().len() < old(self).spec_capacity(),
        ensures
            final(self).items() == old(self).items().insert(index as int, cell),
            final(self).spec_capacity() == old(self).spec_capacity(),
    {
        proof { use_type_invariant(&*self); }
        let (mut slots, size) = self.take_parts();
        let ghost before = slots@;
        let mut j: usize = size;
        while j > index
            invariant
                index <= j <= size,
                size < before.len(),
                slots.len() == before.len(),
                forall|k: int| 0 <= k < index ==> #[trigger] slots@[k] == before[k],
                forall|k: int| index <= k <= j ==> #[trigger] slots@[k] == before[k],
                forall|k: int| j < k <= size ==> #[trigger] slots@[k] == before[k - 1],
                forall|k: int| size < k < slots.len() ==> #[trigger] slots@[k] == before[k],
                forall|k: int| size <= k < before.len() ==> #[trigger] before[k] == AnyCell::spec_none(),
            decreases j,
        {
            let moved = slots[j - 1];
            slots.set(j, moved);
            j = j - 1;
        }
        slots.set(index, cell);
        *self = ArrayObj { slots, size: size + 1 };
        assert(self.items() =~= old(self).items().insert(index as int, cell));
    }

    /// Takes the cell at the given index out, shifts the items after it one
    /// slot to the left, and empties the slot that falls free.
    fn remove_cell(&mut self, index: usize) -> (r: AnyCell)
        requires
            index < old(self).items().len(),
        ensures
            r == old(self).items()[index as int],
            final(self).items() == old(self).items().remove(index as int),
            final(self).spec_capacity() == old(self).spec_capacity(),
    {
        proof { use_type_invariant(&*self); }
        let (mut slots, size) = self.take_parts();
        let ghost before = slots@;
        let r = slots[index];
        let mut j: usize = index;
        while j + 1 < size
            invariant
                index <= j < size,
                size <= before.len(),
                slots.len() == before.len(),
                forall|k: int| 0 <= k < index ==> #[trigger] slots@[k] == before[k],
                forall|k: int| index <= k < j ==> #[trigger] slots@[k] == before[k + 1],
                forall|k: int| j <= k < slots.len() ==> #[trigger] slots@[k] == before[k],
            decreases size - j,
        {
            let moved = slots[j + 1];
            slots.set(j, moved);
            j = j + 1;
        }
        slots.set(size - 1, AnyCell::none());
        *self = ArrayObj { slots, size: size - 1 };
        assert(self.items() =~= old(self).items().remove(index as int));
        r
    }

    /// Empties every slot that holds an item.
    fn clear_cells(&mut self)
        ensures
            final(self).items() == Seq::<AnyCell>::empty(),
            final(self).spec_capacity() == old(self).spec_capacity(),
    {
        let (mut slots, size) = self.take_parts();
        let ghost len = slots.len();
        let mut i: usize = 0;
        while i < size
            invariant
                i <= size,
                size <= len,
                slots.len() == len,
                forall|k: int| 0 <= k < i ==> #[trigger] slots@[k] == AnyCell::spec_none(),
                forall|k: int| size <= k < len ==> #[trigger] slots@[k] == AnyCell::spec_none(),
            decreases size - i,
        {
            slots.set(i, AnyCell::none());
            i = i + 1;
        }
        *self = ArrayObj { slots, size: 0 };
        assert(self.items() =~= Seq::<AnyCell>::empty());
    }

    /// The number of items; it never exceeds the capacity.
    pub fn size(&self) -> (r: usize)
        ensures
            r == self.items().len(),
            r <= self.spec_capacity(),
    {
        proof { use_type_invariant(self); }
        self.size
    }

    /// The number of slots in the buffer.
    pub fn capacity(&self) -> (r: usize)
        ensures
            r == self.spec_capacity(),
    {
        self.slots.len()
    }

    /// The number of slots that hold items.
    pub fn extra_items_count(&self) -> (r: usize)
        ensures
            r == self.items().len(),
    {
        proof { use_type_invariant(self); }
        self.size
    }
}

/// The handles of the objects that the slots refer to, in order, skipping
/// the slots that hold plain values.
pub open spec fn object_handles_of(cells: Seq<AnyCell>) -> Seq<u64>
    decreases cells.len(),
{
    if cells.len() == 0 {
        Seq::empty()
    } else {
        let rest = object_handles_of(cells.drop_last());
        if cells.last().spec_is_object() {
            rest.push(cells.last().handle)
        } else {
            rest
        }
    }
}

impl ArrayObj {
    /// The handles of the objects that the items refer to, in order: the
    /// references that releasing this object gives up, each once. Slots
    /// that hold plain values, and the spare slots, hold none.
    pub fn object_handles(&self) -> (r: Vec<u64>)
        ensures
            r@ == object_handles_of(self.items()),
    {
        let size = self.size();
        let mut r: Vec<u64> = Vec::new();
        let mut i: usize = 0;
        while i < size
            invariant
                size == self.items().len(),
                i <= size,
                r@ == object_handles_of(self.items().subrange(0, i as int)),
            decreases size - i,
        {
            let cell = self.read(i);
            proof {
                assert(self.items().subrange(0, i + 1).drop_last() =~= self.items().subrange(0, i as int));
            }
            if cell.is_object() {
                r.push(cell.handle);
            }
            i = i + 1;
        }
        proof {
            assert(self.items().subrange(0, size as int) =~= self.items());
        }
        r
    }
}

impl Clone for ArrayObj {
    /// A copy with the same items in a buffer of the same capacity.
    fn clone(&self) -> (r: Self)
        ensures
            r.items() == self.items(),
            r.spec_capacity() == self.spec_capacity(),
    {
        proof { use_type_invariant(self); }
        self.copy_with_capacity(self.slots.len())
    }
}

/// `Rc::make_mut`: a mutable reference to the value behind the pointer.
/// Where other pointers share the allocation, the value is first cloned
/// into a new allocation that this pointer then owns alone; else the value
/// is the one already there. What the pointer holds afterwards is what is
/// written through the reference.
#[verifier::external_body]
fn rc_make_mut<V: Clone>(rc: &mut Rc<V>) -> (r: &mut V)
    ensures
        *r == **old(rc) || cloned::<V>(**old(rc), *r),
        **final(rc) == *final(r),
{
    Rc::make_mut(rc)
}

/// A typed array of object references, held in an array object behind a
/// reference-counted pointer that clones share. Every mutation goes through
/// `Rc::make_mut`, so an object that other pointers share is copied first.
pub struct Array<T: ObjectRefCore> {
    data: Rc<ArrayObj>,
    _marker: PhantomData<T>,
}

impl<T: ObjectRefCore> View for Array<T> {
    type V = Seq<AnyCell>;

    closed spec fn view(&self) -> Seq<AnyCell> {
        self.data.items()
    }
}

/// What reading a slot back gives: a reference to its object where it holds
/// one, else a type error that names its type index.
pub open spec fn read_outcome<T: ObjectRefCore>(cell: AnyCell, r: Result<T, Error>) -> bool {
    if cell.spec_is_object() {
        r matches Ok(v) && v.handle() == cell.handle
    } else {
        r == Err::<T, Error>(Error::ExpectedStaticObject { found: cell.type_index })
    }
}

/// What reading a slot back gives where a type error shows as `None`.
pub open spec fn read_option_outcome<T: ObjectRefCore>(cell: AnyCell, r: Option<T>) -> bool {
    if cell.spec_is_object() {
        r matches Some(v) && v.handle() == cell.handle
    } else {
        r is None
    }
}

/// Whether adding an item to an array of this size and capacity moves it to
/// a larger buffer.
pub open spec fn needs_growth(size: nat, capacity: nat) -> bool {
    size >= capacity
}

/// The capacity of the buffer that a full buffer of this capacity grows to.
pub open spec fn grown_capacity(capacity: nat) -> nat {
    if capacity == 0 {
        4
    } else {
        2 * capacity
    }
}

/// The capacity after one item is added to an array of this size and
/// capacity.
pub open spec fn capacity_after_add(size: nat, capacity: nat) -> nat {
    if needs_growth(size, capacity) {
        grown_capacity(capacity)
    } else {
        capacity
    }
}

/// The capacity after `n` items are added one by one to an array of this
/// size and capacity.
pub open spec fn capacity_after_adds(size: nat, capacity: nat, n: nat) -> nat
    decreases n,
{
    if n == 0 {
        capacity
    } else {
        capacity_after_adds(size + 1, capacity_after_add(size, capacity), (n - 1) as nat)
    }
}

/// Adding items never shrinks the capacity.
pub proof fn lemma_capacity_after_adds_monotone(size: nat, capacity: nat, n: nat)
    ensures
        capacity <= capacity_after_adds(size, capacity, n),
    decreases n,
{
    if n > 0 {
        lemma_capacity_after_adds_monotone(
            size + 1,
            capacity_after_add(size, capacity),
            (n - 1) as nat,
        );
    }
}

/// Where some items are still to come, the capacity after all of them bounds
/// the capacity after the next one.
proof fn lemma_capacity_after_adds_covers(size: nat, capacity: nat, n: nat)
    requires
        n > 0,
    ensures
        capacity_after_add(size, capacity) <= capacity_after_adds(size, capacity, n),
{
    lemma_capacity_after_adds_monotone(
        size + 1,
        capacity_after_add(size, capacity),
        (n - 1) as nat,
    );
}

/// The slots that hold the given references, in order.
pub open spec fn cells_of<T: ObjectRefCore>(items: Seq<T>) -> Seq<AnyCell> {
    items.map_values(|t: T| cell_of(t))
}

impl<T: ObjectRefCore> Array<T> {
    /// The number of slots in the buffer of the array object.
    pub closed spec fn spec_capacity(&self) -> nat {
        self.data.spec_capacity()
    }

    /// Creates an array that holds the given items, with no spare slot.
    pub fn new(items: Vec<T>) -> (r: Self)
        ensures
            r@ == cells_of(items@),
            r@.len() == items.len(),
            forall|i: int|
                0 <= i < items.len() ==> #[trigger] r@[i] == (AnyCell {
                    type_index: T::spec_type_index(),
                    handle: items@[i].handle(),
                }),
            r.spec_capacity() == items.len(),
    {
        let capacity = items.len();
        Self::new_with_capacity(items, capacity)
    }

    /// Creates an array that holds the given items in a buffer of the given
    /// capacity.
    fn new_with_capacity(items: Vec<T>, capacity: usize) -> (r: Self)
        requires
            items.len() <= capacity,
        ensures
            r@ == cells_of(items@),
            r.spec_capacity() == capacity,
    {
        let size = items.len();
        let ghost seq = items@;
        let mut slots = none_slots(capacity);
        let mut i: usize = 0;
        for item in it: items.into_iter()
            invariant
                i == it.index(),
                it.seq() == seq,
                size == seq.len(),
                size <= capacity,
                slots.len() == capacity,
                forall|j: int| 0 <= j < i ==> #[trigger] slots@[j] == cell_of(seq[j]),
                forall|j: int| i <= j < capacity ==> #[trigger] slots@[j] == AnyCell::spec_none(),
        {
            let cell = AnyCell { type_index: T::type_index(), handle: item.into_handle() };
            slots.set(i, cell);
            i = i + 1;
        }
        let obj = ArrayObj { slots, size };
        assert(obj.items() =~= cells_of(seq));
        Array { data: Rc::new(obj), _marker: PhantomData }
    }

    /// Makes this array the only owner of its array object, copying the
    /// object (same items, same capacity) where other arrays share it, and
    /// returns it for mutation.
    fn ensure_unique(&mut self) -> (obj: &mut ArrayObj)
        ensures
            obj.items() == old(self)@,
            obj.spec_capacity() == old(self).spec_capacity(),
            final(self)@ == final(obj).items(),
            final(self).spec_capacity() == final(obj).spec_capacity(),
    {
        rc_make_mut(&mut self.data)
    }

    /// Appends an item. Where the buffer is full, the items move to a new
    /// buffer of twice the capacity (four slots where it had none).
    pub fn push(&mut self, item: T)
        requires
            needs_growth(old(self)@.len(), old(self).spec_capacity()) ==> grown_capacity(
                old(self).spec_capacity(),
            ) <= usize::MAX,
        ensures
            final(self)@ == old(self)@.push(cell_of(item)),
            final(self)@[old(self)@.len() as int] == (AnyCell {
                type_index: T::spec_type_index(),
                handle: item.handle(),
            }),
            final(self).spec_capacity() == capacity_after_add(
                old(self)@.len(),
                old(self).spec_capacity(),
            ),
    {
        let obj = self.ensure_unique();
        let cell = AnyCell { type_index: T::type_index(), handle: item.into_handle() };
        let current_size = obj.size();
        let current_cap = obj.capacity();
        if current_size < current_cap {
            obj.push_cell(cell);
        } else {
            let new_cap = if current_cap == 0 { 4 } else { current_cap * 2 };
            *obj = obj.copy_with_capacity(new_cap);
            obj.push_cell(cell);
        }
    }

    /// Inserts an item at the given index, shifting the items from there on
    /// one place to the right; an index past the end is an index error.
    pub fn insert(&mut self, index: usize, item: T) -> (r: Result<(), Error>)
        requires
            index <= old(self)@.len() && needs_growth(old(self)@.len(), old(self).spec_capacity())
                ==> grown_capacity(old(self).spec_capacity()) <= usize::MAX,
        ensures
            index > old(self)@.len() ==> {
                &&& r == Err::<(), Error>(Error::IndexOutOfBound { op: ArrayOp::Insert })
                &&& final(self)@ == old(self)@
                &&& final(self).spec_capacity() == old(self).spec_capacity()
            },
            index <= old(self)@.len() ==> {
                &&& r == Ok::<(), Error>(())
                &&& final(self)@ == old(self)@.insert(index as int, cell_of(item))
                &&& final(self)@[index as int] == (AnyCell {
                    type_index: T::spec_type_index(),
                    handle: item.handle(),
                })
                &&& final(self).spec_capacity() == capacity_after_add(
                    old(self)@.len(),
                    old(self).spec_capacity(),
                )
            },
    {
        let obj = self.ensure_unique();
        let current_size = obj.size();
        let current_cap = obj.capacity();
        if index > current_size {
            return Err(Error::IndexOutOfBound { op: ArrayOp::Insert });
        }
        let cell = AnyCell { type_index: T::type_index(), handle: item.into_handle() };
        if current_size < current_cap {
            obj.insert_cell(index, cell);
        } else {
            let new_cap = if current_cap == 0 { 4 } else { current_cap * 2 };
            *obj = obj.copy_with_capacity(new_cap);
            obj.insert_cell(index, cell);
        }
        Ok(())
    }

    /// Reads a slot back as a reference: a reference to its object, or a
    /// type error where the slot does not hold an object.
    fn read_cell(cell: &AnyCell) -> (r: Result<T, Error>)
        ensures
            read_outcome(*cell, r),
    {
        if cell.is_object() {
            Ok(T::from_handle(cell.handle))
        } else {
            Err(Error::ExpectedStaticObject { found: cell.type_index })
        }
    }

    /// A reference to the object at the given index; an index past the end
    /// is an index error, and a slot that holds no object a type error.
    pub fn get(&self, index: usize) -> (r: Result<T, Error>)
        ensures
            index >= self@.len() ==> r == Err::<T, Error>(Error::IndexOutOfBound { op: ArrayOp::Get }),
            index < self@.len() ==> read_outcome(self@[index as int], r),
            index < self@.len() && self@[index as int].type_index >= STATIC_OBJECT_BEGIN ==> (r matches Ok(
                v,
            ) && v.handle() == self@[index as int].handle),
            index < self@.len() && self@[index as int].type_index < STATIC_OBJECT_BEGIN ==> r == Err::<
                T,
                Error,
            >(Error::ExpectedStaticObject { found: self@[index as int].type_index }),
    {
        if index >= self.data.size() {
            return Err(Error::IndexOutOfBound { op: ArrayOp::Get });
        }
        let cell = self.data.read(index);
        Self::read_cell(&cell)
    }

    /// Removes the last item and returns a reference to its object; `None`
    /// where the array is empty, or where the last slot holds no object.
    pub fn pop(&mut self) -> (r: Option<T>)
        ensures
            old(self)@.len() == 0 ==> r is None && final(self)@ == old(self)@,
            old(self)@.len() > 0 ==> {
                &&& final(self)@ == old(self)@.drop_last()
                &&& read_option_outcome(old(self)@.last(), r)
                &&& old(self)@.last().type_index >= STATIC_OBJECT_BEGIN ==> (r matches Some(v)
                    && v.handle() == old(self)@.last().handle)
                &&& old(self)@.last().type_index < STATIC_OBJECT_BEGIN ==> r is None
            },
            final(self).spec_capacity() == old(self).spec_capacity(),
    {
        let obj = self.ensure_unique();
        let size = obj.size();
        if size == 0 {
            return None;
        }
        let last_index = size - 1;
        let cell = obj.remove_cell(last_index);
        proof {
            assert(old(self)@.remove(last_index as int) =~= old(self)@.drop_last());
        }
        Self::read_cell(&cell).ok()
    }

    /// Removes the item at the given index, shifting the items after it one
    /// place to the left, and returns a reference to its object; an index
    /// past the end is an index error.
    pub fn remove(&mut self, index: usize) -> (r: Result<T, Error>)
        requires
            index < old(self)@.len() ==> old(self)@[index as int].spec_is_object(),
        ensures
            index >= old(self)@.len() ==> {
                &&& r == Err::<T, Error>(Error::IndexOutOfBound { op: ArrayOp::Remove })
                &&& final(self)@ == old(self)@
            },
            index < old(self)@.len() ==> {
                &&& r matches Ok(v) && v.handle() == old(self)@[index as int].handle
                &&& final(self)@ == old(self)@.remove(index as int)
            },
            final(self).spec_capacity() == old(self).spec_capacity(),
    {
        let obj = self.ensure_unique();
        if index >= obj.size() {
            return Err(Error::IndexOutOfBound { op: ArrayOp::Remove });
        }
        let cell = obj.remove_cell(index);
        Ok(T::from_handle(cell.handle))
    }

    /// Removes every item; the capacity stays.
    pub fn clear(&mut self)
        ensures
            final(self)@ == Seq::<AnyCell>::empty(),
            final(self).spec_capacity() == old(self).spec_capacity(),
    {
        let obj = self.ensure_unique();
        obj.clear_cells();
    }

    /// An iterator over references to the objects of the array, in order.
    pub fn iter(&self) -> (r: ArrayIterator<'_, T>)
        ensures
            r.position() == 0,
            r.cells() == self@,
    {
        ArrayIterator { array: self, index: 0, len: self.len() }
    }

    /// Appends the items in order, one push each.
    pub fn extend(&mut self, items: Vec<T>)
        requires
            capacity_after_adds(old(self)@.len(), old(self).spec_capacity(), items.len() as nat)
                <= usize::MAX,
        ensures
            final(self)@ == old(self)@ + cells_of(items@),
            final(self).spec_capacity() == capacity_after_adds(
                old(self)@.len(),
                old(self).spec_capacity(),
                items.len() as nat,
            ),
    {
        let ghost seq = items@;
        let ghost n = items.len() as nat;
        let ghost target = capacity_after_adds(self@.len(), self.spec_capacity(), n);
        let mut i: usize = 0;
        for item in it: items.into_iter()
            invariant
                i == it.index(),
                it.seq() == seq,
                n == seq.len(),
                n <= usize::MAX,
                self@ == old(self)@ + cells_of(seq.subrange(0, i as int)),
                capacity_after_adds(self@.len(), self.spec_capacity(), (n - i) as nat) == target,
                target == capacity_after_adds(old(self)@.len(), old(self).spec_capacity(), n),
                target <= usize::MAX,
        {
            proof {
                lemma_capacity_after_adds_covers(self@.len(), self.spec_capacity(), (n - i) as nat);
                assert(seq.subrange(0, i + 1) =~= seq.subrange(0, i as int).push(seq[i as int]));
                assert(cells_of(seq.subrange(0, i + 1)) =~= cells_of(seq.subrange(0, i as int)).push(cell_of(seq[i as int])));
            }
            self.push(item);
            i = i + 1;
        }
        proof {
            assert(seq.subrange(0, n as int) =~= seq);
        }
    }

    /// The number of items; it never exceeds the capacity.
    pub fn len(&self) -> (r: usize)
        ensures
            r == self@.len(),
            r <= self.spec_capacity(),
    {
        self.data.size()
    }

    /// Whether the array holds no item.
    pub fn is_empty(&self) -> (r: bool)
        ensures
            r <==> self@.len() == 0,
    {
        self.len() == 0
    }

    /// The number of slots in the buffer of the array object.
    pub fn capacity(&self) -> (r: usize)
        ensures
            r == self.spec_capacity(),
    {
        self.data.capacity()
    }
}

impl<T: ObjectRefCore> Array<T> {
    /// The array object this array refers to.
    pub fn data(&self) -> (r: &Rc<ArrayObj>)
        ensures
            r.items() == self@,
            r.spec_capacity() == self.spec_capacity(),
    {
        &self.data
    }

    /// Gives up this array and returns the array object it refers to.
    pub fn into_data(self) -> (r: Rc<ArrayObj>)
        ensures
            r.items() == self@,
            r.spec_capacity() == self.spec_capacity(),
    {
        self.data
    }

    /// An array that refers to the given array object.
    pub fn from_data(data: Rc<ArrayObj>) -> (r: Self)
        ensures
            r@ == data.items(),
            r.spec_capacity() == data.spec_capacity(),
    {
        Array { data, _marker: PhantomData }
    }
}

impl<T: ObjectRefCore> Clone for Array<T> {
    /// Another array that shares the same array object.
    fn clone(&self) -> (r: Self)
        ensures
            r@ == self@,
            r.spec_capacity() == self.spec_capacity(),
    {
        Array { data: self.data.clone(), _marker: PhantomData }
    }
}

/// The slots that the given slots convert to as references of type `T`.
pub open spec fn recast_cells<T: AnyCompatible>(cells: Seq<AnyCell>) -> Seq<AnyCell> {
    cells.map_values(|c: AnyCell| AnyCell { type_index: T::spec_type_index(), handle: T::cast_handle(c) })
}

/// Whether every slot holds a value of exactly type `T`.
pub open spec fn all_accepted<T: AnyCompatible>(cells: Seq<AnyCell>) -> bool {
    forall|i: int| 0 <= i < cells.len() ==> T::accepts(#[trigger] cells[i])
}

/// Whether every slot holds a value that converts to type `T`.
pub open spec fn all_converted<T: AnyCompatible>(cells: Seq<AnyCell>) -> bool {
    forall|i: int| 0 <= i < cells.len() ==> T::converts(#[trigger] cells[i])
}

/// Whether a value refers to an array object whose items and capacity are
/// these.
pub open spec fn holds_array(data: AnyValue, items: Seq<AnyCell>, capacity: nat) -> bool {
    data.is_array() && data.array_items() == items && data.array_capacity() == capacity
}

/// Whether the value converts to an array of `T`: it refers to an array
/// object whose every item is exactly a `T`, or whose every item converts to
/// one.
pub open spec fn castable<T: AnyCompatible>(data: AnyValue) -> bool {
    data.is_array() && (all_accepted::<T>(data.array_items()) || all_converted::<T>(
        data.array_items(),
    ))
}

/// The items and capacity of the array that a conversion of the value to an
/// array of `T` gives: those of the same array object where every item is
/// exactly a `T`, else the items converted one by one, with no spare slot.
pub open spec fn cast_result<T: AnyCompatible>(data: AnyValue, items: Seq<AnyCell>, capacity: nat) -> bool {
    &&& data.is_array()
    &&& if all_accepted::<T>(data.array_items()) {
        items == data.array_items() && capacity == data.array_capacity()
    } else {
        items == recast_cells::<T>(data.array_items()) && capacity == data.array_items().len()
    }
}

impl<T: AnyCompatible> Array<T> {
    /// The name of the type.
    pub fn type_str() -> (r: String)
        ensures
            r@ == "Array"@,
    {
        "Array".to_string()
    }

    /// Whether the value refers to an array object whose every item is a
    /// value of exactly type `T`.
    pub fn check_any_strict(data: &AnyValue) -> (r: bool)
        ensures
            r <==> (data.is_array() && all_accepted::<T>(data.array_items())),
            r <==> (data.is_array() && forall|i: int|
                0 <= i < data.array_items().len() ==> T::accepts(#[trigger] data.array_items()[i])),
    {
        match data.array_ref() {
            Some(obj) => {
                let size = obj.size();
                let mut i: usize = 0;
                while i < size
                    invariant
                        obj.items() == data.array_items(),
                        size == obj.items().len(),
                        i <= size,
                        forall|j: int| 0 <= j < i ==> T::accepts(#[trigger] obj.items()[j]),
                    decreases size - i,
                {
                    let cell = obj.read(i);
                    if !T::check_any_strict(&cell) {
                        assert(!T::accepts(obj.items()[i as int]));
                        return false;
                    }
                    i = i + 1;
                }
                true
            },
            None => false,
        }
    }

    /// Writes into `data` a view of this array: it borrows the array's
    /// pointer to its array object and takes no reference of its own.
    pub fn copy_to_any_view<'a>(src: &'a Self, data: &mut AnyValue<'a>)
        ensures
            *final(data) is ArrayView,
            holds_array(*final(data), src@, src.spec_capacity()),
    {
        *data = AnyValue::ArrayView(&src.data);
    }

    /// Moves this array, and with it its reference to the array object,
    /// into `data`.
    pub fn move_to_any(src: Self, data: &mut AnyValue)
        ensures
            *final(data) is Array,
            holds_array(*final(data), src@, src.spec_capacity()),
    {
        let obj = src.into_data();
        *data = AnyValue::Array(obj);
    }

    /// An array that takes a new reference to the array object that `data`
    /// refers to.
    pub fn copy_from_any_view_after_check(data: &AnyValue) -> (r: Self)
        requires
            data.is_array(),
        ensures
            holds_array(*data, r@, r.spec_capacity()),
    {
        match data.array_ref() {
            Some(obj) => Self::from_data(obj.clone()),
            None => {
                proof { assert(false); }
                Self::new(Vec::new())
            },
        }
    }

    /// An array that refers to the array object that `data` refers to;
    /// `data` itself is left as it is.
    pub fn move_from_any_after_check(data: &mut AnyValue) -> (r: Self)
        requires
            old(data).is_array(),
        ensures
            holds_array(*old(data), r@, r.spec_capacity()),
            *final(data) == *old(data),
    {
        match data.array_ref() {
            Some(obj) => Self::from_data(obj.clone()),
            None => {
                proof { assert(false); }
                Self::new(Vec::new())
            },
        }
    }

    /// Converts the value to an array of `T`: the same array object where
    /// every item is exactly a `T`, else a new array of the items converted
    /// one by one; an error where the value is no array or an item does not
    /// convert.
    pub fn try_cast_from_any_view(data: &AnyValue) -> (r: Result<Self, ()>)
        ensures
            r is Ok <==> castable::<T>(*data),
            r matches Ok(a) ==> cast_result::<T>(*data, a@, a.spec_capacity()),
    {
        if Self::check_any_strict(data) {
            return Ok(Self::copy_from_any_view_after_check(data));
        }
        match data.array_ref() {
            Some(obj) => {
                let size = obj.size();
                let mut new_items: Vec<T> = Vec::new();
                let mut i: usize = 0;
                while i < size
                    invariant
                        obj.items() == data.array_items(),
                        !all_accepted::<T>(obj.items()),
                        size == obj.items().len(),
                        i <= size,
                        new_items.len() == i,
                        forall|j: int| 0 <= j < i ==> T::converts(#[trigger] obj.items()[j]),
                        forall|j: int|
                            0 <= j < i ==> (#[trigger] new_items@[j]).handle() == T::cast_handle(obj.items()[j]),
                    decreases size - i,
                {
                    let cell = obj.read(i);
                    match T::try_cast_from_any_view(&cell) {
                        Ok(converted) => new_items.push(converted),
                        Err(_) => {
                            assert(!T::converts(obj.items()[i as int]));
                            return Err(());
                        },
                    }
                    i = i + 1;
                }
                let r = Array::new(new_items);
                assert(r@ =~= recast_cells::<T>(obj.items()));
                Ok(r)
            },
            None => Err(()),
        }
    }

    /// Converts the value to an array of `T`, as `try_cast_from_any_view`
    /// does, taking the value; a failed conversion is a type error that
    /// names the value's type index.
    pub fn try_from_any(value: AnyValue) -> (r: Result<Self, Error>)
        ensures
            r is Ok <==> castable::<T>(value),
            r matches Ok(a) ==> cast_result::<T>(value, a@, a.spec_capacity()),
            r matches Err(e) ==> e == (Error::CannotConvert { found: value.spec_type_index() }),
    {
        Self::try_from_any_view(&value)
    }

    /// Converts the value to an array of `T`, as `try_cast_from_any_view`
    /// does; a failed conversion is a type error that names the value's
    /// type index.
    pub fn try_from_any_view(value: &AnyValue) -> (r: Result<Self, Error>)
        ensures
            r is Ok <==> castable::<T>(*value),
            r matches Ok(a) ==> cast_result::<T>(*value, a@, a.spec_capacity()),
            r matches Err(e) ==> e == (Error::CannotConvert { found: value.spec_type_index() }),
    {
        match Self::try_cast_from_any_view(value) {
            Ok(a) => Ok(a),
            Err(_) => Err(Error::CannotConvert { found: value.type_index() }),
        }
    }
}

/// An iterator over an array that hands out a reference per item. It gives
/// `None` at the end of the array, and also at a slot that holds no object,
/// which it moves past.
pub struct ArrayIterator<'a, T: ObjectRefCore> {
    array: &'a Array<T>,
    index: usize,
    len: usize,
}

impl<'a, T: ObjectRefCore> ArrayIterator<'a, T> {
    #[verifier::type_invariant]
    spec fn inv(self) -> bool {
        &&& self.index <= self.len
        &&& self.len == self.array@.len()
    }

    /// The index of the next item.
    pub closed spec fn position(&self) -> nat {
        self.index as nat
    }

    /// The slots of the array being walked.
    pub closed spec fn cells(&self) -> Seq<AnyCell> {
        self.array@
    }

    /// A reference to the next object, or `None` at the end of the array
    /// and at a slot that holds no object.
    pub fn next(&mut self) -> (r: Option<T>)
        ensures
            final(self).cells() == old(self).cells(),
            old(self).position() < old(self).cells().len() ==> {
                &&& final(self).position() == old(self).position() + 1
                &&& read_option_outcome(old(self).cells()[old(self).position() as int], r)
                &&& old(self).cells()[old(self).position() as int].type_index >= STATIC_OBJECT_BEGIN
                    ==> (r matches Some(v) && v.handle() == old(self).cells()[old(
                    self,
                ).position() as int].handle)
                &&& old(self).cells()[old(self).position() as int].type_index < STATIC_OBJECT_BEGIN
                    ==> r is None
            },
            old(self).position() >= old(self).cells().len() ==> {
                &&& r is None
                &&& final(self).position() == old(self).position()
            },
    {
        proof { use_type_invariant(&*self); }
        if self.index < self.len {
            let item = self.array.get(self.index).ok();
            self.index = self.index + 1;
            item
        } else {
            None
        }
    }
}

} // verus!
