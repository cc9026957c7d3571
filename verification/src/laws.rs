//! Laws that relate the array operations to one another, stated over the
//! views and spec functions that the operations' contracts use.

use vstd::prelude::*;

use crate::any::{cell_of, AnyCell, AnyCompatible, AnyValue, ObjectRef, ObjectRefCore};
use crate::type_index::STATIC_OBJECT_BEGIN;
use crate::array::{
    all_accepted, cast_result, castable, capacity_after_add, capacity_after_adds, cells_of, grown_capacity,
    object_handles_of, read_option_outcome, read_outcome, recast_cells,
};
use crate::error::Error;

verus! {

/// Reading back the slot that a push wrote gives the pushed reference, and
/// popping it restores the items as they were before the push.
pub proof fn law_push_then_pop(items: Seq<AnyCell>, cell: AnyCell)
    ensures
        items.push(cell)[items.len() as int] == cell,
        items.push(cell).last() == cell,
        items.push(cell).drop_last() == items,
{
    assert(items.push(cell).drop_last() =~= items);
}

/// Removing at the index of an insertion gives back the inserted slot and
/// restores the items as they were before the insertion.
pub proof fn law_insert_then_remove(items: Seq<AnyCell>, index: int, cell: AnyCell)
    requires
        0 <= index <= items.len(),
    ensures
        items.insert(index, cell)[index] == cell,
        items.insert(index, cell).remove(index) == items,
{
    assert(items.insert(index, cell).remove(index) =~= items);
}

/// Inserting the removed slot back at its index restores the items.
pub proof fn law_remove_then_insert(items: Seq<AnyCell>, index: int)
    requires
        0 <= index < items.len(),
    ensures
        items.remove(index).insert(index, items[index]) == items,
{
    assert(items.remove(index).insert(index, items[index]) =~= items);
}

/// An insertion at the end is a push.
pub proof fn law_insert_at_end_is_push(items: Seq<AnyCell>, cell: AnyCell)
    ensures
        items.insert(items.len() as int, cell) == items.push(cell),
{
    assert(items.insert(items.len() as int, cell) =~= items.push(cell));
}

/// A new array holds, at each index, the slot of the reference given at
/// that index.
pub proof fn law_new_then_get<T: ObjectRefCore>(items: Seq<T>, index: int)
    requires
        0 <= index < items.len(),
    ensures
        cells_of(items).len() == items.len(),
        cells_of(items)[index] == cell_of(items[index]),
{
}

/// Adding an item never shrinks the capacity, and always leaves room for
/// the items: the size never exceeds the capacity.
pub proof fn law_add_keeps_room(size: nat, capacity: nat)
    requires
        size <= capacity,
    ensures
        capacity <= capacity_after_add(size, capacity),
        size + 1 <= capacity_after_add(size, capacity),
        capacity_after_add(size, capacity) != capacity ==> capacity_after_add(size, capacity)
            == grown_capacity(capacity) && size == capacity,
{
}

/// Adding items one by one never shrinks the capacity, and leaves room for
/// all of them.
pub proof fn law_adds_keep_room(size: nat, capacity: nat, n: nat)
    requires
        size <= capacity,
    ensures
        capacity <= capacity_after_adds(size, capacity, n),
        size + n <= capacity_after_adds(size, capacity, n),
    decreases n,
{
    if n > 0 {
        law_adds_keep_room(size + 1, capacity_after_add(size, capacity), (n - 1) as nat);
    }
}

/// Where every slot already carries the type index of `T` and converts to
/// the object it refers to, converting the slots one by one changes none of
/// them.
pub proof fn law_recast_exact<T: AnyCompatible>(cells: Seq<AnyCell>)
    requires
        forall|i: int| 0 <= i < cells.len() ==> (#[trigger] cells[i]).type_index == T::spec_type_index(),
        forall|i: int| 0 <= i < cells.len() ==> T::cast_handle(#[trigger] cells[i]) == cells[i].handle,
    ensures
        recast_cells::<T>(cells) == cells,
{
    assert(recast_cells::<T>(cells) =~= cells);
}

/// Whether every slot refers to an object.
pub open spec fn all_objects(cells: Seq<AnyCell>) -> bool {
    forall|i: int| 0 <= i < cells.len() ==> (#[trigger] cells[i]).spec_is_object()
}

/// The slot of a reference refers to an object, with the reference's handle.
pub proof fn law_cell_of_is_object<T: ObjectRefCore>(item: T)
    ensures
        cell_of(item).spec_is_object(),
        cell_of(item).handle == item.handle(),
{
    T::lemma_type_index_is_object();
}

/// After a push, reading the last index (by `get` or by `pop`) gives a
/// reference to the pushed item's object, and a pop restores the items.
pub proof fn law_push_then_read<T: ObjectRefCore>(items: Seq<AnyCell>, item: T, r: Result<T, Error>, o: Option<T>)
    ensures
        read_outcome(items.push(cell_of(item))[items.len() as int], r) <==> (r matches Ok(v) && v.handle() == item.handle()),
        read_option_outcome(items.push(cell_of(item)).last(), o) <==> (o matches Some(v) && v.handle() == item.handle()),
        items.push(cell_of(item)).drop_last() == items,
{
    T::lemma_type_index_is_object();
    assert(items.push(cell_of(item)).drop_last() =~= items);
}

/// After an insertion, the inserted slot refers to an object (so `remove`
/// accepts that index), reading it gives a reference to the inserted item's
/// object, and removing it restores the items.
pub proof fn law_insert_then_read<T: ObjectRefCore>(items: Seq<AnyCell>, index: int, item: T, r: Result<T, Error>)
    requires
        0 <= index <= items.len(),
    ensures
        items.insert(index, cell_of(item))[index].spec_is_object(),
        items.insert(index, cell_of(item))[index].handle == item.handle(),
        read_outcome(items.insert(index, cell_of(item))[index], r) <==> (r matches Ok(v) && v.handle() == item.handle()),
        items.insert(index, cell_of(item)).remove(index) == items,
{
    T::lemma_type_index_is_object();
    assert(items.insert(index, cell_of(item)).remove(index) =~= items);
}

/// The slots of references all refer to objects, and pushing or inserting
/// a reference keeps every slot referring to an object.
pub proof fn law_objects_kept<T: ObjectRefCore>(items: Seq<AnyCell>, refs: Seq<T>, index: int, item: T)
    requires
        0 <= index <= items.len(),
    ensures
        all_objects(cells_of(refs)),
        all_objects(items) ==> all_objects(items.push(cell_of(item))),
        all_objects(items) ==> all_objects(items.insert(index, cell_of(item))),
{
    T::lemma_type_index_is_object();
    if all_objects(items) {
        assert forall|i: int| 0 <= i < items.insert(index, cell_of(item)).len() implies (
        #[trigger] items.insert(index, cell_of(item))[i]).spec_is_object() by {
            if i < index {
                assert(items.insert(index, cell_of(item))[i] == items[i]);
            } else if i > index {
                assert(items.insert(index, cell_of(item))[i] == items[i - 1]);
            }
        }
        assert forall|i: int| 0 <= i < items.push(cell_of(item)).len() implies (
        #[trigger] items.push(cell_of(item))[i]).spec_is_object() by {
            if i < items.len() {
                assert(items.push(cell_of(item))[i] == items[i]);
            }
        }
    }
}

/// Extending by the items followed by one more is extending by the items
/// and then pushing that one: in the slots and in the capacity.
pub proof fn law_extend_is_pushes<T: ObjectRefCore>(items: Seq<AnyCell>, refs: Seq<T>, item: T, capacity: nat)
    ensures
        items + cells_of(refs.push(item)) == (items + cells_of(refs)).push(cell_of(item)),
        capacity_after_adds(items.len(), capacity, refs.len() + 1) == capacity_after_add(
            items.len() + refs.len(),
            capacity_after_adds(items.len(), capacity, refs.len()),
        ),
{
    assert(cells_of(refs.push(item)) =~= cells_of(refs).push(cell_of(item)));
    assert(items + cells_of(refs.push(item)) =~= (items + cells_of(refs)).push(cell_of(item)));
    lemma_adds_then_add(items.len(), capacity, refs.len());
}

/// Adding `n + 1` items one by one is adding `n` of them and then one more.
proof fn lemma_adds_then_add(size: nat, capacity: nat, n: nat)
    ensures
        capacity_after_adds(size, capacity, n + 1) == capacity_after_add(
            size + n,
            capacity_after_adds(size, capacity, n),
        ),
    decreases n,
{
    let c1 = capacity_after_add(size, capacity);
    assert(capacity_after_adds(size, capacity, n + 1) == capacity_after_adds(size + 1, c1, n));
    if n > 0 {
        lemma_adds_then_add(size + 1, c1, (n - 1) as nat);
        assert(((n - 1) as nat) + 1 == n);
        assert(capacity_after_adds(size, capacity, n) == capacity_after_adds(size + 1, c1, (n - 1) as nat));
    }
}

/// The strict check of an array looks at every slot, from the first to the
/// last: it passes exactly where `T` accepts the slot at every index, so a
/// slot that `T` does not accept, wherever it stands (the first one too),
/// makes it fail.
pub proof fn law_strict_check_covers_every_slot<T: AnyCompatible>(cells: Seq<AnyCell>, k: int)
    ensures
        all_accepted::<T>(cells) <==> (forall|i: int| 0 <= i < cells.len() ==> T::accepts(#[trigger] cells[i])),
        0 <= k < cells.len() && !T::accepts(cells[k]) ==> !all_accepted::<T>(cells),
        cells.len() > 0 && all_accepted::<T>(cells) ==> T::accepts(cells[0]),
{
}

/// A reference of the root type is a reference to any object: every slot
/// that refers to an object, whatever its object type, is accepted and
/// converts to a reference to that very object; a plain value is neither.
pub proof fn law_root_ref_takes_every_object(cell: AnyCell)
    ensures
        cell.type_index >= STATIC_OBJECT_BEGIN ==> ObjectRef::accepts(cell) && ObjectRef::converts(cell)
            && ObjectRef::cast_handle(cell) == cell.handle,
        cell.type_index < STATIC_OBJECT_BEGIN ==> !ObjectRef::accepts(cell) && !ObjectRef::converts(
            cell,
        ),
{
}

/// An array passes the strict check for the root reference type exactly
/// where every slot refers to an object.
pub proof fn law_root_strict_check_is_all_objects(cells: Seq<AnyCell>)
    ensures
        all_accepted::<ObjectRef>(cells) <==> (forall|i: int|
            0 <= i < cells.len() ==> (#[trigger] cells[i]).type_index >= STATIC_OBJECT_BEGIN),
{
}

/// The slot that a reference of type `T` is written to carries the type
/// index of `T` and the handle of the reference's object; so does every slot
/// of an array made from references of type `T`.
pub proof fn law_slot_of_reference<T: ObjectRefCore>(item: T, items: Seq<T>, i: int)
    ensures
        cell_of(item).type_index == T::spec_type_index(),
        cell_of(item).handle == item.handle(),
        0 <= i < items.len() ==> cells_of(items)[i].type_index == T::spec_type_index()
            && cells_of(items)[i].handle == items[i].handle(),
{
}

/// Reading a slot back: a slot that refers to an object, of whatever object
/// type, reads back as a reference to that object; a slot that holds a
/// plain value reads back as a type error that names its type index (or as
/// `None`).
pub proof fn law_read_back<T: ObjectRefCore>(cell: AnyCell, r: Result<T, Error>, o: Option<T>)
    ensures
        cell.type_index >= STATIC_OBJECT_BEGIN ==> {
            &&& read_outcome(cell, r) <==> (r matches Ok(v) && v.handle() == cell.handle)
            &&& read_option_outcome(cell, o) <==> (o matches Some(v) && v.handle() == cell.handle)
        },
        cell.type_index < STATIC_OBJECT_BEGIN ==> {
            &&& read_outcome(cell, r) <==> r == Err::<T, Error>(
                Error::ExpectedStaticObject { found: cell.type_index },
            )
            &&& read_option_outcome(cell, o) <==> o is None
        },
{
}

/// Releasing gives up one reference per slot that refers to an object: a
/// single slot gives up its object's handle where it refers to an object,
/// and nothing where it holds a plain value.
pub proof fn law_object_handles_single(cell: AnyCell)
    ensures
        cell.type_index >= STATIC_OBJECT_BEGIN ==> object_handles_of(seq![cell]) == seq![cell.handle],
        cell.type_index < STATIC_OBJECT_BEGIN ==> object_handles_of(seq![cell]) == Seq::<u64>::empty(),
{
    let one = seq![cell];
    assert(one.drop_last() =~= Seq::<AnyCell>::empty());
    assert(one.last() == cell);
    assert(object_handles_of(Seq::<AnyCell>::empty()) == Seq::<u64>::empty());
    assert(Seq::<u64>::empty().push(cell.handle) =~= seq![cell.handle]);
}

/// The references that a run of slots gives up are those of its first part
/// followed by those of the rest: every slot counts on its own, so an object
/// held in two slots is given up twice.
pub proof fn law_object_handles_append(s: Seq<AnyCell>, t: Seq<AnyCell>)
    ensures
        object_handles_of(s + t) == object_handles_of(s) + object_handles_of(t),
    decreases t.len(),
{
    if t.len() == 0 {
        assert(s + t =~= s);
        assert(object_handles_of(s) + object_handles_of(t) =~= object_handles_of(s));
    } else {
        law_object_handles_append(s, t.drop_last());
        assert((s + t).drop_last() =~= s + t.drop_last());
        assert((s + t).last() == t.last());
        if t.last().spec_is_object() {
            assert(object_handles_of(s) + object_handles_of(t) =~= (object_handles_of(s)
                + object_handles_of(t.drop_last())).push(t.last().handle));
        } else {
            assert(object_handles_of(s) + object_handles_of(t) =~= object_handles_of(s)
                + object_handles_of(t.drop_last()));
        }
    }
}

/// The growth policy: adding to an array with a spare slot keeps the
/// capacity; adding to a full array grows a buffer of no slot to four, and
/// any other to twice its capacity.
pub proof fn law_growth_policy(size: nat, capacity: nat)
    ensures
        size < capacity ==> capacity_after_add(size, capacity) == capacity,
        size >= capacity && capacity == 0 ==> capacity_after_add(size, capacity) == 4,
        size >= capacity && capacity > 0 ==> capacity_after_add(size, capacity) == 2 * capacity,
{
}

/// Converting slot by slot gives one slot per slot, in order, each carrying
/// the type index of `T` and the handle of the object its source slot
/// converts to.
pub proof fn law_recast_each_slot<T: AnyCompatible>(cells: Seq<AnyCell>, i: int)
    ensures
        recast_cells::<T>(cells).len() == cells.len(),
        0 <= i < cells.len() ==> recast_cells::<T>(cells)[i].type_index == T::spec_type_index()
            && recast_cells::<T>(cells)[i].handle == T::cast_handle(cells[i]),
{
}

/// A value converts to an array of `T` exactly where it refers to an array
/// object whose every slot `T` accepts, or whose every slot converts to `T`;
/// a plain value never does. Where every slot is accepted the conversion
/// keeps the array object's items and capacity as they are.
pub proof fn law_cast_paths<T: AnyCompatible>(data: AnyValue, items: Seq<AnyCell>, capacity: nat)
    ensures
        castable::<T>(data) <==> (data.is_array() && ((forall|i: int|
            0 <= i < data.array_items().len() ==> T::accepts(#[trigger] data.array_items()[i])) || (
        forall|i: int|
            0 <= i < data.array_items().len() ==> T::converts(#[trigger] data.array_items()[i])))),
        data is Cell ==> !castable::<T>(data) && !cast_result::<T>(data, items, capacity),
        data.is_array() && all_accepted::<T>(data.array_items()) ==> (cast_result::<T>(
            data,
            items,
            capacity,
        ) <==> items == data.array_items() && capacity == data.array_capacity()),
        data.is_array() && !all_accepted::<T>(data.array_items()) ==> (cast_result::<T>(
            data,
            items,
            capacity,
        ) <==> items.len() == data.array_items().len() && capacity == data.array_items().len()
            && forall|i: int|
            0 <= i < items.len() ==> #[trigger] items[i] == (AnyCell {
                type_index: T::spec_type_index(),
                handle: T::cast_handle(data.array_items()[i]),
            })),
{
    if data.is_array() && !all_accepted::<T>(data.array_items()) {
        let r = recast_cells::<T>(data.array_items());
        if items.len() == data.array_items().len() && forall|i: int|
            0 <= i < items.len() ==> #[trigger] items[i] == (AnyCell {
                type_index: T::spec_type_index(),
                handle: T::cast_handle(data.array_items()[i]),
            }) {
            assert(items =~= r);
        }
    }
}

} // verus!
