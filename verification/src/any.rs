//! Type-erased values: the slots of an array, the values that cross the
//! foreign-function boundary, and the traits that convert object references
//! to and from them.

use vstd::prelude::*;
use std::rc::Rc;

use crate::array::ArrayObj;
use crate::type_index::{is_object_index, NONE, OBJECT, STATIC_OBJECT_BEGIN};

verus! {

/// One type-erased slot: a type index and the handle of the object it refers
/// to (for a plain value, its raw bits).
#[derive(Clone, Copy, Debug, PartialEq, Eq, Structural)]
pub struct AnyCell {
    pub type_index: i32,
    pub handle: u64,
}

impl AnyCell {
    /// The empty slot.
    pub open spec fn spec_none() -> AnyCell {
        AnyCell { type_index: NONE, handle: 0 }
    }

    /// The empty slot.
    pub fn none() -> (r: AnyCell)
        ensures
            r == AnyCell::spec_none(),
    {
        AnyCell { type_index: NONE, handle: 0 }
    }

    /// Whether the slot refers to an object.
    pub open spec fn spec_is_object(self) -> bool {
        is_object_index(self.type_index)
    }

    /// Whether the slot refers to an object.
    pub fn is_object(&self) -> (r: bool)
        ensures
            r == self.spec_is_object(),
    {
        self.type_index >= STATIC_OBJECT_BEGIN
    }
}

/// A reference to an object of the object system. A reference moved into a
/// slot leaves there the handle of its object and the type index of its
/// type; reading the slot back gives a reference to the object with that
/// handle.
pub trait ObjectRefCore: Sized {
    /// The type index of the objects this reference type points to.
    spec fn spec_type_index() -> i32;

    /// The handle of the object this reference points to.
    spec fn handle(&self) -> u64;

    /// The type of the objects this reference type points to is an object
    /// type: its index is an object index.
    proof fn lemma_type_index_is_object()
        ensures
            is_object_index(Self::spec_type_index()),
    ;

    /// The type index of the objects this reference type points to.
    fn type_index() -> (r: i32)
        ensures
            r == Self::spec_type_index(),
            is_object_index(r),
    ;

    /// Gives up this reference and returns the handle of its object.
    fn into_handle(self) -> (h: u64)
        ensures
            h == self.handle(),
    ;

    /// A reference to the object with the given handle.
    fn from_handle(h: u64) -> (r: Self)
        ensures
            r.handle() == h,
    ;
}

/// The slot that holds a reference of type `T`.
pub open spec fn cell_of<T: ObjectRefCore>(item: T) -> AnyCell {
    AnyCell { type_index: T::spec_type_index(), handle: item.handle() }
}

/// A reference type that can be checked against, and converted from, a
/// type-erased slot.
pub trait AnyCompatible: ObjectRefCore {
    /// Whether the slot holds a value of exactly this type.
    spec fn accepts(data: AnyCell) -> bool;

    /// Whether the slot holds a value that converts to this type.
    spec fn converts(data: AnyCell) -> bool;

    /// The handle of the object that a slot converts to: for a slot that
    /// already refers to an object of this type, that object; for a value
    /// that the conversion turns into an object, the object it makes.
    spec fn cast_handle(data: AnyCell) -> u64;

    /// Whether the slot holds a value of exactly this type.
    fn check_any_strict(data: &AnyCell) -> (r: bool)
        ensures
            r == Self::accepts(*data),
    ;

    /// Converts the slot to a reference of this type, where it can.
    fn try_cast_from_any_view(data: &AnyCell) -> (r: Result<Self, ()>)
        ensures
            r is Ok <==> Self::converts(*data),
            r matches Ok(v) ==> v.handle() == Self::cast_handle(*data),
    ;
}

/// A value as it crosses the foreign-function boundary: a plain slot, an
/// array object that the value owns a reference to, or a view of an array
/// object that borrows a reference owned elsewhere. A `Cell` that carries
/// the array type index has no array object behind it; the array checks and
/// casts treat it as no array, though `type_index` reports the index it
/// carries.
pub enum AnyValue<'a> {
    Cell(AnyCell),
    Array(Rc<ArrayObj>),
    ArrayView(&'a Rc<ArrayObj>),
}

impl<'a> AnyValue<'a> {
    /// The type index that the value carries.
    pub open spec fn spec_type_index(&self) -> i32 {
        match self {
            AnyValue::Cell(c) => c.type_index,
            AnyValue::Array(_) => crate::type_index::ARRAY,
            AnyValue::ArrayView(_) => crate::type_index::ARRAY,
        }
    }

    /// Whether the value refers to an array object, owned or borrowed.
    pub open spec fn is_array(&self) -> bool {
        !(self is Cell)
    }

    /// The items of the array object the value refers to.
    pub open spec fn array_items(&self) -> Seq<AnyCell> {
        match self {
            AnyValue::Cell(_) => Seq::empty(),
            AnyValue::Array(o) => o.items(),
            AnyValue::ArrayView(o) => o.items(),
        }
    }

    /// The capacity of the array object the value refers to.
    pub open spec fn array_capacity(&self) -> nat {
        match self {
            AnyValue::Cell(_) => 0,
            AnyValue::Array(o) => o.spec_capacity(),
            AnyValue::ArrayView(o) => o.spec_capacity(),
        }
    }

    /// The pointer to the array object the value refers to, if any.
    pub fn array_ref(&self) -> (r: Option<&Rc<ArrayObj>>)
        ensures
            r is Some <==> self.is_array(),
            r matches Some(o) ==> o.items() == self.array_items() && o.spec_capacity()
                == self.array_capacity(),
    {
        match self {
            AnyValue::Cell(_) => None,
            AnyValue::Array(o) => Some(o),
            AnyValue::ArrayView(o) => Some(*o),
        }
    }

    /// The type index that the value carries.
    pub fn type_index(&self) -> (r: i32)
        ensures
            r == self.spec_type_index(),
    {
        match self {
            AnyValue::Cell(c) => c.type_index,
            AnyValue::Array(_) => crate::type_index::ARRAY,
            AnyValue::ArrayView(_) => crate::type_index::ARRAY,
        }
    }

    /// The empty value.
    pub fn none() -> (r: AnyValue<'a>)
        ensures
            r == AnyValue::Cell(AnyCell::spec_none()),
    {
        AnyValue::Cell(AnyCell::none())
    }
}

/// A reference to an object of the root object type.
#[derive(Debug, PartialEq, Eq, Structural)]
pub struct ObjectRef {
    handle: u64,
}

impl ObjectRef {
    /// A reference to the object with the given handle.
    pub fn new(handle: u64) -> (r: ObjectRef)
        ensures
            r.handle() == handle,
    {
        ObjectRef { handle }
    }

    /// The handle of the object this reference points to.
    pub fn get_handle(&self) -> (r: u64)
        ensures
            r == self.handle(),
    {
        self.handle
    }
}

impl ObjectRefCore for ObjectRef {
    open spec fn spec_type_index() -> i32 {
        OBJECT
    }

    closed spec fn handle(&self) -> u64 {
        self.handle
    }

    proof fn lemma_type_index_is_object() {
    }

    fn type_index() -> (r: i32) {
        OBJECT
    }

    fn into_handle(self) -> (h: u64) {
        self.handle
    }

    fn from_handle(h: u64) -> (r: Self) {
        ObjectRef { handle: h }
    }
}

impl AnyCompatible for ObjectRef {
    /// Every object is an object of the root type.
    open spec fn accepts(data: AnyCell) -> bool {
        data.spec_is_object()
    }

    open spec fn converts(data: AnyCell) -> bool {
        data.spec_is_object()
    }

    /// A reference of the root type refers to the very object in the slot.
    open spec fn cast_handle(data: AnyCell) -> u64 {
        data.handle
    }

    fn check_any_strict(data: &AnyCell) -> (r: bool)
        ensures
            r <==> data.type_index >= STATIC_OBJECT_BEGIN,
    {
        data.is_object()
    }

    fn try_cast_from_any_view(data: &AnyCell) -> (r: Result<Self, ()>) {
        if data.is_object() {
            Ok(ObjectRef { handle: data.handle })
        } else {
            Err(())
        }
    }
}

} // verus!
