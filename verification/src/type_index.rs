//! Type indices of the values that the array stores and hands out.

use vstd::prelude::*;

verus! {

/// The index of the empty value.
pub const NONE: i32 = 0;

/// The first index that denotes a static object type; every index below it
/// denotes a plain value.
pub const STATIC_OBJECT_BEGIN: i32 = 64;

/// The index of the root object type.
pub const OBJECT: i32 = 64;

/// The index of the array object type.
pub const ARRAY: i32 = 71;

/// Whether a slot with this type index refers to an object.
pub open spec fn is_object_index(type_index: i32) -> bool {
    type_index >= STATIC_OBJECT_BEGIN
}

} // verus!
