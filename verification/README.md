# tvm_ffi array

A verified, copy-on-write array of object references.

- `src/type_index.rs`: the type indices that decide whether a slot holds an object.
- `src/any.rs`: type-erased slots (`AnyCell`), values at the foreign-function
  boundary (`AnyValue`: a plain slot, an owned array object, or a borrowed view of
  one), and the traits that move references in and out of slots.
- `src/array.rs`: the array object (a buffer of slots with a size and a
  capacity) and the typed `Array` that shares it by reference count, copying it
  before a mutation where it is shared; its iterator; and the checks and
  conversions from type-erased values.
- `src/laws.rs`: laws that relate the operations to one another.
- `src/error.rs`: index and type errors.
