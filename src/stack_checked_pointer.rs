use vstd::prelude::*;
use std::any::TypeId;
use std::marker::PhantomData;

verus! {

#[verifier::external_type_specification]
#[verifier::external_body]
pub struct ExTypeId(TypeId);

/// The bytes a value occupies: its address and its size.
///
/// A reference always points at the lowest address of its value, whichever
/// way the stack grows, so a value occupies `address .. address + size`.
#[derive(Debug, Clone, Copy, PartialEq, Eq, Structural, Hash)]
pub struct MemoryRange {
    pub address: usize,
    pub size: usize,
}

/// Whether `inner` lies within `outer`, byte for byte.
pub open spec fn range_contains(outer: MemoryRange, inner: MemoryRange) -> bool {
    outer.address <= inner.address && inner.address + inner.size <= outer.address + outer.size
}

/// Returns true if the value occupying `subtype` is stored inside the value
/// occupying `data`: a field stored inline is, while a value in a separate
/// heap allocation that a field points to is not.
pub fn is_subtype_of(data: MemoryRange, subtype: MemoryRange) -> (r: bool)
    ensures
        r == range_contains(data, subtype),
{
    subtype.address >= data.address && subtype.size <= data.size && subtype.address - data.address
        <= data.size - subtype.size
}

/// A type-erased pointer to a value **inside** of a `T`.
///
/// The pointer is checked at creation to lie within the storage of the `T`
/// it was made from, so it is valid for as long as that `T` is; the type of
/// the pointee is recorded so that a cast can be checked against it.
#[derive(Debug)]
pub struct StackCheckedPointer<T> {
    internal: usize,
    marker: PhantomData<T>,
    pointer_type: TypeId,
}

impl<T> StackCheckedPointer<T> {
    pub closed spec fn address_spec(&self) -> usize {
        self.internal
    }

    pub closed spec fn type_spec(&self) -> TypeId {
        self.pointer_type
    }

    /// Validates that the value at `pointer` is contained in the value at `stack`.
    ///
    /// The pointer is minted only when it is: the returned pointer is then
    /// valid for as long as `stack` is.
    pub fn new(stack: MemoryRange, pointer: MemoryRange, pointer_type: TypeId) -> (r: Option<Self>)
        ensures
            r is Some <==> range_contains(stack, pointer),
            r matches Some(p) ==> p.address_spec() == pointer.address && p.type_spec()
                == pointer_type,
    {
        if is_subtype_of(stack, pointer) {
            Some(StackCheckedPointer { internal: pointer.address, marker: PhantomData, pointer_type })
        } else {
            None
        }
    }

    /// A pointer to the entire value at `stack`.
    pub fn new_entire_struct(stack: MemoryRange, pointer_type: TypeId) -> (r: Self)
        ensures
            r.address_spec() == stack.address,
            r.type_spec() == pointer_type,
    {
        StackCheckedPointer { internal: stack.address, marker: PhantomData, pointer_type }
    }

    /// The address the pointer points at.
    pub fn address(&self) -> (r: usize)
        ensures
            r == self.address_spec(),
    {
        self.internal
    }

    /// The type the pointer was created for.
    pub fn pointer_type(&self) -> (r: TypeId)
        ensures
            r == self.type_spec(),
    {
        self.pointer_type
    }
}

impl<T> Clone for StackCheckedPointer<T> {
    fn clone(&self) -> (r: Self)
        ensures
            r == *self,
    {
        StackCheckedPointer {
            internal: self.internal,
            marker: PhantomData,
            pointer_type: self.pointer_type,
        }
    }
}

impl<T> PartialEq for StackCheckedPointer<T> {
    /// Two pointers are equal when they point at the same address.
    fn eq(&self, other: &Self) -> (r: bool) {
        self.internal == other.internal
    }
}

impl<T> vstd::std_specs::cmp::PartialEqSpecImpl for StackCheckedPointer<T> {
    open spec fn obeys_eq_spec() -> bool {
        true
    }

    open spec fn eq_spec(&self, other: &Self) -> bool {
        self.address_spec() == other.address_spec()
    }
}

impl<T> Eq for StackCheckedPointer<T> {}

/// A pointer is minted for a field stored inline in its parent, and refused
/// for a value outside the parent's own bytes, such as one in a separate
/// heap allocation.
pub proof fn lemma_subfield_check(stack: MemoryRange, pointer: MemoryRange)
    ensures
        range_contains(stack, pointer) ==> stack.address <= pointer.address < stack.address
            + stack.size || pointer.size == 0,
        pointer.address >= stack.address + stack.size && pointer.size > 0 ==> !range_contains(
            stack,
            pointer,
        ),
        pointer.address < stack.address ==> !range_contains(stack, pointer),
{
}

} // verus!
