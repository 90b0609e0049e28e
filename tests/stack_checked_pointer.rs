use azul_core::stack_checked_pointer::{is_subtype_of, MemoryRange, StackCheckedPointer};
use std::any::TypeId;

/// The bytes that `value` occupies; its address is read from the `{:p}`
/// formatting of the reference.
fn range_of<T>(value: &T) -> MemoryRange {
    let printed = format!("{:p}", value);
    MemoryRange {
        address: usize::from_str_radix(printed.trim_start_matches("0x"), 16).unwrap(),
        size: std::mem::size_of::<T>(),
    }
}

#[test]
fn test_reflection_subtyping() {
    struct Data {
        i: usize,
        p: Vec<usize>,
    }
    let data = Data { i: 5, p: vec![5] };

    assert_eq!(is_subtype_of(range_of(&data), range_of(&data.i)), true);
    assert_eq!(is_subtype_of(range_of(&data), range_of(&data.p)), true);
    assert_eq!(is_subtype_of(range_of(&data), range_of(&data.p[0])), false);
}

#[test]
fn pointer_is_minted_only_for_inline_fields() {
    struct Data {
        i: usize,
        p: Vec<usize>,
    }
    let data = Data { i: 5, p: vec![5] };
    let inline = StackCheckedPointer::<Data>::new(range_of(&data), range_of(&data.i), TypeId::of::<usize>());
    assert!(inline.is_some());
    let p = inline.unwrap();
    assert_eq!(p.address(), range_of(&data.i).address);
    assert_eq!(p.pointer_type(), TypeId::of::<usize>());
    let heap = StackCheckedPointer::<Data>::new(range_of(&data), range_of(&data.p[0]), TypeId::of::<usize>());
    assert!(heap.is_none());
    assert_eq!(data.i, 5);
}

#[test]
fn entire_struct_pointer_points_at_the_struct() {
    let value: (u32, u64) = (1, 2);
    let p = StackCheckedPointer::<(u32, u64)>::new_entire_struct(range_of(&value), TypeId::of::<(u32, u64)>());
    assert_eq!(p.address(), range_of(&value).address);
}

#[test]
fn subtype_ranges_on_plain_numbers() {
    let outer = MemoryRange { address: 100, size: 16 };
    assert!(is_subtype_of(outer, MemoryRange { address: 100, size: 16 }));
    assert!(is_subtype_of(outer, MemoryRange { address: 108, size: 8 }));
    assert!(!is_subtype_of(outer, MemoryRange { address: 109, size: 8 }));
    assert!(!is_subtype_of(outer, MemoryRange { address: 99, size: 1 }));
    assert!(!is_subtype_of(outer, MemoryRange { address: 200, size: 0 }));
    assert!(is_subtype_of(MemoryRange { address: usize::MAX - 1, size: 1 }, MemoryRange { address: usize::MAX - 1, size: 1 }));
}

#[test]
fn pointers_compare_by_address() {
    let value: [u64; 2] = [1, 2];
    let a = StackCheckedPointer::<[u64; 2]>::new(range_of(&value), range_of(&value[1]), TypeId::of::<u64>()).unwrap();
    let b = a.clone();
    assert!(a == b);
    let c = StackCheckedPointer::<[u64; 2]>::new(range_of(&value), range_of(&value[0]), TypeId::of::<u64>()).unwrap();
    assert!(a != c);
    assert_eq!(a.address() - c.address(), 8);
}
