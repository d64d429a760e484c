use lib::data::Data;
use lib::memory::{Memory, MemoryEntity, MemoryError, MemoryType, MAX_PAGES, PAGE_SIZE};
use lib::store::Store;
use lib::trap::Trap;

#[test]
fn memory_type_accessors() {
    let ty = MemoryType::new(2, Some(5));
    assert_eq!(ty.minimum(), 2);
    assert_eq!(ty.maximum(), Some(5));
    let ty = MemoryType::new(7, None);
    assert_eq!(ty.minimum(), 7);
    assert_eq!(ty.maximum(), None);
}

#[test]
fn memory_type_validity() {
    assert!(MemoryType::new(0, None).is_valid());
    assert!(MemoryType::new(MAX_PAGES, None).is_valid());
    assert!(!MemoryType::new(MAX_PAGES + 1, None).is_valid());
    assert!(MemoryType::new(3, Some(3)).is_valid());
    assert!(!MemoryType::new(4, Some(3)).is_valid());
    assert!(MemoryType::new(0, Some(MAX_PAGES)).is_valid());
    assert!(!MemoryType::new(0, Some(MAX_PAGES + 1)).is_valid());
}

#[test]
fn memory_type_subtyping() {
    let a = MemoryType::new(2, Some(4));
    let b = MemoryType::new(1, Some(5));
    let c = MemoryType::new(1, None);
    assert!(a.is_subtype_of(b));
    assert!(!b.is_subtype_of(a));
    assert!(a.is_subtype_of(c));
    assert!(!c.is_subtype_of(a));
    assert!(c.is_subtype_of(c));
    assert!(a.is_subtype_of(a));
    assert!(!MemoryType::new(0, Some(4)).is_subtype_of(MemoryType::new(1, Some(4))));
    assert!(!MemoryType::new(2, Some(6)).is_subtype_of(MemoryType::new(1, Some(5))));
}

#[test]
fn subtyping_is_transitive_on_examples() {
    let a = MemoryType::new(3, Some(3));
    let b = MemoryType::new(2, Some(4));
    let c = MemoryType::new(1, None);
    assert!(a.is_subtype_of(b) && b.is_subtype_of(c) && a.is_subtype_of(c));
}

#[test]
fn new_memory_has_its_type_and_zero_bytes() {
    let mut store = Store::new(1);
    let ty = MemoryType::new(1, Some(3));
    let memory = Memory::new(&mut store, ty);
    assert_eq!(memory.type_(&store), ty);
    assert_eq!(memory.size(&store), 1);
    assert_eq!(memory.bytes(&store).len(), PAGE_SIZE);
    assert!(memory.bytes(&store).iter().all(|b| *b == 0));
}

#[test]
fn memory_grow_returns_previous_size() {
    let mut store = Store::new(1);
    let memory = Memory::new(&mut store, MemoryType::new(1, Some(4)));
    memory.bytes_mut(&mut store)[10] = 42;
    assert_eq!(memory.grow(&mut store, 2).unwrap(), 1);
    assert_eq!(memory.size(&store), 3);
    assert_eq!(memory.bytes(&store).len(), 3 * PAGE_SIZE);
    assert_eq!(memory.bytes(&store)[10], 42);
    assert!(memory.bytes(&store)[PAGE_SIZE..].iter().all(|b| *b == 0));
    assert_eq!(memory.type_(&store), MemoryType::new(3, Some(4)));
    assert!(memory.type_(&store).is_subtype_of(MemoryType::new(1, Some(4))));
    assert!(memory.type_(&store).is_valid());
}

#[test]
fn memory_grow_beyond_maximum_fails_and_changes_nothing() {
    let mut store = Store::new(1);
    let memory = Memory::new(&mut store, MemoryType::new(1, Some(2)));
    assert_eq!(memory.grow(&mut store, 2), Err(MemoryError::FailedToGrow));
    assert_eq!(memory.size(&store), 1);
    assert_eq!(memory.grow(&mut store, 1), Ok(1));
    assert_eq!(memory.grow(&mut store, 1), Err(MemoryError::FailedToGrow));
    assert_eq!(memory.grow(&mut store, 0), Ok(2));
}

#[test]
fn memory_without_maximum_grows_up_to_max_pages() {
    let mut store = Store::new(1);
    let memory = Memory::new(&mut store, MemoryType::new(0, None));
    assert_eq!(memory.grow(&mut store, MAX_PAGES + 1), Err(MemoryError::FailedToGrow));
    assert_eq!(memory.size(&store), 0);
    assert_eq!(memory.grow(&mut store, 0), Ok(0));
}

#[test]
fn memory_error_message() {
    assert_eq!(MemoryError::FailedToGrow.message(), "memory failed to grow");
}

#[test]
fn memory_fill() {
    let mut entity = MemoryEntity::new(1, None);
    assert_eq!(entity.fill(10, 7, 5), Ok(()));
    assert_eq!(&entity.bytes()[8..17], &[0, 0, 7, 7, 7, 7, 7, 0, 0]);
    assert_eq!(entity.fill(PAGE_SIZE as u32, 1, 0), Ok(()));
    assert_eq!(entity.fill(PAGE_SIZE as u32 - 1, 1, 2), Err(Trap::MemAccessOutOfBounds));
    assert_eq!(entity.fill(PAGE_SIZE as u32 + 1, 1, 0), Err(Trap::MemAccessOutOfBounds));
    assert_eq!(entity.bytes()[PAGE_SIZE - 1], 0);
}

#[test]
fn memory_copy_within_overlapping() {
    let mut entity = MemoryEntity::new(1, None);
    for (i, b) in entity.bytes_mut()[0..6].iter_mut().enumerate() {
        *b = i as u8 + 1;
    }
    assert_eq!(entity.copy_within(2, 0, 4), Ok(()));
    assert_eq!(&entity.bytes()[0..6], &[1, 2, 1, 2, 3, 4]);
    assert_eq!(entity.copy_within(0, 2, 4), Ok(()));
    assert_eq!(&entity.bytes()[0..6], &[1, 2, 3, 4, 3, 4]);
    assert_eq!(entity.copy_within(1, 1, 3), Ok(()));
    assert_eq!(&entity.bytes()[0..6], &[1, 2, 3, 4, 3, 4]);
}

#[test]
fn memory_copy_within_out_of_bounds() {
    let mut entity = MemoryEntity::new(1, None);
    let size = PAGE_SIZE as u32;
    assert_eq!(entity.copy_within(0, 0, size + 1), Err(Trap::MemAccessOutOfBounds));
    assert_eq!(entity.copy_within(1, 0, size), Err(Trap::MemAccessOutOfBounds));
    assert_eq!(entity.copy_within(0, 1, size), Err(Trap::MemAccessOutOfBounds));
    assert_eq!(entity.copy_within(0, 0, size), Ok(()));
    assert_eq!(entity.copy_within(size, size, 0), Ok(()));
}

#[test]
fn memory_init_from_data() {
    let mut store = Store::new(5);
    let memory = Memory::new(&mut store, MemoryType::new(1, None));
    let data = Data::new(&mut store, vec![1, 2, 3, 4, 5]);
    assert_eq!(data.bytes(&store), &[1, 2, 3, 4, 5]);
    assert_eq!(memory.init(&mut store, 100, data, 1, 3), Ok(()));
    assert_eq!(&memory.bytes(&store)[99..104], &[0, 2, 3, 4, 0]);
    assert_eq!(memory.init(&mut store, 0, data, 3, 3), Err(Trap::MemAccessOutOfBounds));
    assert_eq!(memory.init(&mut store, PAGE_SIZE as u32 - 1, data, 0, 2), Err(Trap::MemAccessOutOfBounds));
    assert_eq!(memory.init(&mut store, PAGE_SIZE as u32, data, 5, 0), Ok(()));
    assert_eq!(&memory.bytes(&store)[0..3], &[0, 0, 0]);
}

#[test]
fn store_handles_are_distinct() {
    let mut store = Store::new(9);
    assert_eq!(store.id(), 9);
    let a = Memory::new(&mut store, MemoryType::new(0, Some(1)));
    let b = Memory::new(&mut store, MemoryType::new(1, Some(1)));
    assert_ne!(a, b);
    assert_eq!(a.grow(&mut store, 1), Ok(0));
    assert_eq!(a.size(&store), 1);
    assert_eq!(b.size(&store), 1);
    assert_eq!(store.memory(b).size(), 1);
    assert_eq!(store.memory(a).ty(), MemoryType::new(1, Some(1)));
}

#[test]
fn trap_messages() {
    assert_eq!(Trap::MemAccessOutOfBounds.message(), "out of bounds memory access");
    assert_eq!(Trap::TableAccessOutOfBounds.message(), "out of bounds table access");
}

#[test]
fn memory_two_grows_equal_one() {
    let mut store = Store::new(1);
    let a = Memory::new(&mut store, MemoryType::new(1, Some(6)));
    let b = Memory::new(&mut store, MemoryType::new(1, Some(6)));
    assert_eq!(a.grow(&mut store, 2), Ok(1));
    assert_eq!(a.grow(&mut store, 3), Ok(3));
    assert_eq!(b.grow(&mut store, 5), Ok(1));
    assert_eq!(a.size(&store), b.size(&store));
    assert_eq!(a.bytes(&store), b.bytes(&store));
    assert_eq!(a.grow(&mut store, 1), Err(MemoryError::FailedToGrow));
}

#[test]
fn memory_type_after_grows() {
    let mut store = Store::new(1);
    let ty = MemoryType::new(1, Some(4));
    let m = Memory::new(&mut store, ty);
    for n in [1, 5, 2, 0] {
        let _ = m.grow(&mut store, n);
    }
    let now = m.type_(&store);
    assert_eq!(now, MemoryType::new(m.size(&store), ty.maximum()));
    assert!(now.is_valid() && now.is_subtype_of(ty));
}
