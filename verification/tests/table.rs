use lib::elem::Elem;
use lib::reference::{ExternRef, FuncRef, Ref, RefType};
use lib::store::Store;
use lib::table::{Table, TableError, TableType, TypedTableEntity};
use lib::elem::TypedElemEntity;
use lib::trap::Trap;

const SID: u64 = 1;

fn func(idx: u32) -> Ref {
    Ref::FuncRef(FuncRef::new(SID, idx))
}

fn ext(idx: u32) -> Ref {
    Ref::ExternRef(ExternRef::new(SID, idx))
}

#[test]
fn table_type_accessors_and_validity() {
    let ty = TableType::new(RefType::FuncRef, 1, Some(3));
    assert_eq!(ty.element(), RefType::FuncRef);
    assert_eq!(ty.minimum(), 1);
    assert_eq!(ty.maximum(), Some(3));
    assert!(ty.is_valid());
    assert!(!TableType::new(RefType::ExternRef, 4, Some(3)).is_valid());
    assert!(TableType::new(RefType::ExternRef, u32::MAX, None).is_valid());
}

#[test]
fn table_type_subtyping() {
    let a = TableType::new(RefType::FuncRef, 2, Some(4));
    let b = TableType::new(RefType::FuncRef, 1, None);
    let c = TableType::new(RefType::ExternRef, 2, Some(4));
    assert!(a.is_subtype_of(b));
    assert!(!b.is_subtype_of(a));
    assert!(!a.is_subtype_of(c));
    assert!(a.is_subtype_of(a));
    assert!(!TableType::new(RefType::FuncRef, 2, Some(5)).is_subtype_of(a));
    assert!(!TableType::new(RefType::FuncRef, 1, Some(4)).is_subtype_of(a));
}

#[test]
fn new_table_holds_init_value() {
    let mut store = Store::new(SID);
    let v = func(7);
    let table = Table::new(&mut store, TableType::new(RefType::FuncRef, 3, Some(5)), v).unwrap();
    assert_eq!(table.size(&store), 3);
    assert_eq!(table.ty(&store), TableType::new(RefType::FuncRef, 3, Some(5)));
    for i in 0..3 {
        assert_eq!(table.get(&store, i), Some(v));
    }
    assert_eq!(table.get(&store, 3), None);
}

#[test]
fn new_table_type_mismatch() {
    let mut store = Store::new(SID);
    let v = ext(1);
    let r = Table::new(&mut store, TableType::new(RefType::FuncRef, 1, None), v);
    assert_eq!(r.unwrap_err(), TableError::TypeMismatch);
}

#[test]
fn table_get_after_set() {
    let mut store = Store::new(SID);
    let table = Table::new(&mut store, TableType::new(RefType::ExternRef, 2, None), Ref::null(RefType::ExternRef)).unwrap();
    let v = ext(11);
    assert_eq!(table.set(&mut store, 1, v), Ok(()));
    assert_eq!(table.get(&store, 1), Some(v));
    assert_eq!(table.get(&store, 0), Some(Ref::null(RefType::ExternRef)));
    assert!(table.get(&store, 0).unwrap().is_null());
    assert!(!table.get(&store, 1).unwrap().is_null());
}

#[test]
fn table_set_errors() {
    let mut store = Store::new(SID);
    let table = Table::new(&mut store, TableType::new(RefType::FuncRef, 2, None), Ref::null(RefType::FuncRef)).unwrap();
    assert_eq!(table.set(&mut store, 2, func(1)), Err(TableError::IdxOutOfBounds));
    assert_eq!(table.set(&mut store, 0, ext(1)), Err(TableError::TypeMismatch));
    assert_eq!(table.set(&mut store, 5, ext(1)), Err(TableError::TypeMismatch));
    assert_eq!(table.get(&store, 0), Some(Ref::null(RefType::FuncRef)));
}

#[test]
fn table_grow() {
    let mut store = Store::new(SID);
    let table = Table::new(&mut store, TableType::new(RefType::FuncRef, 1, Some(4)), func(0)).unwrap();
    let v = func(9);
    assert_eq!(table.grow(&mut store, v, 2), Ok(1));
    assert_eq!(table.size(&store), 3);
    assert_eq!(table.get(&store, 0), Some(func(0)));
    assert_eq!(table.get(&store, 1), Some(v));
    assert_eq!(table.get(&store, 2), Some(v));
    assert_eq!(table.grow(&mut store, v, 2), Err(TableError::FailedToGrow));
    assert_eq!(table.grow(&mut store, ext(0), 1), Err(TableError::TypeMismatch));
    assert_eq!(table.size(&store), 3);
    assert_eq!(table.grow(&mut store, v, 1), Ok(3));
    assert_eq!(table.ty(&store), TableType::new(RefType::FuncRef, 4, Some(4)));
    assert!(table.ty(&store).is_valid());
    assert_eq!(table.get(&store, 3).unwrap().type_(), RefType::FuncRef);
}

#[test]
fn table_without_maximum_limit_is_u32_max() {
    let mut store = Store::new(SID);
    let table = Table::new(&mut store, TableType::new(RefType::ExternRef, 2, None), Ref::null(RefType::ExternRef)).unwrap();
    assert_eq!(table.grow(&mut store, Ref::null(RefType::ExternRef), u32::MAX - 1), Err(TableError::FailedToGrow));
    assert_eq!(table.size(&store), 2);
}

#[test]
fn table_init_from_elem() {
    let mut store = Store::new(SID);
    let table = Table::new(&mut store, TableType::new(RefType::FuncRef, 4, None), Ref::null(RefType::FuncRef)).unwrap();
    let a = func(1);
    let b = func(2);
    let elem = Elem::new(&mut store, RefType::FuncRef, &[a, b]).unwrap();
    assert_eq!(table.init(&mut store, 1, elem, 0, 2), Ok(()));
    assert_eq!(table.get(&store, 0), Some(Ref::null(RefType::FuncRef)));
    assert_eq!(table.get(&store, 1), Some(a));
    assert_eq!(table.get(&store, 2), Some(b));
    assert_eq!(table.init(&mut store, 3, elem, 0, 2), Err(Trap::TableAccessOutOfBounds));
    assert_eq!(table.init(&mut store, 0, elem, 1, 2), Err(Trap::TableAccessOutOfBounds));
    assert_eq!(table.init(&mut store, 4, elem, 2, 0), Ok(()));
}

#[test]
fn elem_type_mismatch() {
    let mut store = Store::new(SID);
    let a = func(1);
    let b = ext(2);
    assert_eq!(Elem::new(&mut store, RefType::FuncRef, &[a, b]).unwrap_err(), TableError::TypeMismatch);
}

#[test]
fn typed_table_fill_copy() {
    let mut t = TypedTableEntity::new(None, 5, None);
    assert_eq!(t.fill(1, Some(8), 2), Ok(()));
    assert_eq!(t.get(0), Some(None));
    assert_eq!(t.get(1), Some(Some(8)));
    assert_eq!(t.get(2), Some(Some(8)));
    assert_eq!(t.get(3), Some(None));
    assert_eq!(t.get(5), None);
    assert_eq!(t.fill(4, Some(1), 2), Err(Trap::TableAccessOutOfBounds));
    assert_eq!(t.copy_within(2, 1, 3), Ok(()));
    assert_eq!(t.get(2), Some(Some(8)));
    assert_eq!(t.get(3), Some(Some(8)));
    assert_eq!(t.get(4), Some(None));
    assert_eq!(t.copy_within(3, 0, 3), Err(Trap::TableAccessOutOfBounds));
    let src = TypedTableEntity::new(Some(3), 2, Some(2));
    assert_eq!(t.copy(0, &src, 0, 2), Ok(()));
    assert_eq!(t.get(0), Some(Some(3)));
    assert_eq!(t.get(1), Some(Some(3)));
    assert_eq!(t.copy(0, &src, 1, 2), Err(Trap::TableAccessOutOfBounds));
    assert_eq!(t.set(4, Some(6)), Ok(()));
    assert_eq!(t.set(5, Some(6)), Err(TableError::IdxOutOfBounds));
    let seg = TypedElemEntity::new(vec![Some(10), None]);
    assert_eq!(t.init(3, &seg, 0, 2), Ok(()));
    assert_eq!(t.get(3), Some(Some(10)));
    assert_eq!(t.get(4), Some(None));
    assert_eq!(t.ty(RefType::FuncRef), TableType::new(RefType::FuncRef, 5, None));
}

#[test]
fn typed_table_grow_returns_previous_size() {
    let mut t = TypedTableEntity::new(None, 1, Some(3));
    assert_eq!(t.grow(Some(4), 2), Ok(1));
    assert_eq!(t.size(), 3);
    assert_eq!(t.get(2), Some(Some(4)));
    assert_eq!(t.grow(Some(4), 1), Err(TableError::FailedToGrow));
}

#[test]
fn table_downcast() {
    let mut store = Store::new(SID);
    let table = Table::new(&mut store, TableType::new(RefType::ExternRef, 1, None), Ref::null(RefType::ExternRef)).unwrap();
    assert!(store.table(table).downcast_ref(RefType::FuncRef).is_none());
    assert_eq!(store.table(table).downcast_ref(RefType::ExternRef).unwrap().size(), 1);
    assert!(store.table_mut(table).downcast_mut(RefType::FuncRef).is_none());
    store.table_mut(table).downcast_mut(RefType::ExternRef).unwrap().set(0, Some(5)).unwrap();
    assert_eq!(table.get(&store, 0), Some(ext(5)));
    assert_eq!(store.table(table).element_type(), RefType::ExternRef);
}

#[test]
fn table_error_messages() {
    assert_eq!(TableError::IdxOutOfBounds.message(), "index out of bounds");
    assert_eq!(TableError::TypeMismatch.message(), "type does not match that of table's elements");
    assert_eq!(TableError::FailedToGrow.message(), "table failed to grow");
}

#[test]
fn ref_types() {
    assert_eq!(func(0).type_(), RefType::FuncRef);
    assert_eq!(ext(0).type_(), RefType::ExternRef);
    assert!(FuncRef::null().is_null());
    assert!(!ExternRef::new(SID, 0).is_null());
    assert_eq!(Ref::null(RefType::ExternRef).type_(), RefType::ExternRef);
}

#[test]
fn table_type_after_sets_and_grows() {
    let mut store = Store::new(SID);
    let ty = TableType::new(RefType::FuncRef, 2, Some(6));
    let table = Table::new(&mut store, ty, func(0)).unwrap();
    assert_eq!(table.set(&mut store, 1, func(4)), Ok(()));
    assert_eq!(table.size(&store), 2);
    assert_eq!(table.grow(&mut store, func(5), 3), Ok(2));
    assert_eq!(table.set(&mut store, 9, func(4)), Err(TableError::IdxOutOfBounds));
    assert_eq!(table.grow(&mut store, func(5), 2), Err(TableError::FailedToGrow));
    let now = table.ty(&store);
    assert_eq!(now, TableType::new(RefType::FuncRef, table.size(&store), Some(6)));
    assert!(now.is_valid() && now.is_subtype_of(ty));
    assert!(ty.minimum() <= table.size(&store) && table.size(&store) <= 6);
}
