//! Tables: their types, their representation in a store, and the operations on them.
use vstd::prelude::*;
use crate::elem::{Elem, TypedElemEntity};
use crate::range_ops::{
    copy_range_from, copy_range_within, fill_range, range_in_bounds, spec_copy_from,
    spec_copy_within, spec_fill,
};
use crate::reference::{Ref, RefType, UnguardedRef};
use crate::store::{Store, StoreView};
use crate::trap::Trap;

verus! {

/// The limit, in elements, up to which a table with the given maximum can grow.
pub open spec fn spec_table_limit(maximum: Option<u32>) -> int {
    match maximum {
        Some(m) => m as int,
        None => u32::MAX as int,
    }
}

/// The type of a [`Table`].
#[derive(Clone, Copy, Debug, PartialEq, Eq, Structural)]
pub struct TableType {
    pub element: RefType,
    pub minimum: u32,
    pub maximum: Option<u32>,
}

impl TableType {
    /// A table type is valid when its minimum is at most its maximum, if it has one.
    pub open spec fn spec_is_valid(self) -> bool {
        self.maximum matches Some(m) ==> self.minimum <= m
    }

    /// `self` is a subtype of `other` when both hold the same type of element, and
    /// `self` promises at least as many elements and a maximum at least as tight.
    pub open spec fn spec_is_subtype_of(self, other: Self) -> bool {
        &&& self.element == other.element
        &&& self.minimum >= other.minimum
        &&& match (self.maximum, other.maximum) {
            (None, Some(_)) => false,
            (Some(a), Some(b)) => a <= b,
            _ => true,
        }
    }

    /// Creates a new [`TableType`] with the given element type, minimum size and maximum size.
    pub fn new(element: RefType, minimum: u32, maximum: Option<u32>) -> (r: Self)
        ensures
            r == (TableType { element, minimum, maximum }),
    {
        Self { element, minimum, maximum }
    }

    /// Returns the [`RefType`] of the table's elements.
    pub fn element(&self) -> (r: RefType)
        ensures
            r == self.element,
    {
        self.element
    }

    /// Returns the table's minimum size.
    pub fn minimum(&self) -> (r: u32)
        ensures
            r == self.minimum,
    {
        self.minimum
    }

    /// Returns the table's maximum size, if any.
    pub fn maximum(&self) -> (r: Option<u32>)
        ensures
            r == self.maximum,
    {
        self.maximum
    }

    /// Returns whether this table type is valid.
    pub fn is_valid(self) -> (r: bool)
        ensures
            r == self.spec_is_valid(),
    {
        if let Some(maximum) = self.maximum {
            if self.minimum > maximum {
                return false;
            }
        }
        true
    }

    /// Returns whether `self` is a subtype of `other`.
    pub fn is_subtype_of(self, other: Self) -> (r: bool)
        ensures
            r == self.spec_is_subtype_of(other),
    {
        if self.element != other.element {
            return false;
        }
        if self.minimum < other.minimum {
            return false;
        }
        match (self.maximum, other.maximum) {
            (None, Some(_)) => return false,
            (Some(maximum), Some(other_maximum)) => if maximum > other_maximum {
                return false;
            },
            _ => (),
        }
        true
    }
}

/// An error returned by operations on a [`Table`].
#[derive(Clone, Copy, Debug, PartialEq, Eq, Structural)]
#[non_exhaustive]
pub enum TableError {
    /// The index is out of bounds.
    IdxOutOfBounds,
    /// The [`RefType`] does not match that of the [`Table`]'s elements.
    TypeMismatch,
    /// The [`Table`] failed to grow.
    FailedToGrow,
}

impl TableError {
    /// Returns the message that describes this error.
    pub fn message(&self) -> (r: &'static str)
        ensures
            r@ == (match self {
                TableError::IdxOutOfBounds => "index out of bounds"@,
                TableError::TypeMismatch => "type does not match that of table's elements"@,
                TableError::FailedToGrow => "table failed to grow"@,
            }),
    {
        match self {
            TableError::IdxOutOfBounds => "index out of bounds",
            TableError::TypeMismatch => "type does not match that of table's elements",
            TableError::FailedToGrow => "table failed to grow",
        }
    }
}

/// What a table holds, apart from the type of its elements, as mathematical values.
pub struct TypedTableState {
    pub maximum: Option<u32>,
    pub elements: Seq<UnguardedRef>,
}

impl TypedTableState {
    /// The number of elements up to which the table can grow.
    pub open spec fn limit(self) -> int {
        spec_table_limit(self.maximum)
    }

    /// The table holds no more elements than its limit.
    pub open spec fn wf(self) -> bool {
        self.elements.len() <= self.limit()
    }

    /// The number of elements of the table, taken modulo 2^32.
    pub open spec fn size_u32(self) -> u32 {
        (self.elements.len() as int % 0x1_0000_0000) as u32
    }

    /// In a well-formed table, the number of elements fits in a `u32`.
    pub proof fn lemma_size_u32(self)
        requires
            self.wf(),
        ensures
            self.size_u32() == self.elements.len(),
    {
        vstd::arithmetic::div_mod::lemma_small_mod(self.elements.len(), 0x1_0000_0000);
    }

    /// The table with its elements replaced by `elements`.
    pub open spec fn with_elements(self, elements: Seq<UnguardedRef>) -> TypedTableState {
        TypedTableState { maximum: self.maximum, elements }
    }

    /// Whether growing the table by `num` elements succeeds.
    pub open spec fn can_grow(self, num: int) -> bool {
        num <= self.limit() - self.elements.len()
    }

    /// The table grown by `num` elements `val`.
    pub open spec fn grown(self, val: UnguardedRef, num: int) -> TypedTableState {
        self.with_elements(self.elements + Seq::new(num as nat, |i: int| val))
    }
}

/// What a table holds, as mathematical values.
pub struct TableState {
    pub element: RefType,
    pub typed: TypedTableState,
}

impl TableState {
    pub open spec fn wf(self) -> bool {
        self.typed.wf()
    }

    /// The number of elements of the table.
    pub open spec fn size(self) -> int {
        self.typed.elements.len() as int
    }

    pub open spec fn with_typed(self, typed: TypedTableState) -> TableState {
        TableState { element: self.element, typed }
    }

    /// The table after the call `op`: changed as the call's success describes, or
    /// unchanged when the call fails.
    pub open spec fn after_op(self, op: TableOp) -> TableState {
        match op {
            TableOp::SetElement { idx, val } => if val.spec_type() == self.element && idx < self.size() {
                self.with_typed(
                    self.typed.with_elements(
                        self.typed.elements.update(idx as int, val.spec_to_unguarded()),
                    ),
                )
            } else {
                self
            },
            TableOp::GrowBy { val, num } => if val.spec_type() == self.element
                && self.typed.can_grow(num as int) {
                self.with_typed(self.typed.grown(val.spec_to_unguarded(), num as int))
            } else {
                self
            },
        }
    }

    /// The table after the calls `ops`, in turn.
    pub open spec fn after_ops(self, ops: Seq<TableOp>) -> TableState
        decreases ops.len(),
    {
        if ops.len() == 0 {
            self
        } else {
            self.after_op(ops[0]).after_ops(ops.drop_first())
        }
    }
}

/// A call that changes a table: `Table::set` or `Table::grow`, with its arguments.
#[derive(Clone, Copy, Debug)]
pub enum TableOp {
    SetElement { idx: u32, val: Ref },
    GrowBy { val: Ref, num: u32 },
}

/// The elements of a table, in unguarded form, and its maximum size.
pub struct TypedTableEntity {
    elements: Vec<UnguardedRef>,
    maximum: Option<u32>,
}

impl View for TypedTableEntity {
    type V = TypedTableState;

    closed spec fn view(&self) -> TypedTableState {
        TypedTableState { maximum: self.maximum, elements: self.elements@ }
    }
}

impl TypedTableEntity {
    pub open spec fn wf(&self) -> bool {
        self@.wf()
    }

    /// Creates a table of `minimum` elements `val`, that can grow up to `maximum`.
    pub fn new(val: UnguardedRef, minimum: u32, maximum: Option<u32>) -> (r: Self)
        ensures
            r@ == (TypedTableState { maximum, elements: Seq::new(minimum as nat, |i: int| val) }),
            r.wf() <==> minimum <= spec_table_limit(maximum),
    {
        let mut elements: Vec<UnguardedRef> = Vec::new();
        let mut i: u32 = 0;
        while i < minimum
            invariant
                i <= minimum,
                elements@ == Seq::new(i as nat, |k: int| val),
            decreases minimum - i,
        {
            elements.push(val);
            i = i + 1;
            assert(elements@ =~= Seq::new(i as nat, |k: int| val));
        }
        Self { elements, maximum }
    }

    /// Returns the `idx`-th element, or `None` if `idx` is out of bounds.
    pub fn get(&self, idx: u32) -> (r: Option<UnguardedRef>)
        ensures
            r == (if idx < self@.elements.len() {
                Some(self@.elements[idx as int])
            } else {
                None
            }),
    {
        let idx = idx as usize;
        if idx < self.elements.len() {
            Some(self.elements[idx])
        } else {
            None
        }
    }

    /// Sets the `idx`-th element to `val`.
    ///
    /// # Errors
    ///
    /// If `idx` is out of bounds.
    pub fn set(&mut self, idx: u32, val: UnguardedRef) -> (r: Result<(), TableError>)
        ensures
            r is Ok <==> idx < old(self)@.elements.len(),
            match r {
                Ok(_) => final(self)@ == old(self)@.with_elements(
                    old(self)@.elements.update(idx as int, val),
                ),
                Err(e) => e == TableError::IdxOutOfBounds && final(self)@ == old(self)@,
            },
    {
        let idx = idx as usize;
        if idx >= self.elements.len() {
            return Err(TableError::IdxOutOfBounds);
        }
        self.elements[idx] = val;
        Ok(())
    }

    /// Returns the number of elements of this table.
    pub fn size(&self) -> (r: u32)
        ensures
            r == self@.size_u32(),
    {
        let len = self.elements.len();
        let size = len as u32;
        proof {
            assert(size == len as int % 0x1_0000_0000) by (bit_vector)
                requires
                    size == len as u32,
            ;
        }
        size
    }

    /// Grows this table by `num` elements `val`, and returns its previous size.
    ///
    /// # Errors
    ///
    /// If the table would grow beyond its maximum, or beyond `u32::MAX` when it has none.
    pub fn grow(&mut self, val: UnguardedRef, num: u32) -> (r: Result<u32, TableError>)
        requires
            old(self).wf(),
        ensures
            final(self).wf(),
            r is Ok <==> old(self)@.can_grow(num as int),
            match r {
                Ok(size) => size == old(self)@.elements.len() && final(self)@ == old(self)@.grown(
                    val,
                    num as int,
                ),
                Err(e) => e == TableError::FailedToGrow && final(self)@ == old(self)@,
            },
    {
        let limit = match self.maximum {
            Some(maximum) => maximum,
            None => u32::MAX,
        };
        proof {
            self@.lemma_size_u32();
        }
        if num > limit - self.size() {
            return Err(TableError::FailedToGrow);
        }
        let size = self.size();
        let ghost orig = self@.elements;
        let mut i: u32 = 0;
        while i < num
            invariant
                i <= num,
                size == orig.len(),
                size + num <= limit,
                limit == spec_table_limit(self.maximum),
                self.maximum == old(self)@.maximum,
                self.elements@ == orig + Seq::new(i as nat, |k: int| val),
            decreases num - i,
        {
            self.elements.push(val);
            i = i + 1;
            assert(self.elements@ =~= orig + Seq::new(i as nat, |k: int| val));
        }
        Ok(size)
    }

    /// Sets the `num` elements starting at `idx` to `val`.
    ///
    /// # Errors
    ///
    /// If the range is out of bounds.
    pub fn fill(&mut self, idx: u32, val: UnguardedRef, num: u32) -> (r: Result<(), Trap>)
        ensures
            r is Ok <==> range_in_bounds(old(self)@.elements.len() as int, idx as int, num as int),
            match r {
                Ok(_) => final(self)@ == old(self)@.with_elements(
                    spec_fill(old(self)@.elements, idx as int, val, num as int),
                ),
                Err(e) => e == Trap::TableAccessOutOfBounds && final(self)@ == old(self)@,
            },
    {
        let len = self.elements.len();
        if idx as usize > len || num as usize > len - idx as usize {
            return Err(Trap::TableAccessOutOfBounds);
        }
        fill_range(&mut self.elements, idx as usize, val, num as usize);
        Ok(())
    }

    /// Copies the `num` elements of `src_table` starting at `src_idx` to those of this table
    /// starting at `dst_idx`.
    ///
    /// # Errors
    ///
    /// If either range is out of bounds.
    pub fn copy(&mut self, dst_idx: u32, src_table: &TypedTableEntity, src_idx: u32, num: u32) -> (r:
        Result<(), Trap>)
        ensures
            r is Ok <==> range_in_bounds(old(self)@.elements.len() as int, dst_idx as int, num as int)
                && range_in_bounds(src_table@.elements.len() as int, src_idx as int, num as int),
            match r {
                Ok(_) => final(self)@ == old(self)@.with_elements(
                    spec_copy_from(
                        old(self)@.elements,
                        dst_idx as int,
                        src_table@.elements,
                        src_idx as int,
                        num as int,
                    ),
                ),
                Err(e) => e == Trap::TableAccessOutOfBounds && final(self)@ == old(self)@,
            },
    {
        let len = self.elements.len();
        if dst_idx as usize > len || num as usize > len - dst_idx as usize {
            return Err(Trap::TableAccessOutOfBounds);
        }
        let src_elems = src_table.elements.as_slice();
        let src_len = src_elems.len();
        if src_idx as usize > src_len || num as usize > src_len - src_idx as usize {
            return Err(Trap::TableAccessOutOfBounds);
        }
        copy_range_from(&mut self.elements, dst_idx as usize, src_elems, src_idx as usize, num as usize);
        Ok(())
    }

    /// Copies the `num` elements starting at `src_idx` to those starting at `dst_idx`;
    /// the two ranges may overlap.
    ///
    /// # Errors
    ///
    /// If either range is out of bounds.
    pub fn copy_within(&mut self, dst_idx: u32, src_idx: u32, num: u32) -> (r: Result<(), Trap>)
        ensures
            ({
                let size = old(self)@.size_u32() as int;
                r is Ok <==> range_in_bounds(size, dst_idx as int, num as int) && range_in_bounds(
                    size,
                    src_idx as int,
                    num as int,
                )
            }),
            match r {
                Ok(_) => final(self)@ == old(self)@.with_elements(
                    spec_copy_within(old(self)@.elements, dst_idx as int, src_idx as int, num as int),
                ),
                Err(e) => e == Trap::TableAccessOutOfBounds && final(self)@ == old(self)@,
            },
    {
        let size = self.size();
        if num > size || dst_idx > size - num || src_idx > size - num {
            return Err(Trap::TableAccessOutOfBounds);
        }
        copy_range_within(&mut self.elements, dst_idx as usize, src_idx as usize, num as usize);
        Ok(())
    }

    /// Copies the `num` elements of `src_elem` starting at `src_idx` to those of this table
    /// starting at `dst_idx`.
    ///
    /// # Errors
    ///
    /// If either range is out of bounds.
    pub fn init(&mut self, dst_idx: u32, src_elem: &TypedElemEntity, src_idx: u32, num: u32) -> (r:
        Result<(), Trap>)
        ensures
            r is Ok <==> range_in_bounds(old(self)@.elements.len() as int, dst_idx as int, num as int)
                && range_in_bounds(src_elem@.len() as int, src_idx as int, num as int),
            match r {
                Ok(_) => final(self)@ == old(self)@.with_elements(
                    spec_copy_from(
                        old(self)@.elements,
                        dst_idx as int,
                        src_elem@,
                        src_idx as int,
                        num as int,
                    ),
                ),
                Err(e) => e == Trap::TableAccessOutOfBounds && final(self)@ == old(self)@,
            },
    {
        let len = self.elements.len();
        if dst_idx as usize > len || num as usize > len - dst_idx as usize {
            return Err(Trap::TableAccessOutOfBounds);
        }
        let src_elems = src_elem.elems();
        let src_len = src_elems.len();
        if src_idx as usize > src_len || num as usize > src_len - src_idx as usize {
            return Err(Trap::TableAccessOutOfBounds);
        }
        copy_range_from(&mut self.elements, dst_idx as usize, src_elems, src_idx as usize, num as usize);
        Ok(())
    }

    /// Returns the type of this table, given the type of its elements.
    pub fn ty(&self, element: RefType) -> (r: TableType)
        ensures
            r == (TableType { element, minimum: self@.size_u32(), maximum: self@.maximum }),
    {
        TableType::new(element, self.size(), self.maximum)
    }
}

/// The representation of a [`Table`] in a [`Store`]: its elements, by their type.
pub enum TableEntity {
    FuncRef(TypedTableEntity),
    ExternRef(TypedTableEntity),
}

impl View for TableEntity {
    type V = TableState;

    closed spec fn view(&self) -> TableState {
        match self {
            TableEntity::FuncRef(t) => TableState { element: RefType::FuncRef, typed: t@ },
            TableEntity::ExternRef(t) => TableState { element: RefType::ExternRef, typed: t@ },
        }
    }
}

impl TableEntity {
    /// Creates a table of type `element` from its typed representation.
    pub fn new(element: RefType, typed: TypedTableEntity) -> (r: Self)
        ensures
            r@ == (TableState { element, typed: typed@ }),
    {
        match element {
            RefType::FuncRef => TableEntity::FuncRef(typed),
            RefType::ExternRef => TableEntity::ExternRef(typed),
        }
    }

    /// Returns the type of the elements of this table.
    pub fn element_type(&self) -> (r: RefType)
        ensures
            r == self@.element,
    {
        match self {
            TableEntity::FuncRef(_) => RefType::FuncRef,
            TableEntity::ExternRef(_) => RefType::ExternRef,
        }
    }

    /// Returns the typed representation of this table, whatever the type of its elements.
    pub fn typed(&self) -> (r: &TypedTableEntity)
        ensures
            r@ == self@.typed,
    {
        match self {
            TableEntity::FuncRef(t) => t,
            TableEntity::ExternRef(t) => t,
        }
    }

    /// Returns the typed representation of this table, for changing it, whatever the type
    /// of its elements.
    pub fn typed_mut(&mut self) -> (r: &mut TypedTableEntity)
        ensures
            r@ == old(self)@.typed,
            final(self)@ == old(self)@.with_typed(final(r)@),
    {
        match self {
            TableEntity::FuncRef(t) => t,
            TableEntity::ExternRef(t) => t,
        }
    }

    /// Returns the typed representation of this table if its elements are of type `ty`.
    pub fn downcast_ref(&self, ty: RefType) -> (r: Option<&TypedTableEntity>)
        ensures
            match r {
                Some(t) => self@.element == ty && t@ == self@.typed,
                None => self@.element != ty,
            },
    {
        match (self, ty) {
            (TableEntity::FuncRef(t), RefType::FuncRef) => Some(t),
            (TableEntity::ExternRef(t), RefType::ExternRef) => Some(t),
            _ => None,
        }
    }

    /// Returns the typed representation of this table, for changing it, if its elements
    /// are of type `ty`.
    pub fn downcast_mut(&mut self, ty: RefType) -> (r: Option<&mut TypedTableEntity>)
        ensures
            match r {
                Some(t) => {
                    &&& old(self)@.element == ty
                    &&& t@ == old(self)@.typed
                    &&& final(self)@ == old(self)@.with_typed(final(t)@)
                },
                None => old(self)@.element != ty && final(self)@ == old(self)@,
            },
    {
        match (self, ty) {
            (TableEntity::FuncRef(t), RefType::FuncRef) => Some(t),
            (TableEntity::ExternRef(t), RefType::ExternRef) => Some(t),
            _ => None,
        }
    }

    /// Returns the type of this table.
    pub fn ty(&self) -> (r: TableType)
        ensures
            r == (TableType {
                element: self@.element,
                minimum: self@.typed.size_u32(),
                maximum: self@.typed.maximum,
            }),
    {
        self.typed().ty(self.element_type())
    }
}

} // verus!

verus! {

/// A WebAssembly table: a handle to a table in a [`Store`].
#[derive(Clone, Copy, Debug, PartialEq, Eq, Hash, Structural)]
pub struct Table {
    pub(crate) store_id: u64,
    pub(crate) idx: usize,
}

impl Table {
    pub closed spec fn spec_store_id(self) -> u64 {
        self.store_id
    }

    pub closed spec fn spec_idx(self) -> int {
        self.idx as int
    }

    /// Whether this handle refers to a table of the store `s`.
    pub open spec fn spec_in_store(self, s: StoreView) -> bool {
        &&& self.spec_store_id() == s.id
        &&& 0 <= self.spec_idx() < s.tables.len()
    }

    /// What the table this handle refers to holds in the store `s`.
    pub open spec fn spec_state(self, s: StoreView) -> TableState {
        s.tables[self.spec_idx()]
    }

    pub(crate) fn index(self) -> (r: usize)
        ensures
            r == self.spec_idx(),
    {
        self.idx
    }

    /// Creates a new [`Table`] of type `ty` in `store`, of `ty`'s minimum number of elements,
    /// each `init_val`.
    ///
    /// The caller guarantees that `ty` is valid, and that `init_val`, when its type matches,
    /// is null or refers to an object of `store`.
    ///
    /// # Errors
    ///
    /// If the [`RefType`] of `init_val` does not match that of the new table's elements.
    pub fn new(store: &mut Store, ty: TableType, init_val: Ref) -> (r: Result<Self, TableError>)
        requires
            old(store).wf(),
            ty.spec_is_valid(),
            init_val.spec_type() == ty.element ==> init_val.spec_in_store(old(store)@.id),
        ensures
            final(store).wf(),
            r is Ok <==> init_val.spec_type() == ty.element,
            match r {
                Ok(t) => {
                    &&& t.spec_in_store(final(store)@)
                    &&& t.spec_idx() == old(store)@.tables.len()
                    &&& final(store)@ == old(store)@.with_tables(
                        old(store)@.tables.push(
                            TableState {
                                element: ty.element,
                                typed: TypedTableState {
                                    maximum: ty.maximum,
                                    elements: Seq::new(
                                        ty.minimum as nat,
                                        |i: int| init_val.spec_to_unguarded(),
                                    ),
                                },
                            },
                        ),
                    )
                },
                Err(e) => e == TableError::TypeMismatch && final(store)@ == old(store)@,
            },
    {
        if init_val.type_() != ty.element() {
            return Err(TableError::TypeMismatch);
        }
        let store_id = store.id();
        let val = init_val.to_unguarded(store_id);
        let entity = TableEntity::new(ty.element, TypedTableEntity::new(val, ty.minimum, ty.maximum));
        proof {
            crate::store::lemma_wf_push_table(old(store)@, entity@);
        }
        let idx = store.insert_table(entity);
        Ok(Table { store_id, idx })
    }

    /// Returns the [`TableType`] of this table: its element type, current size and maximum.
    pub fn ty(self, store: &Store) -> (r: TableType)
        requires
            store.wf(),
            self.spec_in_store(store@),
        ensures
            r == (TableType {
                element: self.spec_state(store@).element,
                minimum: self.spec_state(store@).size() as u32,
                maximum: self.spec_state(store@).typed.maximum,
            }),
    {
        proof {
            assert(self.spec_state(store@).wf());
            self.spec_state(store@).typed.lemma_size_u32();
        }
        store.table(self).ty()
    }

    /// Returns the current value of this table's `idx`-th element, or `None` if `idx`
    /// is out of bounds.
    pub fn get(self, store: &Store, idx: u32) -> (r: Option<Ref>)
        requires
            self.spec_in_store(store@),
        ensures
            r == (if idx < self.spec_state(store@).size() {
                Some(
                    Ref::spec_from_unguarded(
                        self.spec_state(store@).element,
                        self.spec_state(store@).typed.elements[idx as int],
                        store@.id,
                    ),
                )
            } else {
                None
            }),
    {
        let entity = store.table(self);
        let ty = entity.element_type();
        match entity.typed().get(idx) {
            Some(val) => Some(Ref::from_unguarded(ty, val, store.id())),
            None => None,
        }
    }

    /// Sets this table's `idx`-th element to `new_val`.
    ///
    /// `new_val`, when its type matches, must be null or refer to an object of `store`.
    ///
    /// # Errors
    ///
    /// * If the [`RefType`] of `new_val` does not match that of this table's elements.
    /// * If `idx` is out of bounds.
    pub fn set(self, store: &mut Store, idx: u32, new_val: Ref) -> (r: Result<(), TableError>)
        requires
            old(store).wf(),
            self.spec_in_store(old(store)@),
            new_val.spec_type() == self.spec_state(old(store)@).element ==> new_val.spec_in_store(
                old(store)@.id,
            ),
        ensures
            final(store).wf(),
            ({
                let t = self.spec_state(old(store)@);
                match r {
                    Ok(_) => {
                        &&& new_val.spec_type() == t.element
                        &&& idx < t.size()
                        &&& final(store)@ == old(store)@.with_table(
                            self.spec_idx(),
                            t.with_typed(
                                t.typed.with_elements(
                                    t.typed.elements.update(idx as int, new_val.spec_to_unguarded()),
                                ),
                            ),
                        )
                    },
                    Err(e) => {
                        &&& final(store)@ == old(store)@
                        &&& e == (if new_val.spec_type() != t.element {
                            TableError::TypeMismatch
                        } else {
                            TableError::IdxOutOfBounds
                        })
                        &&& (new_val.spec_type() != t.element || idx >= t.size())
                    },
                }
            }),
            final(store)@ == old(store)@.with_table(
                self.spec_idx(),
                self.spec_state(old(store)@).after_op((TableOp::SetElement { idx, val: new_val })),
            ),
    {
        proof {
            assert(self.spec_state(old(store)@).wf());
        }
        let store_id = store.id();
        let entity = store.table_mut(self);
        if entity.element_type() != new_val.type_() {
            return Err(TableError::TypeMismatch);
        }
        let val = new_val.to_unguarded(store_id);
        let r = entity.typed_mut().set(idx, val);
        proof {
            assert(store@.tables[self.spec_idx()].typed.elements.len() == self.spec_state(old(store)@).typed.elements.len());
            crate::store::lemma_wf_with_table(old(store)@, self.spec_idx(), store@.tables[self.spec_idx()]);
            if r is Err {
                assert(store@.tables =~= old(store)@.tables);
            }
        }
        r
    }

    /// Returns this table's current size.
    pub fn size(&self, store: &Store) -> (r: u32)
        requires
            store.wf(),
            self.spec_in_store(store@),
        ensures
            r == self.spec_state(store@).size(),
    {
        proof {
            assert(self.spec_state(store@).wf());
            self.spec_state(store@).typed.lemma_size_u32();
        }
        store.table(*self).typed().size()
    }

    /// Grows this table by `num` elements with initial value `init_val`, and returns its
    /// previous size.
    ///
    /// `init_val`, when its type matches, must be null or refer to an object of `store`.
    ///
    /// # Errors
    ///
    /// * If the [`RefType`] of `init_val` does not match that of this table's elements.
    /// * If this table would grow beyond its maximum, or beyond `u32::MAX` elements.
    pub fn grow(self, store: &mut Store, init_val: Ref, num: u32) -> (r: Result<u32, TableError>)
        requires
            old(store).wf(),
            self.spec_in_store(old(store)@),
            init_val.spec_type() == self.spec_state(old(store)@).element ==> init_val.spec_in_store(
                old(store)@.id,
            ),
        ensures
            final(store).wf(),
            ({
                let t = self.spec_state(old(store)@);
                match r {
                    Ok(size) => {
                        &&& size == t.size()
                        &&& init_val.spec_type() == t.element
                        &&& t.typed.can_grow(num as int)
                        &&& final(store)@ == old(store)@.with_table(
                            self.spec_idx(),
                            t.with_typed(t.typed.grown(init_val.spec_to_unguarded(), num as int)),
                        )
                    },
                    Err(e) => {
                        &&& final(store)@ == old(store)@
                        &&& e == (if init_val.spec_type() != t.element {
                            TableError::TypeMismatch
                        } else {
                            TableError::FailedToGrow
                        })
                        &&& (init_val.spec_type() != t.element || !t.typed.can_grow(num as int))
                    },
                }
            }),
            final(store)@ == old(store)@.with_table(
                self.spec_idx(),
                self.spec_state(old(store)@).after_op((TableOp::GrowBy { val: init_val, num })),
            ),
    {
        proof {
            assert(self.spec_state(old(store)@).wf());
        }
        let store_id = store.id();
        let entity = store.table_mut(self);
        if entity.element_type() != init_val.type_() {
            return Err(TableError::TypeMismatch);
        }
        let val = init_val.to_unguarded(store_id);
        let r = entity.typed_mut().grow(val, num);
        proof {
            crate::store::lemma_wf_with_table(old(store)@, self.spec_idx(), store@.tables[self.spec_idx()]);
            if r is Err {
                assert(store@.tables =~= old(store)@.tables);
            }
        }
        r
    }

    /// Copies the `num` elements of `src_elem` starting at `src_idx` to those of this table
    /// starting at `dst_idx`.
    ///
    /// `src_elem` must hold elements of this table's type.
    ///
    /// # Errors
    ///
    /// If either range is out of bounds.
    pub fn init(self, store: &mut Store, dst_idx: u32, src_elem: Elem, src_idx: u32, num: u32) -> (r:
        Result<(), Trap>)
        requires
            old(store).wf(),
            self.spec_in_store(old(store)@),
            src_elem.spec_in_store(old(store)@),
            old(store)@.elems[src_elem.spec_idx()].element == self.spec_state(old(store)@).element,
        ensures
            final(store).wf(),
            ({
                let t = self.spec_state(old(store)@);
                let e = old(store)@.elems[src_elem.spec_idx()].elems;
                &&& r is Ok <==> range_in_bounds(t.size(), dst_idx as int, num as int)
                    && range_in_bounds(e.len() as int, src_idx as int, num as int)
                &&& match r {
                    Ok(_) => final(store)@ == old(store)@.with_table(
                        self.spec_idx(),
                        t.with_typed(
                            t.typed.with_elements(
                                spec_copy_from(t.typed.elements, dst_idx as int, e, src_idx as int, num as int),
                            ),
                        ),
                    ),
                    Err(trap) => trap == Trap::TableAccessOutOfBounds && final(store)@ == old(store)@,
                }
            }),
    {
        proof {
            assert(self.spec_state(old(store)@).wf());
        }
        let (dst, src) = store.table_mut_and_elem(self, src_elem);
        let r = dst.typed_mut().init(dst_idx, src.typed(), src_idx, num);
        proof {
            assert(store@.tables[self.spec_idx()].typed.elements.len() == self.spec_state(old(store)@).typed.elements.len());
            crate::store::lemma_wf_with_table(old(store)@, self.spec_idx(), store@.tables[self.spec_idx()]);
            if r is Err {
                assert(store@.tables =~= old(store)@.tables);
            }
        }
        r
    }
}

/// Subtyping of table types is reflexive: every table type is a subtype of itself.
pub proof fn law_table_subtype_reflexive(ty: TableType)
    ensures
        ty.spec_is_subtype_of(ty),
{
}

/// Subtyping of table types is transitive.
pub proof fn law_table_subtype_transitive(a: TableType, b: TableType, c: TableType)
    requires
        a.spec_is_subtype_of(b),
        b.spec_is_subtype_of(c),
    ensures
        a.spec_is_subtype_of(c),
{
}

/// The type of a well-formed table (its element type, its size as minimum, and its
/// maximum) is valid.
pub proof fn law_table_type_is_valid(t: TableState)
    requires
        t.wf(),
    ensures
        0 <= t.size() <= u32::MAX,
        (TableType { element: t.element, minimum: t.size() as u32, maximum: t.typed.maximum }).spec_is_valid(),
{
}

/// Reading back an element that a successful `set` wrote gives the reference written,
/// and every other element is unchanged.
pub proof fn law_table_get_after_set(t: TableState, store_id: u64, idx: int, val: Ref)
    requires
        0 <= idx < t.size(),
        val.spec_type() == t.element,
        val.spec_in_store(store_id),
    ensures
        ({
            let elements = t.typed.elements.update(idx, val.spec_to_unguarded());
            &&& Ref::spec_from_unguarded(t.element, elements[idx], store_id) == val
            &&& forall|j: int| 0 <= j < t.size() && j != idx ==> #[trigger] elements[j] == t.typed.elements[j]
        }),
{
    crate::reference::lemma_ref_roundtrip(val, store_id);
}

/// After a successful `grow` by `num` elements `val`, the table has `num` more elements,
/// every old element is unchanged, and every new one reads back as `val`.
pub proof fn law_table_get_after_grow(t: TableState, store_id: u64, val: Ref, num: int)
    requires
        t.wf(),
        0 <= num,
        t.typed.can_grow(num),
        val.spec_type() == t.element,
        val.spec_in_store(store_id),
    ensures
        ({
            let g = t.with_typed(t.typed.grown(val.spec_to_unguarded(), num));
            &&& g.wf()
            &&& g.size() == t.size() + num
            &&& forall|j: int| 0 <= j < t.size() ==> #[trigger] g.typed.elements[j] == t.typed.elements[j]
            &&& forall|j: int|
                t.size() <= j < g.size() ==> Ref::spec_from_unguarded(
                    g.element,
                    #[trigger] g.typed.elements[j],
                    store_id,
                ) == val
        }),
{
    crate::reference::lemma_ref_roundtrip(val, store_id);
}

/// Every element of a table made by `Table::new` reads back as the initial value.
pub proof fn law_new_table_elements(ty: TableType, store_id: u64, init_val: Ref)
    requires
        ty.spec_is_valid(),
        init_val.spec_type() == ty.element,
        init_val.spec_in_store(store_id),
    ensures
        ({
            let t = TableState {
                element: ty.element,
                typed: TypedTableState {
                    maximum: ty.maximum,
                    elements: Seq::new(ty.minimum as nat, |i: int| init_val.spec_to_unguarded()),
                },
            };
            &&& t.wf()
            &&& t.size() == ty.minimum
            &&& forall|j: int|
                0 <= j < t.size() ==> Ref::spec_from_unguarded(
                    t.element,
                    #[trigger] t.typed.elements[j],
                    store_id,
                ) == init_val
        }),
{
    crate::reference::lemma_ref_roundtrip(init_val, store_id);
}

/// A `set` call never changes a table's size, nor its element type or maximum: the size
/// changes only through `grow`.
pub proof fn law_table_set_keeps_size(t: TableState, idx: u32, val: Ref)
    ensures
        t.after_op((TableOp::SetElement { idx, val })).size() == t.size(),
        t.after_op((TableOp::SetElement { idx, val })).element == t.element,
        t.after_op((TableOp::SetElement { idx, val })).typed.maximum == t.typed.maximum,
{
}

/// Any sequence of `set` and `grow` calls keeps a table well formed, keeps its element type
/// and maximum, and never shrinks it.
pub proof fn law_table_after_ops(t: TableState, ops: Seq<TableOp>)
    requires
        t.wf(),
    ensures
        t.after_ops(ops).wf(),
        t.after_ops(ops).element == t.element,
        t.after_ops(ops).typed.maximum == t.typed.maximum,
        t.size() <= t.after_ops(ops).size() <= t.typed.limit(),
    decreases ops.len(),
{
    if ops.len() > 0 {
        law_table_after_ops(t.after_op(ops[0]), ops.drop_first());
    }
}

/// A table made by `Table::new` from a valid type `ty`, after any sequence of `set` and
/// `grow` calls, has the type `ty` gives with its current size as minimum: its element type
/// and maximum are `ty`'s, its size is between `ty`'s minimum and its limit, and that type
/// is valid and a subtype of `ty`.
pub proof fn law_table_type_after_ops(ty: TableType, init_val: Ref, ops: Seq<TableOp>)
    requires
        ty.spec_is_valid(),
        init_val.spec_type() == ty.element,
    ensures
        ({
            let t = (TableState {
                element: ty.element,
                typed: TypedTableState {
                    maximum: ty.maximum,
                    elements: Seq::new(ty.minimum as nat, |i: int| init_val.spec_to_unguarded()),
                },
            }).after_ops(ops);
            let now = TableType { element: t.element, minimum: t.size() as u32, maximum: t.typed.maximum };
            &&& now == TableType { element: ty.element, minimum: t.size() as u32, maximum: ty.maximum }
            &&& ty.minimum <= t.size() <= spec_table_limit(ty.maximum)
            &&& t.typed.size_u32() == t.size()
            &&& now.spec_is_valid()
            &&& now.spec_is_subtype_of(ty)
        }),
{
    let t0 = TableState {
        element: ty.element,
        typed: TypedTableState {
            maximum: ty.maximum,
            elements: Seq::new(ty.minimum as nat, |i: int| init_val.spec_to_unguarded()),
        },
    };
    law_table_after_ops(t0, ops);
    t0.after_ops(ops).typed.lemma_size_u32();
}

/// What subtyping of table types means: `a` is a subtype of `b` exactly when both hold
/// the same type of reference, `a` promises at least as many elements as `b` requires,
/// and, when `b` has a maximum, `a` has one too that is no larger. In particular a type
/// with fewer elements is never a subtype, whatever the maxima.
pub proof fn law_table_subtype_meaning(a: TableType, b: TableType)
    ensures
        a.spec_is_subtype_of(b) <==> {
            &&& a.element == b.element
            &&& a.minimum >= b.minimum
            &&& forall|bm: u32|
                b.maximum == Some(bm) ==> exists|am: u32| a.maximum == Some(am) && am <= bm
        },
        a.spec_is_subtype_of(b) ==> a.minimum >= b.minimum && a.element == b.element,
        a.minimum < b.minimum ==> !a.spec_is_subtype_of(b),
{
    if let Some(bm) = b.maximum {
        if let Some(am) = a.maximum {
            assert(a.maximum == Some(am) && am <= bm ==> exists|x: u32| a.maximum == Some(x) && x <= bm);
        }
    }
}

/// What validity of a table type means: its minimum is at most its maximum, if it has one.
pub proof fn law_table_valid_meaning(ty: TableType)
    ensures
        ty.spec_is_valid() <==> forall|m: u32| ty.maximum == Some(m) ==> ty.minimum <= m,
{
}

/// Growing a table by `num` elements succeeds exactly when its size plus `num` is at most
/// its maximum, or at most `u32::MAX` when it has none.
pub proof fn law_table_can_grow_meaning(t: TypedTableState, num: int)
    ensures
        t.can_grow(num) <==> match t.maximum {
            Some(max) => t.elements.len() + num <= max,
            None => t.elements.len() + num <= 0xFFFF_FFFF,
        },
{
}

} // verus!
