//! Element segments: sequences of references of a store that initialize tables.
use vstd::prelude::*;
use crate::reference::{Ref, RefType, UnguardedRef};
use crate::store::{Store, StoreView};
use crate::table::TableError;

verus! {

/// A handle to an element segment in a [`Store`].
#[derive(Clone, Copy, Debug, PartialEq, Eq, Hash, Structural)]
pub struct Elem {
    pub(crate) store_id: u64,
    pub(crate) idx: usize,
}

/// What an element segment holds, as mathematical values.
pub struct ElemState {
    pub element: RefType,
    pub elems: Seq<UnguardedRef>,
}

/// The elements of an element segment, in unguarded form.
pub struct TypedElemEntity {
    elems: Vec<UnguardedRef>,
}

impl View for TypedElemEntity {
    type V = Seq<UnguardedRef>;

    closed spec fn view(&self) -> Seq<UnguardedRef> {
        self.elems@
    }
}

impl TypedElemEntity {
    /// Creates an element segment that holds `elems`.
    pub fn new(elems: Vec<UnguardedRef>) -> (r: Self)
        ensures
            r@ == elems@,
    {
        TypedElemEntity { elems }
    }

    /// Returns the elements of this segment.
    pub fn elems(&self) -> (r: &[UnguardedRef])
        ensures
            r@ == self@,
    {
        self.elems.as_slice()
    }
}

/// The representation of an [`Elem`] in a [`Store`]: its elements, by their type.
pub enum ElemEntity {
    FuncRef(TypedElemEntity),
    ExternRef(TypedElemEntity),
}

impl View for ElemEntity {
    type V = ElemState;

    closed spec fn view(&self) -> ElemState {
        match self {
            ElemEntity::FuncRef(e) => ElemState { element: RefType::FuncRef, elems: e@ },
            ElemEntity::ExternRef(e) => ElemState { element: RefType::ExternRef, elems: e@ },
        }
    }
}

impl ElemEntity {
    /// Creates an element segment of type `element` that holds `elems`.
    pub fn new(element: RefType, elems: Vec<UnguardedRef>) -> (r: Self)
        ensures
            r@ == (ElemState { element, elems: elems@ }),
    {
        match element {
            RefType::FuncRef => ElemEntity::FuncRef(TypedElemEntity::new(elems)),
            RefType::ExternRef => ElemEntity::ExternRef(TypedElemEntity::new(elems)),
        }
    }

    /// Returns the type of the elements of this segment.
    pub fn element_type(&self) -> (r: RefType)
        ensures
            r == self@.element,
    {
        match self {
            ElemEntity::FuncRef(_) => RefType::FuncRef,
            ElemEntity::ExternRef(_) => RefType::ExternRef,
        }
    }

    /// Returns the elements of this segment, whatever their type.
    pub fn typed(&self) -> (r: &TypedElemEntity)
        ensures
            r@ == self@.elems,
    {
        match self {
            ElemEntity::FuncRef(e) => e,
            ElemEntity::ExternRef(e) => e,
        }
    }
}

impl Elem {
    pub closed spec fn spec_store_id(self) -> u64 {
        self.store_id
    }

    pub closed spec fn spec_idx(self) -> int {
        self.idx as int
    }

    /// Whether this handle refers to an element segment of the store `s`.
    pub open spec fn spec_in_store(self, s: StoreView) -> bool {
        &&& self.spec_store_id() == s.id
        &&& 0 <= self.spec_idx() < s.elems.len()
    }

    pub(crate) fn index(self) -> (r: usize)
        ensures
            r == self.spec_idx(),
    {
        self.idx
    }

    /// Creates a new element segment of type `element` in `store`, holding `elems`.
    ///
    /// The caller guarantees that every reference of type `element` in `elems` is null or
    /// refers to an object of `store`.
    ///
    /// # Errors
    ///
    /// If a reference in `elems` is not of type `element`.
    pub fn new(store: &mut Store, element: RefType, elems: &[Ref]) -> (r: Result<Self, TableError>)
        requires
            old(store).wf(),
            forall|i: int|
                0 <= i < elems@.len() && (#[trigger] elems@[i]).spec_type() == element
                    ==> elems@[i].spec_in_store(old(store)@.id),
        ensures
            final(store).wf(),
            r is Ok <==> forall|i: int| 0 <= i < elems@.len() ==> (#[trigger] elems@[i]).spec_type()
                == element,
            match r {
                Ok(e) => {
                    &&& e.spec_in_store(final(store)@)
                    &&& e.spec_idx() == old(store)@.elems.len()
                    &&& final(store)@ == old(store)@.with_elems(
                        old(store)@.elems.push(
                            ElemState {
                                element,
                                elems: elems@.map_values(|x: Ref| x.spec_to_unguarded()),
                            },
                        ),
                    )
                },
                Err(e) => e == TableError::TypeMismatch && final(store)@ == old(store)@,
            },
    {
        let store_id = store.id();
        let mut unguarded: Vec<UnguardedRef> = Vec::new();
        let mut i: usize = 0;
        while i < elems.len()
            invariant
                i <= elems@.len(),
                store_id == old(store)@.id,
                store@ == old(store)@,
                store.wf(),
                forall|j: int|
                    0 <= j < elems@.len() && (#[trigger] elems@[j]).spec_type() == element
                        ==> elems@[j].spec_in_store(store_id),
                forall|j: int| 0 <= j < i ==> (#[trigger] elems@[j]).spec_type() == element,
                unguarded@ == elems@.subrange(0, i as int).map_values(|x: Ref| x.spec_to_unguarded()),
            decreases elems@.len() - i,
        {
            let x = elems[i];
            if x.type_() != element {
                return Err(TableError::TypeMismatch);
            }
            unguarded.push(x.to_unguarded(store_id));
            i = i + 1;
            assert(unguarded@ =~= elems@.subrange(0, i as int).map_values(
                |x: Ref| x.spec_to_unguarded(),
            ));
        }
        assert(elems@.subrange(0, i as int) =~= elems@);
        let entity = ElemEntity::new(element, unguarded);
        proof {
            crate::store::lemma_wf_segments(old(store)@, old(store)@.datas, old(store)@.elems.push(entity@));
        }
        let idx = store.insert_elem(entity);
        Ok(Elem { store_id, idx })
    }
}

} // verus!
