//! References to objects of a store, the values that tables hold.
use vstd::prelude::*;

verus! {

/// The type of a reference: to a function, or to an object of the host.
#[derive(Clone, Copy, Debug, PartialEq, Eq, Hash, Structural)]
pub enum RefType {
    FuncRef,
    ExternRef,
}

/// The form in which a table holds a reference: `None` for a null reference,
/// else the index of the object in the table's store.
pub type UnguardedRef = Option<u32>;

/// An object of a store: the store's id and the object's index in it.
#[derive(Clone, Copy, Debug, PartialEq, Eq, Hash, Structural)]
pub struct StoreObject {
    pub(crate) store_id: u64,
    pub(crate) idx: u32,
}

impl StoreObject {
    pub closed spec fn spec_store_id(self) -> u64 {
        self.store_id
    }

    pub closed spec fn spec_idx(self) -> u32 {
        self.idx
    }

    /// The object numbered `idx` in the store whose id is `store_id`.
    pub closed spec fn spec_new(store_id: u64, idx: u32) -> StoreObject {
        StoreObject { store_id, idx }
    }

    pub proof fn lemma_new(store_id: u64, idx: u32)
        ensures
            Self::spec_new(store_id, idx).spec_store_id() == store_id,
            Self::spec_new(store_id, idx).spec_idx() == idx,
    {
    }

    pub proof fn lemma_eq(a: StoreObject, b: StoreObject)
        requires
            a.spec_store_id() == b.spec_store_id(),
            a.spec_idx() == b.spec_idx(),
        ensures
            a == b,
    {
    }
}

/// Whether a nullable reference is null or refers to an object of the store `store_id`.
pub open spec fn spec_object_in_store(obj: Option<StoreObject>, store_id: u64) -> bool {
    obj matches Some(o) ==> o.spec_store_id() == store_id
}

/// The unguarded form of a nullable reference.
pub open spec fn spec_object_to_unguarded(obj: Option<StoreObject>) -> UnguardedRef {
    match obj {
        Some(o) => Some(o.spec_idx()),
        None => None,
    }
}

/// The nullable reference that the unguarded form `u` stands for in the store `store_id`.
pub open spec fn spec_object_from_unguarded(u: UnguardedRef, store_id: u64) -> Option<StoreObject> {
    match u {
        Some(idx) => Some(StoreObject::spec_new(store_id, idx)),
        None => None,
    }
}

/// Converting a reference of a store to its unguarded form and back gives the same reference.
pub proof fn lemma_object_roundtrip(obj: Option<StoreObject>, store_id: u64)
    requires
        spec_object_in_store(obj, store_id),
    ensures
        spec_object_from_unguarded(spec_object_to_unguarded(obj), store_id) == obj,
{
    if let Some(o) = obj {
        StoreObject::lemma_new(store_id, o.spec_idx());
        StoreObject::lemma_eq(StoreObject::spec_new(store_id, o.spec_idx()), o);
    }
}

fn object_to_unguarded(obj: Option<StoreObject>) -> (r: UnguardedRef)
    ensures
        r == spec_object_to_unguarded(obj),
{
    match obj {
        Some(o) => Some(o.idx),
        None => None,
    }
}

fn object_from_unguarded(u: UnguardedRef, store_id: u64) -> (r: Option<StoreObject>)
    ensures
        r == spec_object_from_unguarded(u, store_id),
{
    match u {
        Some(idx) => Some(StoreObject { store_id, idx }),
        None => None,
    }
}

/// A nullable reference to a function.
#[derive(Clone, Copy, Debug, PartialEq, Eq, Hash, Structural)]
pub struct FuncRef(pub(crate) Option<StoreObject>);

/// A nullable reference to an object of the host.
#[derive(Clone, Copy, Debug, PartialEq, Eq, Hash, Structural)]
pub struct ExternRef(pub(crate) Option<StoreObject>);

impl FuncRef {
    pub closed spec fn spec_object(self) -> Option<StoreObject> {
        self.0
    }

    pub closed spec fn spec_from_object(obj: Option<StoreObject>) -> FuncRef {
        FuncRef(obj)
    }

    pub proof fn lemma_object(obj: Option<StoreObject>, r: FuncRef)
        ensures
            Self::spec_from_object(obj).spec_object() == obj,
            Self::spec_from_object(r.spec_object()) == r,
    {
    }

    /// Creates a null [`FuncRef`].
    pub fn null() -> (r: Self)
        ensures
            r.spec_object() == None::<StoreObject>,
    {
        FuncRef(None)
    }

    /// Creates a [`FuncRef`] to the function numbered `idx` in the store whose id is `store_id`.
    pub fn new(store_id: u64, idx: u32) -> (r: Self)
        ensures
            r.spec_object() == Some(StoreObject::spec_new(store_id, idx)),
    {
        FuncRef(Some(StoreObject { store_id, idx }))
    }

    /// Returns whether this [`FuncRef`] is null.
    pub fn is_null(self) -> (r: bool)
        ensures
            r == (self.spec_object() is None),
    {
        self.0.is_none()
    }

    pub(crate) fn to_unguarded(self, store_id: u64) -> (r: UnguardedRef)
        requires
            spec_object_in_store(self.spec_object(), store_id),
        ensures
            r == spec_object_to_unguarded(self.spec_object()),
    {
        object_to_unguarded(self.0)
    }

    pub(crate) fn from_unguarded(u: UnguardedRef, store_id: u64) -> (r: Self)
        ensures
            r.spec_object() == spec_object_from_unguarded(u, store_id),
    {
        FuncRef(object_from_unguarded(u, store_id))
    }
}

impl ExternRef {
    pub closed spec fn spec_object(self) -> Option<StoreObject> {
        self.0
    }

    pub closed spec fn spec_from_object(obj: Option<StoreObject>) -> ExternRef {
        ExternRef(obj)
    }

    pub proof fn lemma_object(obj: Option<StoreObject>, r: ExternRef)
        ensures
            Self::spec_from_object(obj).spec_object() == obj,
            Self::spec_from_object(r.spec_object()) == r,
    {
    }

    /// Creates a null [`ExternRef`].
    pub fn null() -> (r: Self)
        ensures
            r.spec_object() == None::<StoreObject>,
    {
        ExternRef(None)
    }

    /// Creates an [`ExternRef`] to the host object numbered `idx` in the store whose id is
    /// `store_id`.
    pub fn new(store_id: u64, idx: u32) -> (r: Self)
        ensures
            r.spec_object() == Some(StoreObject::spec_new(store_id, idx)),
    {
        ExternRef(Some(StoreObject { store_id, idx }))
    }

    /// Returns whether this [`ExternRef`] is null.
    pub fn is_null(self) -> (r: bool)
        ensures
            r == (self.spec_object() is None),
    {
        self.0.is_none()
    }

    pub(crate) fn to_unguarded(self, store_id: u64) -> (r: UnguardedRef)
        requires
            spec_object_in_store(self.spec_object(), store_id),
        ensures
            r == spec_object_to_unguarded(self.spec_object()),
    {
        object_to_unguarded(self.0)
    }

    pub(crate) fn from_unguarded(u: UnguardedRef, store_id: u64) -> (r: Self)
        ensures
            r.spec_object() == spec_object_from_unguarded(u, store_id),
    {
        ExternRef(object_from_unguarded(u, store_id))
    }
}

/// A nullable reference of either type.
#[derive(Clone, Copy, Debug, PartialEq, Eq, Hash, Structural)]
pub enum Ref {
    FuncRef(FuncRef),
    ExternRef(ExternRef),
}

impl Ref {
    pub open spec fn spec_type(self) -> RefType {
        match self {
            Ref::FuncRef(_) => RefType::FuncRef,
            Ref::ExternRef(_) => RefType::ExternRef,
        }
    }

    pub open spec fn spec_object(self) -> Option<StoreObject> {
        match self {
            Ref::FuncRef(r) => r.spec_object(),
            Ref::ExternRef(r) => r.spec_object(),
        }
    }

    /// Whether this reference is null or refers to an object of the store `store_id`.
    pub open spec fn spec_in_store(self, store_id: u64) -> bool {
        spec_object_in_store(self.spec_object(), store_id)
    }

    pub open spec fn spec_to_unguarded(self) -> UnguardedRef {
        spec_object_to_unguarded(self.spec_object())
    }

    /// The reference of type `ty` that the unguarded form `u` stands for in the store `store_id`.
    pub open spec fn spec_from_unguarded(ty: RefType, u: UnguardedRef, store_id: u64) -> Ref {
        match ty {
            RefType::FuncRef => Ref::FuncRef(
                FuncRef::spec_from_object(spec_object_from_unguarded(u, store_id)),
            ),
            RefType::ExternRef => Ref::ExternRef(
                ExternRef::spec_from_object(spec_object_from_unguarded(u, store_id)),
            ),
        }
    }

    /// Creates a null reference of type `ty`.
    pub fn null(ty: RefType) -> (r: Self)
        ensures
            r.spec_type() == ty,
            r.spec_object() is None,
    {
        match ty {
            RefType::FuncRef => Ref::FuncRef(FuncRef::null()),
            RefType::ExternRef => Ref::ExternRef(ExternRef::null()),
        }
    }

    /// Returns the [`RefType`] of this reference.
    pub fn type_(self) -> (r: RefType)
        ensures
            r == self.spec_type(),
    {
        match self {
            Ref::FuncRef(_) => RefType::FuncRef,
            Ref::ExternRef(_) => RefType::ExternRef,
        }
    }

    /// Returns whether this reference is null.
    pub fn is_null(self) -> (r: bool)
        ensures
            r == (self.spec_object() is None),
    {
        match self {
            Ref::FuncRef(r) => r.is_null(),
            Ref::ExternRef(r) => r.is_null(),
        }
    }

    pub(crate) fn to_unguarded(self, store_id: u64) -> (r: UnguardedRef)
        requires
            self.spec_in_store(store_id),
        ensures
            r == self.spec_to_unguarded(),
    {
        match self {
            Ref::FuncRef(r) => r.to_unguarded(store_id),
            Ref::ExternRef(r) => r.to_unguarded(store_id),
        }
    }

    pub(crate) fn from_unguarded(ty: RefType, u: UnguardedRef, store_id: u64) -> (r: Self)
        ensures
            r == Self::spec_from_unguarded(ty, u, store_id),
    {
        proof {
            FuncRef::lemma_object(spec_object_from_unguarded(u, store_id), FuncRef::spec_from_object(None));
            ExternRef::lemma_object(spec_object_from_unguarded(u, store_id), ExternRef::spec_from_object(None));
        }
        match ty {
            RefType::FuncRef => {
                let r = FuncRef::from_unguarded(u, store_id);
                proof { FuncRef::lemma_object(r.spec_object(), r); }
                Ref::FuncRef(r)
            },
            RefType::ExternRef => {
                let r = ExternRef::from_unguarded(u, store_id);
                proof { ExternRef::lemma_object(r.spec_object(), r); }
                Ref::ExternRef(r)
            },
        }
    }
}

/// The unguarded form of a reference of a store, read back in that store, is the same reference.
pub proof fn lemma_ref_roundtrip(r: Ref, store_id: u64)
    requires
        r.spec_in_store(store_id),
    ensures
        Ref::spec_from_unguarded(r.spec_type(), r.spec_to_unguarded(), store_id) == r,
        Ref::spec_from_unguarded(r.spec_type(), r.spec_to_unguarded(), store_id).spec_type()
            == r.spec_type(),
{
    lemma_object_roundtrip(r.spec_object(), store_id);
    match r {
        Ref::FuncRef(f) => FuncRef::lemma_object(f.spec_object(), f),
        Ref::ExternRef(e) => ExternRef::lemma_object(e.spec_object(), e),
    }
}

/// A reference that a table of type `ty` in the store `store_id` gives back is of type
/// `ty`, null or an object of that store, and has the unguarded form it was read from.
pub proof fn law_ref_read_from_table(ty: RefType, u: UnguardedRef, store_id: u64)
    ensures
        Ref::spec_from_unguarded(ty, u, store_id).spec_type() == ty,
        Ref::spec_from_unguarded(ty, u, store_id).spec_to_unguarded() == u,
        Ref::spec_from_unguarded(ty, u, store_id).spec_in_store(store_id),
{
    let o = spec_object_from_unguarded(u, store_id);
    FuncRef::lemma_object(o, FuncRef::spec_from_object(o));
    ExternRef::lemma_object(o, ExternRef::spec_from_object(o));
    if let Some(idx) = u {
        StoreObject::lemma_new(store_id, idx);
    }
}

} // verus!
