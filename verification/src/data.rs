//! Data segments: byte strings of a store that initialize memories.
use vstd::prelude::*;
use crate::store::{Store, StoreView};

verus! {

/// A handle to a data segment in a [`Store`].
#[derive(Clone, Copy, Debug, PartialEq, Eq, Hash, Structural)]
pub struct Data {
    pub(crate) store_id: u64,
    pub(crate) idx: usize,
}

/// The representation of a [`Data`] in a [`Store`].
pub struct DataEntity {
    bytes: Vec<u8>,
}

impl View for DataEntity {
    type V = Seq<u8>;

    closed spec fn view(&self) -> Seq<u8> {
        self.bytes@
    }
}

impl DataEntity {
    /// Creates a data segment that holds `bytes`.
    pub fn new(bytes: Vec<u8>) -> (r: Self)
        ensures
            r@ == bytes@,
    {
        DataEntity { bytes }
    }

    /// Returns the bytes of this data segment.
    pub fn bytes(&self) -> (r: &[u8])
        ensures
            r@ == self@,
    {
        self.bytes.as_slice()
    }
}

impl Data {
    pub closed spec fn spec_store_id(self) -> u64 {
        self.store_id
    }

    pub closed spec fn spec_idx(self) -> int {
        self.idx as int
    }

    /// Whether this handle refers to a data segment of the store `s`.
    pub open spec fn spec_in_store(self, s: StoreView) -> bool {
        &&& self.spec_store_id() == s.id
        &&& 0 <= self.spec_idx() < s.datas.len()
    }

    pub(crate) fn index(self) -> (r: usize)
        ensures
            r == self.spec_idx(),
    {
        self.idx
    }

    /// Creates a new data segment in `store` that holds `bytes`.
    pub fn new(store: &mut Store, bytes: Vec<u8>) -> (r: Self)
        requires
            old(store).wf(),
        ensures
            final(store).wf(),
            final(store)@ == old(store)@.with_datas(old(store)@.datas.push(bytes@)),
            r.spec_in_store(final(store)@),
            r.spec_idx() == old(store)@.datas.len(),
    {
        proof {
            crate::store::lemma_wf_segments(old(store)@, old(store)@.datas.push(bytes@), old(store)@.elems);
        }
        let idx = store.insert_data(DataEntity::new(bytes));
        let store_id = store.id();
        Data { store_id, idx }
    }

    /// Returns the bytes of this data segment.
    pub fn bytes(self, store: &Store) -> (r: &[u8])
        requires
            self.spec_in_store(store@),
        ensures
            r@ == store@.datas[self.spec_idx()],
    {
        store.data(self).bytes()
    }
}

} // verus!
