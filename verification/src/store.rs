//! The store: the memories, tables, data segments and element segments of a runtime.
use vstd::prelude::*;
use crate::data::{Data, DataEntity};
use crate::elem::{Elem, ElemEntity, ElemState};
use crate::memory::{Memory, MemoryEntity, MemoryState};
use crate::table::{Table, TableEntity, TableState};

verus! {

/// What a [`Store`] holds, as mathematical values.
#[verifier::ext_equal]
pub struct StoreView {
    pub id: u64,
    pub memories: Seq<MemoryState>,
    pub tables: Seq<TableState>,
    pub datas: Seq<Seq<u8>>,
    pub elems: Seq<ElemState>,
}

impl StoreView {
    /// Every memory and every table of the store is well formed.
    pub open spec fn wf(self) -> bool {
        &&& forall|i: int| 0 <= i < self.memories.len() ==> #[trigger] self.memories[i].wf()
        &&& forall|i: int| 0 <= i < self.tables.len() ==> #[trigger] self.tables[i].wf()
    }

    pub open spec fn with_memories(self, memories: Seq<MemoryState>) -> StoreView {
        StoreView { memories, ..self }
    }

    pub open spec fn with_tables(self, tables: Seq<TableState>) -> StoreView {
        StoreView { tables, ..self }
    }

    pub open spec fn with_datas(self, datas: Seq<Seq<u8>>) -> StoreView {
        StoreView { datas, ..self }
    }

    pub open spec fn with_elems(self, elems: Seq<ElemState>) -> StoreView {
        StoreView { elems, ..self }
    }

    pub open spec fn with_memory(self, i: int, m: MemoryState) -> StoreView {
        self.with_memories(self.memories.update(i, m))
    }

    pub open spec fn with_table(self, i: int, t: TableState) -> StoreView {
        self.with_tables(self.tables.update(i, t))
    }
}

/// Replacing a memory of a well-formed store by a well-formed memory keeps the store well formed.
pub proof fn lemma_wf_with_memory(s: StoreView, i: int, m: MemoryState)
    requires
        s.wf(),
        0 <= i < s.memories.len(),
        m.wf(),
    ensures
        s.with_memory(i, m).wf(),
{
    let t = s.with_memory(i, m);
    assert forall|j: int| 0 <= j < t.memories.len() implies #[trigger] t.memories[j].wf() by {
        if j != i {
            assert(s.memories[j].wf());
        }
    }
    assert forall|j: int| 0 <= j < t.tables.len() implies #[trigger] t.tables[j].wf() by {
        assert(s.tables[j].wf());
    }
}

/// Replacing a table of a well-formed store by a well-formed table keeps the store well formed.
pub proof fn lemma_wf_with_table(s: StoreView, i: int, t: TableState)
    requires
        s.wf(),
        0 <= i < s.tables.len(),
        t.wf(),
    ensures
        s.with_table(i, t).wf(),
{
    let u = s.with_table(i, t);
    assert forall|j: int| 0 <= j < u.memories.len() implies #[trigger] u.memories[j].wf() by {
        assert(s.memories[j].wf());
    }
    assert forall|j: int| 0 <= j < u.tables.len() implies #[trigger] u.tables[j].wf() by {
        if j != i {
            assert(s.tables[j].wf());
        }
    }
}

/// Adding a well-formed memory to a well-formed store keeps it well formed.
pub proof fn lemma_wf_push_memory(s: StoreView, m: MemoryState)
    requires
        s.wf(),
        m.wf(),
    ensures
        s.with_memories(s.memories.push(m)).wf(),
{
    let t = s.with_memories(s.memories.push(m));
    assert forall|j: int| 0 <= j < t.memories.len() implies #[trigger] t.memories[j].wf() by {
        if j < s.memories.len() {
            assert(s.memories[j].wf());
        }
    }
    assert forall|j: int| 0 <= j < t.tables.len() implies #[trigger] t.tables[j].wf() by {
        assert(s.tables[j].wf());
    }
}

/// Adding a well-formed table to a well-formed store keeps it well formed.
pub proof fn lemma_wf_push_table(s: StoreView, t: TableState)
    requires
        s.wf(),
        t.wf(),
    ensures
        s.with_tables(s.tables.push(t)).wf(),
{
    let u = s.with_tables(s.tables.push(t));
    assert forall|j: int| 0 <= j < u.memories.len() implies #[trigger] u.memories[j].wf() by {
        assert(s.memories[j].wf());
    }
    assert forall|j: int| 0 <= j < u.tables.len() implies #[trigger] u.tables[j].wf() by {
        if j < s.tables.len() {
            assert(s.tables[j].wf());
        }
    }
}

/// Adding a data or an element segment keeps a store well formed.
pub proof fn lemma_wf_segments(s: StoreView, datas: Seq<Seq<u8>>, elems: Seq<ElemState>)
    requires
        s.wf(),
    ensures
        s.with_datas(datas).wf(),
        s.with_elems(elems).wf(),
{
    assert forall|j: int| 0 <= j < s.memories.len() implies #[trigger] s.memories[j].wf() by {}
    assert forall|j: int| 0 <= j < s.tables.len() implies #[trigger] s.tables[j].wf() by {}
}

/// The owner of all memories, tables and segments of a runtime. Handles to them
/// carry the id of the store that made them.
pub struct Store {
    id: u64,
    memories: Vec<MemoryEntity>,
    tables: Vec<TableEntity>,
    datas: Vec<DataEntity>,
    elems: Vec<ElemEntity>,
}

impl View for Store {
    type V = StoreView;

    closed spec fn view(&self) -> StoreView {
        StoreView {
            id: self.id,
            memories: self.memories@.map_values(|e: MemoryEntity| e@),
            tables: self.tables@.map_values(|e: TableEntity| e@),
            datas: self.datas@.map_values(|e: DataEntity| e@),
            elems: self.elems@.map_values(|e: ElemEntity| e@),
        }
    }
}

impl Store {
    pub open spec fn wf(&self) -> bool {
        self@.wf()
    }

    /// Creates an empty store with the given id. Handles carry the id of the store that
    /// made them, and operations require a handle's id to be this store's, so stores that
    /// live side by side should be given different ids.
    pub fn new(id: u64) -> (r: Self)
        ensures
            r.wf(),
            r@ == (StoreView {
                id,
                memories: Seq::empty(),
                tables: Seq::empty(),
                datas: Seq::empty(),
                elems: Seq::empty(),
            }),
    {
        let r = Store {
            id,
            memories: Vec::new(),
            tables: Vec::new(),
            datas: Vec::new(),
            elems: Vec::new(),
        };
        assert(r@.memories =~= Seq::empty());
        assert(r@.tables =~= Seq::empty());
        assert(r@.datas =~= Seq::empty());
        assert(r@.elems =~= Seq::empty());
        r
    }

    /// Returns the id of this store.
    pub fn id(&self) -> (r: u64)
        ensures
            r == self@.id,
    {
        self.id
    }

    pub(crate) fn insert_memory(&mut self, memory: MemoryEntity) -> (r: usize)
        ensures
            final(self)@ == old(self)@.with_memories(old(self)@.memories.push(memory@)),
            r == old(self)@.memories.len(),
    {
        let r = self.memories.len();
        self.memories.push(memory);
        assert(self@.memories =~= old(self)@.memories.push(memory@));
        r
    }

    pub(crate) fn insert_table(&mut self, table: TableEntity) -> (r: usize)
        ensures
            final(self)@ == old(self)@.with_tables(old(self)@.tables.push(table@)),
            r == old(self)@.tables.len(),
    {
        let r = self.tables.len();
        self.tables.push(table);
        assert(self@.tables =~= old(self)@.tables.push(table@));
        r
    }

    pub(crate) fn insert_data(&mut self, data: DataEntity) -> (r: usize)
        ensures
            final(self)@ == old(self)@.with_datas(old(self)@.datas.push(data@)),
            r == old(self)@.datas.len(),
    {
        let r = self.datas.len();
        self.datas.push(data);
        assert(self@.datas =~= old(self)@.datas.push(data@));
        r
    }

    pub(crate) fn insert_elem(&mut self, elem: ElemEntity) -> (r: usize)
        ensures
            final(self)@ == old(self)@.with_elems(old(self)@.elems.push(elem@)),
            r == old(self)@.elems.len(),
    {
        let r = self.elems.len();
        self.elems.push(elem);
        assert(self@.elems =~= old(self)@.elems.push(elem@));
        r
    }

    /// Returns the representation of `memory` in this store.
    pub fn memory(&self, memory: Memory) -> (r: &MemoryEntity)
        requires
            memory.spec_in_store(self@),
        ensures
            r@ == self@.memories[memory.spec_idx()],
    {
        &self.memories[memory.index()]
    }

    /// Returns the representation of `memory` in this store, for changing it.
    pub fn memory_mut(&mut self, memory: Memory) -> (r: &mut MemoryEntity)
        requires
            memory.spec_in_store(old(self)@),
        ensures
            r@ == old(self)@.memories[memory.spec_idx()],
            final(self)@ =~= old(self)@.with_memory(memory.spec_idx(), final(r)@),
    {
        let i = memory.index();
        &mut self.memories[i]
    }

    /// Returns the representation of `table` in this store.
    pub fn table(&self, table: Table) -> (r: &TableEntity)
        requires
            table.spec_in_store(self@),
        ensures
            r@ == self@.tables[table.spec_idx()],
    {
        &self.tables[table.index()]
    }

    /// Returns the representation of `table` in this store, for changing it.
    pub fn table_mut(&mut self, table: Table) -> (r: &mut TableEntity)
        requires
            table.spec_in_store(old(self)@),
        ensures
            r@ == old(self)@.tables[table.spec_idx()],
            final(self)@ =~= old(self)@.with_table(table.spec_idx(), final(r)@),
    {
        let i = table.index();
        &mut self.tables[i]
    }

    /// Returns the representation of `data` in this store.
    pub fn data(&self, data: Data) -> (r: &DataEntity)
        requires
            data.spec_in_store(self@),
        ensures
            r@ == self@.datas[data.spec_idx()],
    {
        &self.datas[data.index()]
    }

    /// Returns the representation of `elem` in this store.
    pub fn elem(&self, elem: Elem) -> (r: &ElemEntity)
        requires
            elem.spec_in_store(self@),
        ensures
            r@ == self@.elems[elem.spec_idx()],
    {
        &self.elems[elem.index()]
    }

    /// Returns the representations of `memory`, for changing it, and of `data`.
    pub fn memory_mut_and_data(&mut self, memory: Memory, data: Data) -> (r: (&mut MemoryEntity, &DataEntity))
        requires
            memory.spec_in_store(old(self)@),
            data.spec_in_store(old(self)@),
        ensures
            r.0@ == old(self)@.memories[memory.spec_idx()],
            r.1@ == old(self)@.datas[data.spec_idx()],
            final(self)@ =~= old(self)@.with_memory(memory.spec_idx(), final(r.0)@),
    {
        let i = memory.index();
        let j = data.index();
        let d = &self.datas[j];
        let m = &mut self.memories[i];
        (m, d)
    }

    /// Returns the representations of `table`, for changing it, and of `elem`.
    pub fn table_mut_and_elem(&mut self, table: Table, elem: Elem) -> (r: (&mut TableEntity, &ElemEntity))
        requires
            table.spec_in_store(old(self)@),
            elem.spec_in_store(old(self)@),
        ensures
            r.0@ == old(self)@.tables[table.spec_idx()],
            r.1@ == old(self)@.elems[elem.spec_idx()],
            final(self)@ =~= old(self)@.with_table(table.spec_idx(), final(r.0)@),
    {
        let i = table.index();
        let j = elem.index();
        let e = &self.elems[j];
        let t = &mut self.tables[i];
        (t, e)
    }
}

} // verus!
