//! Linear memories: their types, their representation in a store, and the
//! operations on them.
use vstd::prelude::*;
use crate::data::{Data, DataEntity};
use crate::range_ops::{
    copy_range_from, copy_range_within, fill_range, range_in_bounds, spec_copy_from,
    spec_copy_within, spec_fill,
};
use crate::store::{lemma_wf_push_memory, lemma_wf_with_memory, Store, StoreView};
use crate::stack::{repointed_all, Stack};
use crate::trap::Trap;

verus! {

/// The size of a page of linear memory, in bytes.
pub const PAGE_SIZE: usize = 65_536;

/// The largest number of pages a linear memory can ever have.
pub const MAX_PAGES: u32 = 65_536;

/// The limit, in pages, up to which a memory with the given maximum can grow.
pub open spec fn spec_memory_limit(maximum: Option<u32>) -> int {
    match maximum {
        Some(m) => m as int,
        None => MAX_PAGES as int,
    }
}

/// Whether a memory of `minimum` pages with the given maximum is valid: the maximum,
/// if any, is at most [`MAX_PAGES`], and the minimum is at most the limit.
pub open spec fn spec_memory_limits_valid(minimum: u32, maximum: Option<u32>) -> bool {
    &&& maximum matches Some(m) ==> m <= MAX_PAGES
    &&& minimum <= spec_memory_limit(maximum)
}

/// A sequence of `n` zero bytes.
pub open spec fn zeros(n: int) -> Seq<u8> {
    Seq::new(n as nat, |i: int| 0u8)
}

/// The type of a [`Memory`]: its minimum size and optional maximum size, in pages.
#[derive(Clone, Copy, Debug, PartialEq, Eq, Hash, Structural)]
pub struct MemoryType {
    pub(crate) minimum: u32,
    pub(crate) maximum: Option<u32>,
}

impl MemoryType {
    pub closed spec fn spec_minimum(self) -> u32 {
        self.minimum
    }

    pub closed spec fn spec_maximum(self) -> Option<u32> {
        self.maximum
    }

    /// Two memory types with the same minimum and the same maximum are equal.
    pub proof fn lemma_ext_equal(a: MemoryType, b: MemoryType)
        requires
            a.spec_minimum() == b.spec_minimum(),
            a.spec_maximum() == b.spec_maximum(),
        ensures
            a == b,
    {
    }

    /// A memory type is valid when its maximum, if any, is at most [`MAX_PAGES`],
    /// and its minimum is at most its maximum (or [`MAX_PAGES`] when there is none).
    pub open spec fn spec_is_valid(self) -> bool {
        spec_memory_limits_valid(self.spec_minimum(), self.spec_maximum())
    }

    /// `self` is a subtype of `other` when it promises at least as many pages
    /// and a maximum at least as tight.
    pub open spec fn spec_is_subtype_of(self, other: Self) -> bool {
        &&& self.spec_minimum() >= other.spec_minimum()
        &&& match (self.spec_maximum(), other.spec_maximum()) {
            (None, Some(_)) => false,
            (Some(a), Some(b)) => a <= b,
            _ => true,
        }
    }

    /// Creates a new [`MemoryType`] with the given minimum and maximum size.
    pub fn new(minimum: u32, maximum: Option<u32>) -> (r: Self)
        ensures
            r.spec_minimum() == minimum,
            r.spec_maximum() == maximum,
    {
        Self { minimum, maximum }
    }

    /// Returns the minimum size.
    pub fn minimum(&self) -> (r: u32)
        ensures
            r == self.spec_minimum(),
    {
        self.minimum
    }

    /// Returns the maximum size, if any.
    pub fn maximum(&self) -> (r: Option<u32>)
        ensures
            r == self.spec_maximum(),
    {
        self.maximum
    }

    /// Returns whether this memory type is valid.
    pub fn is_valid(&self) -> (r: bool)
        ensures
            r == self.spec_is_valid(),
    {
        let maximum = if let Some(maximum) = self.maximum {
            if maximum > MAX_PAGES {
                return false;
            }
            maximum
        } else {
            MAX_PAGES
        };
        if self.minimum > maximum {
            return false;
        }
        true
    }

    /// Returns whether `self` is a subtype of `other`.
    pub fn is_subtype_of(self, other: Self) -> (r: bool)
        ensures
            r == self.spec_is_subtype_of(other),
    {
        if self.minimum < other.minimum {
            return false;
        }
        match (self.maximum, other.maximum) {
            (None, Some(_)) => return false,
            (Some(maximum), Some(other_maximum)) => if maximum > other_maximum {
                return false;
            },
            _ => (),
        };
        true
    }
}

/// An error that can occur when operating on a [`Memory`].
#[derive(Clone, Copy, Debug, PartialEq, Eq, Structural)]
#[non_exhaustive]
pub enum MemoryError {
    FailedToGrow,
}

impl MemoryError {
    /// Returns the message that describes this error.
    pub fn message(&self) -> (r: &'static str)
        ensures
            r@ == (match self {
                MemoryError::FailedToGrow => "memory failed to grow"@,
            }),
    {
        match self {
            MemoryError::FailedToGrow => "memory failed to grow",
        }
    }
}

/// What a memory holds, as mathematical values.
pub struct MemoryState {
    pub maximum: Option<u32>,
    pub bytes: Seq<u8>,
}

impl MemoryState {
    /// The number of pages of the memory.
    pub open spec fn pages(self) -> int {
        self.bytes.len() as int / PAGE_SIZE as int
    }

    /// The number of pages up to which the memory can grow.
    pub open spec fn limit(self) -> int {
        spec_memory_limit(self.maximum)
    }

    /// The memory holds whole pages, no more than its limit, and its maximum is
    /// no more than [`MAX_PAGES`].
    pub open spec fn wf(self) -> bool {
        &&& self.bytes.len() as int % PAGE_SIZE as int == 0
        &&& self.pages() <= self.limit()
        &&& self.maximum matches Some(m) ==> m <= MAX_PAGES
    }

    /// The memory grown by `num` pages of zero bytes.
    pub open spec fn grown(self, num: int) -> MemoryState {
        MemoryState { maximum: self.maximum, bytes: self.bytes + zeros(num * PAGE_SIZE as int) }
    }

    /// The memory with its bytes replaced by `bytes`.
    pub open spec fn with_bytes(self, bytes: Seq<u8>) -> MemoryState {
        MemoryState { maximum: self.maximum, bytes }
    }

    /// Whether growing the memory by `num` pages succeeds.
    pub open spec fn can_grow(self, num: int) -> bool {
        num <= self.limit() - self.pages()
    }

    /// The memory after a call that grows it by `num` pages: grown when that succeeds,
    /// else unchanged.
    pub open spec fn after_grow(self, num: int) -> MemoryState {
        if self.can_grow(num) {
            self.grown(num)
        } else {
            self
        }
    }

    /// The memory after calls that grow it by each of `nums` in turn.
    pub open spec fn after_grows(self, nums: Seq<u32>) -> MemoryState
        decreases nums.len(),
    {
        if nums.len() == 0 {
            self
        } else {
            self.after_grow(nums[0] as int).after_grows(nums.drop_first())
        }
    }
}

/// The representation of a [`Memory`] in a [`Store`].
pub struct MemoryEntity {
    maximum: Option<u32>,
    bytes: Vec<u8>,
}

impl View for MemoryEntity {
    type V = MemoryState;

    closed spec fn view(&self) -> MemoryState {
        MemoryState { maximum: self.maximum, bytes: self.bytes@ }
    }
}

proof fn lemma_pages_bound(pages: int)
    requires
        0 <= pages <= MAX_PAGES,
    ensures
        pages * PAGE_SIZE as int <= 0x1_0000_0000,
        (pages * PAGE_SIZE as int) % PAGE_SIZE as int == 0,
        (pages * PAGE_SIZE as int) / PAGE_SIZE as int == pages,
{
    assert(pages * 65536 <= 0x1_0000_0000) by (nonlinear_arith)
        requires
            0 <= pages <= 65536,
    ;
    vstd::arithmetic::div_mod::lemma_mod_multiples_basic(pages, PAGE_SIZE as int);
    vstd::arithmetic::div_mod::lemma_div_multiples_vanish(pages, PAGE_SIZE as int);
}

impl MemoryEntity {
    pub open spec fn wf(&self) -> bool {
        self@.wf()
    }

    /// Creates a memory of `minimum` pages of zero bytes, that can grow up to `maximum`.
    pub fn new(minimum: u32, maximum: Option<u32>) -> (r: Self)
        requires
            minimum * PAGE_SIZE <= usize::MAX,
        ensures
            r@ == (MemoryState { maximum, bytes: zeros(minimum * PAGE_SIZE as int) }),
            r.wf() <==> spec_memory_limits_valid(minimum, maximum),
    {
        proof {
            vstd::arithmetic::div_mod::lemma_mod_multiples_basic(minimum as int, PAGE_SIZE as int);
            vstd::arithmetic::div_mod::lemma_div_multiples_vanish(minimum as int, PAGE_SIZE as int);
        }
        let len = (minimum as usize) * PAGE_SIZE;
        let mut bytes: Vec<u8> = Vec::new();
        bytes.resize(len, 0u8);
        assert(bytes@ =~= zeros(len as int));
        Self { maximum, bytes }
    }

    /// Returns the type of this memory: its current size as minimum, and its maximum.
    pub fn ty(&self) -> (r: MemoryType)
        requires
            self@.pages() <= u32::MAX,
        ensures
            r.spec_minimum() == self@.pages(),
            r.spec_maximum() == self@.maximum,
    {
        MemoryType { minimum: self.size(), maximum: self.maximum }
    }

    /// Returns the bytes of this memory.
    pub fn bytes(&self) -> (r: &[u8])
        ensures
            r@ == self@.bytes,
    {
        self.bytes.as_slice()
    }

    /// Returns the bytes of this memory, for changing them.
    pub fn bytes_mut(&mut self) -> (r: &mut [u8])
        ensures
            r@ == old(self)@.bytes,
            final(self)@ == old(self)@.with_bytes(final(r)@),
            final(r)@.len() == r@.len() ==> (final(self).wf() <==> old(self).wf()),
    {
        self.bytes.as_mut_slice()
    }

    /// Returns the size of this memory, in pages.
    pub fn size(&self) -> (r: u32)
        requires
            self@.pages() <= u32::MAX,
        ensures
            r == self@.pages(),
    {
        (self.bytes.len() / PAGE_SIZE) as u32
    }

    /// Grows this memory by `count` pages of zero bytes, and returns its previous size.
    ///
    /// # Errors
    ///
    /// If the memory would grow beyond its maximum, or beyond [`MAX_PAGES`] when it has none.
    pub fn grow(&mut self, count: u32) -> (r: Result<u32, MemoryError>)
        requires
            old(self).wf(),
            old(self)@.can_grow(count as int) ==> (old(self)@.pages() + count) * PAGE_SIZE
                <= usize::MAX,
        ensures
            final(self).wf(),
            r is Ok <==> old(self)@.can_grow(count as int),
            match r {
                Ok(size) => size == old(self)@.pages() && final(self)@ == old(self)@.grown(
                    count as int,
                ),
                Err(e) => e == MemoryError::FailedToGrow && final(self)@ == old(self)@,
            },
    {
        let limit = match self.maximum {
            Some(maximum) => maximum,
            None => MAX_PAGES,
        };
        let old_size = self.size();
        if count > limit - old_size {
            return Err(MemoryError::FailedToGrow);
        }
        let new_size = old_size + count;
        proof {
            lemma_pages_bound(new_size as int);
            lemma_pages_bound(old_size as int);
            assert(old(self)@.bytes.len() == old_size * PAGE_SIZE);
            assert((new_size as int) * PAGE_SIZE as int == old_size * PAGE_SIZE as int + count
                * PAGE_SIZE as int) by (nonlinear_arith)
                requires
                    new_size == old_size + count,
            ;
        }
        self.bytes.resize((new_size as usize) * PAGE_SIZE, 0u8);
        assert(self@.bytes =~= old(self)@.grown(count as int).bytes);
        Ok(old_size)
    }

    /// Sets the `num` bytes starting at `idx` to `val`.
    ///
    /// # Errors
    ///
    /// If the range is out of bounds.
    pub fn fill(&mut self, idx: u32, val: u8, num: u32) -> (r: Result<(), Trap>)
        ensures
            r is Ok <==> range_in_bounds(old(self)@.bytes.len() as int, idx as int, num as int),
            match r {
                Ok(_) => final(self)@ == old(self)@.with_bytes(
                    spec_fill(old(self)@.bytes, idx as int, val, num as int),
                ),
                Err(e) => e == Trap::MemAccessOutOfBounds && final(self)@ == old(self)@,
            },
    {
        let len = self.bytes.len();
        if idx as usize > len || num as usize > len - idx as usize {
            return Err(Trap::MemAccessOutOfBounds);
        }
        fill_range(&mut self.bytes, idx as usize, val, num as usize);
        Ok(())
    }

    /// Copies the `num` bytes starting at `src_idx` to those starting at `dst_idx`;
    /// the two ranges may overlap.
    ///
    /// The bounds are checked against the memory's length taken modulo 2^32.
    ///
    /// # Errors
    ///
    /// If either range is out of bounds.
    pub fn copy_within(&mut self, dst_idx: u32, src_idx: u32, num: u32) -> (r: Result<(), Trap>)
        ensures
            ({
                let size = old(self)@.bytes.len() as int % 0x1_0000_0000;
                r is Ok <==> range_in_bounds(size, dst_idx as int, num as int) && range_in_bounds(
                    size,
                    src_idx as int,
                    num as int,
                )
            }),
            match r {
                Ok(_) => final(self)@ == old(self)@.with_bytes(
                    spec_copy_within(old(self)@.bytes, dst_idx as int, src_idx as int, num as int),
                ),
                Err(e) => e == Trap::MemAccessOutOfBounds && final(self)@ == old(self)@,
            },
    {
        let len = self.bytes.len();
        let size = len as u32;
        proof {
            assert(size == len as int % 0x1_0000_0000) by (bit_vector)
                requires
                    size == len as u32,
            ;
        }
        if num > size || dst_idx > size - num || src_idx > size - num {
            return Err(Trap::MemAccessOutOfBounds);
        }
        copy_range_within(&mut self.bytes, dst_idx as usize, src_idx as usize, num as usize);
        Ok(())
    }

    /// Copies the `num` bytes of `src_data` starting at `src_idx` to those of this memory
    /// starting at `dst_idx`.
    ///
    /// # Errors
    ///
    /// If either range is out of bounds.
    pub fn init(&mut self, dst_idx: u32, src_data: &DataEntity, src_idx: u32, num: u32) -> (r:
        Result<(), Trap>)
        ensures
            r is Ok <==> range_in_bounds(old(self)@.bytes.len() as int, dst_idx as int, num as int)
                && range_in_bounds(src_data@.len() as int, src_idx as int, num as int),
            match r {
                Ok(_) => final(self)@ == old(self)@.with_bytes(
                    spec_copy_from(
                        old(self)@.bytes,
                        dst_idx as int,
                        src_data@,
                        src_idx as int,
                        num as int,
                    ),
                ),
                Err(e) => e == Trap::MemAccessOutOfBounds && final(self)@ == old(self)@,
            },
    {
        let len = self.bytes.len();
        if dst_idx as usize > len || num as usize > len - dst_idx as usize {
            return Err(Trap::MemAccessOutOfBounds);
        }
        let src_bytes = src_data.bytes();
        let src_len = src_bytes.len();
        if src_idx as usize > src_len || num as usize > src_len - src_idx as usize {
            return Err(Trap::MemAccessOutOfBounds);
        }
        copy_range_from(&mut self.bytes, dst_idx as usize, src_bytes, src_idx as usize, num as usize);
        Ok(())
    }
}

/// A WebAssembly memory: a handle to a memory in a [`Store`].
#[derive(Clone, Copy, Debug, PartialEq, Eq, Hash, Structural)]
pub struct Memory {
    pub(crate) store_id: u64,
    pub(crate) idx: usize,
}

impl Memory {
    pub closed spec fn spec_store_id(self) -> u64 {
        self.store_id
    }

    pub closed spec fn spec_idx(self) -> int {
        self.idx as int
    }

    /// Whether this handle refers to a memory of the store `s`.
    pub open spec fn spec_in_store(self, s: StoreView) -> bool {
        &&& self.spec_store_id() == s.id
        &&& 0 <= self.spec_idx() < s.memories.len()
    }

    /// What the memory this handle refers to holds in the store `s`.
    pub open spec fn spec_state(self, s: StoreView) -> MemoryState {
        s.memories[self.spec_idx()]
    }

    pub(crate) fn index(self) -> (r: usize)
        ensures
            r == self.spec_idx(),
    {
        self.idx
    }

    /// Creates a new [`Memory`] of type `ty` in `store`, of `ty`'s minimum number of pages
    /// of zero bytes.
    ///
    /// `ty` must be valid, and the memory's length in bytes must fit in a `usize`.
    pub fn new(store: &mut Store, ty: MemoryType) -> (r: Self)
        requires
            old(store).wf(),
            ty.spec_is_valid(),
            ty.spec_minimum() * PAGE_SIZE <= usize::MAX,
        ensures
            final(store).wf(),
            final(store)@ == old(store)@.with_memories(
                old(store)@.memories.push(
                    MemoryState {
                        maximum: ty.spec_maximum(),
                        bytes: zeros(ty.spec_minimum() * PAGE_SIZE as int),
                    },
                ),
            ),
            r.spec_in_store(final(store)@),
            r.spec_idx() == old(store)@.memories.len(),
    {
        let entity = MemoryEntity::new(ty.minimum, ty.maximum);
        let ghost state = entity@;
        let idx = store.insert_memory(entity);
        let store_id = store.id();
        proof {
            lemma_wf_push_memory(old(store)@, state);
        }
        Memory { store_id, idx }
    }

    /// Returns the [`MemoryType`] of this memory: its current size and its maximum.
    pub fn type_(self, store: &Store) -> (r: MemoryType)
        requires
            store.wf(),
            self.spec_in_store(store@),
        ensures
            r.spec_minimum() == self.spec_state(store@).pages(),
            r.spec_maximum() == self.spec_state(store@).maximum,
    {
        proof {
            assert(self.spec_state(store@).wf());
        }
        store.memory(self).ty()
    }

    /// Returns this memory's bytes.
    pub fn bytes(self, store: &Store) -> (r: &[u8])
        requires
            self.spec_in_store(store@),
        ensures
            r@ == self.spec_state(store@).bytes,
    {
        store.memory(self).bytes()
    }

    /// Returns this memory's bytes, for changing them.
    pub fn bytes_mut(self, store: &mut Store) -> (r: &mut [u8])
        requires
            self.spec_in_store(old(store)@),
        ensures
            r@ == self.spec_state(old(store)@).bytes,
            final(store)@ == old(store)@.with_memory(
                self.spec_idx(),
                self.spec_state(old(store)@).with_bytes(final(r)@),
            ),
            old(store).wf() && final(r)@.len() == r@.len() ==> final(store).wf(),
    {
        proof {
            if old(store).wf() {
                let m = self.spec_state(old(store)@);
                assert(m.wf());
                assert forall|b: Seq<u8>| b.len() == m.bytes.len() implies #[trigger] old(store)@.with_memory(
                    self.spec_idx(),
                    m.with_bytes(b),
                ).wf() by {
                    lemma_wf_with_memory(old(store)@, self.spec_idx(), m.with_bytes(b));
                }
            }
        }
        store.memory_mut(self).bytes_mut()
    }

    /// Returns this memory's current size, in pages.
    pub fn size(&self, store: &Store) -> (r: u32)
        requires
            store.wf(),
            self.spec_in_store(store@),
        ensures
            r == self.spec_state(store@).pages(),
    {
        proof {
            assert(self.spec_state(store@).wf());
        }
        store.memory(*self).size()
    }

    /// Grows this memory by `num` pages of zero bytes, and returns its previous size.
    ///
    /// The grown memory's length in bytes must fit in a `usize`. Growing changes nothing
    /// but this memory; [`Memory::grow_with_stack`] also repoints the call frames of an
    /// interpreter's stack.
    ///
    /// # Errors
    ///
    /// If this memory would grow beyond its maximum, or beyond [`MAX_PAGES`].
    pub fn grow(self, store: &mut Store, num: u32) -> (r: Result<u32, MemoryError>)
        requires
            old(store).wf(),
            self.spec_in_store(old(store)@),
            self.spec_state(old(store)@).can_grow(num as int) ==> (self.spec_state(
                old(store)@,
            ).pages() + num) * PAGE_SIZE <= usize::MAX,
        ensures
            final(store).wf(),
            r is Ok <==> self.spec_state(old(store)@).can_grow(num as int),
            match r {
                Ok(size) => size == self.spec_state(old(store)@).pages() && final(store)@
                    == old(store)@.with_memory(
                    self.spec_idx(),
                    self.spec_state(old(store)@).grown(num as int),
                ),
                Err(e) => e == MemoryError::FailedToGrow && final(store)@ == old(store)@,
            },
            final(store)@ == old(store)@.with_memory(
                self.spec_idx(),
                self.spec_state(old(store)@).after_grow(num as int),
            ),
    {
        proof {
            assert(self.spec_state(old(store)@).wf());
        }
        let r = store.memory_mut(self).grow(num);
        proof {
            lemma_wf_with_memory(old(store)@, self.spec_idx(), store@.memories[self.spec_idx()]);
            if r is Err {
                assert(store@.memories =~= old(store)@.memories);
            }
        }
        r
    }

    /// Grows this memory by `num` pages of zero bytes, as [`Memory::grow`] does, and on
    /// success repoints the interpreter's call frames: every frame on the chain from the
    /// top of `stack` whose saved memory is this one gets the new size. Returns the
    /// previous size.
    ///
    /// # Errors
    ///
    /// If this memory would grow beyond its maximum, or beyond [`MAX_PAGES`]; the store
    /// and the stack are then unchanged.
    pub fn grow_with_stack(self, store: &mut Store, stack: &mut Stack, num: u32) -> (r: Result<u32, MemoryError>)
        requires
            old(store).wf(),
            old(stack).wf(),
            self.spec_in_store(old(store)@),
            self.spec_state(old(store)@).can_grow(num as int) ==> (self.spec_state(
                old(store)@,
            ).pages() + num) * PAGE_SIZE <= usize::MAX,
        ensures
            final(store).wf(),
            final(stack).wf(),
            r is Ok <==> self.spec_state(old(store)@).can_grow(num as int),
            final(store)@ == old(store)@.with_memory(
                self.spec_idx(),
                self.spec_state(old(store)@).after_grow(num as int),
            ),
            match r {
                Ok(size) => {
                    &&& size == self.spec_state(old(store)@).pages()
                    &&& final(stack)@ == repointed_all(old(stack)@, self, (size + num) as u32)
                },
                Err(e) => e == MemoryError::FailedToGrow && final(stack)@ == old(stack)@,
            },
    {
        let r = self.grow(store, num);
        if let Ok(old_size) = r {
            proof {
                assert(self.spec_state(old(store)@).wf());
            }
            stack.repoint(self, old_size + num);
        }
        r
    }

    /// Copies the `count` bytes of `src_data` starting at `src_offset` to those of this
    /// memory starting at `dst_offset`.
    ///
    /// # Errors
    ///
    /// If either range is out of bounds.
    pub fn init(self, store: &mut Store, dst_offset: u32, src_data: Data, src_offset: u32, count: u32) -> (r: Result<(), Trap>)
        requires
            old(store).wf(),
            self.spec_in_store(old(store)@),
            src_data.spec_in_store(old(store)@),
        ensures
            final(store).wf(),
            ({
                let mem = self.spec_state(old(store)@);
                let data = old(store)@.datas[src_data.spec_idx()];
                &&& r is Ok <==> range_in_bounds(mem.bytes.len() as int, dst_offset as int, count as int)
                    && range_in_bounds(data.len() as int, src_offset as int, count as int)
                &&& match r {
                    Ok(_) => final(store)@ == old(store)@.with_memory(
                        self.spec_idx(),
                        mem.with_bytes(spec_copy_from(mem.bytes, dst_offset as int, data, src_offset as int, count as int)),
                    ),
                    Err(e) => e == Trap::MemAccessOutOfBounds && final(store)@ == old(store)@,
                }
            }),
    {
        proof {
            assert(self.spec_state(old(store)@).wf());
        }
        let (dst, src) = store.memory_mut_and_data(self, src_data);
        let r = dst.init(dst_offset, src, src_offset, count);
        proof {
            assert(store@.memories[self.spec_idx()].bytes.len() == self.spec_state(old(store)@).bytes.len());
            lemma_wf_with_memory(old(store)@, self.spec_idx(), store@.memories[self.spec_idx()]);
            if r is Err {
                assert(store@.memories =~= old(store)@.memories);
            }
        }
        r
    }
}

/// Subtyping of memory types is reflexive: every memory type is a subtype of itself.
pub proof fn law_memory_subtype_reflexive(ty: MemoryType)
    ensures
        ty.spec_is_subtype_of(ty),
{
}

/// Subtyping of memory types is transitive.
pub proof fn law_memory_subtype_transitive(a: MemoryType, b: MemoryType, c: MemoryType)
    requires
        a.spec_is_subtype_of(b),
        b.spec_is_subtype_of(c),
    ensures
        a.spec_is_subtype_of(c),
{
}

/// A memory made from a valid type has that type: it is well formed, and the type that
/// `type_` gives for it (its size as minimum, and its maximum) is the type it was made from.
pub proof fn law_new_memory_has_its_type(ty: MemoryType, r: MemoryType)
    requires
        ty.spec_is_valid(),
        ({
            let m = MemoryState {
                maximum: ty.spec_maximum(),
                bytes: zeros(ty.spec_minimum() * PAGE_SIZE as int),
            };
            &&& r.spec_minimum() == m.pages()
            &&& r.spec_maximum() == m.maximum
        }),
    ensures
        (MemoryState {
            maximum: ty.spec_maximum(),
            bytes: zeros(ty.spec_minimum() * PAGE_SIZE as int),
        }).wf(),
        r == ty,
{
    lemma_pages_bound(ty.spec_minimum() as int);
}

/// The type of a well-formed memory (its size as minimum, and its maximum) is valid.
pub proof fn law_memory_type_is_valid(m: MemoryState)
    requires
        m.wf(),
    ensures
        0 <= m.pages() <= MAX_PAGES,
        spec_memory_limits_valid(m.pages() as u32, m.maximum),
{
}

/// Growing a well-formed memory by `num` pages, when allowed, keeps it well formed,
/// adds exactly `num` pages, keeps every byte it held, makes every new byte zero,
/// and gives it a type that is a subtype of the one it had.
pub proof fn law_memory_grow(m: MemoryState, num: int)
    requires
        m.wf(),
        0 <= num,
        m.can_grow(num),
    ensures
        m.grown(num).wf(),
        m.grown(num).pages() == m.pages() + num,
        m.grown(num).bytes.subrange(0, m.bytes.len() as int) == m.bytes,
        forall|i: int|
            m.bytes.len() <= i < m.grown(num).bytes.len() ==> #[trigger] m.grown(num).bytes[i] == 0,
        m.grown(num).pages() >= m.pages() && m.grown(num).maximum == m.maximum,
{
    lemma_pages_bound(m.pages());
    lemma_pages_bound(m.pages() + num);
    assert(m.bytes.len() == m.pages() * PAGE_SIZE as int);
    assert((m.pages() + num) * PAGE_SIZE as int == m.pages() * PAGE_SIZE as int + num * PAGE_SIZE as int) by (nonlinear_arith);
    assert(m.grown(num).bytes.subrange(0, m.bytes.len() as int) =~= m.bytes);
}

/// Growing by `a` pages and then by `b` pages is growing by `a + b` pages at once: the
/// second grow succeeds exactly when the single one would, returns the size the first
/// one left, and leaves the same memory.
pub proof fn law_memory_grow_twice(m: MemoryState, a: int, b: int)
    requires
        m.wf(),
        0 <= a,
        0 <= b,
        m.can_grow(a),
    ensures
        m.grown(a).pages() == m.pages() + a,
        m.grown(a).can_grow(b) <==> m.can_grow(a + b),
        m.grown(a).grown(b) == m.grown(a + b),
{
    law_memory_grow(m, a);
    assert(a * PAGE_SIZE as int + b * PAGE_SIZE as int == (a + b) * PAGE_SIZE as int) by (nonlinear_arith);
    assert(zeros(a * PAGE_SIZE as int) + zeros(b * PAGE_SIZE as int) =~= zeros((a + b) * PAGE_SIZE as int));
    assert(m.grown(a).grown(b).bytes =~= m.grown(a + b).bytes);
}

/// Any sequence of grow calls keeps a memory well formed, keeps its maximum, and never
/// shrinks it; so its type stays valid and a subtype of the one it had.
pub proof fn law_memory_after_grows(m: MemoryState, nums: Seq<u32>)
    requires
        m.wf(),
    ensures
        m.after_grows(nums).wf(),
        m.after_grows(nums).maximum == m.maximum,
        m.pages() <= m.after_grows(nums).pages() <= m.limit(),
    decreases nums.len(),
{
    if nums.len() > 0 {
        let m1 = m.after_grow(nums[0] as int);
        if m.can_grow(nums[0] as int) {
            law_memory_grow(m, nums[0] as int);
        }
        law_memory_after_grows(m1, nums.drop_first());
    }
}

/// A memory made from a valid type `ty`, after any sequence of grow calls, has a type
/// (its size as minimum, and its maximum) that is valid, keeps `ty`'s maximum, and is a
/// subtype of `ty`.
pub proof fn law_memory_type_after_grows(ty: MemoryType, nums: Seq<u32>, r: MemoryType)
    requires
        ty.spec_is_valid(),
        ({
            let m = (MemoryState {
                maximum: ty.spec_maximum(),
                bytes: zeros(ty.spec_minimum() * PAGE_SIZE as int),
            }).after_grows(nums);
            &&& r.spec_minimum() == m.pages()
            &&& r.spec_maximum() == m.maximum
        }),
    ensures
        r.spec_is_valid(),
        r.spec_maximum() == ty.spec_maximum(),
        r.spec_is_subtype_of(ty),
{
    let m0 = MemoryState {
        maximum: ty.spec_maximum(),
        bytes: zeros(ty.spec_minimum() * PAGE_SIZE as int),
    };
    law_new_memory_has_its_type(ty, ty);
    lemma_pages_bound(ty.spec_minimum() as int);
    law_memory_after_grows(m0, nums);
}

/// Any grow call, successful or not, keeps a well-formed memory well formed (whole
/// pages, within its limit) and keeps its maximum.
pub proof fn law_memory_after_grow(m: MemoryState, num: int)
    requires
        m.wf(),
        0 <= num,
    ensures
        m.after_grow(num).wf(),
        m.after_grow(num).maximum == m.maximum,
{
    if m.can_grow(num) {
        law_memory_grow(m, num);
    }
}

/// What subtyping of memory types means: `a` is a subtype of `b` exactly when `a`
/// promises at least as many pages as `b` requires, and, when `b` has a maximum, `a`
/// has one too that is no larger. In particular a type with fewer pages is never a
/// subtype, whatever the maxima.
pub proof fn law_memory_subtype_meaning(a: MemoryType, b: MemoryType)
    ensures
        a.spec_is_subtype_of(b) <==> {
            &&& a.spec_minimum() >= b.spec_minimum()
            &&& forall|bm: u32|
                b.spec_maximum() == Some(bm) ==> exists|am: u32|
                    a.spec_maximum() == Some(am) && am <= bm
        },
        a.spec_is_subtype_of(b) ==> a.spec_minimum() >= b.spec_minimum(),
        a.spec_minimum() < b.spec_minimum() ==> !a.spec_is_subtype_of(b),
{
    if let Some(bm) = b.spec_maximum() {
        if let Some(am) = a.spec_maximum() {
            assert(a.spec_maximum() == Some(am) && am <= bm ==> exists|x: u32|
                a.spec_maximum() == Some(x) && x <= bm);
        }
    }
}

/// What validity of a memory type means: its maximum, if any, is at most
/// [`MAX_PAGES`] and at least its minimum; without a maximum its minimum is at most
/// [`MAX_PAGES`].
pub proof fn law_memory_valid_meaning(ty: MemoryType)
    ensures
        ty.spec_is_valid() <==> match ty.spec_maximum() {
            Some(m) => ty.spec_minimum() <= m && m <= 65_536,
            None => ty.spec_minimum() <= 65_536,
        },
{
}

/// Growing a memory by `num` pages succeeds exactly when its size in pages plus `num` is
/// at most its maximum, or at most [`MAX_PAGES`] when it has none.
pub proof fn law_memory_can_grow_meaning(m: MemoryState, num: int)
    ensures
        m.can_grow(num) <==> match m.maximum {
            Some(max) => m.pages() + num <= max,
            None => m.pages() + num <= 65_536,
        },
{
}

} // verus!
