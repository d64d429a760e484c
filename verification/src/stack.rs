//! The saved registers of an interpreter's call frames that refer to a linear memory,
//! and how growing a memory repoints them.
use vstd::prelude::*;
use crate::memory::Memory;

verus! {

/// The registers a call frame saves: the memory its code reads and writes (`md`), that
/// memory's size in pages as the frame last saw it (`ms`), and the link to the frame
/// below (`sp`: the number of records beneath that frame's record, so 0 ends the chain).
#[derive(Clone, Copy, Debug, PartialEq, Eq, Structural)]
pub struct SavedRegs {
    pub md: Option<Memory>,
    pub ms: u32,
    pub sp: usize,
}

/// Whether the record at index `k` is reached by walking the links down from a top
/// at `top`: the record just below `top` is the first one reached, then each record
/// leads to the one below its link.
pub open spec fn on_chain(frames: Seq<SavedRegs>, top: int, k: int) -> bool
    decreases top,
{
    if top <= 0 || top > frames.len() {
        false
    } else if k == top - 1 {
        true
    } else if frames[top - 1].sp as int >= top {
        false
    } else {
        on_chain(frames, frames[top - 1].sp as int, k)
    }
}

/// Every record reached from `top` lies below `top`.
proof fn lemma_chain_below(frames: Seq<SavedRegs>, top: int, k: int)
    ensures
        on_chain(frames, top, k) ==> 0 <= k < top,
    decreases top,
{
    if 0 < top <= frames.len() && k != top - 1 && (frames[top - 1].sp as int) < top {
        lemma_chain_below(frames, frames[top - 1].sp as int, k);
    }
}

/// The record `f` after growing `memory` to `new_size` pages: repointed when `visited`
/// and it refers to `memory`, else unchanged.
pub open spec fn repointed(f: SavedRegs, visited: bool, memory: Memory, new_size: u32) -> SavedRegs {
    if visited && f.md == Some(memory) {
        SavedRegs { md: f.md, ms: new_size, sp: f.sp }
    } else {
        f
    }
}

/// The records after growing `memory` to `new_size` pages: each record on the chain from
/// the top that refers to `memory` gets `new_size`; every other record, and every link,
/// is unchanged.
pub open spec fn repointed_all(frames: Seq<SavedRegs>, memory: Memory, new_size: u32) -> Seq<SavedRegs> {
    Seq::new(
        frames.len(),
        |k: int| repointed(frames[k], on_chain(frames, frames.len() as int, k), memory, new_size),
    )
}

/// The saved-register records of the call frames on an interpreter's stack, the top
/// frame's record last.
pub struct Stack {
    frames: Vec<SavedRegs>,
}

impl View for Stack {
    type V = Seq<SavedRegs>;

    closed spec fn view(&self) -> Seq<SavedRegs> {
        self.frames@
    }
}

impl Stack {
    /// Every record links to a record below itself.
    pub open spec fn wf(&self) -> bool {
        forall|k: int| 0 <= k < self@.len() ==> (#[trigger] self@[k]).sp as int <= k
    }

    /// Creates an empty stack.
    pub fn new() -> (r: Self)
        ensures
            r@ == Seq::<SavedRegs>::empty(),
            r.wf(),
    {
        Stack { frames: Vec::new() }
    }

    /// Pushes the record of a new top frame.
    pub fn push(&mut self, regs: SavedRegs)
        requires
            old(self).wf(),
            regs.sp <= old(self)@.len(),
        ensures
            final(self)@ == old(self)@.push(regs),
            final(self).wf(),
    {
        self.frames.push(regs);
    }

    /// Returns the records, the top frame's last.
    pub fn frames(&self) -> (r: &[SavedRegs])
        ensures
            r@ == self@,
    {
        self.frames.as_slice()
    }

    /// Walks the frames down from the top, and sets the saved size of every frame on that
    /// chain whose saved memory is `memory` to `new_size`. Nothing else changes.
    pub fn repoint(&mut self, memory: Memory, new_size: u32)
        requires
            old(self).wf(),
        ensures
            final(self)@ == repointed_all(old(self)@, memory, new_size),
            final(self).wf(),
    {
        let ghost orig = self@;
        let ghost len = orig.len() as int;
        let mut top = self.frames.len();
        while top != 0
            invariant
                0 <= top <= len,
                len == orig.len(),
                self.frames.len() == len,
                forall|k: int| 0 <= k < len ==> (#[trigger] orig[k]).sp as int <= k,
                forall|k: int| on_chain(orig, top as int, k) ==> on_chain(orig, len, k),
                forall|k: int|
                    0 <= k < len ==> #[trigger] self@[k] == repointed(
                        orig[k],
                        on_chain(orig, len, k) && !on_chain(orig, top as int, k),
                        memory,
                        new_size,
                    ),
            decreases top,
        {
            let i = top - 1;
            let f = self.frames[i];
            proof {
                assert(self@[i as int].sp == orig[i as int].sp);
                assert(on_chain(orig, top as int, i as int));
                assert forall|k: int| #[trigger] on_chain(orig, top as int, k) == (k == i || on_chain(orig, f.sp as int, k)) by {
                }
            }
            let hit = match f.md {
                Some(m) => m == memory,
                None => false,
            };
            if hit {
                self.frames[i] = SavedRegs { md: f.md, ms: new_size, sp: f.sp };
            }
            top = f.sp;
            proof {
                assert forall|k: int|
                    0 <= k < len implies #[trigger] self@[k] == repointed(
                        orig[k],
                        on_chain(orig, len, k) && !on_chain(orig, top as int, k),
                        memory,
                        new_size,
                    ) by {
                    lemma_chain_below(orig, top as int, k);
                }
            }
        }
        proof {
            assert(self@ =~= repointed_all(orig, memory, new_size));
            assert forall|k: int| 0 <= k < self@.len() implies (#[trigger] self@[k]).sp as int <= k by {
                assert(orig[k].sp as int <= k);
            }
        }
    }
}

/// Repointing changes only saved sizes: the number of records, every link and every saved
/// memory stay as they were, and a record that refers to another memory, or to none, is
/// unchanged.
pub proof fn law_repoint_changes_only_sizes(frames: Seq<SavedRegs>, memory: Memory, new_size: u32)
    ensures
        repointed_all(frames, memory, new_size).len() == frames.len(),
        forall|k: int|
            0 <= k < frames.len() ==> {
                &&& (#[trigger] repointed_all(frames, memory, new_size)[k]).sp == frames[k].sp
                &&& repointed_all(frames, memory, new_size)[k].md == frames[k].md
                &&& frames[k].md != Some(memory) ==> repointed_all(frames, memory, new_size)[k]
                    == frames[k]
            },
{
}

/// When every record is reached from the top, repointing gives every record of `memory`
/// the new size.
pub proof fn law_repoint_reaches_memory_frames(frames: Seq<SavedRegs>, memory: Memory, new_size: u32, k: int)
    requires
        0 <= k < frames.len(),
        on_chain(frames, frames.len() as int, k),
        frames[k].md == Some(memory),
    ensures
        repointed_all(frames, memory, new_size)[k].ms == new_size,
{
}

} // verus!
