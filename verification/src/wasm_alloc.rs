//! The bump allocator of the contracts' WebAssembly builds: each block starts
//! at the current position rounded up to its alignment, the position moves
//! past it, and linear memory grows by whole pages when the block does not
//! fit. Nothing is ever freed.
//!
//! Growing memory is the host's work: `plan_alloc` says how many pages to
//! grow by, and `complete_alloc` takes whether growing succeeded.
use vstd::prelude::*;

verus! {

/// Size of a WebAssembly memory page in bytes.
pub const PAGE_SIZE: usize = 65536;

/// The allocator's state: the first free address.
pub struct WasmAlloc {
    pos: usize,
}

/// What an allocation needs: the block's start, the position after it, and
/// how many pages memory must grow by first (zero when the block fits).
pub struct AllocPlan {
    pub aligned: usize,
    pub new_pos: usize,
    pub grow_pages: usize,
}

/// The pages to add so that `new_pos` bytes fit, when `current_bytes` exist.
pub open spec fn pages_needed(new_pos: nat, current_bytes: nat) -> nat {
    if new_pos > current_bytes {
        ((new_pos - current_bytes + PAGE_SIZE - 1) / (PAGE_SIZE as int)) as nat
    } else {
        0
    }
}

/// `p` is the plan of a block of `size` bytes aligned to `align` from the
/// position `pos`, while memory holds `current_pages` pages: the first
/// aligned address at or after `pos`, the position after the block, and the
/// pages to grow by.
pub open spec fn plan_for(pos: nat, size: usize, align: usize, current_pages: usize, p: AllocPlan) -> bool {
    &&& p.aligned & ((align - 1) as usize) == 0
    &&& pos <= p.aligned < pos + align
    &&& p.new_pos == p.aligned + size
    &&& p.grow_pages == pages_needed(p.new_pos as nat, (current_pages * PAGE_SIZE) as nat)
}

impl WasmAlloc {
    /// The first free address.
    pub closed spec fn pos(&self) -> nat {
        self.pos as nat
    }

    /// An allocator that has handed nothing out.
    pub fn new() -> (a: WasmAlloc)
        ensures
            a.pos() == 0,
    {
        WasmAlloc { pos: 0 }
    }

    /// The first free address.
    pub fn position(&self) -> (r: usize)
        ensures
            r == self.pos(),
    {
        self.pos
    }

    /// Plans a block of `size` bytes aligned to `align` (a power of two)
    /// while memory holds `current_pages` pages.
    pub fn plan_alloc(&self, size: usize, align: usize, current_pages: usize) -> (p: AllocPlan)
        requires
            align > 0,
            align & ((align - 1) as usize) == 0,
            self.pos() + align + size + PAGE_SIZE <= usize::MAX,
            current_pages * PAGE_SIZE <= usize::MAX,
        ensures
            plan_for(self.pos(), size, align, current_pages, p),
    {
        let pos = self.pos;
        let m = align - 1;
        let x = pos + m;
        let aligned = x & !m;
        assert(aligned & m == 0 && aligned <= x && x - aligned <= m) by (bit_vector)
            requires
                aligned == x & !m,
        ;
        let new_pos = aligned + size;
        let current_bytes = current_pages * PAGE_SIZE;
        let grow_pages = if new_pos > current_bytes {
            let needed = new_pos - current_bytes;
            (needed + PAGE_SIZE - 1) / PAGE_SIZE
        } else {
            0
        };
        AllocPlan { aligned, new_pos, grow_pages }
    }

    /// Completes the planned allocation: `grown` tells whether memory grew by
    /// the planned pages. Without the room the result is `None` (a null
    /// pointer) and nothing changes; otherwise the block's start, with the
    /// position moved past the block.
    pub fn complete_alloc(&mut self, plan: &AllocPlan, grown: bool) -> (r: Option<usize>)
        ensures
            plan.grow_pages > 0 && !grown ==> r is None && final(self).pos() == old(self).pos(),
            !(plan.grow_pages > 0 && !grown) ==> r == Some(plan.aligned) && final(self).pos()
                == plan.new_pos,
    {
        if plan.grow_pages > 0 && !grown {
            return None;
        }
        self.pos = plan.new_pos;
        Some(plan.aligned)
    }
}

/// Blocks handed out one after another never overlap and memory is never
/// reused: a block planned once the block before it was completed (the
/// position then being that block's end; a refused allocation and a release
/// leave the position as it is) starts at or after that block's end, and the
/// position never moves back.
pub proof fn lemma_blocks_never_overlap(
    pos: nat,
    size1: usize,
    align1: usize,
    pages1: usize,
    p1: AllocPlan,
    size2: usize,
    align2: usize,
    pages2: usize,
    p2: AllocPlan,
)
    requires
        plan_for(pos, size1, align1, pages1, p1),
        plan_for(p1.new_pos as nat, size2, align2, pages2, p2),
    ensures
        p1.aligned + size1 <= p2.aligned,
        pos <= p1.new_pos <= p2.new_pos,
{
}

} // verus!
