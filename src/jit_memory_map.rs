use vstd::prelude::*;
use crate::regions::{MMU_PAGE_COUNT, MMU_PAGE_SIZE, V_MEM_ARM9_RANGE};

verus! {

/// Which guest pages hold compiled code. A page that holds code must not be
/// writable through the fast path, so that writes to it reach the handler
/// that invalidates the code.
pub struct JitMemoryMap {
    pub code_pages: Vec<bool>,
}

impl JitMemoryMap {
    pub open spec fn wf(&self) -> bool {
        self.code_pages@.len() == MMU_PAGE_COUNT
    }

    /// Whether the page of guest address `addr` holds compiled code.
    pub open spec fn spec_has_jit_block(&self, addr: int) -> bool {
        let p = addr / MMU_PAGE_SIZE as int;
        0 <= p < self.code_pages@.len() && self.code_pages@[p]
    }

    /// A map with no compiled code.
    pub fn new() -> (r: Self)
        ensures
            r.wf(),
            forall|a: int| !(#[trigger] r.spec_has_jit_block(a)),
    {
        JitMemoryMap { code_pages: vec![false; MMU_PAGE_COUNT] }
    }

    pub fn has_jit_block(&self, addr: u32) -> (r: bool)
        ensures
            r == self.spec_has_jit_block(addr as int),
    {
        let p = addr as usize / MMU_PAGE_SIZE;
        p < self.code_pages.len() && self.code_pages[p]
    }

    /// Records that the page of guest address `addr` now holds compiled code.
    pub fn insert_block(&mut self, addr: u32)
        requires
            old(self).wf(),
            addr < V_MEM_ARM9_RANGE,
        ensures
            final(self).wf(),
            final(self).code_pages@ == old(self).code_pages@.update(addr as int / MMU_PAGE_SIZE as int, true),
    {
        self.code_pages.set(addr as usize / MMU_PAGE_SIZE, true);
    }

    /// Drops the compiled code of the page of guest address `addr`.
    pub fn invalidate_block(&mut self, addr: u32)
        requires
            old(self).wf(),
            addr < V_MEM_ARM9_RANGE,
        ensures
            final(self).wf(),
            final(self).code_pages@ == old(self).code_pages@.update(addr as int / MMU_PAGE_SIZE as int, false),
    {
        self.code_pages.set(addr as usize / MMU_PAGE_SIZE, false);
    }
}

} // verus!
