use vstd::prelude::*;
use vstd::arithmetic::div_mod::lemma_fundamental_div_mod_converse;
use crate::regions::{MemRegion, MMU_PAGE_COUNT, MMU_PAGE_SIZE, SHM_SIZE, V_MEM_ARM9_RANGE};

verus! {

/// What one page of a memory window maps to: a page of the shared arena at
/// `offset`, with its access rights.
#[derive(Clone, Copy, PartialEq, Eq, Structural, Debug)]
pub struct PageMap {
    pub offset: usize,
    pub read: bool,
    pub write: bool,
}

/// A page that can no longer be written through the window.
pub open spec fn revoked(m: Option<PageMap>) -> Option<PageMap> {
    match m {
        Some(pm) => Some(PageMap { write: false, ..pm }),
        None => None,
    }
}

/// Page `q` is one of the mirrors of page `p` within `region`.
pub open spec fn is_alias_page(region: MemRegion, p: int, q: int) -> bool {
    let sp = region.start as int / MMU_PAGE_SIZE as int;
    let ep = region.end as int / MMU_PAGE_SIZE as int;
    let sz = region.size as int / MMU_PAGE_SIZE as int;
    &&& sp <= q < ep
    &&& (q - sp) % sz == (p - sp) % sz
}

/// The mapping that a whole-region map gives page `p`.
pub open spec fn region_page(region: MemRegion, p: int) -> PageMap {
    PageMap {
        offset: region.backing_offset(p * MMU_PAGE_SIZE as int) as usize,
        read: true,
        write: region.allow_write,
    }
}

/// A page index lies in the pages of a region.
pub open spec fn in_region_pages(region: MemRegion, p: int) -> bool {
    region.start as int / MMU_PAGE_SIZE as int <= p < region.end as int / MMU_PAGE_SIZE as int
}

/// Within one mirror period starting at the mirror `cur` of page `p`, only `cur`
/// itself is a mirror of `p`.
pub proof fn lemma_alias_step(sp: int, sz: int, r: int, k: int, q: int)
    requires
        sz > 0,
        0 <= r < sz,
        k >= 0,
        sp + r + k * sz <= q < sp + r + (k + 1) * sz,
    ensures
        ((q - sp) % sz == r) <==> q == sp + r + k * sz,
{
    let cur = sp + r + k * sz;
    assert((k + 1) * sz == k * sz + sz) by (nonlinear_arith);
    if r + (q - cur) < sz {
        lemma_fundamental_div_mod_converse(q - sp, sz, k, r + (q - cur));
    } else {
        assert(q - sp == (k + 1) * sz + (r + (q - cur) - sz)) by (nonlinear_arith)
            requires
                q - sp == k * sz + r + (q - cur),
                (k + 1) * sz == k * sz + sz,
        ;
        lemma_fundamental_div_mod_converse(q - sp, sz, k + 1, r + (q - cur) - sz);
    }
}

/// Offsets within a region's period, by page.
pub proof fn lemma_region_page_offset(region: MemRegion, p: int)
    requires
        region.wf(),
        in_region_pages(region, p),
    ensures
        region.backing_offset(p * MMU_PAGE_SIZE as int) + MMU_PAGE_SIZE as int
            <= region.shm_offset + region.size,
        region.backing_offset(p * MMU_PAGE_SIZE as int) >= region.shm_offset,
{
    let sp = region.start as int / MMU_PAGE_SIZE as int;
    let sz = region.size as int / MMU_PAGE_SIZE as int;
    let ps = MMU_PAGE_SIZE as int;
    assert(region.start as int == sp * ps);
    assert(region.size as int == sz * ps);
    let x = p * ps - region.start as int;
    assert(x == (p - sp) * ps) by (nonlinear_arith)
        requires
            x == p * ps - region.start as int,
            region.start as int == sp * ps,
    ;
    let q = (p - sp) / sz;
    let m = (p - sp) % sz;
    assert(p - sp == q * sz + m) by {
        vstd::arithmetic::div_mod::lemma_fundamental_div_mod(p - sp, sz);
    }
    assert(0 <= m < sz) by {
        vstd::arithmetic::div_mod::lemma_mod_bound(p - sp, sz);
    }
    assert(x == q * (sz * ps) + m * ps) by (nonlinear_arith)
        requires
            x == (p - sp) * ps,
            p - sp == q * sz + m,
    ;
    assert(0 <= m * ps && m * ps + ps <= sz * ps) by (nonlinear_arith)
        requires
            0 <= m < sz,
            ps > 0,
    ;
    lemma_fundamental_div_mod_converse(x, sz * ps, q, m * ps);
}

/// A window of guest address space onto the shared backing arena, at page
/// granularity. Reads and writes through it reach the arena only on pages
/// that are mapped with the matching right.
pub struct VirtualMem {
    base: u32,
    pages: Vec<Option<PageMap>>,
}

impl View for VirtualMem {
    type V = Seq<Option<PageMap>>;

    closed spec fn view(&self) -> Seq<Option<PageMap>> {
        self.pages@
    }
}

impl VirtualMem {
    pub closed spec fn spec_base(&self) -> u32 {
        self.base
    }

    pub open spec fn wf(&self) -> bool {
        self@.len() == MMU_PAGE_COUNT
    }

    /// A window with nothing mapped, whose guest address 0 sits at host address `base`.
    pub fn new(base: u32) -> (r: Self)
        ensures
            r.wf(),
            r.spec_base() == base,
            forall|p: int| 0 <= p < MMU_PAGE_COUNT ==> #[trigger] r@[p] is None,
    {
        VirtualMem { base, pages: vec![None; MMU_PAGE_COUNT] }
    }

    /// Host address of guest address 0 in this window.
    pub fn as_mut_ptr(&self) -> (r: u32)
        ensures
            r == self.spec_base(),
    {
        self.base
    }

    /// Unmaps the page that holds guest address `addr`.
    pub fn destroy_map(&mut self, addr: u32)
        requires
            old(self).wf(),
            addr < V_MEM_ARM9_RANGE,
        ensures
            final(self).wf(),
            final(self).spec_base() == old(self).spec_base(),
            final(self)@ == old(self)@.update(addr as int / MMU_PAGE_SIZE as int, None),
    {
        self.pages.set(addr as usize / MMU_PAGE_SIZE, None);
    }

    /// Maps the page that holds guest address `addr` onto the arena page at `offset`.
    pub fn create_map(&mut self, offset: usize, addr: u32, read: bool, write: bool)
        requires
            old(self).wf(),
            addr < V_MEM_ARM9_RANGE,
        ensures
            final(self).wf(),
            final(self).spec_base() == old(self).spec_base(),
            final(self)@ == old(self)@.update(
                addr as int / MMU_PAGE_SIZE as int,
                Some(PageMap { offset, read, write }),
            ),
    {
        self.pages.set(addr as usize / MMU_PAGE_SIZE, Some(PageMap { offset, read, write }));
    }

    /// Maps the page that holds guest address `addr`, readable, onto the page of
    /// a region's backing at `shm_offset` that `base_addr` reaches when
    /// mirrored every `region_size` bytes.
    pub fn create_page_map(&mut self, shm_offset: usize, base_addr: u32, region_size: usize, addr: u32, write: bool)
        requires
            old(self).wf(),
            addr < V_MEM_ARM9_RANGE,
            region_size > 0,
            shm_offset + region_size <= SHM_SIZE,
        ensures
            final(self).wf(),
            final(self).spec_base() == old(self).spec_base(),
            final(self)@ == old(self)@.update(
                addr as int / MMU_PAGE_SIZE as int,
                Some(PageMap { offset: (shm_offset + (base_addr as int) % (region_size as int)) as usize, read: true, write }),
            ),
    {
        let offset = shm_offset + (base_addr as usize) % region_size;
        self.pages.set(addr as usize / MMU_PAGE_SIZE, Some(PageMap { offset, read: true, write }));
    }

    /// Unmaps every page of `region`.
    pub fn destroy_region_map(&mut self, region: &MemRegion)
        requires
            old(self).wf(),
            region.wf(),
        ensures
            final(self).wf(),
            final(self).spec_base() == old(self).spec_base(),
            forall|p: int|
                0 <= p < MMU_PAGE_COUNT ==> #[trigger] final(self)@[p] == if in_region_pages(*region, p) {
                    None
                } else {
                    old(self)@[p]
                },
    {
        let mut p: usize = region.start / MMU_PAGE_SIZE;
        let ep: usize = region.end / MMU_PAGE_SIZE;
        while p < ep
            invariant
                self.wf(),
                self.spec_base() == old(self).spec_base(),
                region.wf(),
                region.start as int / MMU_PAGE_SIZE as int <= p <= ep,
                ep == region.end as int / MMU_PAGE_SIZE as int,
                ep <= MMU_PAGE_COUNT,
                forall|q: int|
                    0 <= q < MMU_PAGE_COUNT ==> #[trigger] self@[q] == if in_region_pages(*region, q) && q < p {
                        None
                    } else {
                        old(self)@[q]
                    },
            decreases ep - p,
        {
            self.pages.set(p, None);
            p = p + 1;
        }
    }

    /// Maps every page of `region` onto its backing, mirrored every `region.size` bytes.
    pub fn create_region_map(&mut self, region: &MemRegion)
        requires
            old(self).wf(),
            region.wf(),
        ensures
            final(self).wf(),
            final(self).spec_base() == old(self).spec_base(),
            forall|p: int|
                0 <= p < MMU_PAGE_COUNT ==> #[trigger] final(self)@[p] == if in_region_pages(*region, p) {
                    Some(region_page(*region, p))
                } else {
                    old(self)@[p]
                },
    {
        let mut p: usize = region.start / MMU_PAGE_SIZE;
        let ep: usize = region.end / MMU_PAGE_SIZE;
        while p < ep
            invariant
                self.wf(),
                self.spec_base() == old(self).spec_base(),
                region.wf(),
                region.start as int / MMU_PAGE_SIZE as int <= p <= ep,
                ep == region.end as int / MMU_PAGE_SIZE as int,
                ep <= MMU_PAGE_COUNT,
                forall|q: int|
                    0 <= q < MMU_PAGE_COUNT ==> #[trigger] self@[q] == if in_region_pages(*region, q) && q < p {
                        Some(region_page(*region, q))
                    } else {
                        old(self)@[q]
                    },
            decreases ep - p,
        {
            let addr: usize = p * MMU_PAGE_SIZE;
            proof {
                lemma_region_page_offset(*region, p as int);
            }
            let offset = region.shm_offset + (addr - region.start) % region.size;
            self.pages.set(p, Some(PageMap { offset, read: true, write: region.allow_write }));
            p = p + 1;
        }
    }

    /// Revokes write access to the page that holds guest address `addr` and to
    /// each of its mirrors within `region`; pages that are not mapped stay so.
    #[verifier::rlimit(40)]
    pub fn revoke_region_write(&mut self, addr: u32, region: &MemRegion)
        requires
            old(self).wf(),
            region.wf(),
            region.start <= addr < region.end,
        ensures
            final(self).wf(),
            final(self).spec_base() == old(self).spec_base(),
            forall|q: int|
                0 <= q < MMU_PAGE_COUNT ==> #[trigger] final(self)@[q] == if is_alias_page(
                    *region,
                    addr as int / MMU_PAGE_SIZE as int,
                    q,
                ) {
                    revoked(old(self)@[q])
                } else {
                    old(self)@[q]
                },
    {
        let sp: usize = region.start / MMU_PAGE_SIZE;
        let ep: usize = region.end / MMU_PAGE_SIZE;
        let sz: usize = region.size / MMU_PAGE_SIZE;
        let p: usize = addr as usize / MMU_PAGE_SIZE;
        let r: usize = (p - sp) % sz;
        let mut q: usize = sp + r;
        let ghost mut k: int = 0;
        proof {
            assert forall|j: int| sp <= j < q implies !(#[trigger] is_alias_page(*region, p as int, j)) by {
                lemma_fundamental_div_mod_converse(j - sp, sz as int, 0, j - sp);
            }
        }
        while q < ep
            invariant
                self.wf(),
                self.spec_base() == old(self).spec_base(),
                region.wf(),
                sp == region.start as int / MMU_PAGE_SIZE as int,
                ep == region.end as int / MMU_PAGE_SIZE as int,
                sz == region.size as int / MMU_PAGE_SIZE as int,
                sz > 0,
                p == addr as int / MMU_PAGE_SIZE as int,
                sp <= p,
                r == (p - sp) % (sz as int),
                0 <= r < sz,
                k >= 0,
                q == sp + r + k * sz,
                ep <= MMU_PAGE_COUNT,
                forall|j: int|
                    0 <= j < MMU_PAGE_COUNT ==> #[trigger] self@[j] == if is_alias_page(*region, p as int, j) && j < q {
                        revoked(old(self)@[j])
                    } else {
                        old(self)@[j]
                    },
            decreases ep + sz - q,
        {
            let cur = self.pages[q];
            let next = match cur {
                Some(pm) => Some(PageMap { write: false, ..pm }),
                None => None,
            };
            self.pages.set(q, next);
            proof {
                assert(q + sz == sp + r + (k + 1) * sz) by (nonlinear_arith)
                    requires q == sp + r + k * sz;
                assert forall|j: int| q < j < q + sz implies !(#[trigger] is_alias_page(*region, p as int, j)) by {
                    lemma_alias_step(sp as int, sz as int, r as int, k, j);
                }
                lemma_alias_step(sp as int, sz as int, r as int, k, q as int);
                k = k + 1;
            }
            assert(sz > 0);
            q = q + sz;
        }
        proof {
            assert forall|j: int| 0 <= j < MMU_PAGE_COUNT && j >= q implies !is_alias_page(*region, p as int, j) by {}
        }
    }

    /// The byte that guest address `addr` reads through this window from the
    /// arena `shm`, or `None` where the page is not readable.
    pub open spec fn spec_read_u8(&self, shm: Seq<u8>, addr: int) -> Option<u8> {
        let p = addr / MMU_PAGE_SIZE as int;
        if 0 <= p < self@.len() && self@[p] is Some && self@[p]->0.read
            && self@[p]->0.offset + MMU_PAGE_SIZE <= shm.len() {
            Some(shm[self@[p]->0.offset + addr % MMU_PAGE_SIZE as int])
        } else {
            None
        }
    }

    /// Reads one byte of guest address `addr` through the window.
    pub fn read_u8(&self, shm: &Vec<u8>, addr: u32) -> (r: Option<u8>)
        requires
            self.wf(),
        ensures
            r == self.spec_read_u8(shm@, addr as int),
    {
        let p = addr as usize / MMU_PAGE_SIZE;
        let n = shm.len();
        if p >= self.pages.len() {
            return None;
        }
        match self.pages[p] {
            Some(pm) => {
                if pm.read && pm.offset <= usize::MAX - MMU_PAGE_SIZE && pm.offset + MMU_PAGE_SIZE <= n {
                    let i = pm.offset + addr as usize % MMU_PAGE_SIZE;
                    assert(self@[p as int] == Some(pm));
                    assert(p as int == addr as int / MMU_PAGE_SIZE as int);
                    assert(i as int == pm.offset + addr as int % MMU_PAGE_SIZE as int);
                    Some(shm[i])
                } else {
                    None
                }
            },
            None => None,
        }
    }

    /// Whether guest address `addr` can be written through the window, and
    /// the arena offset it then reaches.
    pub open spec fn spec_write_target(&self, shm_len: nat, addr: int) -> Option<int> {
        let p = addr / MMU_PAGE_SIZE as int;
        if 0 <= p < self@.len() && self@[p] is Some && self@[p]->0.write
            && self@[p]->0.offset + MMU_PAGE_SIZE <= shm_len {
            Some(self@[p]->0.offset + addr % MMU_PAGE_SIZE as int)
        } else {
            None
        }
    }

    /// Writes one byte to guest address `addr` through the window; where the
    /// page is not writable nothing is written and the access faults (`false`).
    pub fn write_u8(&self, shm: &mut Vec<u8>, addr: u32, value: u8) -> (r: bool)
        requires
            self.wf(),
        ensures
            r == self.spec_write_target(old(shm)@.len(), addr as int) is Some,
            final(shm)@ == match self.spec_write_target(old(shm)@.len(), addr as int) {
                Some(i) => old(shm)@.update(i, value),
                None => old(shm)@,
            },
    {
        let p = addr as usize / MMU_PAGE_SIZE;
        let n = shm.len();
        if p >= self.pages.len() {
            return false;
        }
        match self.pages[p] {
            Some(pm) => {
                if pm.write && pm.offset <= usize::MAX - MMU_PAGE_SIZE && pm.offset + MMU_PAGE_SIZE <= n {
                    let i = pm.offset + addr as usize % MMU_PAGE_SIZE;
                    assert(self@[p as int] == Some(pm));
                    shm.set(i, value);
                    true
                } else {
                    false
                }
            },
            None => false,
        }
    }
}

} // verus!
