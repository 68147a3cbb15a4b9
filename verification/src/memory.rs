//! Physical memory management: reference-counted physical pages, allocated from regions.
use vstd::prelude::*;

verus! {

/// Size of a physical page, in bytes.
pub const PAGE_SIZE: u64 = 0x1_0000;

/// A physical page of memory, by its (page-aligned) address.
#[derive(Debug)]
pub struct PhysicalPage(u64);

impl PhysicalPage {
    /// The address of the page.
    pub closed spec fn spec_addr(&self) -> u64 {
        self.0
    }

    /// Wraps a page-aligned physical address.
    pub fn new(page: u64) -> (r: Self)
        requires
            page % PAGE_SIZE == 0,
        ensures
            r.spec_addr() == page,
    {
        PhysicalPage(page)
    }

    /// The address of the page.
    pub fn addr(&self) -> (r: u64)
        ensures
            r == self.spec_addr(),
    {
        self.0
    }

    /// Gives back a page that only its holder references, copying it into a fresh page when it
    /// is shared. The page must have been allocated from `allocator`, and must not be shared:
    /// copying shared pages is not supported.
    pub fn to_owned(self, allocator: &PageAllocator) -> (r: Self)
        requires
            allocator.wf(),
            self.spec_addr() % PAGE_SIZE == 0,
            allocator.holder_of(self.spec_addr()) is Some,
            allocator.refcount(self.spec_addr()) == 1,
        ensures
            r.spec_addr() == self.spec_addr(),
    {
        allocator.to_owned(self)
    }
}

/// A physical page that its holder may write to.
#[derive(Debug)]
pub struct WriteablePage(PhysicalPage);

/// A physical page that its holder may only read.
#[derive(Debug)]
pub struct ReadablePage(PhysicalPage);

impl Clone for PhysicalPage {
    /// Another handle on the same page. Each handle holds one reference on the page: the
    /// holder of the copy adds it with `PageAllocator::add_ref`.
    fn clone(&self) -> (r: Self)
        ensures
            r.spec_addr() == self.spec_addr(),
    {
        PhysicalPage(self.0)
    }
}

impl Clone for WriteablePage {
    /// Another handle on the same page (see `PhysicalPage::clone`).
    fn clone(&self) -> (r: Self)
        ensures
            r.spec_addr() == self.spec_addr(),
    {
        WriteablePage(self.0.clone())
    }
}

impl Clone for ReadablePage {
    /// Another handle on the same page (see `PhysicalPage::clone`).
    fn clone(&self) -> (r: Self)
        ensures
            r.spec_addr() == self.spec_addr(),
    {
        ReadablePage(self.0.clone())
    }
}

impl WriteablePage {
    /// The address of the page.
    pub closed spec fn spec_addr(&self) -> u64 {
        self.0.0
    }

    /// Grants write access to a page.
    pub fn new(page: PhysicalPage) -> (r: Self)
        ensures
            r.spec_addr() == page.spec_addr(),
    {
        WriteablePage(page)
    }

    /// Downgrades this page to read-only access.
    pub fn downgrade(self) -> (r: ReadablePage)
        ensures
            r.spec_addr() == self.spec_addr(),
    {
        ReadablePage(self.0)
    }

    /// The address of the page.
    pub fn addr(&self) -> (r: u64)
        ensures
            r == self.spec_addr(),
    {
        self.0.0
    }
}

impl ReadablePage {
    /// The address of the page.
    pub closed spec fn spec_addr(&self) -> u64 {
        self.0.0
    }

    /// The address of the page.
    pub fn addr(&self) -> (r: u64)
        ensures
            r == self.spec_addr(),
    {
        self.0.0
    }
}

/// Whether the reserved range `range` (a start and a size) covers the page at `p`: `p` is one
/// of the page-sized steps from the range's start that fall inside the range.
pub open spec fn range_hits(range: (u64, u64), p: int) -> bool {
    range.0 <= p < range.0 + range.1 && (p - range.0) % (PAGE_SIZE as int) == 0
}

/// Whether one of the first `j` reserved ranges covers the page at `p`.
pub open spec fn reserved_before(reserved: Seq<(u64, u64)>, j: int, p: int) -> bool {
    exists|jj: int| 0 <= jj < j && #[trigger] range_hits(reserved[jj], p)
}

/// The conditions under which the reserved ranges can be recorded in a region starting at
/// `start` with `num_pages` pages: no range overflows, a range that reaches into the region
/// starts on a page boundary, and no page of the region is reserved twice.
pub open spec fn reserved_fits(reserved: Seq<(u64, u64)>, start: u64, num_pages: nat) -> bool {
    &&& forall|j: int| 0 <= j < reserved.len() ==> #[trigger] reserved[j].0 + reserved[j].1 <= u64::MAX
    &&& forall|j: int, p: int|
        0 <= j < reserved.len() && #[trigger] range_hits(reserved[j], p) && p >= start
            ==> reserved[j].0 % PAGE_SIZE == 0
    &&& forall|j1: int, j2: int, i: int|
        0 <= j1 < j2 < reserved.len() && 0 <= i < num_pages
            ==> !(#[trigger] range_hits(reserved[j1], start + i * PAGE_SIZE) && #[trigger] range_hits(
            reserved[j2],
            start + i * PAGE_SIZE,
        ))
}

/// The physical memory of one contiguous region, with a reference count for each page.
pub struct RegionAllocator {
    start: u64,
    physical_pages: Vec<u16>,
}

impl RegionAllocator {
    /// The address of the first page of the region.
    pub closed spec fn spec_start(&self) -> u64 {
        self.start
    }

    /// The reference count of each page of the region, in address order.
    pub closed spec fn refcounts(&self) -> Seq<u16> {
        self.physical_pages@
    }

    /// Well-formedness: the region is page aligned and its addresses do not overflow.
    pub open spec fn wf(&self) -> bool {
        &&& self.spec_start() % PAGE_SIZE == 0
        &&& self.spec_start() + self.refcounts().len() * PAGE_SIZE <= u64::MAX
    }

    /// The index of the page at `page` within this region, if the region holds it.
    pub open spec fn index_of(&self, page: u64) -> Option<int> {
        if page >= self.spec_start() && (page - self.spec_start()) / (PAGE_SIZE as int)
            < self.refcounts().len() {
            Some((page - self.spec_start()) / (PAGE_SIZE as int))
        } else {
            None
        }
    }

    /// The address of the page with index `i`.
    pub open spec fn page_addr(&self, i: int) -> u64 {
        (self.spec_start() + i * PAGE_SIZE) as u64
    }

    /// Creates a new physical memory allocator wrapping the region of `size` bytes at `start`,
    /// with the pages of the `reserved` ranges (each a start and a size) marked as in use.
    ///
    /// Returns `None` if the region is not page aligned or overflows.
    pub fn new(start: u64, size: u64, reserved: &[(u64, u64)]) -> (r: Option<Self>)
        requires
            (start % PAGE_SIZE == 0 && size % PAGE_SIZE == 0 && start + size <= u64::MAX)
                ==> reserved_fits(reserved@, start, (size / PAGE_SIZE) as nat),
        ensures
            r is Some <==> (start % PAGE_SIZE == 0 && size % PAGE_SIZE == 0 && start + size
                <= u64::MAX),
            r is Some ==> {
                let region = r.unwrap();
                &&& region.wf()
                &&& region.spec_start() == start
                &&& region.refcounts().len() == size / PAGE_SIZE
                &&& forall|i: int|
                    0 <= i < region.refcounts().len() ==> #[trigger] region.refcounts()[i] == (
                    if reserved_before(reserved@, reserved@.len() as int, start + i * PAGE_SIZE) {
                        1u16
                    } else {
                        0u16
                    })
            },
    {
        if size % PAGE_SIZE != 0 || start % PAGE_SIZE != 0 || start.checked_add(size).is_none() {
            return None;
        }
        let num_pages = size / PAGE_SIZE;
        let mut physical_pages: Vec<u16> = Vec::new();
        let mut i: u64 = 0;
        while i < num_pages
            invariant
                i <= num_pages,
                physical_pages@.len() == i,
                forall|k: int| 0 <= k < i ==> physical_pages@[k] == 0,
            decreases num_pages - i,
        {
            physical_pages.push(0);
            i = i + 1;
        }
        let mut region = RegionAllocator { start, physical_pages };
        assert(region.wf()) by {
            assert(num_pages * PAGE_SIZE == size);
        }
        let mut j: usize = 0;
        while j < reserved.len()
            invariant
                region.wf(),
                region.spec_start() == start,
                region.refcounts().len() == num_pages,
                num_pages == size / PAGE_SIZE,
                start % PAGE_SIZE == 0,
                reserved_fits(reserved@, start, num_pages as nat),
                j <= reserved@.len(),
                forall|i: int|
                    0 <= i < num_pages ==> #[trigger] region.refcounts()[i] == (if reserved_before(
                        reserved@,
                        j as int,
                        start + i * PAGE_SIZE,
                    ) {
                        1u16
                    } else {
                        0u16
                    }),
            decreases reserved@.len() - j,
        {
            let (range_start, range_size) = reserved[j];
            let range_end = range_start + range_size;
            let mut page = range_start;
            let ghost mut k: int = 0;
            if page < range_end {
                loop
                    invariant_except_break
                        forall|i: int|
                            0 <= i < num_pages ==> #[trigger] region.refcounts()[i] == (
                            if reserved_before(reserved@, j as int, start + i * PAGE_SIZE) || (
                            range_hits(reserved@[j as int], start + i * PAGE_SIZE) && start + i
                                * PAGE_SIZE < page) {
                                1u16
                            } else {
                                0u16
                            }),
                    invariant
                        region.wf(),
                        region.spec_start() == start,
                        region.refcounts().len() == num_pages,
                        num_pages == size / PAGE_SIZE,
                        start % PAGE_SIZE == 0,
                        reserved_fits(reserved@, start, num_pages as nat),
                        j < reserved@.len(),
                        (range_start, range_size) == reserved@[j as int],
                        range_end == range_start + range_size,
                        page == range_start + k * PAGE_SIZE,
                        page < range_end,
                        k >= 0,
                    ensures
                        region.wf(),
                        region.spec_start() == start,
                        region.refcounts().len() == num_pages,
                        forall|i: int|
                            0 <= i < num_pages ==> #[trigger] region.refcounts()[i] == (
                            if reserved_before(reserved@, j as int, start + i * PAGE_SIZE) || range_hits(
                                reserved@[j as int],
                                start + i * PAGE_SIZE,
                            ) {
                                1u16
                            } else {
                                0u16
                            }),
                    decreases range_end - page,
                {
                    let ghost before = region.refcounts();
                    proof {
                        assert(range_hits(reserved@[j as int], page as int)) by {
                            assert((page - range_start) == k * PAGE_SIZE);
                            vstd::arithmetic::div_mod::lemma_mod_multiples_basic(k, PAGE_SIZE as int);
                        }
                        if let Some(i) = region.index_of(page) {
                            lemma_page_of_index(start, page, i);
                            assert(start + i * PAGE_SIZE == page);
                            if reserved_before(reserved@, j as int, page as int) {
                                let jj = choose|jj: int| 0 <= jj < j && #[trigger] range_hits(reserved@[jj], page as int);
                                assert(range_hits(reserved@[jj], start + i * PAGE_SIZE));
                                assert(range_hits(reserved@[j as int], start + i * PAGE_SIZE));
                                assert(false);
                            }
                            assert(0 <= i < num_pages);
                            assert(region.refcounts()[i] == (if reserved_before(reserved@, j as int, start + i * PAGE_SIZE) || (
                                range_hits(reserved@[j as int], start + i * PAGE_SIZE) && start + i
                                    * PAGE_SIZE < page) {
                                    1u16
                                } else {
                                    0u16
                                }));
                            assert(!reserved_before(reserved@, j as int, start + i * PAGE_SIZE));
                            assert(region.refcounts()[i] == 0);
                        }
                    }
                    region.other_add_ref(page);
                    proof {
                        assert forall|i: int| 0 <= i < num_pages implies #[trigger] region.refcounts()[i] == (
                        if reserved_before(reserved@, j as int, start + i * PAGE_SIZE) || (range_hits(
                            reserved@[j as int],
                            start + i * PAGE_SIZE,
                        ) && start + i * PAGE_SIZE < page + PAGE_SIZE) {
                            1u16
                        } else {
                            0u16
                        }) by {
                            let p = start + i * PAGE_SIZE;
                            lemma_index_of_page(start, i, num_pages as int);
                            if p == page {
                                assert(region.index_of(page) == Some(i));
                                assert(region.refcounts()[i] == 1);
                            } else {
                                if let Some(idx) = region.index_of(page) {
                                    lemma_page_of_index(start, page, idx);
                                    assert(idx != i);
                                }
                                assert(region.refcounts()[i] == before[i]);
                                if range_hits(reserved@[j as int], p) && page <= p < page + PAGE_SIZE {
                                    lemma_grid_step(p - range_start, k);
                                    assert(false);
                                }
                            }
                        }
                    }
                    if range_end - page <= PAGE_SIZE {
                        proof {
                            assert forall|i: int| 0 <= i < num_pages implies #[trigger] region.refcounts()[i] == (
                            if reserved_before(reserved@, j as int, start + i * PAGE_SIZE) || range_hits(
                                reserved@[j as int],
                                start + i * PAGE_SIZE,
                            ) {
                                1u16
                            } else {
                                0u16
                            }) by {
                                let p = start + i * PAGE_SIZE;
                                if range_hits(reserved@[j as int], p) {
                                    assert(p < page + PAGE_SIZE);
                                }
                            }
                        }
                        break;
                    }
                    page = page + PAGE_SIZE;
                    proof {
                        k = k + 1;
                    }
                }
            }
            proof {
                assert forall|i: int| 0 <= i < num_pages implies #[trigger] region.refcounts()[i] == (
                if reserved_before(reserved@, j + 1, start + i * PAGE_SIZE) {
                    1u16
                } else {
                    0u16
                }) by {
                    let p = start + i * PAGE_SIZE;
                    if reserved_before(reserved@, j + 1, p) && !reserved_before(reserved@, j as int, p) {
                        let jj = choose|jj: int| 0 <= jj < j + 1 && #[trigger] range_hits(reserved@[jj], p);
                        if jj < j {
                            assert(reserved_before(reserved@, j as int, p));
                        }
                    }
                    if range_hits(reserved@[j as int], p) {
                        assert(reserved_before(reserved@, j + 1, p));
                    }
                    if reserved_before(reserved@, j as int, p) {
                        let jj = choose|jj: int| 0 <= jj < j && #[trigger] range_hits(reserved@[jj], p);
                        assert(reserved_before(reserved@, j + 1, p));
                    }
                }
            }
            j = j + 1;
        }
        Some(region)
    }
}


/// The page with index `i` of a region at `start` is found back at index `i`.
proof fn lemma_index_of_page(start: u64, i: int, n: int)
    requires
        0 <= i < n,
    ensures
        (start + i * PAGE_SIZE - start) / (PAGE_SIZE as int) == i,
{
    vstd::arithmetic::div_mod::lemma_div_multiples_vanish(i, PAGE_SIZE as int);
    assert(i * PAGE_SIZE == PAGE_SIZE * i) by (nonlinear_arith);
}

/// A page-aligned address at or above an aligned region start is the page of its index.
proof fn lemma_page_of_index(start: u64, page: u64, i: int)
    requires
        start % PAGE_SIZE == 0,
        page >= start,
        (page - start) % (PAGE_SIZE as int) == 0,
        i == (page - start) / (PAGE_SIZE as int),
    ensures
        page == start + i * PAGE_SIZE,
{
    vstd::arithmetic::div_mod::lemma_fundamental_div_mod((page - start) as int, PAGE_SIZE as int);
    assert(i * PAGE_SIZE == PAGE_SIZE * i) by (nonlinear_arith);
}

/// Of the multiples of the page size, only one lies in each page-sized window.
proof fn lemma_grid_step(x: int, k: int)
    requires
        x % (PAGE_SIZE as int) == 0,
        k * PAGE_SIZE <= x < k * PAGE_SIZE + PAGE_SIZE,
    ensures
        x == k * PAGE_SIZE,
{
    vstd::arithmetic::div_mod::lemma_fundamental_div_mod(x, PAGE_SIZE as int);
    let q = x / (PAGE_SIZE as int);
    assert(x == PAGE_SIZE * q);
    if q < k {
        assert(PAGE_SIZE * q + PAGE_SIZE <= k * PAGE_SIZE) by (nonlinear_arith)
            requires q < k;
    }
    if q > k {
        assert(PAGE_SIZE * q >= k * PAGE_SIZE + PAGE_SIZE) by (nonlinear_arith)
            requires q > k;
    }
    assert(q == k);
    assert(x == k * PAGE_SIZE) by (nonlinear_arith) requires x == PAGE_SIZE * q, q == k;
}

impl RegionAllocator {
    /// Gets the index of the reference count of a given physical page.
    ///
    /// Returns `None` if the page is not in use by this allocator. The page must be page
    /// aligned if it lies at or above the start of the region.
    fn get_page(&self, page: u64) -> (r: Option<usize>)
        requires
            self.wf(),
            page >= self.spec_start() ==> (page - self.spec_start()) % (PAGE_SIZE as int) == 0,
        ensures
            r is Some <==> self.index_of(page) is Some,
            r is Some ==> r.unwrap() as int == self.index_of(page).unwrap(),
    {
        if page < self.start {
            return None;
        }
        let offset = page - self.start;
        let index = offset / PAGE_SIZE;
        if index < self.physical_pages.len() as u64 {
            Some(index as usize)
        } else {
            None
        }
    }

    /// Records a page of a reserved range as in use.
    ///
    /// Returns whether the page is in this region. The page must not already be in use.
    pub fn other_add_ref(&mut self, page: u64) -> (r: bool)
        requires
            old(self).wf(),
            page >= old(self).spec_start() ==> (page - old(self).spec_start()) % (PAGE_SIZE as int) == 0,
            old(self).index_of(page) is Some ==> old(self).refcounts()[old(self).index_of(page).unwrap()] == 0,
        ensures
            final(self).wf(),
            final(self).spec_start() == old(self).spec_start(),
            r == (old(self).index_of(page) is Some),
            final(self).refcounts() == (match old(self).index_of(page) {
                Some(i) => old(self).refcounts().update(i, 1),
                None => old(self).refcounts(),
            }),
    {
        match self.get_page(page) {
            Some(index) => {
                self.physical_pages.set(index, 1);
                true
            },
            None => false,
        }
    }

    /// Allocates a physical page from this region, if any are available: the free page (with
    /// a reference count of zero) of lowest address becomes referenced once.
    pub fn allocate(&mut self) -> (r: Option<u64>)
        requires
            old(self).wf(),
        ensures
            final(self).wf(),
            final(self).spec_start() == old(self).spec_start(),
            r is None <==> (forall|i: int| 0 <= i < old(self).refcounts().len() ==> old(self).refcounts()[i] != 0),
            r is None ==> final(self).refcounts() == old(self).refcounts(),
            r is Some ==> {
                let i = first_free(old(self).refcounts());
                &&& 0 <= i < old(self).refcounts().len()
                &&& old(self).refcounts()[i] == 0
                &&& r.unwrap() == old(self).page_addr(i)
                &&& final(self).refcounts() == old(self).refcounts().update(i, 1)
            },
    {
        let mut index: usize = 0;
        while index < self.physical_pages.len()
            invariant
                self.wf(),
                self == old(self),
                index <= self.refcounts().len(),
                forall|k: int| 0 <= k < index ==> self.refcounts()[k] != 0,
            decreases self.refcounts().len() - index,
        {
            if self.physical_pages[index] == 0 {
                proof {
                    lemma_first_free(self.refcounts(), index as int);
                    assert(index * PAGE_SIZE <= self.refcounts().len() * PAGE_SIZE) by (nonlinear_arith)
                        requires index <= self.refcounts().len();
                }
                self.physical_pages.set(index, 1);
                return Some(self.start + (index as u64) * PAGE_SIZE);
            }
            index = index + 1;
        }
        None
    }
}

/// The index of the first page with no references, or the number of pages if there is none.
pub open spec fn first_free(refcounts: Seq<u16>) -> int
    decreases refcounts.len(),
{
    if refcounts.len() == 0 {
        0
    } else if refcounts[0] == 0 {
        0
    } else {
        1 + first_free(refcounts.drop_first())
    }
}

/// `first_free` finds the first zero.
proof fn lemma_first_free(refcounts: Seq<u16>, i: int)
    requires
        0 <= i < refcounts.len(),
        refcounts[i] == 0,
        forall|k: int| 0 <= k < i ==> refcounts[k] != 0,
    ensures
        first_free(refcounts) == i,
    decreases i,
{
    if i > 0 {
        lemma_first_free(refcounts.drop_first(), i - 1);
    }
}


/// A region as seen by the allocator: its start and the reference count of each page.
pub struct RegionView {
    pub start: u64,
    pub refcounts: Seq<u16>,
}

/// The index of the page at `page` within region `r`, if `r` holds it.
pub open spec fn region_index(r: RegionView, page: u64) -> Option<int> {
    if page >= r.start && (page - r.start) / (PAGE_SIZE as int) < r.refcounts.len() {
        Some((page - r.start) / (PAGE_SIZE as int))
    } else {
        None
    }
}

/// The index of the first region of `v` that holds `page`, or `v.len()` if none does.
pub open spec fn first_holder(v: Seq<RegionView>, page: u64) -> int
    decreases v.len(),
{
    if v.len() == 0 {
        0
    } else if region_index(v[0], page) is Some {
        0
    } else {
        1 + first_holder(v.drop_first(), page)
    }
}

/// Whether some region of `v` holds `page`.
pub open spec fn holds(v: Seq<RegionView>, page: u64) -> bool {
    first_holder(v, page) < v.len()
}

/// The reference count of `page`, in the region that holds it.
pub open spec fn refcount_of(v: Seq<RegionView>, page: u64) -> u16 {
    let h = first_holder(v, page);
    v[h].refcounts[region_index(v[h], page).unwrap()]
}

/// The regions with the reference count of `page` set to `n`.
pub open spec fn with_refcount(v: Seq<RegionView>, page: u64, n: u16) -> Seq<RegionView> {
    let h = first_holder(v, page);
    v.update(
        h,
        RegionView { start: v[h].start, refcounts: v[h].refcounts.update(region_index(v[h], page).unwrap(), n) },
    )
}

/// Whether region `r` has a page that nothing references.
pub open spec fn has_free(r: RegionView) -> bool {
    exists|i: int| 0 <= i < r.refcounts.len() && r.refcounts[i] == 0
}

/// The index of the first region of `v` with a free page, or `v.len()` if none has one.
pub open spec fn first_free_region(v: Seq<RegionView>) -> int
    decreases v.len(),
{
    if v.len() == 0 {
        0
    } else if has_free(v[0]) {
        0
    } else {
        1 + first_free_region(v.drop_first())
    }
}

/// The page that an allocation from regions `v` hands out: the free page of lowest address
/// in the first region that has one.
pub open spec fn allocated_page(v: Seq<RegionView>) -> Option<u64> {
    let h = first_free_region(v);
    if h < v.len() {
        Some((v[h].start + first_free(v[h].refcounts) * PAGE_SIZE) as u64)
    } else {
        None
    }
}

/// The regions after an allocation: the page handed out is referenced once.
pub open spec fn after_allocation(v: Seq<RegionView>) -> Seq<RegionView> {
    let h = first_free_region(v);
    if h < v.len() {
        v.update(h, RegionView { start: v[h].start, refcounts: v[h].refcounts.update(first_free(v[h].refcounts), 1) })
    } else {
        v
    }
}

/// Well-formedness of the regions of an allocator: each is page aligned without overflow,
/// and no two regions share a page.
pub open spec fn regions_wf(v: Seq<RegionView>) -> bool {
    &&& forall|k: int| 0 <= k < v.len() ==> #[trigger] v[k].start % PAGE_SIZE == 0
    &&& forall|k: int| 0 <= k < v.len() ==> #[trigger] v[k].start + v[k].refcounts.len() * PAGE_SIZE <= u64::MAX
    &&& forall|k1: int, k2: int, page: u64|
        0 <= k1 < v.len() && 0 <= k2 < v.len() && k1 != k2 && #[trigger] region_index(v[k1], page) is Some
            ==> #[trigger] region_index(v[k2], page) is None
}

impl RegionAllocator {
    /// The region as seen by the allocator.
    pub closed spec fn view(&self) -> RegionView {
        RegionView { start: self.start, refcounts: self.physical_pages@ }
    }

    /// Increments the reference count of an allocated page.
    ///
    /// Returns whether the page is in this region. A page of this region must already be
    /// referenced, and its count must not be at its maximum.
    pub fn add_ref(&mut self, page: u64) -> (r: bool)
        requires
            old(self).wf(),
            page >= old(self).spec_start() ==> (page - old(self).spec_start()) % (PAGE_SIZE as int) == 0,
            old(self).index_of(page) is Some ==> 0 < old(self).refcounts()[old(self).index_of(page).unwrap()] < u16::MAX,
        ensures
            final(self).wf(),
            final(self).spec_start() == old(self).spec_start(),
            r == (old(self).index_of(page) is Some),
            final(self).refcounts() == (match old(self).index_of(page) {
                Some(i) => old(self).refcounts().update(i, (old(self).refcounts()[i] + 1) as u16),
                None => old(self).refcounts(),
            }),
    {
        match self.get_page(page) {
            Some(index) => {
                let count = self.physical_pages[index];
                self.physical_pages.set(index, count + 1);
                true
            },
            None => false,
        }
    }

    /// Decrements the reference count of a page, freeing it when no references are left.
    ///
    /// Returns whether the page is in this region. A page of this region must be referenced.
    pub fn remove_ref(&mut self, page: u64) -> (r: bool)
        requires
            old(self).wf(),
            page >= old(self).spec_start() ==> (page - old(self).spec_start()) % (PAGE_SIZE as int) == 0,
            old(self).index_of(page) is Some ==> 0 < old(self).refcounts()[old(self).index_of(page).unwrap()],
        ensures
            final(self).wf(),
            final(self).spec_start() == old(self).spec_start(),
            r == (old(self).index_of(page) is Some),
            final(self).refcounts() == (match old(self).index_of(page) {
                Some(i) => old(self).refcounts().update(i, (old(self).refcounts()[i] - 1) as u16),
                None => old(self).refcounts(),
            }),
    {
        match self.get_page(page) {
            Some(index) => {
                let count = self.physical_pages[index];
                self.physical_pages.set(index, count - 1);
                true
            },
            None => false,
        }
    }

    /// Gives back a page of this region that only its holder references.
    ///
    /// Returns `Err` with the page if it is not in this region. A page of this region must be
    /// referenced exactly once: copying shared pages is not supported.
    pub fn to_owned(&self, page: PhysicalPage) -> (r: Result<PhysicalPage, PhysicalPage>)
        requires
            self.wf(),
            page.spec_addr() >= self.spec_start() ==> (page.spec_addr() - self.spec_start()) % (PAGE_SIZE as int) == 0,
            self.index_of(page.spec_addr()) is Some ==> self.refcounts()[self.index_of(page.spec_addr()).unwrap()] == 1,
        ensures
            r is Ok <==> self.index_of(page.spec_addr()) is Some,
            match r {
                Ok(p) => p.spec_addr() == page.spec_addr(),
                Err(p) => p.spec_addr() == page.spec_addr(),
            },
    {
        match self.get_page(page.0) {
            Some(_) => Ok(page),
            None => Err(page),
        }
    }
}


/// The views of a sequence of regions.
pub open spec fn region_views(regions: Seq<RegionAllocator>) -> Seq<RegionView> {
    Seq::new(regions.len(), |k: int| regions[k]@)
}

/// An allocator for physical memory pages.
pub struct PageAllocator {
    /// The individual contiguous regions of memory that can be allocated from
    regions: Vec<RegionAllocator>,
}

/// Whether the memory ranges (each a start and a size) do not overlap.
pub open spec fn ranges_disjoint(ranges: Seq<(u64, u64)>) -> bool {
    forall|k1: int, k2: int|
        0 <= k1 < k2 < ranges.len() ==> #[trigger] ranges[k1].0 + ranges[k1].1 <= #[trigger] ranges[k2].0
            || ranges[k2].0 + ranges[k2].1 <= ranges[k1].0
}

/// Whether the memory range (a start and a size) can be managed as a region.
pub open spec fn range_valid(range: (u64, u64)) -> bool {
    range.0 % PAGE_SIZE == 0 && range.1 % PAGE_SIZE == 0 && range.0 + range.1 <= u64::MAX
}

impl PageAllocator {
    /// The regions of the allocator, in order.
    pub closed spec fn view(&self) -> Seq<RegionView> {
        region_views(self.regions@)
    }

    /// Well-formedness: the regions are page aligned and do not overlap.
    pub closed spec fn wf(&self) -> bool {
        &&& forall|k: int| 0 <= k < self.regions@.len() ==> #[trigger] self.regions@[k].wf()
        &&& regions_wf(self@)
    }

    /// Well-formed allocators have well-formed regions: page aligned, with addresses that do
    /// not overflow, and not overlapping.
    pub proof fn lemma_wf(&self)
        requires
            self.wf(),
        ensures
            regions_wf(self@),
    {
    }

    /// The index of the region holding `page`, if any.
    pub open spec fn holder_of(&self, page: u64) -> Option<int> {
        if holds(self@, page) {
            Some(first_holder(self@, page))
        } else {
            None
        }
    }

    /// The reference count of `page`.
    pub open spec fn refcount(&self, page: u64) -> u16 {
        refcount_of(self@, page)
    }

    /// Creates a new page allocator from a list of memory ranges (each a start and a size),
    /// with the pages of the `reserved` ranges marked as in use.
    ///
    /// The ranges must not overlap. Returns `None` if a range is not page aligned or overflows.
    pub fn new(ranges: &[(u64, u64)], reserved: &[(u64, u64)]) -> (r: Option<Self>)
        requires
            ranges_disjoint(ranges@),
            forall|k: int| 0 <= k < ranges@.len() && range_valid(#[trigger] ranges@[k])
                ==> reserved_fits(reserved@, ranges@[k].0, (ranges@[k].1 / PAGE_SIZE) as nat),
        ensures
            r is Some <==> forall|k: int| 0 <= k < ranges@.len() ==> range_valid(#[trigger] ranges@[k]),
            r is Some ==> {
                let a = r.unwrap();
                &&& a.wf()
                &&& a@.len() == ranges@.len()
                &&& forall|k: int| 0 <= k < ranges@.len() ==> {
                    &&& (#[trigger] a@[k]).start == ranges@[k].0
                    &&& a@[k].refcounts.len() == ranges@[k].1 / PAGE_SIZE
                    &&& forall|i: int| 0 <= i < a@[k].refcounts.len() ==> #[trigger] a@[k].refcounts[i] == (
                        if reserved_before(reserved@, reserved@.len() as int, a@[k].start + i * PAGE_SIZE) {
                            1u16
                        } else {
                            0u16
                        })
                }
            },
    {
        let mut regions: Vec<RegionAllocator> = Vec::new();
        let mut k: usize = 0;
        while k < ranges.len()
            invariant
                k <= ranges@.len(),
                regions@.len() == k,
                ranges_disjoint(ranges@),
                forall|kk: int| 0 <= kk < ranges@.len() && range_valid(#[trigger] ranges@[kk])
                    ==> reserved_fits(reserved@, ranges@[kk].0, (ranges@[kk].1 / PAGE_SIZE) as nat),
                forall|kk: int| 0 <= kk < k ==> range_valid(#[trigger] ranges@[kk]),
                forall|kk: int| 0 <= kk < k ==> {
                    &&& (#[trigger] regions@[kk]).wf()
                    &&& regions@[kk]@.start == ranges@[kk].0
                    &&& regions@[kk]@.refcounts.len() == ranges@[kk].1 / PAGE_SIZE
                    &&& forall|i: int| 0 <= i < regions@[kk]@.refcounts.len() ==> #[trigger] regions@[kk]@.refcounts[i] == (
                        if reserved_before(reserved@, reserved@.len() as int, regions@[kk]@.start + i * PAGE_SIZE) {
                            1u16
                        } else {
                            0u16
                        })
                },
            decreases ranges@.len() - k,
        {
            let (start, size) = ranges[k];
            match RegionAllocator::new(start, size, reserved) {
                Some(region) => {
                    regions.push(region);
                },
                None => {
                    return None;
                },
            }
            k = k + 1;
        }
        let a = PageAllocator { regions };
        proof {
            assert forall|k1: int, k2: int, page: u64|
                0 <= k1 < a@.len() && 0 <= k2 < a@.len() && k1 != k2 && #[trigger] region_index(a@[k1], page) is Some
                    implies #[trigger] region_index(a@[k2], page) is None by {
                assert(a@[k1] == a.regions@[k1]@);
                assert(a@[k2] == a.regions@[k2]@);
                lemma_region_bound(a@[k1], page);
                if region_index(a@[k2], page) is Some {
                    lemma_region_bound(a@[k2], page);
                    if k1 < k2 {
                        assert(ranges@[k1].0 + ranges@[k1].1 <= ranges@[k2].0 || ranges@[k2].0 + ranges@[k2].1 <= ranges@[k1].0);
                    } else {
                        assert(ranges@[k2].0 + ranges@[k2].1 <= ranges@[k1].0 || ranges@[k1].0 + ranges@[k1].1 <= ranges@[k2].0);
                    }
                }
            }
        }
        Some(a)
    }
}

/// The first region holding a page is found where the search first succeeds.
proof fn lemma_first_holder(v: Seq<RegionView>, page: u64, k: int)
    requires
        0 <= k <= v.len(),
        forall|kk: int| 0 <= kk < k ==> region_index(#[trigger] v[kk], page) is None,
        k < v.len() ==> region_index(v[k], page) is Some,
    ensures
        first_holder(v, page) == k,
    decreases k,
{
    if v.len() > 0 && k > 0 {
        assert forall|kk: int| 0 <= kk < k - 1 implies region_index(#[trigger] v.drop_first()[kk], page) is None by {
            assert(v.drop_first()[kk] == v[kk + 1]);
        }
        if k < v.len() {
            assert(v.drop_first()[k - 1] == v[k]);
        }
        lemma_first_holder(v.drop_first(), page, k - 1);
    }
}

/// The first region with a free page is found where the search first succeeds.
proof fn lemma_first_free_region(v: Seq<RegionView>, k: int)
    requires
        0 <= k <= v.len(),
        forall|kk: int| 0 <= kk < k ==> !has_free(#[trigger] v[kk]),
        k < v.len() ==> has_free(v[k]),
    ensures
        first_free_region(v) == k,
    decreases k,
{
    if v.len() > 0 && k > 0 {
        assert forall|kk: int| 0 <= kk < k - 1 implies !has_free(#[trigger] v.drop_first()[kk]) by {
            assert(v.drop_first()[kk] == v[kk + 1]);
        }
        if k < v.len() {
            assert(v.drop_first()[k - 1] == v[k]);
        }
        lemma_first_free_region(v.drop_first(), k - 1);
    }
}

/// The difference of two page-aligned addresses is page aligned.
proof fn lemma_aligned_diff(page: u64, start: u64)
    requires
        page % PAGE_SIZE == 0,
        start % PAGE_SIZE == 0,
        page >= start,
    ensures
        (page - start) % (PAGE_SIZE as int) == 0,
{
    vstd::arithmetic::div_mod::lemma_fundamental_div_mod(page as int, PAGE_SIZE as int);
    vstd::arithmetic::div_mod::lemma_fundamental_div_mod(start as int, PAGE_SIZE as int);
    let a = page as int / PAGE_SIZE as int;
    let b = start as int / PAGE_SIZE as int;
    assert(page - start == (a - b) * PAGE_SIZE) by (nonlinear_arith)
        requires page == PAGE_SIZE * a, start == PAGE_SIZE * b;
    vstd::arithmetic::div_mod::lemma_mod_multiples_basic(a - b, PAGE_SIZE as int);
}

impl PageAllocator {
    /// Allocates an available page, if any are available: the free page of lowest address in
    /// the first region that has one becomes referenced once.
    pub fn allocate(&mut self) -> (r: Option<WriteablePage>)
        requires
            old(self).wf(),
        ensures
            final(self).wf(),
            r is Some <==> allocated_page(old(self)@) is Some,
            r is Some ==> r.unwrap().spec_addr() == allocated_page(old(self)@).unwrap(),
            final(self)@ == after_allocation(old(self)@),
    {
        let mut k: usize = 0;
        while k < self.regions.len()
            invariant
                self.wf(),
                self@ == old(self)@,
                k <= self@.len(),
                forall|kk: int| 0 <= kk < k ==> !has_free(#[trigger] self@[kk]),
            decreases self@.len() - k,
        {
            let ghost before = self.regions@;
            assert(before[k as int]@ == self@[k as int]);
            let result = self.regions[k].allocate();
            match result {
                Some(addr) => {
                    proof {
                        let i = first_free(before[k as int]@.refcounts);
                        assert(before[k as int]@.refcounts[i] == 0);
                        assert(has_free(old(self)@[k as int]));
                        lemma_first_free_region(old(self)@, k as int);
                        assert(self.regions@ == before.update(k as int, self.regions@[k as int]));
                        assert(self@ =~= after_allocation(old(self)@));
                        assert(self.wf()) by {
                            assert forall|kk: int| 0 <= kk < self@.len() implies #[trigger] self@[kk].start % PAGE_SIZE == 0 by {
                                assert(self@[kk].start == old(self)@[kk].start);
                            }
                            assert forall|kk: int| 0 <= kk < self@.len() implies #[trigger] self@[kk].start + self@[kk].refcounts.len() * PAGE_SIZE <= u64::MAX by {
                                assert(self@[kk].start == old(self)@[kk].start);
                                assert(self@[kk].refcounts.len() == old(self)@[kk].refcounts.len());
                            }
                            assert forall|k1: int, k2: int, page: u64|
                                0 <= k1 < self@.len() && 0 <= k2 < self@.len() && k1 != k2 && #[trigger] region_index(self@[k1], page) is Some
                                    implies #[trigger] region_index(self@[k2], page) is None by {
                                assert(region_index(self@[k1], page) == region_index(old(self)@[k1], page));
                                assert(region_index(self@[k2], page) == region_index(old(self)@[k2], page));
                            }
                        }
                    }
                    return Some(WriteablePage(PhysicalPage(addr)));
                },
                None => {
                    proof {
                        assert(self.regions@ == before.update(k as int, self.regions@[k as int]));
                        assert(self.regions@[k as int]@ == before[k as int]@);
                        assert(self@ =~= old(self)@);
                    }
                },
            }
            k = k + 1;
        }
        proof {
            lemma_first_free_region(old(self)@, self@.len() as int);
        }
        None
    }

    /// Increments the reference count of a page allocated from this allocator.
    pub fn add_ref(&mut self, page: u64)
        requires
            old(self).wf(),
            page % PAGE_SIZE == 0,
            old(self).holder_of(page) is Some,
            0 < old(self).refcount(page) < u16::MAX,
        ensures
            final(self).wf(),
            final(self)@ == with_refcount(old(self)@, page, (old(self).refcount(page) + 1) as u16),
    {
        let mut k: usize = 0;
        while k < self.regions.len()
            invariant
                self.wf(),
                self@ == old(self)@,
                page % PAGE_SIZE == 0,
                holds(self@, page),
                0 < refcount_of(self@, page) < u16::MAX,
                k <= self@.len(),
                forall|kk: int| 0 <= kk < k ==> region_index(#[trigger] self@[kk], page) is None,
            decreases self@.len() - k,
        {
            let ghost before = self.regions@;
            assert(before[k as int]@ == self@[k as int]);
            proof {
                if page >= self@[k as int].start {
                    lemma_aligned_diff(page, self@[k as int].start);
                }
                if region_index(self@[k as int], page) is Some {
                    lemma_first_holder(self@, page, k as int);
                }
            }
            if self.regions[k].add_ref(page) {
                proof {
                    assert(self.regions@ == before.update(k as int, self.regions@[k as int]));
                    lemma_first_holder(old(self)@, page, k as int);
                    assert(self@ =~= with_refcount(old(self)@, page, (refcount_of(old(self)@, page) + 1) as u16));
                    lemma_same_shape_wf(old(self)@, self@);
                }
                return;
            }
            proof {
                assert(self.regions@ == before.update(k as int, self.regions@[k as int]));
                assert(self.regions@[k as int]@ == before[k as int]@);
                assert(self@ =~= old(self)@);
            }
            k = k + 1;
        }
        proof {
            lemma_first_holder(self@, page, self@.len() as int);
        }
    }

    /// Decreases the reference count of a page allocated from this allocator, freeing it when
    /// no references are left.
    pub fn remove_ref(&mut self, page: u64)
        requires
            old(self).wf(),
            page % PAGE_SIZE == 0,
            old(self).holder_of(page) is Some,
            0 < old(self).refcount(page),
        ensures
            final(self).wf(),
            final(self)@ == with_refcount(old(self)@, page, (old(self).refcount(page) - 1) as u16),
    {
        let mut k: usize = 0;
        while k < self.regions.len()
            invariant
                self.wf(),
                self@ == old(self)@,
                page % PAGE_SIZE == 0,
                holds(self@, page),
                0 < refcount_of(self@, page),
                k <= self@.len(),
                forall|kk: int| 0 <= kk < k ==> region_index(#[trigger] self@[kk], page) is None,
            decreases self@.len() - k,
        {
            let ghost before = self.regions@;
            assert(before[k as int]@ == self@[k as int]);
            proof {
                if page >= self@[k as int].start {
                    lemma_aligned_diff(page, self@[k as int].start);
                }
                if region_index(self@[k as int], page) is Some {
                    lemma_first_holder(self@, page, k as int);
                }
            }
            if self.regions[k].remove_ref(page) {
                proof {
                    assert(self.regions@ == before.update(k as int, self.regions@[k as int]));
                    lemma_first_holder(old(self)@, page, k as int);
                    assert(self@ =~= with_refcount(old(self)@, page, (refcount_of(old(self)@, page) - 1) as u16));
                    lemma_same_shape_wf(old(self)@, self@);
                }
                return;
            }
            proof {
                assert(self.regions@ == before.update(k as int, self.regions@[k as int]));
                assert(self.regions@[k as int]@ == before[k as int]@);
                assert(self@ =~= old(self)@);
            }
            k = k + 1;
        }
        proof {
            lemma_first_holder(self@, page, self@.len() as int);
        }
    }

    /// Gives back a page of this allocator that only its holder references. Copying shared
    /// pages is not supported, so the page must be referenced exactly once.
    pub fn to_owned(&self, page: PhysicalPage) -> (r: PhysicalPage)
        requires
            self.wf(),
            page.spec_addr() % PAGE_SIZE == 0,
            self.holder_of(page.spec_addr()) is Some,
            self.refcount(page.spec_addr()) == 1,
        ensures
            r.spec_addr() == page.spec_addr(),
    {
        let ghost addr = page.spec_addr();
        let mut current = page;
        let mut k: usize = 0;
        while k < self.regions.len()
            invariant
                self.wf(),
                current.spec_addr() == addr,
                addr == page.spec_addr(),
                addr % PAGE_SIZE == 0,
                holds(self@, addr),
                refcount_of(self@, addr) == 1,
                k <= self@.len(),
                forall|kk: int| 0 <= kk < k ==> region_index(#[trigger] self@[kk], addr) is None,
            decreases self@.len() - k,
        {
            assert(self.regions@[k as int]@ == self@[k as int]);
            proof {
                if addr >= self@[k as int].start {
                    lemma_aligned_diff(addr, self@[k as int].start);
                }
                if region_index(self@[k as int], addr) is Some {
                    lemma_first_holder(self@, addr, k as int);
                }
            }
            match self.regions[k].to_owned(current) {
                Ok(new_page) => {
                    return new_page;
                },
                Err(og_page) => {
                    current = og_page;
                },
            }
            k = k + 1;
        }
        proof {
            lemma_first_holder(self@, addr, self@.len() as int);
        }
        current
    }
}

/// Changing reference counts keeps the regions well formed.
proof fn lemma_same_shape_wf(v1: Seq<RegionView>, v2: Seq<RegionView>)
    requires
        regions_wf(v1),
        v1.len() == v2.len(),
        forall|k: int| 0 <= k < v1.len() ==> #[trigger] v1[k].start == v2[k].start && v1[k].refcounts.len() == v2[k].refcounts.len(),
    ensures
        regions_wf(v2),
{
    assert forall|k: int| 0 <= k < v2.len() implies #[trigger] v2[k].start % PAGE_SIZE == 0 by {
        assert(v1[k].start == v2[k].start);
    }
    assert forall|k: int| 0 <= k < v2.len() implies #[trigger] v2[k].start + v2[k].refcounts.len() * PAGE_SIZE <= u64::MAX by {
        assert(v1[k].start == v2[k].start);
    }
    assert forall|k1: int, k2: int, page: u64|
        0 <= k1 < v2.len() && 0 <= k2 < v2.len() && k1 != k2 && #[trigger] region_index(v2[k1], page) is Some
            implies #[trigger] region_index(v2[k2], page) is None by {
        assert(region_index(v2[k1], page) == region_index(v1[k1], page));
        assert(region_index(v2[k2], page) == region_index(v1[k2], page));
    }
}

/// When some page of `refcounts` is free, `first_free` is the first free page.
proof fn lemma_first_free_found(refcounts: Seq<u16>)
    requires
        exists|i: int| 0 <= i < refcounts.len() && refcounts[i] == 0,
    ensures
        0 <= first_free(refcounts) < refcounts.len(),
        refcounts[first_free(refcounts)] == 0,
        forall|k: int| 0 <= k < first_free(refcounts) ==> refcounts[k] != 0,
    decreases refcounts.len(),
{
    if refcounts[0] != 0 {
        let i = choose|i: int| 0 <= i < refcounts.len() && refcounts[i] == 0;
        assert(refcounts.drop_first()[i - 1] == 0);
        lemma_first_free_found(refcounts.drop_first());
        assert forall|k: int| 0 <= k < first_free(refcounts) implies refcounts[k] != 0 by {
            if k > 0 {
                assert(refcounts[k] == refcounts.drop_first()[k - 1]);
            }
        }
    }
}

/// The region that an allocation picks has a free page, and the regions before it have none.
proof fn lemma_first_free_region_found(v: Seq<RegionView>)
    requires
        first_free_region(v) < v.len(),
    ensures
        first_free_region(v) >= 0,
        has_free(v[first_free_region(v)]),
        forall|k: int| 0 <= k < first_free_region(v) ==> !has_free(#[trigger] v[k]),
    decreases v.len(),
{
    if !has_free(v[0]) {
        lemma_first_free_region_found(v.drop_first());
        assert(v[first_free_region(v)] == v.drop_first()[first_free_region(v) - 1]);
        assert forall|k: int| 0 <= k < first_free_region(v) implies !has_free(#[trigger] v[k]) by {
            if k > 0 {
                assert(v[k] == v.drop_first()[k - 1]);
            }
        }
    }
}

/// The page that an allocation hands out: its region and its index within the region.
proof fn lemma_allocated_page(v: Seq<RegionView>) -> (hi: (int, int))
    requires
        regions_wf(v),
        allocated_page(v) is Some,
    ensures
        hi.0 == first_free_region(v),
        hi.1 == first_free(v[hi.0].refcounts),
        0 <= hi.0 < v.len(),
        0 <= hi.1 < v[hi.0].refcounts.len(),
        v[hi.0].refcounts[hi.1] == 0,
        allocated_page(v).unwrap() == v[hi.0].start + hi.1 * PAGE_SIZE,
        region_index(v[hi.0], allocated_page(v).unwrap()) == Some(hi.1),
        first_holder(v, allocated_page(v).unwrap()) == hi.0,
        allocated_page(v).unwrap() % PAGE_SIZE == 0,
{
    let h = first_free_region(v);
    lemma_first_free_region_found(v);
    let r = v[h];
    lemma_first_free_found(r.refcounts);
    let i = first_free(r.refcounts);
    assert(i * PAGE_SIZE <= r.refcounts.len() * PAGE_SIZE) by (nonlinear_arith)
        requires i <= r.refcounts.len();
    let p = allocated_page(v).unwrap();
    assert(p == r.start + i * PAGE_SIZE);
    lemma_index_of_page(r.start, i, r.refcounts.len() as int);
    assert(region_index(r, p) == Some(i));
    assert forall|kk: int| 0 <= kk < h implies region_index(#[trigger] v[kk], p) is None by {
        if region_index(v[kk], p) is Some {
            assert(region_index(v[h], p) is None);
        }
    }
    lemma_first_holder(v, p, h);
    vstd::arithmetic::div_mod::lemma_fundamental_div_mod(r.start as int, PAGE_SIZE as int);
    let b = r.start as int / PAGE_SIZE as int;
    assert(p == (b + i) * PAGE_SIZE) by (nonlinear_arith)
        requires p == r.start + i * PAGE_SIZE, r.start == PAGE_SIZE * b;
    vstd::arithmetic::div_mod::lemma_mod_multiples_basic(b + i, PAGE_SIZE as int);
    (h, i)
}

/// An allocation hands out a page-aligned page that nothing referenced, and leaves it
/// referenced exactly once.
pub proof fn law_allocation_hands_out_free_page(v: Seq<RegionView>)
    requires
        regions_wf(v),
        allocated_page(v) is Some,
    ensures
        allocated_page(v).unwrap() % PAGE_SIZE == 0,
        holds(v, allocated_page(v).unwrap()),
        refcount_of(v, allocated_page(v).unwrap()) == 0,
        holds(after_allocation(v), allocated_page(v).unwrap()),
        refcount_of(after_allocation(v), allocated_page(v).unwrap()) == 1,
{
    let (h, i) = lemma_allocated_page(v);
    let p = allocated_page(v).unwrap();
    let v2 = after_allocation(v);
    assert forall|kk: int| 0 <= kk < h implies region_index(#[trigger] v2[kk], p) is None by {
        assert(v2[kk] == v[kk]);
    }
    assert(region_index(v2[h], p) == region_index(v[h], p));
    lemma_first_holder(v2, p, h);
}

/// Releasing the page that an allocation handed out gives back the allocator as it was before
/// the allocation.
pub proof fn law_allocate_then_release(v: Seq<RegionView>)
    requires
        regions_wf(v),
        allocated_page(v) is Some,
    ensures
        with_refcount(
            after_allocation(v),
            allocated_page(v).unwrap(),
            (refcount_of(after_allocation(v), allocated_page(v).unwrap()) - 1) as u16,
        ) == v,
{
    law_allocation_hands_out_free_page(v);
    let (h, i) = lemma_allocated_page(v);
    let p = allocated_page(v).unwrap();
    let v2 = after_allocation(v);
    assert forall|kk: int| 0 <= kk < h implies region_index(#[trigger] v2[kk], p) is None by {
        assert(v2[kk] == v[kk]);
    }
    assert(region_index(v2[h], p) == region_index(v[h], p));
    lemma_first_holder(v2, p, h);
    let v3 = with_refcount(v2, p, 0);
    assert(v3[h].refcounts =~= v[h].refcounts);
    assert(v3 =~= v);
}

/// Adding a reference to a page and removing one again leaves the allocator unchanged.
pub proof fn law_add_then_remove_ref(v: Seq<RegionView>, page: u64)
    requires
        regions_wf(v),
        holds(v, page),
        0 < refcount_of(v, page) < u16::MAX,
    ensures
        ({
            let v2 = with_refcount(v, page, (refcount_of(v, page) + 1) as u16);
            with_refcount(v2, page, (refcount_of(v2, page) - 1) as u16) == v
        }),
{
    let h = first_holder(v, page);
    let v2 = with_refcount(v, page, (refcount_of(v, page) + 1) as u16);
    lemma_first_holder_found(v, page);
    assert forall|kk: int| 0 <= kk < h implies region_index(#[trigger] v2[kk], page) is None by {
        assert(v2[kk] == v[kk]);
    }
    assert(region_index(v2[h], page) == region_index(v[h], page));
    lemma_first_holder(v2, page, h);
    let v3 = with_refcount(v2, page, (refcount_of(v2, page) - 1) as u16);
    assert(v3[h].refcounts =~= v[h].refcounts);
    assert(v3 =~= v);
}

/// Two successive allocations hand out different pages.
pub proof fn law_successive_allocations_differ(v: Seq<RegionView>)
    requires
        regions_wf(v),
        allocated_page(v) is Some,
        allocated_page(after_allocation(v)) is Some,
    ensures
        allocated_page(v).unwrap() != allocated_page(after_allocation(v)).unwrap(),
{
    law_allocation_hands_out_free_page(v);
    let (h, i) = lemma_allocated_page(v);
    let v2 = after_allocation(v);
    assert(v2.len() == v.len());
    assert forall|k: int| 0 <= k < v.len() implies #[trigger] v[k].start == v2[k].start && v[k].refcounts.len() == v2[k].refcounts.len() by {
        if k == h {
        } else {
            assert(v2[k] == v[k]);
        }
    }
    lemma_same_shape_wf(v, v2);
    law_allocation_hands_out_free_page(v2);
}

/// The region that `first_holder` finds holds the page, and no region before it does.
proof fn lemma_first_holder_found(v: Seq<RegionView>, page: u64)
    requires
        holds(v, page),
    ensures
        first_holder(v, page) >= 0,
        region_index(v[first_holder(v, page)], page) is Some,
        forall|k: int| 0 <= k < first_holder(v, page) ==> region_index(#[trigger] v[k], page) is None,
    decreases v.len(),
{
    if region_index(v[0], page) is None {
        lemma_first_holder_found(v.drop_first(), page);
        assert(v[first_holder(v, page)] == v.drop_first()[first_holder(v, page) - 1]);
        assert forall|k: int| 0 <= k < first_holder(v, page) implies region_index(#[trigger] v[k], page) is None by {
            if k > 0 {
                assert(v[k] == v.drop_first()[k - 1]);
            }
        }
    }
}

/// A page held by a region lies inside the region's range.
proof fn lemma_region_bound(r: RegionView, page: u64)
    requires
        region_index(r, page) is Some,
    ensures
        r.start <= page < r.start + r.refcounts.len() * PAGE_SIZE,
{
    let q = (page - r.start) / (PAGE_SIZE as int);
    vstd::arithmetic::div_mod::lemma_fundamental_div_mod((page - r.start) as int, PAGE_SIZE as int);
    vstd::arithmetic::div_mod::lemma_mod_pos_bound((page - r.start) as int, PAGE_SIZE as int);
    assert(PAGE_SIZE * q + PAGE_SIZE <= r.refcounts.len() * PAGE_SIZE) by (nonlinear_arith)
        requires q + 1 <= r.refcounts.len();
}

/// How many times `page` occurs in `pages`.
pub open spec fn count_of(pages: Seq<u64>, page: u64) -> nat
    decreases pages.len(),
{
    if pages.len() == 0 {
        0
    } else {
        count_of(pages.drop_last(), page) + if pages.last() == page { 1nat } else { 0nat }
    }
}

/// The regions after one more reference to each of `pages`, in order.
pub open spec fn with_added_refs(v: Seq<RegionView>, pages: Seq<u64>) -> Seq<RegionView>
    decreases pages.len(),
{
    if pages.len() == 0 {
        v
    } else {
        let before = with_added_refs(v, pages.drop_last());
        with_refcount(before, pages.last(), (refcount_of(before, pages.last()) + 1) as u16)
    }
}

/// Whether one more reference to each of `pages` can be added to the regions `v`: each page
/// is page aligned, is held, is already referenced, and its count does not overflow.
pub open spec fn refs_addable(v: Seq<RegionView>, pages: Seq<u64>) -> bool {
    forall|i: int|
        0 <= i < pages.len() ==> {
            &&& #[trigger] pages[i] % PAGE_SIZE == 0
            &&& holds(v, pages[i])
            &&& 0 < refcount_of(v, pages[i])
            &&& refcount_of(v, pages[i]) + count_of(pages, pages[i]) <= u16::MAX
        }
}

/// The regions after one reference fewer to each of `pages`, in order.
pub open spec fn with_removed_refs(v: Seq<RegionView>, pages: Seq<u64>) -> Seq<RegionView>
    decreases pages.len(),
{
    if pages.len() == 0 {
        v
    } else {
        let before = with_removed_refs(v, pages.drop_last());
        with_refcount(before, pages.last(), (refcount_of(before, pages.last()) - 1) as u16)
    }
}

/// Whether one reference to each of `pages` can be given back to the regions `v`: each page
/// is page aligned, is held, and has at least as many references as it occurs in `pages`.
pub open spec fn refs_removable(v: Seq<RegionView>, pages: Seq<u64>) -> bool {
    forall|i: int|
        0 <= i < pages.len() ==> {
            &&& #[trigger] pages[i] % PAGE_SIZE == 0
            &&& holds(v, pages[i])
            &&& count_of(pages, pages[i]) <= refcount_of(v, pages[i])
        }
}

/// A page that no region holds is found in none of them.
proof fn lemma_first_holder_none(v: Seq<RegionView>, page: u64)
    requires
        !holds(v, page),
    ensures
        first_holder(v, page) == v.len(),
        forall|k: int| 0 <= k < v.len() ==> region_index(#[trigger] v[k], page) is None,
    decreases v.len(),
{
    if v.len() > 0 {
        if region_index(v[0], page) is Some {
            assert(first_holder(v, page) == 0);
        } else {
            lemma_first_holder_none(v.drop_first(), page);
            assert forall|k: int| 0 <= k < v.len() implies region_index(#[trigger] v[k], page) is None by {
                if k > 0 {
                    assert(v[k] == v.drop_first()[k - 1]);
                }
            }
        }
    }
}

/// Two page-aligned addresses at the same index of a page-aligned region are equal.
proof fn lemma_index_unique(r: RegionView, p: u64, q: u64)
    requires
        r.start % PAGE_SIZE == 0,
        p % PAGE_SIZE == 0,
        q % PAGE_SIZE == 0,
        region_index(r, p) is Some,
        region_index(r, q) is Some,
        region_index(r, p) == region_index(r, q),
    ensures
        p == q,
{
    lemma_aligned_diff(p, r.start);
    lemma_aligned_diff(q, r.start);
    vstd::arithmetic::div_mod::lemma_fundamental_div_mod((p - r.start) as int, PAGE_SIZE as int);
    vstd::arithmetic::div_mod::lemma_fundamental_div_mod((q - r.start) as int, PAGE_SIZE as int);
}

/// Setting the count of one page keeps the regions well formed, keeps which region holds each
/// page, and leaves the counts of the other pages as they were.
proof fn lemma_with_refcount_frame(v: Seq<RegionView>, q: u64, n: u16, p: u64)
    requires
        regions_wf(v),
        holds(v, q),
        q % PAGE_SIZE == 0,
        p % PAGE_SIZE == 0,
    ensures
        regions_wf(with_refcount(v, q, n)),
        holds(with_refcount(v, q, n), p) == holds(v, p),
        holds(v, p) ==> refcount_of(with_refcount(v, q, n), p) == (if p == q {
            n
        } else {
            refcount_of(v, p)
        }),
{
    let w = with_refcount(v, q, n);
    let hq = first_holder(v, q);
    lemma_first_holder_found(v, q);
    assert forall|k: int| 0 <= k < v.len() implies #[trigger] v[k].start == w[k].start
        && v[k].refcounts.len() == w[k].refcounts.len() by {
    }
    lemma_same_shape_wf(v, w);
    assert forall|k: int| 0 <= k < v.len() implies region_index(#[trigger] w[k], p) == region_index(
        v[k],
        p,
    ) by {
    }
    if holds(v, p) {
        let hp = first_holder(v, p);
        lemma_first_holder_found(v, p);
        assert forall|kk: int| 0 <= kk < hp implies region_index(#[trigger] w[kk], p) is None by {
            assert(region_index(w[kk], p) == region_index(v[kk], p));
        }
        assert(region_index(w[hp], p) == region_index(v[hp], p));
        lemma_first_holder(w, p, hp);
        if p != q && hp == hq {
            if region_index(v[hp], p) == region_index(v[hp], q) {
                lemma_index_unique(v[hp], p, q);
            }
        }
    } else {
        lemma_first_holder_none(v, p);
        assert forall|kk: int| 0 <= kk < w.len() implies region_index(#[trigger] w[kk], p) is None by {
            assert(region_index(w[kk], p) == region_index(v[kk], p));
        }
        lemma_first_holder(w, p, w.len() as int);
    }
}

/// Occurrences in a prefix: one more page adds one occurrence of itself.
proof fn lemma_count_prefix(pages: Seq<u64>, i: int, page: u64)
    requires
        0 <= i < pages.len(),
    ensures
        count_of(pages.take(i + 1), page) == count_of(pages.take(i), page) + if pages[i] == page {
            1nat
        } else {
            0nat
        },
{
    assert(pages.take(i + 1).drop_last() =~= pages.take(i));
}

/// A prefix has no more occurrences than the whole sequence.
proof fn lemma_count_prefix_bound(pages: Seq<u64>, i: int, page: u64)
    requires
        0 <= i <= pages.len(),
    ensures
        count_of(pages.take(i), page) <= count_of(pages, page),
    decreases pages.len() - i,
{
    if i < pages.len() {
        lemma_count_prefix(pages, i, page);
        lemma_count_prefix_bound(pages, i + 1, page);
    } else {
        assert(pages.take(i) =~= pages);
    }
}

impl PageAllocator {
    /// Gives back one reference to each of `pages`, in order, as dropping a handle on each of
    /// them does; a page whose last reference goes is free again.
    pub fn remove_refs(&mut self, pages: &Vec<u64>)
        requires
            old(self).wf(),
            refs_removable(old(self)@, pages@),
        ensures
            final(self).wf(),
            final(self)@ == with_removed_refs(old(self)@, pages@),
    {
        let mut i: usize = 0;
        while i < pages.len()
            invariant
                self.wf(),
                i <= pages@.len(),
                refs_removable(old(self)@, pages@),
                self@ == with_removed_refs(old(self)@, pages@.take(i as int)),
                forall|j: int|
                    0 <= j < pages@.len() ==> holds(self@, #[trigger] pages@[j]) && refcount_of(
                        self@,
                        pages@[j],
                    ) + count_of(pages@.take(i as int), pages@[j]) == refcount_of(old(self)@, pages@[j]),
            decreases pages@.len() - i,
        {
            let page = pages[i];
            proof {
                lemma_count_prefix(pages@, i as int, page);
                lemma_count_prefix_bound(pages@, i as int + 1, page);
                assert(pages@[i as int] == page);
            }
            self.remove_ref(page);
            proof {
                let ghost prev = with_removed_refs(old(self)@, pages@.take(i as int));
                assert(pages@.take(i + 1).drop_last() =~= pages@.take(i as int));
                assert(pages@.take(i + 1).last() == page);
                assert forall|j: int| 0 <= j < pages@.len() implies holds(self@, #[trigger] pages@[j])
                    && refcount_of(self@, pages@[j]) + count_of(pages@.take(i + 1), pages@[j])
                    == refcount_of(old(self)@, pages@[j]) by {
                    lemma_with_refcount_frame(prev, page, (refcount_of(prev, page) - 1) as u16, pages@[j]);
                    lemma_count_prefix(pages@, i as int, pages@[j]);
                }
            }
            i = i + 1;
        }
        proof {
            assert(pages@.take(pages@.len() as int) =~= pages@);
        }
    }

    /// Adds one reference to each of `pages`, in order, as taking another handle on each of
    /// them does.
    pub fn add_refs(&mut self, pages: &Vec<u64>)
        requires
            old(self).wf(),
            refs_addable(old(self)@, pages@),
        ensures
            final(self).wf(),
            final(self)@ == with_added_refs(old(self)@, pages@),
    {
        let mut i: usize = 0;
        while i < pages.len()
            invariant
                self.wf(),
                i <= pages@.len(),
                refs_addable(old(self)@, pages@),
                self@ == with_added_refs(old(self)@, pages@.take(i as int)),
                forall|j: int|
                    0 <= j < pages@.len() ==> holds(self@, #[trigger] pages@[j]) && refcount_of(
                        self@,
                        pages@[j],
                    ) == refcount_of(old(self)@, pages@[j]) + count_of(pages@.take(i as int), pages@[j]),
            decreases pages@.len() - i,
        {
            let page = pages[i];
            proof {
                lemma_count_prefix(pages@, i as int, page);
                lemma_count_prefix_bound(pages@, i as int + 1, page);
                assert(pages@[i as int] == page);
            }
            self.add_ref(page);
            proof {
                let ghost prev = with_added_refs(old(self)@, pages@.take(i as int));
                assert(pages@.take(i + 1).drop_last() =~= pages@.take(i as int));
                assert(pages@.take(i + 1).last() == page);
                assert forall|j: int| 0 <= j < pages@.len() implies holds(self@, #[trigger] pages@[j])
                    && refcount_of(self@, pages@[j]) == refcount_of(old(self)@, pages@[j]) + count_of(
                    pages@.take(i + 1),
                    pages@[j],
                ) by {
                    lemma_with_refcount_frame(prev, page, (refcount_of(prev, page) + 1) as u16, pages@[j]);
                    lemma_count_prefix(pages@, i as int, pages@[j]);
                }
            }
            i = i + 1;
        }
        proof {
            assert(pages@.take(pages@.len() as int) =~= pages@);
        }
    }
}

/// The occurrences in a sequence are those in all but its last element, and the last one.
proof fn lemma_count_drop_last(pages: Seq<u64>, page: u64)
    requires
        pages.len() > 0,
    ensures
        count_of(pages, page) == count_of(pages.drop_last(), page) + if pages.last() == page {
            1nat
        } else {
            0nat
        },
{
}

/// Adding references to `pages` raises the count of each page by its occurrences, and keeps
/// the regions well formed and which pages they hold.
proof fn lemma_added_refs(v: Seq<RegionView>, pages: Seq<u64>, p: u64)
    requires
        regions_wf(v),
        refs_addable(v, pages),
        p % PAGE_SIZE == 0,
    ensures
        regions_wf(with_added_refs(v, pages)),
        holds(with_added_refs(v, pages), p) == holds(v, p),
        holds(v, p) ==> refcount_of(with_added_refs(v, pages), p) == refcount_of(v, p) + count_of(
            pages,
            p,
        ),
    decreases pages.len(),
{
    if pages.len() > 0 {
        let dl = pages.drop_last();
        let last = pages.last();
        assert forall|i: int| 0 <= i < dl.len() implies {
            &&& #[trigger] dl[i] % PAGE_SIZE == 0
            &&& holds(v, dl[i])
            &&& 0 < refcount_of(v, dl[i])
            &&& refcount_of(v, dl[i]) + count_of(dl, dl[i]) <= u16::MAX
        } by {
            assert(dl[i] == pages[i]);
            lemma_count_drop_last(pages, dl[i]);
        }
        assert(pages[pages.len() - 1] == last);
        lemma_count_drop_last(pages, last);
        lemma_count_drop_last(pages, p);
        lemma_added_refs(v, dl, p);
        lemma_added_refs(v, dl, last);
        let before = with_added_refs(v, dl);
        lemma_with_refcount_frame(before, last, (refcount_of(before, last) + 1) as u16, p);
    }
}

/// Giving back references to `pages` lowers the count of each page by its occurrences, and
/// keeps the regions well formed and which pages they hold.
proof fn lemma_removed_refs(v: Seq<RegionView>, pages: Seq<u64>, p: u64)
    requires
        regions_wf(v),
        refs_removable(v, pages),
        p % PAGE_SIZE == 0,
    ensures
        regions_wf(with_removed_refs(v, pages)),
        holds(with_removed_refs(v, pages), p) == holds(v, p),
        holds(v, p) ==> refcount_of(with_removed_refs(v, pages), p) + count_of(pages, p)
            == refcount_of(v, p),
    decreases pages.len(),
{
    if pages.len() > 0 {
        let dl = pages.drop_last();
        let last = pages.last();
        assert forall|i: int| 0 <= i < dl.len() implies {
            &&& #[trigger] dl[i] % PAGE_SIZE == 0
            &&& holds(v, dl[i])
            &&& count_of(dl, dl[i]) <= refcount_of(v, dl[i])
        } by {
            assert(dl[i] == pages[i]);
            lemma_count_drop_last(pages, dl[i]);
        }
        assert(pages[pages.len() - 1] == last);
        lemma_count_drop_last(pages, last);
        lemma_count_drop_last(pages, p);
        lemma_removed_refs(v, dl, p);
        lemma_removed_refs(v, dl, last);
        let before = with_removed_refs(v, dl);
        lemma_with_refcount_frame(before, last, (refcount_of(before, last) - 1) as u16, p);
    }
}

/// Taking one more reference on each of some pages and then giving those references back
/// leaves every page's reference count as it was: forking an execution and ending the copy
/// frees nothing and leaks nothing.
pub proof fn law_added_refs_then_removed(v: Seq<RegionView>, pages: Seq<u64>, p: u64)
    requires
        regions_wf(v),
        refs_addable(v, pages),
        p % PAGE_SIZE == 0,
        holds(v, p),
    ensures
        refs_removable(with_added_refs(v, pages), pages),
        holds(with_removed_refs(with_added_refs(v, pages), pages), p),
        refcount_of(with_removed_refs(with_added_refs(v, pages), pages), p) == refcount_of(v, p),
{
    let w = with_added_refs(v, pages);
    assert forall|i: int| 0 <= i < pages.len() implies {
        &&& #[trigger] pages[i] % PAGE_SIZE == 0
        &&& holds(w, pages[i])
        &&& count_of(pages, pages[i]) <= refcount_of(w, pages[i])
    } by {
        lemma_added_refs(v, pages, pages[i]);
    }
    lemma_added_refs(v, pages, p);
    lemma_removed_refs(w, pages, p);
}

} // verus!
