//! Translation tables for user address spaces: page table entries and the mapping of ranges.
use vstd::prelude::*;
use vstd::arithmetic::power2::{pow2, lemma_pow2_pos};
use vstd::arithmetic::div_mod::{lemma_hoist_over_denominator, lemma_fundamental_div_mod};
use vstd::arithmetic::mul::lemma_mul_inequality;
use vstd::bits::{lemma_u64_shl_is_mul, lemma_u64_shr_is_div, lemma_u64_pow2_no_overflow};
use crate::bitfield::{bit64, field64, with_bit64, with_field64, set_bit64, set_field64};

verus! {

/// Memory attributes describing a memory region.
#[derive(Clone, Copy, Debug, PartialEq, Eq, Structural)]
pub enum MemoryAttribute {
    Normal,
    Device,
}

impl MemoryAttribute {
    /// The attribute index stored in descriptors.
    pub open spec fn spec_bits(self) -> u64 {
        match self {
            MemoryAttribute::Normal => 0,
            MemoryAttribute::Device => 1,
        }
    }

    /// The attribute index stored in descriptors.
    pub fn into_bits(self) -> (r: u64)
        ensures
            r == self.spec_bits(),
    {
        match self {
            MemoryAttribute::Normal => 0,
            MemoryAttribute::Device => 1,
        }
    }

    /// The attribute with the given index. Only the indices of existing attributes are valid.
    pub fn from_bits(value: u64) -> (r: Self)
        requires
            value <= 1,
        ensures
            r.spec_bits() == value,
    {
        if value == 0 {
            MemoryAttribute::Normal
        } else {
            MemoryAttribute::Device
        }
    }
}

/// Shareability attributes describing a memory region.
#[derive(Clone, Copy, Debug, PartialEq, Eq, Structural)]
pub enum Shareability {
    Non,
    Outer,
    Inner,
}

impl Shareability {
    /// The encoding stored in descriptors.
    pub open spec fn spec_bits(self) -> u64 {
        match self {
            Shareability::Non => 0b00,
            Shareability::Outer => 0b10,
            Shareability::Inner => 0b11,
        }
    }

    /// The encoding stored in descriptors.
    pub fn into_bits(self) -> (r: u64)
        ensures
            r == self.spec_bits(),
    {
        match self {
            Shareability::Non => 0b00,
            Shareability::Outer => 0b10,
            Shareability::Inner => 0b11,
        }
    }

    /// The attribute with the given encoding. The encoding `0b01` is reserved.
    pub fn from_bits(value: u64) -> (r: Self)
        requires
            value == 0 || value == 2 || value == 3,
        ensures
            r.spec_bits() == value,
    {
        if value == 0 {
            Shareability::Non
        } else if value == 2 {
            Shareability::Outer
        } else {
            Shareability::Inner
        }
    }
}

/// Bit positions of the fields of a final-level descriptor.
pub const PTE_VALID: u64 = 0;
pub const PTE_MEMORY_TYPE: u64 = 2;
pub const PTE_EL0_ACCESSIBLE: u64 = 6;
pub const PTE_WRITEABLE_NEVER: u64 = 7;
pub const PTE_SHAREABILITY: u64 = 8;
pub const PTE_ACCESS: u64 = 10;
pub const PTE_NOT_GLOBAL: u64 = 11;
pub const PTE_PA: u64 = 12;
pub const PTE_PRIVILEGE_EXECUTE_NEVER: u64 = 53;
pub const PTE_EXECUTE_NEVER: u64 = 54;
/// Mask of the 36-bit physical page number field.
pub const PTE_PA_MASK: u64 = 0xF_FFFF_FFFF;
/// Physical addresses of descriptors must lie below this bound: the physical address field of
/// a descriptor ends at bit 48.
pub const PA_LIMIT: u64 = 0x1_0000_0000_0000;

/// The flags of a base descriptor: valid, `res1`, normal memory, EL0 accessible, writes
/// disabled, inner shareable, accessed, not global, and execute-never for EL0.
pub const PTE_BASE_FLAGS: u64 = 0x0040_0000_0000_0FC3;

/// A final-level translation descriptor, pointing at a physical page.
#[derive(Clone, Copy, Debug, PartialEq, Eq, Structural)]
pub struct PageTableEntry(pub u64);

/// The bits of the base descriptor for physical address `pa` (see `PageTableEntry::valid_base`).
pub open spec fn pte_base_bits(pa: u64) -> u64 {
    with_field64(PTE_BASE_FLAGS, PTE_PA, PTE_PA_MASK, pa >> 12)
}

/// The bits of the descriptor that maps `pa` with the given permissions and memory kind.
pub open spec fn pte_mapping_bits(pa: u64, writeable: bool, executable: bool, is_device: bool) -> u64 {
    with_field64(
        with_bit64(with_bit64(pte_base_bits(pa), PTE_WRITEABLE_NEVER, !writeable), PTE_EXECUTE_NEVER, !executable),
        PTE_MEMORY_TYPE,
        0b111,
        if is_device { 1 } else { 0 },
    )
}

impl PageTableEntry {
    /// An all-zero (invalid) descriptor.
    pub fn new() -> (r: Self)
        ensures
            r.0 == 0,
    {
        PageTableEntry(0)
    }

    /// Whether the descriptor is valid.
    pub open spec fn spec_valid(self) -> bool {
        bit64(self.0, PTE_VALID)
    }

    /// Whether writes are disabled.
    pub open spec fn spec_writeable_never(self) -> bool {
        bit64(self.0, PTE_WRITEABLE_NEVER)
    }

    /// Whether EL0 execution is disabled.
    pub open spec fn spec_execute_never(self) -> bool {
        bit64(self.0, PTE_EXECUTE_NEVER)
    }

    /// The memory-attribute index.
    pub open spec fn spec_memory_type(self) -> u64 {
        field64(self.0, PTE_MEMORY_TYPE, 0b111)
    }

    /// The physical page number.
    pub open spec fn spec_pa(self) -> u64 {
        field64(self.0, PTE_PA, PTE_PA_MASK)
    }

    /// Whether the descriptor is valid.
    pub fn valid(self) -> (r: bool)
        ensures
            r == self.spec_valid(),
    {
        (self.0 >> PTE_VALID) & 1 == 1
    }

    /// Whether writes are disabled.
    pub fn writeable_never(self) -> (r: bool)
        ensures
            r == self.spec_writeable_never(),
    {
        (self.0 >> PTE_WRITEABLE_NEVER) & 1 == 1
    }

    /// Whether EL0 execution is disabled.
    pub fn execute_never(self) -> (r: bool)
        ensures
            r == self.spec_execute_never(),
    {
        (self.0 >> PTE_EXECUTE_NEVER) & 1 == 1
    }

    /// The physical page number.
    pub fn pa(self) -> (r: u64)
        ensures
            r == self.spec_pa(),
    {
        (self.0 >> PTE_PA) & PTE_PA_MASK
    }

    /// Sets whether writes are disabled.
    pub fn with_writeable_never(self, value: bool) -> (r: Self)
        ensures
            r.0 == with_bit64(self.0, PTE_WRITEABLE_NEVER, value),
    {
        PageTableEntry(set_bit64(self.0, PTE_WRITEABLE_NEVER, value))
    }

    /// Sets whether EL0 execution is disabled.
    pub fn with_execute_never(self, value: bool) -> (r: Self)
        ensures
            r.0 == with_bit64(self.0, PTE_EXECUTE_NEVER, value),
    {
        PageTableEntry(set_bit64(self.0, PTE_EXECUTE_NEVER, value))
    }

    /// Sets the memory attribute.
    pub fn with_memory_type(self, value: MemoryAttribute) -> (r: Self)
        ensures
            r.0 == with_field64(self.0, PTE_MEMORY_TYPE, 0b111, value.spec_bits()),
    {
        PageTableEntry(set_field64(self.0, PTE_MEMORY_TYPE, 0b111, value.into_bits()))
    }

    /// Generates a descriptor with appropriate defaults filled out, and minimal permissions.
    ///
    /// Returns `None` if `pa` is too large.
    pub fn valid_base(pa: u64) -> (r: Option<Self>)
        ensures
            r is Some <==> pa < PA_LIMIT,
            r is Some ==> r.unwrap().0 == pte_base_bits(pa),
    {
        if pa < PA_LIMIT {
            Some(PageTableEntry(set_field64(PTE_BASE_FLAGS, PTE_PA, PTE_PA_MASK, pa >> 12)))
        } else {
            None
        }
    }

    /// The descriptor that maps `pa` with the given permissions and memory kind.
    pub fn mapping(pa: u64, writeable: bool, executable: bool, is_device: bool) -> (r: Self)
        requires
            pa < PA_LIMIT,
        ensures
            r.0 == pte_mapping_bits(pa, writeable, executable, is_device),
    {
        let base = match Self::valid_base(pa) {
            Some(e) => e,
            None => PageTableEntry(0),
        };
        base.with_writeable_never(!writeable).with_execute_never(!executable).with_memory_type(
            if is_device {
                MemoryAttribute::Device
            } else {
                MemoryAttribute::Normal
            },
        )
    }
}

/// The bits of the table descriptor that points at the next-level table at `table_addr`:
/// valid, a table pointer, its address, and execute-never at every level but accessible from
/// EL0.
pub open spec fn directory_entry_bits(table_addr: u64) -> u64 {
    0b11u64 | (((table_addr >> 12u64) & PTE_PA_MASK) << 12u64) | (1u64 << 59u64) | (1u64 << 60u64)
        | (1u64 << 61u64)
}

/// A table descriptor pointing at the next-level table at `table_addr`.
pub fn page_directory_entry(table_addr: u64) -> (r: u64)
    ensures
        r == directory_entry_bits(table_addr),
{
    0b11u64 | (((table_addr >> 12u64) & PTE_PA_MASK) << 12u64) | (1u64 << 59u64) | (1u64 << 60u64)
        | (1u64 << 61u64)
}

/// A descriptor built for a mapping decodes back to what was asked for: it is valid, it points
/// at the page of `pa`, and its permissions and memory kind are the requested ones.
pub proof fn law_mapping_decodes(pa: u64, writeable: bool, executable: bool, is_device: bool)
    requires
        pa < PA_LIMIT,
    ensures
        ({
            let e = PageTableEntry(pte_mapping_bits(pa, writeable, executable, is_device));
            &&& e.spec_valid()
            &&& e.spec_pa() == (pa >> 12) & PTE_PA_MASK
            &&& e.spec_writeable_never() == !writeable
            &&& e.spec_execute_never() == !executable
            &&& e.spec_memory_type() == (if is_device { 1u64 } else { 0u64 })
        }),
{
    let w: u64 = if !writeable { 1 } else { 0 };
    let x: u64 = if !executable { 1 } else { 0 };
    let d: u64 = if is_device { 1 } else { 0 };
    let b = (0x0040_0000_0000_0fc3u64 & !(0xf_ffff_ffffu64 << 12u64)) | (((pa >> 12u64) & 0xf_ffff_ffffu64) << 12u64);
    let b1 = (b & !(1u64 << 7u64)) | ((w & 1) << 7u64);
    let b2 = (b1 & !(1u64 << 54u64)) | ((x & 1) << 54u64);
    let b3 = (b2 & !(7u64 << 2u64)) | ((d & 7) << 2u64);
    assert(b3 >> 0u64 & 1 == 1 && (b3 >> 12u64) & 0xf_ffff_ffffu64 == (pa >> 12u64) & 0xf_ffff_ffffu64
        && ((b3 >> 7u64) & 1 == 1) == (w == 1) && ((b3 >> 54u64) & 1 == 1) == (x == 1)
        && (b3 >> 2u64) & 7 == d) by (bit_vector)
        requires
            w <= 1, x <= 1, d <= 1,
            b == (0x0040_0000_0000_0fc3u64 & !(0xf_ffff_ffffu64 << 12u64)) | (((pa >> 12u64) & 0xf_ffff_ffffu64) << 12u64),
            b1 == (b & !(1u64 << 7u64)) | ((w & 1) << 7u64),
            b2 == (b1 & !(1u64 << 54u64)) | ((x & 1) << 54u64),
            b3 == (b2 & !(7u64 << 2u64)) | ((d & 7) << 2u64),
    ;
}

} // verus!

verus! {

/// The number of pages of `page` bytes that a range of `size` bytes starting on a page
/// boundary touches.
pub open spec fn pages_spanned(size: nat, page: nat) -> nat
    recommends
        page > 0,
{
    ((size + page - 1) / (page as int)) as nat
}

/// The table after mapping `size` bytes at virtual address `va` to physical address `pa`: the
/// entry of each page that the range covers (counted from the page holding `va`) maps the
/// corresponding page of `pa` onward; every other entry is unchanged.
pub open spec fn mapped_table(
    table: Seq<PageTableEntry>,
    va: u64,
    pa: u64,
    size: u64,
    page: nat,
    writeable: bool,
    executable: bool,
    is_device: bool,
) -> Seq<PageTableEntry> {
    let first = va as int / page as int;
    Seq::new(
        table.len(),
        |i: int|
            if first <= i < first + pages_spanned(size as nat, page) {
                PageTableEntry(
                    pte_mapping_bits(
                        (pa + (i - first) * page) as u64,
                        writeable,
                        executable,
                        is_device,
                    ),
                )
            } else {
                table[i]
            },
    )
}

/// The condition under which mapping a range cannot fail: every page of the range has an entry
/// in a table of `len` entries, and no address of the range overflows or exceeds what a
/// descriptor can hold.
pub open spec fn range_mappable(va: u64, pa: u64, size: u64, page: nat, len: nat) -> bool {
    size > 0 ==> {
        let last = (pages_spanned(size as nat, page) - 1) * page;
        &&& va + last <= u64::MAX
        &&& (va + last) / (page as int) < len
        &&& pa + last < PA_LIMIT
    }
}

/// Facts about the number of pages a range spans: an empty range spans none; otherwise the
/// last page starts inside the range, and the pages cover the whole range.
pub proof fn lemma_pages_spanned(size: nat, page: nat)
    requires
        page > 0,
    ensures
        size == 0 ==> pages_spanned(size, page) == 0,
        size > 0 ==> pages_spanned(size, page) >= 1,
        size > 0 ==> (pages_spanned(size, page) - 1) * page < size,
        size <= pages_spanned(size, page) * page,
{
    let n = pages_spanned(size, page);
    let t = (size + page - 1) as int;
    lemma_fundamental_div_mod(t, page as int);
    vstd::arithmetic::div_mod::lemma_mod_pos_bound(t, page as int);
    assert(t == page * n + t % (page as int));
    assert(n * page == page * n) by (nonlinear_arith);
    assert((n - 1) * page == n * page - page) by (nonlinear_arith);
    if size == 0 {
        vstd::arithmetic::div_mod::lemma_basic_div(t, page as int);
    }
    if size > 0 {
        if n == 0 {
            assert(page * n == 0) by (nonlinear_arith) requires n == 0;
        }
    }
}

/// The address space of a process: the final-level translation table that its addresses
/// translate through, with pages of `2^PAGE_BITS` bytes and `2^ADDRESS_BITS` bytes of
/// addressable memory.
pub struct AddressSpace<const PAGE_BITS: u8, const ADDRESS_BITS: u8> {
    table: Vec<PageTableEntry>,
}

impl<const PAGE_BITS: u8, const ADDRESS_BITS: u8> AddressSpace<PAGE_BITS, ADDRESS_BITS> {
    /// The size of a page, in bytes.
    pub open spec fn page_size() -> nat {
        pow2(PAGE_BITS as nat)
    }

    /// The number of entries of the table.
    pub open spec fn entry_count() -> nat {
        pow2((ADDRESS_BITS - PAGE_BITS) as nat)
    }

    /// The entries of the translation table.
    pub closed spec fn view(&self) -> Seq<PageTableEntry> {
        self.table@
    }

    /// Well-formedness: the table has one entry per page of the address range.
    pub closed spec fn wf(&self) -> bool {
        &&& PAGE_BITS < ADDRESS_BITS <= 64
        &&& self.table@.len() == Self::entry_count()
    }

    /// A well-formed address space has pages smaller than its address range.
    pub proof fn lemma_wf_bits(&self)
        requires
            self.wf(),
        ensures
            PAGE_BITS < ADDRESS_BITS <= 64,
            self@.len() == Self::entry_count(),
    {
    }

    /// Creates an address space managing the given translation table.
    pub fn new(table: Vec<PageTableEntry>) -> (r: Self)
        requires
            PAGE_BITS < ADDRESS_BITS <= 64,
            table@.len() == Self::entry_count(),
        ensures
            r.wf(),
            r@ == table@,
    {
        AddressSpace { table }
    }

    /// The translation table.
    pub fn table(&self) -> (r: &Vec<PageTableEntry>)
        ensures
            r@ == self@,
    {
        &self.table
    }

    /// The index of the entry that translates `address` (higher-order bits must have been
    /// masked out), if there is one.
    pub fn entry_index(&self, address: u64) -> (r: Option<usize>)
        requires
            self.wf(),
        ensures
            r is Some <==> address as int / (Self::page_size() as int) < self@.len(),
            r is Some ==> r.unwrap() as int == address as int / (Self::page_size() as int),
    {
        proof {
            lemma_u64_shr_is_div(address, PAGE_BITS as u64);
        }
        let index = address >> (PAGE_BITS as u64);
        if index < self.table.len() as u64 {
            Some(index as usize)
        } else {
            None
        }
    }

    /// Maps the given virtual address range to the given physical address range, with the
    /// specified attributes. Overrides any existing mappings for that region.
    ///
    /// Both `va` and `pa` should be page aligned. Every page of the range must have an entry in
    /// the table, and the physical range must fit what descriptors can hold.
    pub fn map_range(
        &mut self,
        va: u64,
        pa: u64,
        size: u64,
        writeable: bool,
        executable: bool,
        is_device: bool,
    )
        requires
            old(self).wf(),
            range_mappable(va, pa, size, Self::page_size(), old(self)@.len()),
        ensures
            final(self).wf(),
            final(self)@ == mapped_table(
                old(self)@,
                va,
                pa,
                size,
                Self::page_size(),
                writeable,
                executable,
                is_device,
            ),
    {
        let ghost page = Self::page_size();
        let ghost first = va as int / page as int;
        let ghost n = pages_spanned(size as nat, page);
        proof {
            lemma_pow2_pos(PAGE_BITS as nat);
            lemma_u64_pow2_no_overflow(PAGE_BITS as nat);
            lemma_u64_shl_is_mul(1, PAGE_BITS as u64);
        }
        let step: u64 = 1u64 << (PAGE_BITS as u64);
        assert(step == page);
        proof {
            lemma_pages_spanned(size as nat, page);
        }
        if size == 0 {
            assert(self@ =~= mapped_table(old(self)@, va, pa, size, page, writeable, executable, is_device));
            return;
        }
        let mut offset: u64 = 0;
        let ghost mut k: int = 0;
        loop
            invariant_except_break
                k < n,
                offset == k * page,
            invariant
                self.wf(),
                step == page,
                page == Self::page_size(),
                page > 0,
                0 < size,
                n == pages_spanned(size as nat, page),
                first == va as int / page as int,
                range_mappable(va, pa, size, page, old(self)@.len()),
                self@.len() == old(self)@.len(),
                0 <= k <= n,
                forall|i: int|
                    0 <= i < self@.len() ==> #[trigger] self@[i] == (if first <= i < first + k {
                        PageTableEntry(
                            pte_mapping_bits(
                                (pa + (i - first) * page) as u64,
                                writeable,
                                executable,
                                is_device,
                            ),
                        )
                    } else {
                        old(self)@[i]
                    }),
            ensures
                self.wf(),
                self@.len() == old(self)@.len(),
                forall|i: int|
                    0 <= i < self@.len() ==> #[trigger] self@[i] == (if first <= i < first + n {
                        PageTableEntry(
                            pte_mapping_bits(
                                (pa + (i - first) * page) as u64,
                                writeable,
                                executable,
                                is_device,
                            ),
                        )
                    } else {
                        old(self)@[i]
                    }),
            decreases n - k,
        {
            let ghost last = (n - 1) * page;
            proof {
                lemma_pages_spanned(size as nat, page);
                lemma_mul_inequality(k, n - 1, page as int);
                lemma_hoist_over_denominator(va as int, k, page);
                vstd::arithmetic::div_mod::lemma_div_is_ordered(va + offset, va + last, page as int);
            }
            let address = va + offset;
            let index = address >> (PAGE_BITS as u64);
            proof {
                lemma_u64_shr_is_div(address, PAGE_BITS as u64);
                assert((PAGE_BITS as u64) as nat == PAGE_BITS as nat);
                assert(pow2((PAGE_BITS as u64) as nat) == page);
                assert(address as int == va as int + k * page);
                assert(index as int == (va as int + k * page) / (page as int));
                assert(index as int == first + k);
            }
            let entry = PageTableEntry::mapping(pa + offset, writeable, executable, is_device);
            let len = self.table.len();
            assert(index < len);
            let ghost before = self@;
            let idx = index as usize;
            assert(idx as int == index as int);
            self.table.set(idx, entry);
            proof {
                assert forall|i: int| 0 <= i < self@.len() implies #[trigger] self@[i] == (if first <= i < first + k + 1 {
                    PageTableEntry(pte_mapping_bits((pa + (i - first) * page) as u64, writeable, executable, is_device))
                } else {
                    old(self)@[i]
                }) by {
                    if i == first + k {
                        assert((pa + (i - first) * page) as u64 == pa + offset);
                    } else {
                        assert(self@[i] == before[i]);
                    }
                }
            }
            if size - offset <= step {
                proof {
                    // no further page starts inside the range
                    assert(k + 1 == n) by {
                        lemma_fundamental_div_mod((size + page - 1) as int, page as int);
                        assert((k + 1) * page == k * page + page) by (nonlinear_arith);
                        assert((k + 2) * page == k * page + 2 * page) by (nonlinear_arith);
                        if n > k + 1 {
                            lemma_mul_inequality(k + 2, n as int, page as int);
                            assert(n * page <= size + page - 1);
                        }
                        if n < k + 1 {
                            lemma_mul_inequality(n as int, k, page as int);
                        }
                        assert(n * page + page > size + page - 1) by (nonlinear_arith)
                            requires
                                page > 0,
                                n == (size + page - 1) / (page as int),
                        ;
                    }
                    k = k + 1;
                }
                break;
            }
            proof {
                assert(k + 1 < n) by {
                    assert((k + 1) * page == k * page + page) by (nonlinear_arith);
                    assert(n * page + page > size + page - 1) by (nonlinear_arith)
                        requires
                            page > 0,
                            n == (size + page - 1) / (page as int),
                    ;
                    if n <= k + 1 {
                        lemma_mul_inequality(n as int, k + 1, page as int);
                    }
                }
                assert((k + 1) * page == k * page + page) by (nonlinear_arith);
                lemma_mul_inequality(k + 1, n - 1, page as int);
            }
            offset = offset + step;
            proof {
                k = k + 1;
            }
        }
        assert(self@ =~= mapped_table(old(self)@, va, pa, size, page, writeable, executable, is_device));
    }
}

} // verus!
