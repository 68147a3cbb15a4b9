//! Virtual memory management for the kernel itself: the kernel's single translation table,
//! mapping the higher half of the address range.
use vstd::prelude::*;
use crate::bitfield::{bit64, field64, with_bit64, with_field64, set_bit64, set_field64};
use crate::paging::{MemoryAttribute, PA_LIMIT};

verus! {

/// Bit positions of the fields of a kernel translation descriptor.
pub const TD_VALID: u64 = 0;
pub const TD_MEMORY_TYPE: u64 = 2;
pub const TD_WRITEABLE_NEVER: u64 = 7;
pub const TD_PPN: u64 = 16;
pub const TD_PRIVILEGED_EXECUTE_NEVER: u64 = 53;
pub const TD_UNPRIVILEGED_EXECUTE_NEVER: u64 = 54;
/// Mask of the 32-bit physical page number field.
pub const TD_PPN_MASK: u64 = 0xFFFF_FFFF;
/// The flags of a base descriptor: valid, `res1`, normal memory, inner shareable, accessed,
/// and execute-never for EL0.
pub const TD_BASE_FLAGS: u64 = 0x0040_0000_0000_0703;

/// Page size for the kernel, in bytes.
pub const KERNEL_PAGE_SIZE: usize = 0x1_0000;
/// Number of usable bits in virtual addresses.
pub const KERNEL_ADDRESS_BITS: u64 = 25;
/// Number of descriptors of the kernel's translation table.
pub const KERNEL_TABLE_ENTRIES: usize = 512;

/// A translation descriptor of the kernel's translation table.
#[derive(Clone, Copy, Debug, PartialEq, Eq, Structural)]
pub struct TranslationDescriptor(pub u64);

/// The bits of the base descriptor for physical address `pa`.
pub open spec fn td_base_bits(pa: u64) -> u64 {
    with_field64(TD_BASE_FLAGS, TD_PPN, TD_PPN_MASK, pa >> 16)
}

/// The bits of the descriptor with which the kernel maps `pa`.
pub open spec fn td_mapping_bits(pa: u64, writeable: bool, is_device: bool) -> u64 {
    with_field64(
        with_bit64(with_bit64(td_base_bits(pa), TD_WRITEABLE_NEVER, !writeable), TD_PRIVILEGED_EXECUTE_NEVER, true),
        TD_MEMORY_TYPE,
        0b111,
        if is_device { 1 } else { 0 },
    )
}

impl TranslationDescriptor {
    /// An all-zero (invalid) descriptor.
    pub fn new() -> (r: Self)
        ensures
            r.0 == 0,
    {
        TranslationDescriptor(0)
    }

    /// Whether the descriptor is valid.
    pub open spec fn spec_valid(self) -> bool {
        bit64(self.0, TD_VALID)
    }

    /// The physical page number.
    pub open spec fn spec_ppn(self) -> u64 {
        field64(self.0, TD_PPN, TD_PPN_MASK)
    }

    /// Generates a descriptor with appropriate defaults filled out, and minimal permissions.
    ///
    /// Returns `None` if `pa` is too large.
    pub fn valid_base(pa: u64) -> (r: Option<Self>)
        ensures
            r is Some <==> pa < PA_LIMIT,
            r is Some ==> r.unwrap().0 == td_base_bits(pa),
    {
        if pa < PA_LIMIT {
            Some(TranslationDescriptor(set_field64(TD_BASE_FLAGS, TD_PPN, TD_PPN_MASK, pa >> 16)))
        } else {
            None
        }
    }

    /// Sets whether writes are disabled.
    pub fn with_writeable_never(self, value: bool) -> (r: Self)
        ensures
            r.0 == with_bit64(self.0, TD_WRITEABLE_NEVER, value),
    {
        TranslationDescriptor(set_bit64(self.0, TD_WRITEABLE_NEVER, value))
    }

    /// Sets whether EL1 execution is disabled.
    pub fn with_privileged_execute_never(self, value: bool) -> (r: Self)
        ensures
            r.0 == with_bit64(self.0, TD_PRIVILEGED_EXECUTE_NEVER, value),
    {
        TranslationDescriptor(set_bit64(self.0, TD_PRIVILEGED_EXECUTE_NEVER, value))
    }

    /// Sets the memory attribute.
    pub fn with_memory_type(self, value: MemoryAttribute) -> (r: Self)
        ensures
            r.0 == with_field64(self.0, TD_MEMORY_TYPE, 0b111, value.spec_bits()),
    {
        TranslationDescriptor(set_field64(self.0, TD_MEMORY_TYPE, 0b111, value.into_bits()))
    }
}

/// Whether the kernel accepts to map virtual address `va` to physical address `pa`: `va` must
/// be a page-aligned higher-half address, and `pa` page aligned.
pub open spec fn kernel_mapping_accepted(va: usize, pa: u64) -> bool {
    &&& va & !0x1FF_FFFFusize == !0x1FF_FFFFusize
    &&& va & 0xFFFFusize == 0
    &&& pa & 0xFFFFu64 == 0
}

/// The index of the descriptor that translates the higher-half address `va`.
pub open spec fn kernel_table_index(va: usize) -> int {
    ((va & 0x1FF_FFFFusize) / 0x1_0000usize) as int
}

/// A wrapper to manage the kernel's address space.
pub struct AddressSpace {
    /// The underlying translation table that this address space manages
    table: Vec<TranslationDescriptor>,
}

impl AddressSpace {
    /// The descriptors of the kernel's translation table.
    pub closed spec fn view(&self) -> Seq<TranslationDescriptor> {
        self.table@
    }

    /// Well-formedness: the table has one descriptor per page of the address range.
    pub closed spec fn wf(&self) -> bool {
        self.table@.len() == KERNEL_TABLE_ENTRIES
    }

    /// A well-formed address space has one descriptor per page.
    pub proof fn lemma_wf(&self)
        requires
            self.wf(),
        ensures
            self@.len() == KERNEL_TABLE_ENTRIES,
    {
    }

    /// Creates a new address space using the specified translation table.
    pub fn new(table: Vec<TranslationDescriptor>) -> (r: Self)
        requires
            table@.len() == KERNEL_TABLE_ENTRIES,
        ensures
            r.wf(),
            r@ == table@,
    {
        AddressSpace { table }
    }

    /// Maps the given virtual page to the given physical page, with the specified attributes.
    /// Overrides any existing mapping for that page.
    ///
    /// Returns `false`, and maps nothing, if the virtual address is not a page-aligned
    /// higher-half address or the physical address is not page aligned. The physical address
    /// must fit what descriptors can hold.
    pub fn map(&mut self, va: usize, pa: u64, writeable: bool, is_device: bool) -> (r: bool)
        requires
            old(self).wf(),
            kernel_mapping_accepted(va, pa) ==> pa < PA_LIMIT,
        ensures
            final(self).wf(),
            r == kernel_mapping_accepted(va, pa),
            r ==> final(self)@ == old(self)@.update(
                kernel_table_index(va),
                TranslationDescriptor(td_mapping_bits(pa, writeable, is_device)),
            ),
            !r ==> final(self)@ == old(self)@,
    {
        let va_mask: usize = 0x1FF_FFFF;
        let page_mask: usize = 0xFFFF;
        let page_mask_u64: u64 = 0xFFFF;
        if (va & !va_mask) != !va_mask || (va & page_mask) != 0 || (pa & page_mask_u64) != 0 {
            return false;
        }
        let index = (va & va_mask) / KERNEL_PAGE_SIZE;
        assert((va & 0x1FF_FFFFusize) / 0x1_0000usize < 512usize) by (bit_vector);
        let descriptor = match TranslationDescriptor::valid_base(pa) {
            Some(d) => d,
            None => TranslationDescriptor(0),
        };
        let descriptor = descriptor.with_writeable_never(!writeable).with_privileged_execute_never(true).with_memory_type(
            if is_device {
                MemoryAttribute::Device
            } else {
                MemoryAttribute::Normal
            },
        );
        self.table.set(index, descriptor);
        true
    }
}

/// A descriptor the kernel maps decodes back to what was asked for: it is valid, points at the
/// page of `pa`, never executes at EL1, and honors the requested write permission and memory
/// kind.
pub proof fn law_kernel_mapping_decodes(pa: u64, writeable: bool, is_device: bool)
    ensures
        ({
            let d = TranslationDescriptor(td_mapping_bits(pa, writeable, is_device));
            &&& d.spec_valid()
            &&& d.spec_ppn() == (pa >> 16) & TD_PPN_MASK
            &&& bit64(d.0, TD_WRITEABLE_NEVER) == !writeable
            &&& bit64(d.0, TD_PRIVILEGED_EXECUTE_NEVER)
            &&& bit64(d.0, TD_UNPRIVILEGED_EXECUTE_NEVER)
            &&& field64(d.0, TD_MEMORY_TYPE, 0b111) == (if is_device { 1u64 } else { 0u64 })
        }),
{
    let w: u64 = if !writeable { 1 } else { 0 };
    let d: u64 = if is_device { 1 } else { 0 };
    let b = (0x0040_0000_0000_0703u64 & !(0xffff_ffffu64 << 16u64)) | (((pa >> 16u64) & 0xffff_ffffu64) << 16u64);
    let b1 = (b & !(1u64 << 7u64)) | ((w & 1) << 7u64);
    let b2 = (b1 & !(1u64 << 53u64)) | ((1u64 & 1) << 53u64);
    let b3 = (b2 & !(7u64 << 2u64)) | ((d & 7) << 2u64);
    assert(b3 >> 0u64 & 1 == 1 && (b3 >> 16u64) & 0xffff_ffffu64 == (pa >> 16u64) & 0xffff_ffffu64
        && ((b3 >> 7u64) & 1 == 1) == (w == 1) && (b3 >> 53u64) & 1 == 1 && (b3 >> 54u64) & 1 == 1
        && (b3 >> 2u64) & 7 == d) by (bit_vector)
        requires
            w <= 1, d <= 1,
            b == (0x0040_0000_0000_0703u64 & !(0xffff_ffffu64 << 16u64)) | (((pa >> 16u64) & 0xffff_ffffu64) << 16u64),
            b1 == (b & !(1u64 << 7u64)) | ((w & 1) << 7u64),
            b2 == (b1 & !(1u64 << 53u64)) | ((1u64 & 1) << 53u64),
            b3 == (b2 & !(7u64 << 2u64)) | ((d & 7) << 2u64),
    ;
}

} // verus!
