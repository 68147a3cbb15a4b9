//! The kernel's boot sequence for the Raspberry Pi 3, an alternative to the one in `boot`: the
//! translation table that maps the kernel image into the upper half with 64 KiB pages, the
//! system register values that the switch from EL2 to EL1 installs, and where each core's boot
//! stack lies.
use vstd::prelude::*;

verus! {

/// Number of cores.
pub const NUM_CORES: usize = 4;

/// Physical address the firmware loads the kernel to.
pub const PHYSICAL_LOAD_ADDR: u64 = 0x8_0000;

/// Size of a page in bytes.
pub const PAGE_SIZE: usize = 0x1_0000;

/// Number of bits of a virtual address in the kernel's half.
pub const ADDRESS_BITS: u32 = 25;

/// Number of entries of the boot translation table: one per page of the address range.
pub const TABLE_ENTRIES: usize = 512;

/// Offset from a physical address of the kernel image to its virtual address.
pub const VIRTUAL_OFFSET: u64 = 0xFFFF_FFFF_FDF8_0000;

/// Size of each core's boot stack.
pub const STACK_SIZE: usize = 0x1000;

/// Hypervisor configuration: allocation tags, no pointer authentication traps, transactional
/// memory, incoherent cacheability allowed, 64-bit EL1, no `hvc`.
pub const HCR_EL2: u64 = 0x0100_03C0_A000_0000;

/// Counter-timer hypervisor control: EL1 may read the counters.
pub const CNTHCTL_EL2: u64 = 0b11;

/// Virtual counter offset.
pub const CNTVOFF_EL2: u64 = 0;

/// Translation control: 64 KiB pages and 25-bit addresses in both halves, cacheable and
/// inner-shareable table walks, 16-bit ASIDs, top byte ignored, hardware access and dirty
/// flags, EL0 faulting on the upper half.
pub const TCR_EL1: u64 = 0x011F_F9F0_FF27_7F27;

/// Memory attributes: attribute 0 is normal memory.
pub const MAIR_EL1: u64 = 0xFF;

/// System control: virtual memory with data and instruction caches, context-synchronizing
/// exceptions, and EL0 access to cache and wait instructions.
pub const SCTLR_EL1: u64 = 0x11F0_0C03_1445_D845;

/// Saved program state for the switch to EL1: interrupts masked, EL1 with its own stack.
pub const SPSR_EL2: u64 = 0x3C5;

/// The descriptor of page `offset` of the kernel image: the page at that offset from the load
/// address, unprivileged execute-never, accessed, inner-shareable, valid.
pub open spec fn image_page_entry(offset: int) -> u64 {
    ((1u64 << 54u64) | (((PHYSICAL_LOAD_ADDR + offset * PAGE_SIZE) as u64) & !((PAGE_SIZE
        - 1) as u64)) | (1u64 << 10u64) | (0b11u64 << 8u64) | 0b11u64) as u64
}

/// The descriptor of page `offset` of the kernel image.
pub fn image_page_descriptor(offset: usize) -> (r: u64)
    requires
        offset < TABLE_ENTRIES,
    ensures
        r == image_page_entry(offset as int),
{
    assert((offset as u64) * 0x1_0000 <= 511 * 0x1_0000) by (nonlinear_arith)
        requires
            offset < 512,
    ;
    let pa: u64 = PHYSICAL_LOAD_ADDR + (offset as u64) * (PAGE_SIZE as u64);
    (1u64 << 54u64) | (pa & !((PAGE_SIZE as u64) - 1)) | (1u64 << 10u64) | (0b11u64 << 8u64)
        | 0b11u64
}

/// The number of pages the boot table maps for an image of `image_size` bytes: every page
/// up to and including the one that `image_size` falls in.
pub open spec fn mapped_pages(image_size: usize) -> int {
    image_size as int / PAGE_SIZE as int + 1
}

/// The boot translation table for a kernel image of `image_size` bytes, from the start of its
/// text to the end of its bss.
pub fn boot_translation_table(image_size: usize) -> (r: Vec<u64>)
    requires
        mapped_pages(image_size) <= TABLE_ENTRIES,
    ensures
        r@.len() == TABLE_ENTRIES,
        forall|i: int| 0 <= i < mapped_pages(image_size) ==> r@[i] == image_page_entry(i),
        forall|i: int| mapped_pages(image_size) <= i < TABLE_ENTRIES ==> r@[i] == 0,
{
    let mut table: Vec<u64> = Vec::new();
    let mut i: usize = 0;
    while i < TABLE_ENTRIES
        invariant
            i <= TABLE_ENTRIES,
            table@.len() == i,
            forall|k: int| 0 <= k < i ==> table@[k] == 0,
        decreases TABLE_ENTRIES - i,
    {
        table.push(0);
        i = i + 1;
    }
    let pages = image_size / PAGE_SIZE;
    let mut offset: usize = 0;
    while offset <= pages
        invariant
            pages == image_size / PAGE_SIZE,
            pages + 1 <= TABLE_ENTRIES,
            offset <= pages + 1,
            table@.len() == TABLE_ENTRIES,
            forall|k: int| 0 <= k < offset ==> table@[k] == image_page_entry(k),
            forall|k: int| offset <= k < TABLE_ENTRIES ==> table@[k] == 0,
        decreases pages + 1 - offset,
    {
        let entry = image_page_descriptor(offset);
        table.set(offset, entry);
        offset = offset + 1;
    }
    table
}

/// The top of the boot core's stack, which lies above the end of the bss.
pub fn boot_stack_top(bss_end: usize) -> (r: usize)
    ensures
        r == (if bss_end + STACK_SIZE <= usize::MAX { bss_end + STACK_SIZE } else { usize::MAX as int }),
{
    bss_end.saturating_add(STACK_SIZE)
}

/// The end of the bss rounded up to a multiple of 16, where the other cores' stacks begin.
pub open spec fn stacks_base(bss_end: usize) -> int {
    ((bss_end as int + 15) / 16) * 16
}

/// The top of the stack of the core that is the `count`-th to start, counting the boot core
/// as the first.
pub fn per_core_stack_top(bss_end: usize, count: u16) -> (r: usize)
    requires
        2 <= count <= NUM_CORES,
        bss_end + 15 + STACK_SIZE * NUM_CORES <= usize::MAX,
    ensures
        r == stacks_base(bss_end) + STACK_SIZE * count,
        r % 16 == 0,
{
    let rounded = bss_end + 15;
    let base = rounded & !0xFusize;
    assert(base == (rounded / 16) * 16) by (bit_vector)
        requires
            base == rounded & !0xFusize,
    ;
    let r = base + STACK_SIZE * (count as usize);
    assert(r % 16 == 0) by (nonlinear_arith)
        requires
            r == ((bss_end + 15) / 16) * 16 + 0x1000 * count,
    ;
    r
}

/// The stack pointer for EL1: the virtual address of the physical stack top.
pub fn sp_el1(sp_physical: u64) -> (r: u64)
    requires
        VIRTUAL_OFFSET + sp_physical <= u64::MAX,
    ensures
        r == VIRTUAL_OFFSET + sp_physical,
{
    VIRTUAL_OFFSET + sp_physical
}

/// The translation table base for the upper half: the table's address with common
/// translations enabled.
pub fn ttbr1_el1(table_addr: u64) -> (r: u64)
    ensures
        r == table_addr | 1,
{
    table_addr | 1
}

/// The address EL1 starts at: the virtual address of the kernel's entry point.
pub fn elr_el2(entry_physical: u64) -> (r: u64)
    requires
        entry_physical + VIRTUAL_OFFSET <= u64::MAX,
    ensures
        r == entry_physical + VIRTUAL_OFFSET,
{
    entry_physical + VIRTUAL_OFFSET
}

/// The boot stacks of two different cores do not overlap: each core's stack is the
/// `STACK_SIZE` bytes below its top.
pub proof fn law_core_stacks_are_disjoint(bss_end: usize, a: u16, b: u16)
    requires
        2 <= a <= NUM_CORES,
        2 <= b <= NUM_CORES,
        a != b,
    ensures
        stacks_base(bss_end) + STACK_SIZE * a <= stacks_base(bss_end) + STACK_SIZE * b
            - STACK_SIZE || stacks_base(bss_end) + STACK_SIZE * b <= stacks_base(bss_end)
            + STACK_SIZE * a - STACK_SIZE,
        stacks_base(bss_end) + STACK_SIZE * a - STACK_SIZE >= bss_end + STACK_SIZE,
{
}

/// The boot table maps the image's pages to consecutive physical pages from the load address,
/// each valid and not executable at EL0.
pub proof fn law_image_pages_are_consecutive(offset: int)
    requires
        0 <= offset < TABLE_ENTRIES,
    ensures
        image_page_entry(offset) & 0x0000_FFFF_FFFF_0000 == PHYSICAL_LOAD_ADDR + offset * PAGE_SIZE,
        image_page_entry(offset) & 0b11 == 0b11,
        (image_page_entry(offset) >> 54u64) & 1 == 1,
{
    let pi: int = PHYSICAL_LOAD_ADDR + offset * PAGE_SIZE;
    assert(pi == (8 + offset) * 0x1_0000);
    vstd::arithmetic::div_mod::lemma_mod_multiples_basic(8 + offset, 0x1_0000);
    assert(0 <= pi < 0x1_0000_0000) by (nonlinear_arith)
        requires
            pi == (8 + offset) * 0x1_0000,
            0 <= offset < 512,
    ;
    let pa = pi as u64;
    assert(pa & 0xFFFFu64 == 0) by (bit_vector)
        requires
            pa % 0x1_0000 == 0,
    ;
    let e = image_page_entry(offset);
    assert(e == (1u64 << 54u64) | (pa & !0xFFFFu64) | (1u64 << 10u64) | (0b11u64 << 8u64) | 0b11u64);
    assert(e & 0x0000_FFFF_FFFF_0000u64 == pa && e & 0b11u64 == 0b11u64 && (e >> 54u64) & 1u64 == 1u64)
        by (bit_vector)
        requires
            e == (1u64 << 54u64) | (pa & !0xFFFFu64) | (1u64 << 10u64) | (0b11u64 << 8u64) | 0b11u64,
            pa & 0xFFFFu64 == 0,
            pa < 0x1_0000_0000u64,
    ;
}

} // verus!
