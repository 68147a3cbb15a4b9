//! The kernel's boot: the translation table that maps the kernel into the upper half with
//! 2 MiB blocks, the system register values that the switch from EL2 to EL1 installs, where
//! each core's stack lies, and where the kernel's heap lies after them.
use vstd::prelude::*;

verus! {

/// Number of cores.
pub const NUM_CORES: usize = 4;

/// Size of each core's stack.
pub const STACK_SIZE: usize = 0x2000;

/// Physical address the firmware loads the kernel to.
pub const PHYSICAL_LOAD_ADDR: u64 = 0x8_0000;

/// Virtual address the kernel is linked at.
pub const VIRTUAL_LINK_ADDR: u64 = 0xFFFF_FFFF_FE08_0000;

/// Offset from a physical address of the kernel to its virtual address.
pub const VIRTUAL_OFFSET: u64 = 0xFFFF_FFFF_FE00_0000;

/// The flags of a boot block descriptor: unprivileged execute-never, accessed, inner
/// shareable, valid block.
pub const TABLE_ENTRY_BASE: u64 = 0x0040_0000_0000_0701;

/// Physical address of the UART's 2 MiB block.
pub const UART_BLOCK: u64 = 0x4_7E20_0000;

/// Physical address of the mailbox's block.
pub const MAILBOX_BLOCK: u64 = 0x4_7E00_0000;

/// Physical address of the interrupt controller's CPU interface.
pub const GICC_BLOCK: u64 = 0x4_C004_0000;

/// Architectural feature access control: SME, floating point and SVE are not trapped.
pub const CPACR_EL1: u64 = 0x0333_0000;

/// Hypervisor configuration: allocation tags, no pointer authentication traps, transactional
/// memory, incoherent cacheability allowed, 64-bit EL1, no `hvc`.
pub const HCR_EL2: u64 = 0x0100_03C0_A000_0000;

/// Memory attributes: attribute 0 is normal memory.
pub const MAIR_EL1: u64 = 0xFF;

/// System control of EL1: virtual memory with data and instruction caches,
/// context-synchronizing exceptions, and EL0 access to cache and wait instructions.
pub const SCTLR_EL1: u64 = 0x11F0_0C03_1445_D845;

/// System control of EL2: caches, EL0 barriers and instructions, context synchronization.
pub const SCTLR_EL2: u64 = 0x11F0_0C03_1445_DC64;

/// Saved program state for the switch to EL1: interrupts masked, EL1 with its own stack.
pub const SPSR_EL2: u64 = 0x3C5;

/// Translation control: 25-bit addresses, 4 KiB granule (2 MiB blocks) for the kernel's half
/// and 64 KiB pages for EL0, 36-bit physical addresses, cacheable and inner-shareable walks,
/// 16-bit ASIDs, top byte ignored, hardware access and dirty flags.
pub const TCR_EL1: u64 = 0x011F_F9F4_BF27_7F27;

/// The addresses the other cores read their entry point from.
pub const CORE_RELEASE_ADDRS: [u64; 3] = [0xE0, 0xE8, 0xF0];

/// The descriptors of the boot translation table, in order: the kernel's block at physical
/// address 0, then, as device memory, the UART's, the mailbox's and the interrupt controller's.
pub fn boot_table() -> (r: [u64; 4])
    ensures
        r@ == seq![
            TABLE_ENTRY_BASE,
            TABLE_ENTRY_BASE | 0b100 | UART_BLOCK,
            TABLE_ENTRY_BASE | 0b100 | MAILBOX_BLOCK,
            TABLE_ENTRY_BASE | 0b100 | GICC_BLOCK,
        ],
{
    let device = TABLE_ENTRY_BASE | 0b100;
    let r = [TABLE_ENTRY_BASE, device | UART_BLOCK, device | MAILBOX_BLOCK, device | GICC_BLOCK];
    assert(r@ =~= seq![
        TABLE_ENTRY_BASE,
        TABLE_ENTRY_BASE | 0b100 | UART_BLOCK,
        TABLE_ENTRY_BASE | 0b100 | MAILBOX_BLOCK,
        TABLE_ENTRY_BASE | 0b100 | GICC_BLOCK,
    ]);
    r
}

/// The (virtual) top of the stack of the core with `MPIDR_EL1` value `mpidr`: the stacks start
/// at the (physical) end of the bss rounded up to 16 bytes, core `n` owning the `n + 1`-th
/// stack; the arithmetic wraps as the machine's does.
pub open spec fn stack_top(bss_end: u64, mpidr: u64) -> u64 {
    (bss_end.wrapping_add(15) & !0xFu64).wrapping_add((STACK_SIZE * ((mpidr & 0b11) + 1)) as u64)
        .wrapping_add(VIRTUAL_OFFSET)
}

/// The top of the stack of the core with `MPIDR_EL1` value `mpidr`.
pub fn core_stack_top(bss_end: u64, mpidr: u64) -> (r: u64)
    ensures
        r == stack_top(bss_end, mpidr),
{
    let core = mpidr & 0b11;
    assert(core <= 3) by (bit_vector)
        requires
            core == mpidr & 0b11,
    ;
    let base = bss_end.wrapping_add(15) & !0xFu64;
    base.wrapping_add(0x2000u64 * (core + 1)).wrapping_add(VIRTUAL_OFFSET)
}

/// The address EL1 starts at: the virtual address of the kernel's entry point.
pub fn elr_el2(entry_physical: u64) -> (r: u64)
    ensures
        r == entry_physical.wrapping_add(VIRTUAL_OFFSET),
{
    entry_physical.wrapping_add(VIRTUAL_OFFSET)
}

/// The translation table base for the upper half: the table's address with common
/// translations enabled.
pub fn ttbr1_el1(table_addr: u64) -> (r: u64)
    ensures
        r == table_addr | 1,
{
    table_addr | 1
}

/// End of the kernel's memory: the heap runs from the end of the stacks up to here.
pub const KERNEL_MEMORY_END: u64 = 0xFFFF_FFFF_FE20_0000;

/// Alignment of the stack region.
pub const STACK_ALIGNMENT: u64 = 16;

/// Where the kernel's heap lies, given the (virtual) end of its bss: after the four cores'
/// stacks, which start at the end of the bss rounded up to the stack alignment, and up to the
/// end of the kernel's memory. `None` if that region is empty, wraps around, or starts at zero.
pub open spec fn heap_region(bss_end: u64) -> Option<(u64, u64)> {
    let stacks = ((bss_end as int + 15) / 16) * 16;
    let start = stacks + STACK_SIZE * NUM_CORES;
    if start > u64::MAX || start == 0 || start > KERNEL_MEMORY_END {
        None
    } else {
        Some((start as u64, (KERNEL_MEMORY_END - start) as u64))
    }
}

/// The kernel heap: its start and its length in bytes.
pub fn kernel_heap(bss_end: u64) -> (r: Option<(u64, u64)>)
    ensures
        r == heap_region(bss_end),
{
    if bss_end > u64::MAX - 15 {
        return None;
    }
    let rounded = bss_end + 15;
    let stacks = rounded & !0xFu64;
    assert(stacks == (rounded / 16) * 16) by (bit_vector)
        requires
            stacks == rounded & !0xFu64,
    ;
    if stacks > u64::MAX - 0x8000 {
        return None;
    }
    let start = stacks + 0x8000;
    if start == 0 || start > KERNEL_MEMORY_END {
        return None;
    }
    Some((start, KERNEL_MEMORY_END - start))
}

/// The number of 64-bit words that hold a device tree of `size` bytes, which must fit in one
/// 64 KiB page; `None` if it does not.
pub fn device_tree_words(size: usize) -> (r: Option<usize>)
    ensures
        r is Some <==> size <= u16::MAX,
        r matches Some(w) ==> w == (size + 7) / 8,
{
    if size > 0xFFFF {
        None
    } else {
        Some(size / 8 + if size % 8 == 0 { 0 } else { 1 })
    }
}

/// The bounds of a memory region given by its start and size, or `None` if it wraps around.
pub fn region_bounds(start: u64, size: u64) -> (r: Option<(u64, u64)>)
    ensures
        r is Some <==> start + size <= u64::MAX,
        r matches Some(b) ==> b == (start, (start + size) as u64),
{
    if size > u64::MAX - start {
        None
    } else {
        Some((start, start + size))
    }
}

/// The stacks of two different cores do not overlap, and each core's stack lies in the
/// stack region that the heap starts after.
pub proof fn law_stacks_precede_heap(bss_end: u64, a: u64, b: u64)
    requires
        bss_end + 15 + STACK_SIZE * NUM_CORES <= u64::MAX,
        a <= 3,
        b <= 3,
        a != b,
        heap_region(bss_end) is Some,
    ensures
        ((bss_end as int + 15) / 16) * 16 + STACK_SIZE * (a + 1) <= ((bss_end as int + 15) / 16)
            * 16 + STACK_SIZE * b || ((bss_end as int + 15) / 16) * 16 + STACK_SIZE * (b + 1) <= ((
        bss_end as int + 15) / 16) * 16 + STACK_SIZE * a,
        ((bss_end as int + 15) / 16) * 16 + STACK_SIZE * (a + 1) <= heap_region(bss_end).unwrap().0,
{
}

} // verus!
