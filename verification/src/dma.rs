//! The DMA Lite engines, used for paced transfers from a peripheral into memory.
//!
//! A transfer is described by a control block in memory; the engine is pointed at the block and
//! started through its registers. This module computes the register values and the control
//! block; the memory-mapped accesses and the wait for completion are left to the caller.
use vstd::prelude::*;

verus! {

/// Pages are 1 GiB for the DMA engines.
pub const PAGE_SHIFT: usize = 30;

/// Mask of the offset within a DMA page.
pub const PAGE_MASK: usize = 0x3FFF_FFFF;

/// Bits that turn an offset within the selected page into a bus address.
pub const BUS_MASK: u32 = 0xC000_0000;

/// The control and status word that resets a channel.
pub const CS_RESET: u32 = 0x8000_0000;

/// Peripherals to use with the DMA engines.
#[derive(Clone, Copy, Debug, PartialEq, Eq, Structural)]
pub enum Peripheral {
    Unpaced,
    Uart0Tx,
    Uart0Rx,
}

/// The peripheral number of each peripheral.
pub open spec fn peripheral_bits(p: Peripheral) -> u32 {
    match p {
        Peripheral::Unpaced => 0,
        Peripheral::Uart0Tx => 12,
        Peripheral::Uart0Rx => 14,
    }
}

/// Whether `value` is the number of some peripheral.
pub open spec fn is_peripheral_bits(value: u32) -> bool {
    value == 0 || value == 12 || value == 14
}

impl Peripheral {
    /// The peripheral number.
    pub fn into_bits(self) -> (r: u32)
        ensures
            r == peripheral_bits(self),
    {
        match self {
            Peripheral::Unpaced => 0,
            Peripheral::Uart0Tx => 12,
            Peripheral::Uart0Rx => 14,
        }
    }

    /// The peripheral with number `value`, which must be one of the numbers in use.
    pub fn from_bits(value: u32) -> (r: Self)
        requires
            is_peripheral_bits(value),
        ensures
            peripheral_bits(r) == value,
    {
        if value == 0 {
            Peripheral::Unpaced
        } else if value == 12 {
            Peripheral::Uart0Tx
        } else {
            Peripheral::Uart0Rx
        }
    }
}

/// The transfer information word for a paced read from `p` into memory: interrupt on
/// completion, wait for write responses, increment the destination, pace both sides by the
/// peripheral's data request, bursts of one word, the most wait cycles the field holds.
pub open spec fn transfer_info_bits(p: Peripheral) -> u32 {
    0x1u32 | 0x8u32 | 0x10u32 | 0x40u32 | 0x400u32 | (peripheral_bits(p) << 16u32) | (31u32 << 21u32)
}

/// The global enable word after enabling the engines this driver uses (0 and 11) and mapping
/// page 0 for the DMA Lite engines, given the word before.
pub open spec fn enabled_word(enable: u32) -> u32 {
    (enable & !(0xF000_0000u32 | 0x3FFFu32)) | ((enable & 0x3FFF) | 0x801)
}

/// The global enable word with `page` selected as the 1 GiB page of the 30-bit engines.
pub open spec fn with_page_word(enable: u32, page: u32) -> u32 {
    (enable & !(0xFu32 << 24)) | ((page & 0xF) << 24)
}

/// The global enable word after enabling the engines this driver uses.
pub fn enable_engines(enable: u32) -> (r: u32)
    ensures
        r == enabled_word(enable),
{
    (enable & !(0xF000_0000u32 | 0x3FFFu32)) | ((enable & 0x3FFF) | 0x801)
}

/// The global enable word with `page` selected for the 30-bit engines.
pub fn select_page(enable: u32, page: u32) -> (r: u32)
    ensures
        r == with_page_word(enable, page),
{
    (enable & !(0xFu32 << 24)) | ((page & 0xF) << 24)
}

/// The transfer information word for a paced read from `p`.
pub fn transfer_info(p: Peripheral) -> (r: u32)
    ensures
        r == transfer_info_bits(p),
{
    0x1u32 | 0x8u32 | 0x10u32 | 0x40u32 | 0x400u32 | (p.into_bits() << 16u32) | (31u32 << 21u32)
}

/// A DMA control block: eight 32-bit words in memory.
#[derive(Clone, Copy, Debug, PartialEq, Eq, Structural)]
pub struct ControlBlock {
    pub transfer_info: u32,
    pub src_addr: u32,
    pub dest_addr: u32,
    pub transfer_len: u32,
    pub stride: u32,
    pub next_block_addr: u32,
}

impl ControlBlock {
    /// The block as it lies in memory, word by word; the last two words are reserved.
    pub fn words(&self) -> (r: [u32; 8])
        ensures
            r@ == seq![
                self.transfer_info,
                self.src_addr,
                self.dest_addr,
                self.transfer_len,
                self.stride,
                self.next_block_addr,
                0u32,
                0u32,
            ],
    {
        let r = [
            self.transfer_info,
            self.src_addr,
            self.dest_addr,
            self.transfer_len,
            self.stride,
            self.next_block_addr,
            0,
            0,
        ];
        assert(r@ =~= seq![
            self.transfer_info,
            self.src_addr,
            self.dest_addr,
            self.transfer_len,
            self.stride,
            self.next_block_addr,
            0u32,
            0u32,
        ]);
        r
    }
}

/// What a read from a peripheral needs: the page to select and the control block to run.
#[derive(Clone, Copy, Debug, PartialEq, Eq, Structural)]
pub struct Transfer {
    /// The 1 GiB page that holds the destination.
    pub page: u32,
    /// The control block of the transfer.
    pub control_block: ControlBlock,
}

/// The 1 GiB page of an address.
pub open spec fn page_of(addr: int) -> int {
    addr / 0x4000_0000
}

/// Whether the buffer `[start, start + len)` lies in one page, as the engine needs; the end is
/// taken as the address one past the buffer.
pub open spec fn within_one_page(start: usize, len: usize) -> bool {
    page_of(start as int) == page_of(start + len)
}

/// The transfer that reads from `peripheral` at bus address `peripheral_addr` into the buffer
/// `[dest_start, dest_start + dest_len)`.
pub open spec fn planned_transfer(
    peripheral: Peripheral,
    peripheral_addr: u32,
    dest_start: usize,
    dest_len: usize,
) -> Transfer {
    Transfer {
        page: page_of(dest_start as int) as u32,
        control_block: ControlBlock {
            transfer_info: transfer_info_bits(peripheral),
            src_addr: peripheral_addr,
            dest_addr: ((dest_start as int % 0x4000_0000) + 0xC000_0000) as u32,
            transfer_len: dest_len as u32,
            stride: 0,
            next_block_addr: 0,
        },
    }
}

/// A driver for the DMA engines.
pub struct Dma {
    base_address: usize,
}

impl Dma {
    /// The address of the engine's registers.
    pub closed spec fn spec_base_address(&self) -> usize {
        self.base_address
    }

    /// Creates a driver for the DMA registers at `base_address`.
    ///
    /// Returns `None` if the address is not aligned for 32-bit words. Once created, the
    /// caller writes `enable_engines` of the global enable word and `CS_RESET` to the control
    /// and status register.
    pub fn new(base_address: usize) -> (r: Option<Self>)
        requires
            base_address != 0,
        ensures
            r is Some <==> base_address % 4 == 0,
            r matches Some(d) ==> d.spec_base_address() == base_address,
    {
        if base_address % 4 != 0 {
            return None;
        }
        Some(Dma { base_address })
    }

    /// The address of the engine's registers.
    pub fn base_address(&self) -> (r: usize)
        ensures
            r == self.spec_base_address(),
    {
        self.base_address
    }

    /// Plans a read from `peripheral` at bus address `peripheral_addr` into the buffer of
    /// `dest_len` bytes at `dest_start`.
    ///
    /// Returns `None`, and nothing is to be done, if the buffer does not lie in one page.
    pub fn read_peripheral(
        &self,
        peripheral: Peripheral,
        peripheral_addr: u32,
        dest_start: usize,
        dest_len: usize,
    ) -> (r: Option<Transfer>)
        requires
            dest_start + dest_len <= usize::MAX,
            page_of(dest_start as int) <= u32::MAX,
        ensures
            r is Some <==> within_one_page(dest_start, dest_len),
            r matches Some(t) ==> t == planned_transfer(
                peripheral,
                peripheral_addr,
                dest_start,
                dest_len,
            ),
            r matches Some(t) ==> t.control_block.transfer_len == dest_len,
    {
        let page = dest_start >> PAGE_SHIFT;
        let end = dest_start + dest_len;
        assert(page == dest_start / 0x4000_0000) by (bit_vector)
            requires
                page == dest_start >> 30usize,
        ;
        assert(end >> 30usize == end / 0x4000_0000) by (bit_vector);
        if page != end >> PAGE_SHIFT {
            return None;
        }
        let offset = dest_start & PAGE_MASK;
        assert(offset == dest_start % 0x4000_0000) by (bit_vector)
            requires
                offset == dest_start & 0x3FFF_FFFFusize,
        ;
        assert(dest_len < 0x4000_0000) by (nonlinear_arith)
            requires
                dest_start / 0x4000_0000 == (dest_start + dest_len) / 0x4000_0000,
                dest_start + dest_len <= usize::MAX,
        ;
        let offset32: u32 = offset as u32;
        let dest_addr: u32 = offset32 | BUS_MASK;
        assert(offset32 | 0xC000_0000u32 == offset32 + 0xC000_0000u32) by (bit_vector)
            requires
                offset32 < 0x4000_0000u32,
        ;
        Some(
            Transfer {
                page: page as u32,
                control_block: ControlBlock {
                    transfer_info: transfer_info(peripheral),
                    src_addr: peripheral_addr,
                    dest_addr,
                    transfer_len: dest_len as u32,
                    stride: 0,
                    next_block_addr: 0,
                },
            },
        )
    }
}

/// The value for the control block address register that points the engine at a control block
/// stored at `cb_addr`.
pub fn control_block_address(cb_addr: usize) -> (r: u32)
    requires
        cb_addr <= u32::MAX,
    ensures
        r == (cb_addr as u32) | BUS_MASK,
{
    (cb_addr as u32) | BUS_MASK
}

/// The control and status word that starts the engine.
pub fn activate(cs: u32) -> (r: u32)
    ensures
        r == cs | 1,
{
    cs | 1
}

/// Whether the engine is still running its transfer.
pub fn is_active(cs: u32) -> (r: bool)
    ensures
        r == (cs & 1 == 1),
{
    cs & 1 == 1
}

/// The control and status word that clears the interrupt flag of a finished transfer.
pub fn clear_interrupt(cs: u32) -> (r: u32)
    ensures
        r == cs | 4,
{
    cs | 4
}

/// The peripheral number in a transfer information word is that of the peripheral it was made
/// for, and converting it back gives that peripheral.
pub proof fn law_transfer_info_names_its_peripheral(p: Peripheral)
    ensures
        (transfer_info_bits(p) >> 16) & 0x1F == peripheral_bits(p),
        is_peripheral_bits((transfer_info_bits(p) >> 16) & 0x1F),
{
    let b = peripheral_bits(p);
    assert((0x1u32 | 0x8u32 | 0x10u32 | 0x40u32 | 0x400u32 | (b << 16u32) | (31u32 << 21u32)) >> 16u32
        & 0x1Fu32 == b) by (bit_vector)
        requires
            b < 32,
    ;
}

/// Enabling the engines keeps engines that were already enabled, enables engines 0 and 11,
/// maps page 0 for the DMA Lite engines, and leaves the page of the 30-bit engines alone.
pub proof fn law_enable_keeps_enabled_engines(enable: u32)
    ensures
        enabled_word(enable) & enable & 0x3FFF == enable & 0x3FFF,
        enabled_word(enable) & 0x801 == 0x801,
        enabled_word(enable) >> 28 == 0,
        enabled_word(enable) & 0x0F00_0000 == enable & 0x0F00_0000,
{
    assert(((enable & !(0xF000_0000u32 | 0x3FFFu32)) | ((enable & 0x3FFFu32) | 0x801u32)) & enable
        & 0x3FFFu32 == enable & 0x3FFFu32) by (bit_vector);
    assert(((enable & !(0xF000_0000u32 | 0x3FFFu32)) | ((enable & 0x3FFFu32) | 0x801u32)) & 0x801u32
        == 0x801u32) by (bit_vector);
    assert(((enable & !(0xF000_0000u32 | 0x3FFFu32)) | ((enable & 0x3FFFu32) | 0x801u32)) >> 28u32
        == 0) by (bit_vector);
    assert(((enable & !(0xF000_0000u32 | 0x3FFFu32)) | ((enable & 0x3FFFu32) | 0x801u32))
        & 0x0F00_0000u32 == enable & 0x0F00_0000u32) by (bit_vector);
}

} // verus!
