//! Loading ELF executables into an address space.
use vstd::prelude::*;
use vstd::arithmetic::power2::{pow2, lemma_pow2_pos};
use vstd::bits::{lemma_u64_shl_is_mul, lemma_u64_pow2_no_overflow};
use crate::paging::{AddressSpace, PageTableEntry, mapped_table, range_mappable};

verus! {

/// The little-endian `u16` at byte offset `o`.
pub open spec fn le16(b: Seq<u8>, o: int) -> u16 {
    (b[o] as u16) | ((b[o + 1] as u16) << 8u16)
}

/// The little-endian `u32` at byte offset `o`.
pub open spec fn le32(b: Seq<u8>, o: int) -> u32 {
    (b[o] as u32) | ((b[o + 1] as u32) << 8u32) | ((b[o + 2] as u32) << 16u32) | ((b[o + 3] as u32)
        << 24u32)
}

/// The little-endian `u64` at byte offset `o`.
pub open spec fn le64(b: Seq<u8>, o: int) -> u64 {
    (le32(b, o) as u64) | ((le32(b, o + 4) as u64) << 32u64)
}

/// Size of the 64-bit ELF file header, in bytes.
pub const ELF_HEADER_SIZE: usize = 64;
/// Size of a 64-bit program header, in bytes.
pub const PROGRAM_HEADER_SIZE: usize = 56;
/// Program header type of a loadable segment.
pub const PT_LOAD: u32 = 1;
/// Program header type of the program header table itself.
pub const PT_PHDR: u32 = 6;
/// Program header type describing the stack.
pub const PT_GNU_STACK: u32 = 0x6474_E551;

/// What the file header of an ELF image says about how to load it.
pub enum HeaderCheck {
    /// The image is not a loadable ELF.
    Reject,
    /// A 32-bit image, which is not supported.
    Unsupported,
    /// A 64-bit image with its entry point and its table of `phnum` program headers at `phoff`.
    Accept { entry: u64, phoff: u64, phnum: u64 },
}

/// Checks the file header of the ELF image `b`, which lies at address `addr`: the headers
/// must be aligned for their 64-bit fields.
pub open spec fn check_header(b: Seq<u8>, addr: usize) -> HeaderCheck {
    if b.len() < ELF_HEADER_SIZE {
        HeaderCheck::Reject
    } else if addr % 8 != 0 {
        HeaderCheck::Reject
    } else if !(b[0] == 0x7F && b[1] == 0x45 && b[2] == 0x4C && b[3] == 0x46) {
        HeaderCheck::Reject
    } else if le16(b, 54) != PROGRAM_HEADER_SIZE {
        HeaderCheck::Reject
    } else if b[4] == 1 {
        HeaderCheck::Unsupported
    } else if b[4] != 2 {
        HeaderCheck::Reject
    } else {
        let phoff = le64(b, 32);
        let phnum = le16(b, 56);
        if phoff > usize::MAX || PROGRAM_HEADER_SIZE * phnum + phoff > usize::MAX {
            HeaderCheck::Reject
        } else if b.len() < PROGRAM_HEADER_SIZE * phnum + phoff {
            HeaderCheck::Reject
        } else if (addr + phoff) % 8 != 0 {
            HeaderCheck::Reject
        } else {
            HeaderCheck::Accept { entry: le64(b, 24), phoff, phnum: phnum as u64 }
        }
    }
}

/// The outcome of loading some program headers: loading goes on with the table and the
/// uninitialized-data range so far, the image was found invalid (with the table as it was
/// left), or the image cannot be loaded into this address space.
pub enum SegmentStep {
    Continue { table: Seq<PageTableEntry>, bss: Option<(u64, u64)> },
    Reject { table: Seq<PageTableEntry> },
    Unloadable,
}

/// The mask of the offset of an address within a page of `page` bytes.
pub open spec fn page_mask(page: nat) -> u64 {
    (page - 1) as u64
}

/// Loads the program header at byte offset `ph` of `b`, given the table and the
/// uninitialized-data range so far.
pub open spec fn segment_step(
    b: Seq<u8>,
    ph: int,
    page: nat,
    elf_pa: u64,
    table: Seq<PageTableEntry>,
    bss: Option<(u64, u64)>,
) -> SegmentStep {
    let p_type = le32(b, ph);
    let flags = le32(b, ph + 4);
    let offset = le64(b, ph + 8);
    let va = le64(b, ph + 16);
    let filesz = le64(b, ph + 32);
    let memsz = le64(b, ph + 40);
    let mask = page_mask(page);
    if offset & mask != va & mask {
        SegmentStep::Reject { table }
    } else if p_type == PT_LOAD {
        let virtual_start = va & !mask;
        let in_page = va - virtual_start;
        if in_page + filesz > u64::MAX {
            SegmentStep::Reject { table }
        } else if in_page + filesz + mask > u64::MAX {
            SegmentStep::Unloadable
        } else if filesz > memsz {
            SegmentStep::Reject { table }
        } else if elf_pa + offset > u64::MAX {
            SegmentStep::Reject { table }
        } else {
            let backed = ((in_page + filesz + mask) as u64) & !mask;
            let physical_start = ((elf_pa + offset) as u64) & !mask;
            if !range_mappable(virtual_start, physical_start, backed, page, table.len()) {
                SegmentStep::Unloadable
            } else {
                let new_table = mapped_table(
                    table,
                    virtual_start,
                    physical_start,
                    backed,
                    page,
                    (flags >> 1u32) & 1 == 1,
                    flags & 1 == 1,
                    false,
                );
                if memsz > filesz {
                    if bss is Some || va + memsz > u64::MAX {
                        SegmentStep::Unloadable
                    } else {
                        SegmentStep::Continue {
                            table: new_table,
                            bss: Some(((va + filesz) as u64, (va + memsz) as u64)),
                        }
                    }
                } else {
                    SegmentStep::Continue { table: new_table, bss }
                }
            }
        }
    } else if p_type == PT_PHDR || p_type == PT_GNU_STACK {
        SegmentStep::Continue { table, bss }
    } else {
        SegmentStep::Reject { table }
    }
}

/// The outcome of loading the first `k` program headers of the table at `phoff`, in order,
/// starting from `table`.
pub open spec fn run_segments(
    b: Seq<u8>,
    phoff: int,
    k: nat,
    page: nat,
    elf_pa: u64,
    table: Seq<PageTableEntry>,
) -> SegmentStep
    decreases k,
{
    if k == 0 {
        SegmentStep::Continue { table, bss: None }
    } else {
        match run_segments(b, phoff, (k - 1) as nat, page, elf_pa, table) {
            SegmentStep::Continue { table: t, bss } => segment_step(
                b,
                phoff + PROGRAM_HEADER_SIZE * (k - 1),
                page,
                elf_pa,
                t,
                bss,
            ),
            other => other,
        }
    }
}

/// The outcome of loading a whole image.
pub enum ElfOutcome {
    /// Loaded, with the resulting table, the entry point and the uninitialized-data range.
    Loaded { table: Seq<PageTableEntry>, entry: u64, bss: Option<(u64, u64)> },
    /// Not a valid image; the table holds what was mapped before the error was found (as given
    /// when the header itself is invalid).
    Rejected { table: Seq<PageTableEntry> },
    /// The image cannot be loaded here: it is 32-bit, or a segment does not fit the table,
    /// or it has more than one uninitialized-data range.
    Unloadable,
}

/// The outcome of loading the ELF image `b`, which lies at address `addr` and at physical
/// address `elf_pa`, into an address space with pages of `page` bytes whose table is `table`.
pub open spec fn load_elf_outcome(
    b: Seq<u8>,
    addr: usize,
    page: nat,
    elf_pa: u64,
    table: Seq<PageTableEntry>,
) -> ElfOutcome {
    match check_header(b, addr) {
        HeaderCheck::Reject => ElfOutcome::Rejected { table },
        HeaderCheck::Unsupported => ElfOutcome::Unloadable,
        HeaderCheck::Accept { entry, phoff, phnum } => match run_segments(
            b,
            phoff as int,
            phnum as nat,
            page,
            elf_pa,
            table,
        ) {
            SegmentStep::Continue { table: t, bss } => ElfOutcome::Loaded { table: t, entry, bss },
            SegmentStep::Reject { table: t } => ElfOutcome::Rejected { table: t },
            SegmentStep::Unloadable => ElfOutcome::Unloadable,
        },
    }
}

/// Once loading has stopped, it stays stopped however many more headers there are.
proof fn lemma_run_stops(b: Seq<u8>, phoff: int, k: nat, m: nat, page: nat, elf_pa: u64, table: Seq<PageTableEntry>)
    requires
        k <= m,
        !(run_segments(b, phoff, k, page, elf_pa, table) is Continue),
    ensures
        run_segments(b, phoff, m, page, elf_pa, table) == run_segments(b, phoff, k, page, elf_pa, table),
    decreases m - k,
{
    if k < m {
        lemma_run_stops(b, phoff, k, (m - 1) as nat, page, elf_pa, table);
    }
}

/// Reads the little-endian `u16` at byte offset `o`.
fn read_u16(b: &[u8], o: usize) -> (r: u16)
    requires
        o + 2 <= b@.len(),
    ensures
        r == le16(b@, o as int),
{
    (b[o] as u16) | ((b[o + 1] as u16) << 8u16)
}

/// Reads the little-endian `u32` at byte offset `o`.
fn read_u32(b: &[u8], o: usize) -> (r: u32)
    requires
        o + 4 <= b@.len(),
    ensures
        r == le32(b@, o as int),
{
    (b[o] as u32) | ((b[o + 1] as u32) << 8u32) | ((b[o + 2] as u32) << 16u32) | ((b[o + 3] as u32)
        << 24u32)
}

/// Reads the little-endian `u64` at byte offset `o`.
fn read_u64(b: &[u8], o: usize) -> (r: u64)
    requires
        o + 8 <= b@.len(),
    ensures
        r == le64(b@, o as int),
{
    let len = b.len();
    assert(o + 8 <= len);
    (read_u32(b, o) as u64) | ((read_u32(b, o + 4) as u64) << 32u64)
}


/// The return value of a successful load: the entry point and the bounds of the
/// uninitialized-data range, or zeroes if there is none.
pub open spec fn loaded_result(entry: u64, bss: Option<(u64, u64)>) -> (u64, u64, u64) {
    match bss {
        Some((start, end)) => (entry, start, end),
        None => (entry, 0, 0),
    }
}

/// Rounding an address down to its page keeps it at or below the address.
proof fn lemma_round_down(va: u64, mask: u64)
    ensures
        va & !mask <= va,
{
    assert(va & !mask <= va) by (bit_vector);
}

/// Loads the given ELF image into the given address space, and returns the entry point of the
/// image together with the bounds of its uninitialized-data segment (zeroes if it has none).
///
/// `elf_addr` is the address of the image in memory and `elf_pa` its physical address.
/// Returns `None` if the image is not a valid 64-bit ELF, or its headers are not aligned for
/// their 64-bit fields; the segments mapped before the invalid part was found stay mapped.
pub fn load_elf<const PAGE_BITS: u8, const ADDRESS_BITS: u8>(
    address_space: &mut AddressSpace<PAGE_BITS, ADDRESS_BITS>,
    elf: &[u8],
    elf_addr: usize,
    elf_pa: u64,
) -> (r: Option<(u64, u64, u64)>)
    requires
        old(address_space).wf(),
        elf_addr + elf@.len() <= usize::MAX,
        !(load_elf_outcome(
            elf@,
            elf_addr,
            AddressSpace::<PAGE_BITS, ADDRESS_BITS>::page_size(),
            elf_pa,
            old(address_space)@,
        ) is Unloadable),
    ensures
        final(address_space).wf(),
        match load_elf_outcome(
            elf@,
            elf_addr,
            AddressSpace::<PAGE_BITS, ADDRESS_BITS>::page_size(),
            elf_pa,
            old(address_space)@,
        ) {
            ElfOutcome::Loaded { table, entry, bss } => r == Some(loaded_result(entry, bss))
                && final(address_space)@ == table,
            ElfOutcome::Rejected { table } => r is None && final(address_space)@ == table,
            ElfOutcome::Unloadable => false,
        },
{
    let ghost page = AddressSpace::<PAGE_BITS, ADDRESS_BITS>::page_size();
    let ghost table0 = address_space@;
    proof {
        address_space.lemma_wf_bits();
        lemma_pow2_pos(PAGE_BITS as nat);
        lemma_u64_pow2_no_overflow(PAGE_BITS as nat);
        lemma_u64_shl_is_mul(1, PAGE_BITS as u64);
        assert((PAGE_BITS as u64) as nat == PAGE_BITS as nat);
    }
    let page_mask: u64 = (1u64 << (PAGE_BITS as u64)) - 1;
    assert(page_mask == crate::elf::page_mask(page));
    if elf.len() < ELF_HEADER_SIZE {
        return None;
    }
    if elf_addr % 8 != 0 {
        return None;
    }
    if !(elf[0] == 0x7F && elf[1] == 0x45 && elf[2] == 0x4C && elf[3] == 0x46) {
        return None;
    }
    if read_u16(elf, 54) as usize != PROGRAM_HEADER_SIZE {
        return None;
    }
    // A 32-bit image is excluded by the precondition
    if elf[4] != 2 {
        return None;
    }
    let phoff = read_u64(elf, 32);
    if phoff > usize::MAX as u64 {
        return None;
    }
    let offset = phoff as usize;
    let num_headers = read_u16(elf, 56) as usize;
    let table_size = match PROGRAM_HEADER_SIZE.checked_mul(num_headers) {
        Some(size) => size,
        None => {
            return None;
        },
    };
    let table_end = match table_size.checked_add(offset) {
        Some(end) => end,
        None => {
            return None;
        },
    };
    if elf.len() < table_end {
        return None;
    }
    if (elf_addr + offset) % 8 != 0 {
        return None;
    }
    let entry = read_u64(elf, 24);
    assert(check_header(elf@, elf_addr) == (HeaderCheck::Accept { entry, phoff, phnum: num_headers as u64 }));
    let mut bss: Option<(u64, u64)> = None;
    let mut i: usize = 0;
    while i < num_headers
        invariant
            address_space.wf(),
            page == AddressSpace::<PAGE_BITS, ADDRESS_BITS>::page_size(),
            page > 0,
            table0 == old(address_space)@,
            page_mask == crate::elf::page_mask(page),
            check_header(elf@, elf_addr) == (HeaderCheck::Accept { entry, phoff, phnum: num_headers as u64 }),
            !(load_elf_outcome(elf@, elf_addr, page, elf_pa, table0) is Unloadable),
            offset == phoff,
            num_headers <= u16::MAX,
            PROGRAM_HEADER_SIZE * num_headers + offset <= elf@.len(),
            i <= num_headers,
            run_segments(elf@, offset as int, i as nat, page, elf_pa, table0)
                == (SegmentStep::Continue { table: address_space@, bss }),
        ensures
            address_space.wf(),
            run_segments(elf@, offset as int, num_headers as nat, page, elf_pa, table0)
                == (SegmentStep::Continue { table: address_space@, bss }),
        decreases num_headers - i,
    {
        let ghost before = address_space@;
        assert(run_segments(elf@, offset as int, (i + 1) as nat, page, elf_pa, table0)
            == segment_step(elf@, offset + PROGRAM_HEADER_SIZE * i, page, elf_pa, before, bss));
        let ph = offset + PROGRAM_HEADER_SIZE * i;
        let p_type = read_u32(elf, ph);
        let flags = read_u32(elf, ph + 4);
        let seg_offset = read_u64(elf, ph + 8);
        let va = read_u64(elf, ph + 16);
        let filesz = read_u64(elf, ph + 32);
        let memsz = read_u64(elf, ph + 40);
        if seg_offset & page_mask != va & page_mask {
            proof {
                lemma_run_stops(elf@, offset as int, (i + 1) as nat, num_headers as nat, page, elf_pa, table0);
            }
            return None;
        }
        if p_type == PT_LOAD {
            let virtual_start = va & !page_mask;
            proof {
                lemma_round_down(va, page_mask);
            }
            let in_page = va - virtual_start;
            let backed_end = match in_page.checked_add(filesz) {
                Some(end) => end,
                None => {
                    proof {
                        lemma_run_stops(elf@, offset as int, (i + 1) as nat, num_headers as nat, page, elf_pa, table0);
                    }
                    return None;
                },
            };
            proof {
                if backed_end + page_mask > u64::MAX {
                    lemma_run_stops(elf@, offset as int, (i + 1) as nat, num_headers as nat, page, elf_pa, table0);
                }
            }
            let virtual_backed_range = (backed_end + page_mask) & !page_mask;
            if filesz > memsz {
                proof {
                    lemma_run_stops(elf@, offset as int, (i + 1) as nat, num_headers as nat, page, elf_pa, table0);
                }
                return None;
            }
            let physical_start = match elf_pa.checked_add(seg_offset) {
                Some(start) => start & !page_mask,
                None => {
                    proof {
                        lemma_run_stops(elf@, offset as int, (i + 1) as nat, num_headers as nat, page, elf_pa, table0);
                    }
                    return None;
                },
            };
            proof {
                if !range_mappable(virtual_start, physical_start, virtual_backed_range, page, before.len()) {
                    lemma_run_stops(elf@, offset as int, (i + 1) as nat, num_headers as nat, page, elf_pa, table0);
                }
            }
            address_space.map_range(
                virtual_start,
                physical_start,
                virtual_backed_range,
                (flags >> 1u32) & 1 == 1,
                flags & 1 == 1,
                false,
            );
            if memsz > filesz {
                proof {
                    if bss is Some || va + memsz > u64::MAX {
                        lemma_run_stops(elf@, offset as int, (i + 1) as nat, num_headers as nat, page, elf_pa, table0);
                    }
                }
                bss = Some((va + filesz, va + memsz));
            }
        } else if p_type == PT_PHDR || p_type == PT_GNU_STACK {
        } else {
            proof {
                lemma_run_stops(elf@, offset as int, (i + 1) as nat, num_headers as nat, page, elf_pa, table0);
            }
            return None;
        }
        i = i + 1;
    }
    match bss {
        Some((start, end)) => Some((entry, start, end)),
        None => Some((entry, 0, 0)),
    }
}

/// The bytes of the `i`-th program header of the table at `phoff`.
pub open spec fn program_header(b: Seq<u8>, phoff: int, i: int) -> Seq<u8> {
    b.subrange(phoff + PROGRAM_HEADER_SIZE * i, phoff + PROGRAM_HEADER_SIZE * (i + 1))
}

/// Whether the program header `h` describes the stack or the program header table, with its
/// file offset and its address at the same place within a page of `page` bytes, as every
/// program header must have them.
pub open spec fn stack_or_table_header(h: Seq<u8>, page: nat) -> bool {
    &&& le32(h, 0) == PT_GNU_STACK || le32(h, 0) == PT_PHDR
    &&& le64(h, 8) & page_mask(page) == le64(h, 16) & page_mask(page)
}

/// Reading a `u32` from a slice of the bytes reads it from the bytes.
proof fn lemma_le32_within(b: Seq<u8>, s: int, e: int, c: int)
    requires
        0 <= s <= e <= b.len(),
        0 <= c,
        c + 4 <= e - s,
    ensures
        le32(b, s + c) == le32(b.subrange(s, e), c),
{
    let h = b.subrange(s, e);
    assert(h[c] == b[s + c]);
    assert(h[c + 1] == b[s + c + 1]);
    assert(h[c + 2] == b[s + c + 2]);
    assert(h[c + 3] == b[s + c + 3]);
}

/// Reading a `u64` from a slice of the bytes reads it from the bytes.
proof fn lemma_le64_within(b: Seq<u8>, s: int, e: int, c: int)
    requires
        0 <= s <= e <= b.len(),
        0 <= c,
        c + 8 <= e - s,
    ensures
        le64(b, s + c) == le64(b.subrange(s, e), c),
{
    lemma_le32_within(b, s, e, c);
    lemma_le32_within(b, s, e, c + 4);
    assert(s + c + 4 == s + (c + 4));
}

/// The fields of the program header at `ph` are those read from its bytes.
proof fn lemma_header_fields(b: Seq<u8>, ph: int)
    requires
        0 <= ph,
        ph + PROGRAM_HEADER_SIZE <= b.len(),
    ensures
        ({
            let h = b.subrange(ph, ph + PROGRAM_HEADER_SIZE);
            &&& le32(b, ph) == le32(h, 0)
            &&& le32(b, ph + 4) == le32(h, 4)
            &&& le64(b, ph + 8) == le64(h, 8)
            &&& le64(b, ph + 16) == le64(h, 16)
            &&& le64(b, ph + 32) == le64(h, 32)
            &&& le64(b, ph + 40) == le64(h, 40)
        }),
{
    let e = ph + PROGRAM_HEADER_SIZE;
    lemma_le32_within(b, ph, e, 0);
    lemma_le32_within(b, ph, e, 4);
    lemma_le64_within(b, ph, e, 8);
    lemma_le64_within(b, ph, e, 16);
    lemma_le64_within(b, ph, e, 32);
    lemma_le64_within(b, ph, e, 40);
}

/// Two program headers with the same bytes are loaded alike.
proof fn lemma_same_header_same_step(
    b1: Seq<u8>,
    ph1: int,
    b2: Seq<u8>,
    ph2: int,
    page: nat,
    elf_pa: u64,
    table: Seq<PageTableEntry>,
    bss: Option<(u64, u64)>,
)
    requires
        0 <= ph1,
        ph1 + PROGRAM_HEADER_SIZE <= b1.len(),
        0 <= ph2,
        ph2 + PROGRAM_HEADER_SIZE <= b2.len(),
        b1.subrange(ph1, ph1 + PROGRAM_HEADER_SIZE) == b2.subrange(ph2, ph2 + PROGRAM_HEADER_SIZE),
    ensures
        segment_step(b1, ph1, page, elf_pa, table, bss) == segment_step(b2, ph2, page, elf_pa, table, bss),
{
    lemma_header_fields(b1, ph1);
    lemma_header_fields(b2, ph2);
}

/// A stack or program header table header changes nothing.
proof fn lemma_skipped_step(b: Seq<u8>, ph: int, page: nat, elf_pa: u64, table: Seq<PageTableEntry>, bss: Option<(u64, u64)>)
    requires
        0 <= ph,
        ph + PROGRAM_HEADER_SIZE <= b.len(),
        stack_or_table_header(b.subrange(ph, ph + PROGRAM_HEADER_SIZE), page),
    ensures
        segment_step(b, ph, page, elf_pa, table, bss) == (SegmentStep::Continue { table, bss }),
{
    lemma_header_fields(b, ph);
    assert(PT_GNU_STACK != PT_LOAD && PT_PHDR != PT_LOAD);
}

/// The headers before the inserted one are loaded alike in both images.
proof fn lemma_runs_before_insert(
    b1: Seq<u8>,
    phoff1: int,
    b2: Seq<u8>,
    phoff2: int,
    n: nat,
    j: nat,
    i: nat,
    page: nat,
    elf_pa: u64,
    table: Seq<PageTableEntry>,
)
    requires
        0 <= phoff1,
        0 <= phoff2,
        phoff1 + PROGRAM_HEADER_SIZE * n <= b1.len(),
        phoff2 + PROGRAM_HEADER_SIZE * (n + 1) <= b2.len(),
        j <= n,
        i <= j,
        forall|k: int| 0 <= k < j ==> #[trigger] program_header(b2, phoff2, k) == program_header(b1, phoff1, k),
    ensures
        run_segments(b2, phoff2, i, page, elf_pa, table) == run_segments(b1, phoff1, i, page, elf_pa, table),
    decreases i,
{
    if i > 0 {
        let k = (i - 1) as int;
        lemma_runs_before_insert(b1, phoff1, b2, phoff2, n, j, (i - 1) as nat, page, elf_pa, table);
        assert(program_header(b2, phoff2, k) == program_header(b1, phoff1, k));
        assert(phoff1 + PROGRAM_HEADER_SIZE * (k + 1) == phoff1 + PROGRAM_HEADER_SIZE * k + PROGRAM_HEADER_SIZE);
        assert(phoff2 + PROGRAM_HEADER_SIZE * (k + 1) == phoff2 + PROGRAM_HEADER_SIZE * k + PROGRAM_HEADER_SIZE);
        assert(PROGRAM_HEADER_SIZE * k + PROGRAM_HEADER_SIZE <= PROGRAM_HEADER_SIZE * n) by (nonlinear_arith)
            requires k < n;
        match run_segments(b1, phoff1, (i - 1) as nat, page, elf_pa, table) {
            SegmentStep::Continue { table: t, bss } => {
                lemma_same_header_same_step(
                    b1,
                    phoff1 + PROGRAM_HEADER_SIZE * k,
                    b2,
                    phoff2 + PROGRAM_HEADER_SIZE * k,
                    page,
                    elf_pa,
                    t,
                    bss,
                );
            },
            _ => {},
        }
    }
}

/// The headers after the inserted one are loaded alike in both images, one place further on
/// in the second.
proof fn lemma_runs_after_insert(
    b1: Seq<u8>,
    phoff1: int,
    b2: Seq<u8>,
    phoff2: int,
    n: nat,
    j: nat,
    i: nat,
    page: nat,
    elf_pa: u64,
    table: Seq<PageTableEntry>,
)
    requires
        0 <= phoff1,
        0 <= phoff2,
        phoff1 + PROGRAM_HEADER_SIZE * n <= b1.len(),
        phoff2 + PROGRAM_HEADER_SIZE * (n + 1) <= b2.len(),
        j <= i <= n,
        forall|k: int| 0 <= k < j ==> #[trigger] program_header(b2, phoff2, k) == program_header(b1, phoff1, k),
        forall|k: int| j <= k < n ==> #[trigger] program_header(b2, phoff2, k + 1) == program_header(b1, phoff1, k),
        stack_or_table_header(program_header(b2, phoff2, j as int), page),
    ensures
        run_segments(b2, phoff2, i + 1, page, elf_pa, table) == run_segments(b1, phoff1, i, page, elf_pa, table),
    decreases i,
{
    if i == j {
        lemma_runs_before_insert(b1, phoff1, b2, phoff2, n, j, j, page, elf_pa, table);
        let jj = j as int;
        assert(phoff2 + PROGRAM_HEADER_SIZE * (jj + 1) == phoff2 + PROGRAM_HEADER_SIZE * jj + PROGRAM_HEADER_SIZE);
        assert(PROGRAM_HEADER_SIZE * jj + PROGRAM_HEADER_SIZE <= PROGRAM_HEADER_SIZE * (n + 1)) by (nonlinear_arith)
            requires jj <= n;
        match run_segments(b2, phoff2, j, page, elf_pa, table) {
            SegmentStep::Continue { table: t, bss } => {
                lemma_skipped_step(b2, phoff2 + PROGRAM_HEADER_SIZE * jj, page, elf_pa, t, bss);
            },
            _ => {},
        }
    } else {
        let k = (i - 1) as int;
        lemma_runs_after_insert(b1, phoff1, b2, phoff2, n, j, (i - 1) as nat, page, elf_pa, table);
        assert(program_header(b2, phoff2, k + 1) == program_header(b1, phoff1, k));
        assert(phoff1 + PROGRAM_HEADER_SIZE * (k + 1) == phoff1 + PROGRAM_HEADER_SIZE * k + PROGRAM_HEADER_SIZE);
        assert(phoff2 + PROGRAM_HEADER_SIZE * (k + 2) == phoff2 + PROGRAM_HEADER_SIZE * (k + 1) + PROGRAM_HEADER_SIZE);
        assert(PROGRAM_HEADER_SIZE * k + PROGRAM_HEADER_SIZE <= PROGRAM_HEADER_SIZE * n) by (nonlinear_arith)
            requires k < n;
        assert(PROGRAM_HEADER_SIZE * (k + 1) + PROGRAM_HEADER_SIZE <= PROGRAM_HEADER_SIZE * (n + 1)) by (nonlinear_arith)
            requires k < n;
        assert((i + 1) as nat - 1 == i);
        match run_segments(b1, phoff1, (i - 1) as nat, page, elf_pa, table) {
            SegmentStep::Continue { table: t, bss } => {
                lemma_same_header_same_step(
                    b1,
                    phoff1 + PROGRAM_HEADER_SIZE * k,
                    b2,
                    phoff2 + PROGRAM_HEADER_SIZE * (k + 1),
                    page,
                    elf_pa,
                    t,
                    bss,
                );
            },
            _ => {},
        }
    }
}

/// A program header that describes the stack or the program header table never makes loading
/// fail and maps nothing: of two images with the same entry point whose program headers are the
/// same but for one such header that the second has in addition, at any place, loading either
/// into the same table gives the same outcome (the same table, entry point and
/// uninitialized-data range, or the same failure).
pub proof fn law_stack_and_table_headers_are_skipped(
    b1: Seq<u8>,
    b2: Seq<u8>,
    addr: usize,
    page: nat,
    elf_pa: u64,
    table: Seq<PageTableEntry>,
    entry: u64,
    phoff1: u64,
    phoff2: u64,
    n: u64,
    j: u64,
)
    requires
        page > 0,
        check_header(b1, addr) == (HeaderCheck::Accept { entry, phoff: phoff1, phnum: n }),
        check_header(b2, addr) == (HeaderCheck::Accept { entry, phoff: phoff2, phnum: (n + 1) as u64 }),
        j <= n,
        forall|k: int| 0 <= k < j ==> #[trigger] program_header(b2, phoff2 as int, k) == program_header(b1, phoff1 as int, k),
        forall|k: int| j <= k < n ==> #[trigger] program_header(b2, phoff2 as int, k + 1) == program_header(b1, phoff1 as int, k),
        stack_or_table_header(program_header(b2, phoff2 as int, j as int), page),
    ensures
        load_elf_outcome(b2, addr, page, elf_pa, table) == load_elf_outcome(b1, addr, page, elf_pa, table),
{
    assert(n + 1 <= u16::MAX);
    lemma_runs_after_insert(b1, phoff1 as int, b2, phoff2 as int, n as nat, j as nat, n as nat, page, elf_pa, table);
}

} // verus!
