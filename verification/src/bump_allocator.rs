//! A simple bump allocator. Intended primarily for use with allocating initial, global
//! structs, that are not deallocated during the program and so do not need much deallocation
//! support.
use vstd::prelude::*;

verus! {

/// The allocation failed: not enough memory is left.
#[derive(Clone, Copy, Debug, PartialEq, Eq, Structural)]
pub struct AllocError;

/// The smallest multiple of `alignment` at or above `address`.
pub open spec fn next_multiple_of(address: int, alignment: int) -> int {
    if address % alignment == 0 {
        address
    } else {
        address + (alignment - address % alignment)
    }
}

/// Aligns the given address to the provided alignment by rounding up if necessary.
///
/// The alignment must be nonzero, and the rounded address must fit in a `usize`.
pub fn align_to(pointer: usize, alignment: usize) -> (r: usize)
    requires
        alignment > 0,
        next_multiple_of(pointer as int, alignment as int) <= usize::MAX,
    ensures
        r == next_multiple_of(pointer as int, alignment as int),
{
    let rem = pointer % alignment;
    if rem == 0 {
        pointer
    } else {
        pointer + (alignment - rem)
    }
}

/// Rounding up to a multiple of the alignment gives the smallest multiple at or above the
/// address.
pub proof fn law_align_to(address: int, alignment: int)
    requires
        address >= 0,
        alignment > 0,
    ensures
        next_multiple_of(address, alignment) % alignment == 0,
        address <= next_multiple_of(address, alignment) < address + alignment,
        address % alignment == 0 ==> next_multiple_of(address, alignment) == address,
{
    vstd::arithmetic::div_mod::lemma_fundamental_div_mod(address, alignment);
    vstd::arithmetic::div_mod::lemma_mod_pos_bound(address, alignment);
    if address % alignment != 0 {
        let q = address / alignment;
        assert(next_multiple_of(address, alignment) == (q + 1) * alignment) by (nonlinear_arith)
            requires
                address == alignment * q + address % alignment,
                next_multiple_of(address, alignment) == address + (alignment - address % alignment);
        vstd::arithmetic::div_mod::lemma_mod_multiples_basic(q + 1, alignment);
    }
}

/// A bump allocator that grows upwards in a certain region of memory.
#[derive(Debug)]
pub struct BumpAllocator {
    /// The current top of the bump allocator, where new allocations are serviced from
    pointer: usize,
    /// The upper bound of the region of memory set aside for the bump allocator
    bound: usize,
}

/// The address `size` bytes past `base`, wrapping around the end of the address range.
pub open spec fn wrapped_end(base: int, size: usize) -> usize {
    if base + size > usize::MAX {
        (base + size - (usize::MAX + 1)) as usize
    } else {
        (base + size) as usize
    }
}

/// The result of an allocation of `size` bytes aligned to `align` from an allocator whose top
/// is at `pointer` and whose region ends at `bound`: the address of the allocation, or `None`
/// if it does not fit.
pub open spec fn bump_result(pointer: usize, bound: usize, size: usize, align: usize) -> Option<usize> {
    let base = next_multiple_of(pointer as int, align as int);
    let end = wrapped_end(base, size);
    if end <= bound {
        Some(base as usize)
    } else {
        None
    }
}

/// The top of an allocator after a request for `size` bytes aligned to `align`, from a top at
/// `pointer` in a region ending at `bound`.
pub open spec fn next_pointer(pointer: usize, bound: usize, size: usize, align: usize) -> usize {
    if size == 0 {
        pointer
    } else {
        match bump_result(pointer, bound, size, align) {
            Some(base) => wrapped_end(base as int, size),
            None => pointer,
        }
    }
}

/// The top of an allocator that started at `pointer` after the requests `requests` (each a
/// size and an alignment), made one after another.
pub open spec fn pointer_after(pointer: usize, bound: usize, requests: Seq<(usize, usize)>) -> usize
    decreases requests.len(),
{
    if requests.len() == 0 {
        pointer
    } else {
        let (size, align) = requests.last();
        next_pointer(pointer_after(pointer, bound, requests.drop_last()), bound, size, align)
    }
}

/// The top of the allocator when the `i`-th of `requests` is made.
pub open spec fn pointer_before(pointer: usize, bound: usize, requests: Seq<(usize, usize)>, i: int) -> usize {
    pointer_after(pointer, bound, requests.take(i))
}

/// Every request of `requests` meets what `allocate` asks, and none of them reaches past the
/// end of the address range.
pub open spec fn requests_fit(pointer: usize, bound: usize, requests: Seq<(usize, usize)>) -> bool {
    forall|i: int|
        #![trigger requests[i]]
        0 <= i < requests.len() ==> {
            &&& requests[i].1 > 0
            &&& requests[i].0 > 0 ==> next_multiple_of(
                pointer_before(pointer, bound, requests, i) as int,
                requests[i].1 as int,
            ) + requests[i].0 <= usize::MAX
        }
}

/// The block, as its first address and the address past its end, that the `i`-th of
/// `requests` is given by an allocator that started at `pointer`, if it is given memory.
pub open spec fn granted_block(pointer: usize, bound: usize, requests: Seq<(usize, usize)>, i: int) -> Option<(int, int)> {
    let (size, align) = requests[i];
    let result = bump_result(pointer_before(pointer, bound, requests, i), bound, size, align);
    if size > 0 && result is Some && result.unwrap() != 0 {
        Some((result.unwrap() as int, result.unwrap() + size))
    } else {
        None
    }
}

impl BumpAllocator {
    /// The current top of the allocator.
    pub closed spec fn spec_pointer(&self) -> usize {
        self.pointer
    }

    /// The end of the allocator's region.
    pub closed spec fn spec_bound(&self) -> usize {
        self.bound
    }

    /// An allocator with no memory to hand out.
    pub fn empty() -> (r: Self)
        ensures
            r.spec_pointer() == 0x1000,
            r.spec_bound() == 0x1000,
    {
        BumpAllocator { pointer: 0x1000, bound: 0x1000 }
    }

    /// Creates a new bump allocator using the memory from `start` up to `end`.
    pub fn new(start: usize, end: usize) -> (r: Self)
        requires
            start != 0,
            end != 0,
        ensures
            r.spec_pointer() == start,
            r.spec_bound() == end,
    {
        BumpAllocator { pointer: start, bound: end }
    }

    /// Makes this allocator use the memory from `start` up to `end`.
    pub fn set(&mut self, start: usize, end: usize)
        requires
            start != 0,
            end != 0,
        ensures
            final(self).spec_pointer() == start,
            final(self).spec_bound() == end,
    {
        *self = BumpAllocator { pointer: start, bound: end };
    }

    /// Allocates `size` bytes aligned to `align`, and returns the address of the allocation.
    /// An allocation of zero bytes takes no memory, and is answered with the address `align`.
    ///
    /// The alignment must be a nonzero power of two, and aligning the top of the allocator
    /// must not overflow. Fails if the allocation does not end within the region, or starts at
    /// address zero.
    pub fn allocate(&mut self, size: usize, align: usize) -> (r: Result<usize, AllocError>)
        requires
            align > 0,
            size > 0 ==> next_multiple_of(old(self).spec_pointer() as int, align as int) <= usize::MAX,
        ensures
            final(self).spec_bound() == old(self).spec_bound(),
            final(self).spec_pointer() == next_pointer(old(self).spec_pointer(), old(self).spec_bound(), size, align),
            size == 0 ==> r == Ok::<usize, AllocError>(align) && final(self).spec_pointer() == old(self).spec_pointer(),
            size > 0 ==> match bump_result(old(self).spec_pointer(), old(self).spec_bound(), size, align) {
                Some(base) => {
                    &&& final(self).spec_pointer() == wrapped_end(base as int, size)
                    &&& r == (if base == 0 { Err::<usize, AllocError>(AllocError) } else { Ok::<usize, AllocError>(base) })
                },
                None => r == Err::<usize, AllocError>(AllocError) && final(self).spec_pointer() == old(self).spec_pointer(),
            },
    {
        if size == 0 {
            return Ok(align);
        }
        let base = align_to(self.pointer, align);
        let end = base.wrapping_add(size);
        if end <= self.bound {
            self.pointer = end;
            if base == 0 {
                Err(AllocError)
            } else {
                Ok(base)
            }
        } else {
            Err(AllocError)
        }
    }

    /// Deallocation does nothing: the memory of a bump allocator is never reused.
    pub fn deallocate(&self, _address: usize, _size: usize, _align: usize) {
    }
}

/// An allocation that fits without wrapping around lies within the region, is aligned, and
/// the next allocation starts after it.
pub proof fn law_allocations_are_disjoint(pointer: usize, bound: usize, size: usize, align: usize)
    requires
        align > 0,
        size > 0,
        next_multiple_of(pointer as int, align as int) + size <= usize::MAX,
        bump_result(pointer, bound, size, align) is Some,
    ensures
        ({
            let base = bump_result(pointer, bound, size, align).unwrap();
            &&& base % align == 0
            &&& pointer <= base
            &&& base + size <= bound
            &&& wrapped_end(base as int, size) == base + size
        }),
{
    law_align_to(pointer as int, align as int);
}

/// One request moves the top of the allocator up, and the block it is given starts at or
/// above the old top and ends at the new top, within the region.
proof fn lemma_request_step(pointer: usize, bound: usize, requests: Seq<(usize, usize)>, k: int)
    requires
        requests_fit(pointer, bound, requests),
        0 <= k < requests.len(),
    ensures
        pointer_before(pointer, bound, requests, k) <= pointer_before(pointer, bound, requests, k + 1),
        granted_block(pointer, bound, requests, k) matches Some((a, b)) ==> {
            &&& pointer_before(pointer, bound, requests, k) <= a < b
            &&& b == pointer_before(pointer, bound, requests, k + 1)
            &&& b <= bound
        },
{
    assert(requests.take(k + 1).drop_last() =~= requests.take(k));
    assert(requests.take(k + 1).last() == requests[k]);
    let p = pointer_before(pointer, bound, requests, k);
    let (size, align) = requests[k];
    assert(requests[k].1 > 0);
    if size > 0 {
        law_align_to(p as int, align as int);
    }
}

/// The top of the allocator never moves down.
proof fn lemma_pointer_rises(pointer: usize, bound: usize, requests: Seq<(usize, usize)>, i: int, j: int)
    requires
        requests_fit(pointer, bound, requests),
        0 <= i <= j <= requests.len(),
    ensures
        pointer_before(pointer, bound, requests, i) <= pointer_before(pointer, bound, requests, j),
    decreases j - i,
{
    if i < j {
        lemma_pointer_rises(pointer, bound, requests, i, j - 1);
        lemma_request_step(pointer, bound, requests, j - 1);
    }
}

/// Of the requests made one after another to an allocator, each that is given memory gets a
/// nonempty block at or above the allocator's first top and within its region, and every block
/// ends at or below the start of the blocks given later, so no two of them overlap (for
/// requests that meet `allocate`'s conditions and do not reach past the end of the address
/// range).
pub proof fn law_successive_allocations_are_disjoint(pointer: usize, bound: usize, requests: Seq<(usize, usize)>)
    requires
        requests_fit(pointer, bound, requests),
    ensures
        forall|i: int|
            #![trigger granted_block(pointer, bound, requests, i)]
            0 <= i < requests.len() && granted_block(pointer, bound, requests, i) is Some ==> {
                let (a, b) = granted_block(pointer, bound, requests, i).unwrap();
                pointer <= a < b <= bound
            },
        forall|i: int, j: int|
            #![trigger granted_block(pointer, bound, requests, i), granted_block(pointer, bound, requests, j)]
            0 <= i < j < requests.len() && granted_block(pointer, bound, requests, i) is Some
                && granted_block(pointer, bound, requests, j) is Some ==> granted_block(pointer, bound, requests, i).unwrap().1
                <= granted_block(pointer, bound, requests, j).unwrap().0,
{
    assert(requests.take(0) =~= Seq::<(usize, usize)>::empty());
    assert forall|i: int|
        #![trigger granted_block(pointer, bound, requests, i)]
        0 <= i < requests.len() && granted_block(pointer, bound, requests, i) is Some implies {
            let (a, b) = granted_block(pointer, bound, requests, i).unwrap();
            pointer <= a < b <= bound
        } by {
        lemma_pointer_rises(pointer, bound, requests, 0, i);
        lemma_request_step(pointer, bound, requests, i);
    }
    assert forall|i: int, j: int|
        #![trigger granted_block(pointer, bound, requests, i), granted_block(pointer, bound, requests, j)]
        0 <= i < j < requests.len() && granted_block(pointer, bound, requests, i) is Some
            && granted_block(pointer, bound, requests, j) is Some implies granted_block(pointer, bound, requests, i).unwrap().1
            <= granted_block(pointer, bound, requests, j).unwrap().0 by {
        lemma_request_step(pointer, bound, requests, i);
        lemma_pointer_rises(pointer, bound, requests, i + 1, j);
        lemma_request_step(pointer, bound, requests, j);
    }
}

} // verus!
