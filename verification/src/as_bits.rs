//! Conversion between the variants of a field-less enum and their discriminants.
//!
//! A field-less enum with explicit discriminants is described by the list of its discriminants,
//! in the order of its variants. Variant `i` converts to `discriminants[i]`, and a value converts
//! back to the variant that has it as its discriminant; a value that no variant has is not a
//! valid representation of the enum.
use vstd::prelude::*;

verus! {

/// Whether no value occurs twice in `values`.
pub open spec fn all_distinct(values: Seq<u64>) -> bool {
    forall|i: int, j: int|
        0 <= i < values.len() && 0 <= j < values.len() && i != j ==> values[i] != values[j]
}

/// Whether some variant has `value` as its discriminant.
pub open spec fn is_discriminant(values: Seq<u64>, value: u64) -> bool {
    exists|i: int| 0 <= i < values.len() && values[i] == value
}

/// The discriminants of a field-less enum, in the order of its variants.
pub struct DiscriminantTable {
    values: Vec<u64>,
}

impl DiscriminantTable {
    /// The discriminants, by variant index.
    pub closed spec fn view(&self) -> Seq<u64> {
        self.values@
    }

    /// Discriminants are pairwise distinct.
    pub closed spec fn wf(&self) -> bool {
        all_distinct(self.values@)
    }

    /// A well-formed table has no discriminant twice.
    pub proof fn lemma_wf(&self)
        requires
            self.wf(),
        ensures
            all_distinct(self@),
    {
    }

    /// Describes an enum whose variant `i` has the discriminant `values[i]`.
    ///
    /// Returns `None` if two variants would share a discriminant, which no enum can have.
    pub fn new(values: Vec<u64>) -> (r: Option<Self>)
        ensures
            r is Some <==> all_distinct(values@),
            r matches Some(t) ==> t.wf() && t@ == values@,
    {
        let n = values.len();
        let mut i: usize = 0;
        while i < n
            invariant
                n == values@.len(),
                i <= n,
                forall|a: int, b: int| 0 <= a < i && 0 <= b < n && a != b ==> values@[a] != values@[b],
            decreases n - i,
        {
            let mut j: usize = 0;
            while j < n
                invariant
                    n == values@.len(),
                    i < n,
                    j <= n,
                    forall|a: int, b: int| 0 <= a < i && 0 <= b < n && a != b ==> values@[a] != values@[b],
                    forall|b: int| 0 <= b < j && b != i ==> values@[i as int] != values@[b],
                decreases n - j,
            {
                if j != i && values[i] == values[j] {
                    return None;
                }
                j = j + 1;
            }
            i = i + 1;
        }
        Some(DiscriminantTable { values })
    }

    /// The number of variants.
    pub fn len(&self) -> (r: usize)
        ensures
            r == self@.len(),
    {
        self.values.len()
    }

    /// The discriminant of the variant with index `variant`.
    pub fn into_bits(&self, variant: usize) -> (r: u64)
        requires
            variant < self@.len(),
        ensures
            r == self@[variant as int],
    {
        self.values[variant]
    }

    /// The index of the variant whose discriminant is `value`, or `None` if no variant has it.
    pub fn try_from_bits(&self, value: u64) -> (r: Option<usize>)
        requires
            self.wf(),
        ensures
            r is Some <==> is_discriminant(self@, value),
            r matches Some(i) ==> i < self@.len() && self@[i as int] == value,
    {
        let mut i: usize = 0;
        while i < self.values.len()
            invariant
                i <= self.values@.len(),
                forall|k: int| 0 <= k < i ==> self.values@[k] != value,
            decreases self.values@.len() - i,
        {
            if self.values[i] == value {
                return Some(i);
            }
            i = i + 1;
        }
        None
    }

    /// The index of the variant whose discriminant is `value`, which must be one of the
    /// discriminants.
    pub fn from_bits(&self, value: u64) -> (r: usize)
        requires
            self.wf(),
            is_discriminant(self@, value),
        ensures
            r < self@.len(),
            self@[r as int] == value,
    {
        match self.try_from_bits(value) {
            Some(i) => i,
            None => {
                proof {
                    assert(false);
                }
                0
            },
        }
    }
}

/// Converting a variant to its discriminant and back gives the same variant: the only variant
/// whose discriminant equals that of `variant` is `variant` itself, and that discriminant is a
/// valid representation.
pub proof fn law_bits_round_trip(values: Seq<u64>, variant: int, other: int)
    requires
        all_distinct(values),
        0 <= variant < values.len(),
        0 <= other < values.len(),
        values[other] == values[variant],
    ensures
        other == variant,
        is_discriminant(values, values[variant]),
{
}

} // verus!
