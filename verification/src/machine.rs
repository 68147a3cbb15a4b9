//! Information about various features of the machine: address translation results and
//! processor identification.
use vstd::prelude::*;

verus! {

/// Mask of the physical address bits of a successful translation result.
pub const PAR_PA_MASK: u64 = 0x000F_FFFF_FFFF_F000;

/// The result of a successful address translation (`PAR_EL1` with the fault bit clear).
#[derive(Clone, Copy, Debug, PartialEq, Eq, Structural)]
pub struct ValidAddr(pub u64);

impl ValidAddr {
    /// The physical address of the translated page.
    pub open spec fn spec_pa(self) -> u64 {
        ((self.0 >> 12u64) & 0xFF_FFFF_FFFFu64) << 12u64
    }

    /// Returns the (properly shifted) physical address, excluding any offset.
    pub fn pa(self) -> (r: u64)
        ensures
            r == self.spec_pa(),
            r == self.0 & PAR_PA_MASK,
    {
        let v = self.0;
        let r = ((v >> 12u64) & 0xFF_FFFF_FFFFu64) << 12u64;
        assert(((v >> 12u64) & 0xFF_FFFF_FFFFu64) << 12u64 == v & 0x000F_FFFF_FFFF_F000u64)
            by (bit_vector);
        r
    }
}

/// The result of a failed address translation (the low word of `PAR_EL1`, fault bit set).
#[derive(Clone, Copy, Debug, PartialEq, Eq, Structural)]
pub struct InvalidAddr(pub u32);

impl InvalidAddr {
    /// The translation level at which the fault occurred.
    pub fn level(self) -> (r: u8)
        ensures
            r == (self.0 >> 1u32) & 0b11,
    {
        let v = self.0;
        assert((v >> 1u32) & 0b11 <= 3) by (bit_vector);
        ((v >> 1u32) & 0b11) as u8
    }

    /// The fault status code.
    pub fn status(self) -> (r: u8)
        ensures
            r == (self.0 >> 3u32) & 0b1111,
    {
        let v = self.0;
        assert((v >> 3u32) & 0b1111 <= 15) by (bit_vector);
        ((v >> 3u32) & 0b1111) as u8
    }
}

/// Interprets the value of `PAR_EL1` after an address translation: a set fault bit means the
/// translation failed, and the low word describes why; otherwise the translation succeeded.
pub fn translation_result(par_el1: u64) -> (r: Result<ValidAddr, InvalidAddr>)
    ensures
        r is Err <==> par_el1 & 1 == 1,
        r is Ok ==> r == Ok::<ValidAddr, InvalidAddr>(ValidAddr(par_el1)),
        r is Err ==> r == Err::<ValidAddr, InvalidAddr>(InvalidAddr((par_el1 & 0xFFFF_FFFF) as u32)),
{
    if par_el1 & 1 == 1 {
        Err(InvalidAddr((par_el1 & 0xFFFF_FFFF) as u32))
    } else {
        Ok(ValidAddr(par_el1))
    }
}

/// The numeric ID of a core, from its `MPIDR_EL1`.
pub fn core_id_from_mpidr(mpidr_el1: u64) -> (r: u8)
    ensures
        r == mpidr_el1 & 0b11,
{
    assert(mpidr_el1 & 0b11 <= 3) by (bit_vector);
    (mpidr_el1 & 0b11) as u8
}

/// The exception level the processor runs at.
#[derive(Clone, Copy, Debug, PartialEq, Eq, Structural)]
pub enum PrivilegeLevel {
    User,
    Kernel,
    Hypervisor,
    Unknown,
}

/// The exception level named by the `CurrentEL` register.
pub open spec fn level_of(current_el: u64) -> PrivilegeLevel {
    let el = (current_el >> 2u64) & 0b11;
    if el == 0 {
        PrivilegeLevel::User
    } else if el == 1 {
        PrivilegeLevel::Kernel
    } else if el == 2 {
        PrivilegeLevel::Hypervisor
    } else {
        PrivilegeLevel::Unknown
    }
}

/// The exception level the processor runs at, from its `CurrentEL` register.
pub fn exception_level(current_el: u64) -> (r: PrivilegeLevel)
    ensures
        r == level_of(current_el),
{
    let el = (current_el >> 2u64) & 0b11;
    if el == 0 {
        PrivilegeLevel::User
    } else if el == 1 {
        PrivilegeLevel::Kernel
    } else if el == 2 {
        PrivilegeLevel::Hypervisor
    } else {
        PrivilegeLevel::Unknown
    }
}

/// The interrupt mask bits (debug, SError, IRQ, FIQ) of the `DAIF` register.
pub const DAIF_MASK_BITS: u64 = 0x3C0;

/// The interrupt masks in force before they were changed, to be restored later.
#[derive(Clone, Copy, Debug, PartialEq, Eq, Structural)]
pub struct ExceptionMasks {
    prior: u64,
}

impl ExceptionMasks {
    /// The `DAIF` value saved.
    pub closed spec fn spec_prior(self) -> u64 {
        self.prior
    }
}

/// Saves the interrupt masks `daif`, and gives the `DAIF` value to install instead: zero.
pub fn disable(daif: u64) -> (r: (ExceptionMasks, u64))
    ensures
        r.0.spec_prior() == daif,
        r.1 == 0,
{
    (ExceptionMasks { prior: daif }, 0)
}

/// The `DAIF` value that restores saved masks.
pub fn restore(state: ExceptionMasks) -> (r: u64)
    ensures
        r == state.spec_prior(),
{
    state.prior
}

/// Whether every interrupt is masked in `daif`, as it must be before interrupts are enabled;
/// enabling them installs a `DAIF` of zero.
pub fn all_interrupts_masked(daif: u64) -> (r: bool)
    ensures
        r == (daif & DAIF_MASK_BITS == DAIF_MASK_BITS),
{
    daif & DAIF_MASK_BITS == DAIF_MASK_BITS
}

} // verus!
