//! Decoding of exception syndromes, and the decisions of the exception handlers.
use vstd::prelude::*;
use crate::execution::{ContextError, Execution};
use crate::machine::{InvalidAddr, ValidAddr};

verus! {

/// Indicates the reason for the exception that `ESR_EL1` holds information about.
#[derive(Clone, Copy, Debug, PartialEq, Eq, Structural)]
pub enum ExceptionClass {
    /// Unknown reason
    Unknown,
    /// Trapped `WF*` instruction execution
    ///
    /// Conditional `WF*` instructions that fail their condition code check do not cause an
    /// exception
    TrappedWfiWfe,
    /// (AArch32) Trapped `MCR` or `MRC` access with `coproc == 0b1111` that is not reported using
    /// `Unknown`.
    TrappedMcrMrc,
    /// (AArch32) Trapped `MCRR` or `MRRC` access with `(coproc == 0b1111)` that is not reported
    /// using `Unknown`
    TrappedMcrrMrrc,
    /// (AArch32) Trapped `MCR` or `MRC` access with `coproc == 0b1110`.
    TrappedMcrMrc2,
    /// (AArch32) Trapped `LDC` or `STC` access
    ///
    /// The only architected uses of these instruction are:
    /// * An `STC` to write data to memory from `DBGDTRRXint`
    /// * An `LDC` to read data from memory to `DBGDTRTXint`
    TrappedLdcStc,
    /// Access to SME, SVE, Advanced SIMD or floating-point functionality trapped by
    /// `CPACR_EL1.FPEN`
    ///
    /// Excludes exceptions because SVE or Advanced SIMD and floating-point are not implemented.
    /// These are reported with `Unknown`.
    TrappedSmeSveSimdFp,
    /// (FEAT_LS64) Trapped execution of an `LD64B` or `ST64B*` instruction
    TrappedLdSt64b,
    /// (AArch32) Trapped `MRRC` access with `coproc == 0b1110`
    TrappedMrrc2,
    /// (FEAT_BTI)
    BranchTargetException,
    IllegalExecutionState,
    /// (AArch32) `SVC` instruction execution in AArch32 state
    SvcAArch32,
    /// (AArch64) `SVC` instruction execution in AArch64 state
    SvcAArch64,
    /// (AArch64) Trapped `MSR`, `MRS` or System instruction execution in AArch64 state, that is
    /// not reported using `Unknown`, `TrappedWfiWfe` or `TrappedSmeSveSimdFp`
    ///
    /// This includes all instructions that cause exceptions that are part of the encoding space
    /// defined in System instruction class encoding overview, except for those exceptions reported
    /// using EC values `Unknown, `TrappedWfiWfe`, or `TrappedSmeSveSimdFp`
    TrappedMsrMrsSystem,
    /// (FEAT_SVE) Access to SVE functionality trapped as a result of `CPACR_EL1.ZEN`, that is not
    /// reported using `Unknown`.
    TrappedSve,
    /// (FEAT_TME) Exception from an access to a `TSTART` instruction at EL0 when
    /// `SCTLR_EL1.TME0 == 0` or at EL1 when `SCTLR_EL1.TME == 0`
    TrappedTstart,
    /// (FEAT_FPAC) Exception from a Pointer Authentication instruction authentication failure
    PointerAuthInsFail,
    /// (FEAT_SME) Access to SME functionality trapped as a result of `CPACR_EL1.SMEN` or an
    /// attempted execution of an instruction that is illegal because of the value of `PSTATE.SM`
    /// or `PSTATE.ZA`, that is not reported using `Unknown`
    TrappedSme,
    /// (FEAT_RME) Exception from a Granule Protection Check
    GranuleProtetctionCheck,
    /// Instruction Abort from EL0
    ///
    /// Used for MMU faults generated by instruction accesses and synchronous External aborts,
    /// including synchronous parity or ECC errors. Not used for debug-related exceptions.
    InstructionAbortEL0,
    /// Instruction Abort from EL1
    ///
    /// Used for MMU faults generated by instruction accesses and synchronous External aborts,
    /// including synchronous parity or ECC errors. Not used for debug-related exceptions.
    InstructionAbortEl1,
    /// PC Alignment Fault Exception
    PCAlignmentFault,
    /// Data Abort from EL0
    ///
    /// Used for MMU faults generated by data accesses, alignment faults other than those caused by
    /// Stack Pointer misalignment, and synchronous External aborts, including synchronous parity
    /// or ECC errors. Not used for debug-related exceptions.
    DataAbortEL0,
    /// Data Abort from EL1
    ///
    /// Used for MMU faults generated by data accesses, alignment faults other than those caused by
    /// Stack Pointer misalignment, and synchronous External aborts, including synchronous parity
    /// or ECC errors. Not used for debug-related exceptions.
    DataAbortEL1,
    /// SP alignment fault exception
    SPAlignmentFault,
    /// (FEAT_MOPS)
    MemoryOperationException,
    /// (AArch32) Trapped floating-point exception taken from AArch32 state
    ///
    /// This EC value is valid if the implementation supports trapping of floating-point
    /// exceptions, otherwise it is reserved. Whether a floating-point implementation supports
    /// trapping of floating-point exceptions is IMPLEMENTATION DEFINED.
    TrappedFPAarch32,
    /// (AArch32) Trapped floating-point exception taken from AArch64 state
    ///
    /// This EC value is valid if the implementation supports trapping of floating-point
    /// exceptions, otherwise it is reserved. Whether a floating-point implementation supports
    /// trapping of floating-point exceptions is IMPLEMENTATION DEFINED.
    TrappedFPAarch64,
    /// SError interrupt
    SError,
    /// Breakpoint exception from EL0
    BreakpointEL0,
    /// Breakpoint exception from EL1
    BreakpointEL1,
    /// Software Step exception from EL0
    SoftwareStepEL0,
    /// Software Step exception from EL1
    SoftwareStepEL1,
    /// Watchpoint exception from EL0
    WatchpointEL0,
    /// Watchpoint exception from EL1
    WatchpointEL1,
    /// (AArch32) `BKPT` instruction execution in AArch32 state
    BkptAarch32,
    /// (AArch64) `BRK` instruction execution in AArch64 state.
    BrkAarch64,
}

impl ExceptionClass {
    /// The exception class encoding.
    pub open spec fn spec_bits(self) -> u64 {
        match self {
            ExceptionClass::Unknown => 0b000_000,
            ExceptionClass::TrappedWfiWfe => 0b000_001,
            ExceptionClass::TrappedMcrMrc => 0b000_011,
            ExceptionClass::TrappedMcrrMrrc => 0b000_100,
            ExceptionClass::TrappedMcrMrc2 => 0b000_101,
            ExceptionClass::TrappedLdcStc => 0b000_110,
            ExceptionClass::TrappedSmeSveSimdFp => 0b000_111,
            ExceptionClass::TrappedLdSt64b => 0b001_010,
            ExceptionClass::TrappedMrrc2 => 0b001_100,
            ExceptionClass::BranchTargetException => 0b001_101,
            ExceptionClass::IllegalExecutionState => 0b001_110,
            ExceptionClass::SvcAArch32 => 0b010_001,
            ExceptionClass::SvcAArch64 => 0b010_101,
            ExceptionClass::TrappedMsrMrsSystem => 0b011_000,
            ExceptionClass::TrappedSve => 0b011_001,
            ExceptionClass::TrappedTstart => 0b011_011,
            ExceptionClass::PointerAuthInsFail => 0b011_100,
            ExceptionClass::TrappedSme => 0b011_101,
            ExceptionClass::GranuleProtetctionCheck => 0b011_110,
            ExceptionClass::InstructionAbortEL0 => 0b100_000,
            ExceptionClass::InstructionAbortEl1 => 0b100_001,
            ExceptionClass::PCAlignmentFault => 0b100_010,
            ExceptionClass::DataAbortEL0 => 0b100_100,
            ExceptionClass::DataAbortEL1 => 0b100_101,
            ExceptionClass::SPAlignmentFault => 0b100_110,
            ExceptionClass::MemoryOperationException => 0b100_111,
            ExceptionClass::TrappedFPAarch32 => 0b101_000,
            ExceptionClass::TrappedFPAarch64 => 0b101_100,
            ExceptionClass::SError => 0b101_111,
            ExceptionClass::BreakpointEL0 => 0b110_000,
            ExceptionClass::BreakpointEL1 => 0b110_001,
            ExceptionClass::SoftwareStepEL0 => 0b110_010,
            ExceptionClass::SoftwareStepEL1 => 0b110_011,
            ExceptionClass::WatchpointEL0 => 0b110_100,
            ExceptionClass::WatchpointEL1 => 0b110_101,
            ExceptionClass::BkptAarch32 => 0b111_000,
            ExceptionClass::BrkAarch64 => 0b111_100,
        }
    }

    /// Whether `value` encodes an exception class.
    pub open spec fn is_class(value: u64) -> bool {
        value == 0b000_000 || value == 0b000_001 || value == 0b000_011 || value == 0b000_100 || value == 0b000_101 || value == 0b000_110 || value == 0b000_111 || value == 0b001_010 || value == 0b001_100 || value == 0b001_101 || value == 0b001_110 || value == 0b010_001 || value == 0b010_101 || value == 0b011_000 || value == 0b011_001 || value == 0b011_011 || value == 0b011_100 || value == 0b011_101 || value == 0b011_110 || value == 0b100_000 || value == 0b100_001 || value == 0b100_010 || value == 0b100_100 || value == 0b100_101 || value == 0b100_110 || value == 0b100_111 || value == 0b101_000 || value == 0b101_100 || value == 0b101_111 || value == 0b110_000 || value == 0b110_001 || value == 0b110_010 || value == 0b110_011 || value == 0b110_100 || value == 0b110_101 || value == 0b111_000 || value == 0b111_100
    }

    /// The exception class encoding.
    pub fn into_bits(self) -> (r: u64)
        ensures
            r == self.spec_bits(),
    {
        match self {
            ExceptionClass::Unknown => 0b000_000,
            ExceptionClass::TrappedWfiWfe => 0b000_001,
            ExceptionClass::TrappedMcrMrc => 0b000_011,
            ExceptionClass::TrappedMcrrMrrc => 0b000_100,
            ExceptionClass::TrappedMcrMrc2 => 0b000_101,
            ExceptionClass::TrappedLdcStc => 0b000_110,
            ExceptionClass::TrappedSmeSveSimdFp => 0b000_111,
            ExceptionClass::TrappedLdSt64b => 0b001_010,
            ExceptionClass::TrappedMrrc2 => 0b001_100,
            ExceptionClass::BranchTargetException => 0b001_101,
            ExceptionClass::IllegalExecutionState => 0b001_110,
            ExceptionClass::SvcAArch32 => 0b010_001,
            ExceptionClass::SvcAArch64 => 0b010_101,
            ExceptionClass::TrappedMsrMrsSystem => 0b011_000,
            ExceptionClass::TrappedSve => 0b011_001,
            ExceptionClass::TrappedTstart => 0b011_011,
            ExceptionClass::PointerAuthInsFail => 0b011_100,
            ExceptionClass::TrappedSme => 0b011_101,
            ExceptionClass::GranuleProtetctionCheck => 0b011_110,
            ExceptionClass::InstructionAbortEL0 => 0b100_000,
            ExceptionClass::InstructionAbortEl1 => 0b100_001,
            ExceptionClass::PCAlignmentFault => 0b100_010,
            ExceptionClass::DataAbortEL0 => 0b100_100,
            ExceptionClass::DataAbortEL1 => 0b100_101,
            ExceptionClass::SPAlignmentFault => 0b100_110,
            ExceptionClass::MemoryOperationException => 0b100_111,
            ExceptionClass::TrappedFPAarch32 => 0b101_000,
            ExceptionClass::TrappedFPAarch64 => 0b101_100,
            ExceptionClass::SError => 0b101_111,
            ExceptionClass::BreakpointEL0 => 0b110_000,
            ExceptionClass::BreakpointEL1 => 0b110_001,
            ExceptionClass::SoftwareStepEL0 => 0b110_010,
            ExceptionClass::SoftwareStepEL1 => 0b110_011,
            ExceptionClass::WatchpointEL0 => 0b110_100,
            ExceptionClass::WatchpointEL1 => 0b110_101,
            ExceptionClass::BkptAarch32 => 0b111_000,
            ExceptionClass::BrkAarch64 => 0b111_100,
        }
    }

    /// The exception class of the given encoding, which must be one.
    pub fn from_bits(value: u64) -> (r: Self)
        requires
            Self::is_class(value),
        ensures
            r.spec_bits() == value,
    {
        if value == 0b000_000 {
            ExceptionClass::Unknown
        } else if value == 0b000_001 {
            ExceptionClass::TrappedWfiWfe
        } else if value == 0b000_011 {
            ExceptionClass::TrappedMcrMrc
        } else if value == 0b000_100 {
            ExceptionClass::TrappedMcrrMrrc
        } else if value == 0b000_101 {
            ExceptionClass::TrappedMcrMrc2
        } else if value == 0b000_110 {
            ExceptionClass::TrappedLdcStc
        } else if value == 0b000_111 {
            ExceptionClass::TrappedSmeSveSimdFp
        } else if value == 0b001_010 {
            ExceptionClass::TrappedLdSt64b
        } else if value == 0b001_100 {
            ExceptionClass::TrappedMrrc2
        } else if value == 0b001_101 {
            ExceptionClass::BranchTargetException
        } else if value == 0b001_110 {
            ExceptionClass::IllegalExecutionState
        } else if value == 0b010_001 {
            ExceptionClass::SvcAArch32
        } else if value == 0b010_101 {
            ExceptionClass::SvcAArch64
        } else if value == 0b011_000 {
            ExceptionClass::TrappedMsrMrsSystem
        } else if value == 0b011_001 {
            ExceptionClass::TrappedSve
        } else if value == 0b011_011 {
            ExceptionClass::TrappedTstart
        } else if value == 0b011_100 {
            ExceptionClass::PointerAuthInsFail
        } else if value == 0b011_101 {
            ExceptionClass::TrappedSme
        } else if value == 0b011_110 {
            ExceptionClass::GranuleProtetctionCheck
        } else if value == 0b100_000 {
            ExceptionClass::InstructionAbortEL0
        } else if value == 0b100_001 {
            ExceptionClass::InstructionAbortEl1
        } else if value == 0b100_010 {
            ExceptionClass::PCAlignmentFault
        } else if value == 0b100_100 {
            ExceptionClass::DataAbortEL0
        } else if value == 0b100_101 {
            ExceptionClass::DataAbortEL1
        } else if value == 0b100_110 {
            ExceptionClass::SPAlignmentFault
        } else if value == 0b100_111 {
            ExceptionClass::MemoryOperationException
        } else if value == 0b101_000 {
            ExceptionClass::TrappedFPAarch32
        } else if value == 0b101_100 {
            ExceptionClass::TrappedFPAarch64
        } else if value == 0b101_111 {
            ExceptionClass::SError
        } else if value == 0b110_000 {
            ExceptionClass::BreakpointEL0
        } else if value == 0b110_001 {
            ExceptionClass::BreakpointEL1
        } else if value == 0b110_010 {
            ExceptionClass::SoftwareStepEL0
        } else if value == 0b110_011 {
            ExceptionClass::SoftwareStepEL1
        } else if value == 0b110_100 {
            ExceptionClass::WatchpointEL0
        } else if value == 0b110_101 {
            ExceptionClass::WatchpointEL1
        } else if value == 0b111_000 {
            ExceptionClass::BkptAarch32
        } else {
            ExceptionClass::BrkAarch64
        }
    }
}

/// Instruction length for synchronous exceptions.
#[derive(Clone, Copy, Debug, PartialEq, Eq, Structural)]
pub enum InstructionLength {
    Bit16,
    /// 32-bit instruction trapped. This value is also used for SError interrupts, Instruction
    /// Aborts, PC and SP alignment faults, Data Aborts without a valid syndrome, Illegal
    /// Execution state exceptions, debug exceptions other than breakpoint instructions, and
    /// exceptions reported as `Unknown`.
    Bit32,
}

/// The status code describing the variant of page fault.
#[derive(Clone, Copy, Debug, PartialEq, Eq, Structural)]
pub enum StatusCode {
    AddressSizeFault,
    /// Automatically triggered on a TLB miss
    TranslationFault,
    AccessFlagFault,
    PermissionFault,
    /// Synchronous External abort on translation table walk or hardware update of translation
    /// table
    SynchronousExternalAbort,
    AlignmentFault,
}

impl StatusCode {
    /// The status code encoding.
    pub open spec fn spec_bits(self) -> u32 {
        match self {
            StatusCode::AddressSizeFault => 0b0000,
            StatusCode::TranslationFault => 0b0001,
            StatusCode::AccessFlagFault => 0b0010,
            StatusCode::PermissionFault => 0b0011,
            StatusCode::SynchronousExternalAbort => 0b0101,
            StatusCode::AlignmentFault => 0b1000,
        }
    }

    /// Whether `value` encodes a status code.
    pub open spec fn is_code(value: u32) -> bool {
        value == 0 || value == 1 || value == 2 || value == 3 || value == 5 || value == 8
    }

    /// The status code encoding.
    pub fn into_bits(self) -> (r: u32)
        ensures
            r == self.spec_bits(),
    {
        match self {
            StatusCode::AddressSizeFault => 0b0000,
            StatusCode::TranslationFault => 0b0001,
            StatusCode::AccessFlagFault => 0b0010,
            StatusCode::PermissionFault => 0b0011,
            StatusCode::SynchronousExternalAbort => 0b0101,
            StatusCode::AlignmentFault => 0b1000,
        }
    }

    /// The status code of the given encoding, which must be one.
    pub fn from_bits(value: u32) -> (r: Self)
        requires
            Self::is_code(value),
        ensures
            r.spec_bits() == value,
    {
        if value == 0 {
            StatusCode::AddressSizeFault
        } else if value == 1 {
            StatusCode::TranslationFault
        } else if value == 2 {
            StatusCode::AccessFlagFault
        } else if value == 3 {
            StatusCode::PermissionFault
        } else if value == 5 {
            StatusCode::SynchronousExternalAbort
        } else {
            StatusCode::AlignmentFault
        }
    }
}

/// The SVC code for a specific system call.
#[derive(Clone, Copy, Debug, PartialEq, Eq, Structural)]
pub enum CallCode {
    Print,
    Exit,
    AllocPage,
    SetInfo,
    Unblock,
    Block,
    SendSignal,
    Fork,
    Eret,
}

impl CallCode {
    /// The immediate of the `svc` instruction for this call.
    pub open spec fn spec_bits(self) -> u32 {
        match self {
            CallCode::Print => 0x1000,
            CallCode::Exit => 0x2000,
            CallCode::AllocPage => 0x3000,
            CallCode::SetInfo => 0x4000,
            CallCode::Unblock => 0x5000,
            CallCode::Block => 0x6000,
            CallCode::SendSignal => 0x7000,
            CallCode::Fork => 0x8000,
            CallCode::Eret => 0x0,
        }
    }

    /// Whether `value` is the immediate of a system call.
    pub open spec fn is_code(value: u32) -> bool {
        value == 0x1000 || value == 0x2000 || value == 0x3000 || value == 0x4000 || value == 0x5000
            || value == 0x6000 || value == 0x7000 || value == 0x8000 || value == 0
    }

    /// The immediate of the `svc` instruction for this call.
    pub fn into_bits(self) -> (r: u32)
        ensures
            r == self.spec_bits(),
    {
        match self {
            CallCode::Print => 0x1000,
            CallCode::Exit => 0x2000,
            CallCode::AllocPage => 0x3000,
            CallCode::SetInfo => 0x4000,
            CallCode::Unblock => 0x5000,
            CallCode::Block => 0x6000,
            CallCode::SendSignal => 0x7000,
            CallCode::Fork => 0x8000,
            CallCode::Eret => 0x0,
        }
    }

    /// The call of the given immediate, which must be one.
    pub fn from_bits(value: u32) -> (r: Self)
        requires
            Self::is_code(value),
        ensures
            r.spec_bits() == value,
    {
        if value == 0x1000 {
            CallCode::Print
        } else if value == 0x2000 {
            CallCode::Exit
        } else if value == 0x3000 {
            CallCode::AllocPage
        } else if value == 0x4000 {
            CallCode::SetInfo
        } else if value == 0x5000 {
            CallCode::Unblock
        } else if value == 0x6000 {
            CallCode::Block
        } else if value == 0x7000 {
            CallCode::SendSignal
        } else if value == 0x8000 {
            CallCode::Fork
        } else {
            CallCode::Eret
        }
    }
}

/// The contents of `ESR_EL1`, describing a synchronous exception.
#[derive(Clone, Copy, Debug, PartialEq, Eq, Structural)]
pub struct ExceptionSyndrome(pub u64);

impl ExceptionSyndrome {
    /// The instruction-specific syndrome (the low 25 bits).
    pub open spec fn spec_instruction_syndrome(self) -> u32 {
        (self.0 & 0x1FF_FFFF) as u32
    }

    /// The exception class bits.
    pub open spec fn spec_class_bits(self) -> u64 {
        (self.0 >> 26u64) & 0x3F
    }

    /// The instruction-specific syndrome.
    pub fn instruction_syndrome(self) -> (r: u32)
        ensures
            r == self.spec_instruction_syndrome(),
    {
        let v = self.0;
        assert(v & 0x1FF_FFFF <= 0x1FF_FFFF) by (bit_vector);
        (v & 0x1FF_FFFF) as u32
    }

    /// The length of the trapped instruction.
    pub fn instruction_length(self) -> (r: InstructionLength)
        ensures
            r == (if (self.0 >> 25u64) & 1 == 1 { InstructionLength::Bit32 } else { InstructionLength::Bit16 }),
    {
        if (self.0 >> 25u64) & 1 == 1 {
            InstructionLength::Bit32
        } else {
            InstructionLength::Bit16
        }
    }

    /// The class of the exception; the class bits must encode one.
    pub fn exception_class(self) -> (r: ExceptionClass)
        requires
            ExceptionClass::is_class(self.spec_class_bits()),
        ensures
            r.spec_bits() == self.spec_class_bits(),
    {
        ExceptionClass::from_bits((self.0 >> 26u64) & 0x3F)
    }
}

/// The instruction syndrome of an `SVC` exception.
#[derive(Clone, Copy, Debug, PartialEq, Eq, Structural)]
pub struct SvcIS(pub u32);

impl SvcIS {
    /// The immediate of the `svc` instruction.
    pub open spec fn spec_code_bits(self) -> u32 {
        self.0 & 0xFFFF
    }

    /// The system call requested; the immediate must be a system call's.
    pub fn code(self) -> (r: CallCode)
        requires
            CallCode::is_code(self.spec_code_bits()),
        ensures
            r.spec_bits() == self.spec_code_bits(),
    {
        CallCode::from_bits(self.0 & 0xFFFF)
    }
}

/// The instruction syndrome whenever an Instruction Abort is taken.
#[derive(Clone, Copy, Debug, PartialEq, Eq, Structural)]
pub struct InstructionAbortIS(pub u32);

impl InstructionAbortIS {
    /// Level of translation at which the abort occurred. Not always meaningful.
    pub open spec fn spec_level(self) -> u8 {
        (self.0 & 0b11) as u8
    }

    /// The bits of the status code indicating the cause of the abort.
    pub open spec fn spec_status_bits(self) -> u32 {
        (self.0 >> 2u32) & 0b1111
    }

    /// Whether the faulting address register is not valid.
    pub open spec fn spec_far_not_valid(self) -> bool {
        (self.0 >> 10u32) & 1 == 1
    }

    /// Level of translation at which the abort occurred. Not always meaningful.
    pub fn level(self) -> (r: u8)
        ensures
            r == self.spec_level(),
    {
        let v = self.0;
        assert(v & 0b11 <= 3) by (bit_vector);
        (v & 0b11) as u8
    }

    /// Status code indicating the cause of the abort; the bits must encode one.
    pub fn status_code(self) -> (r: StatusCode)
        requires
            StatusCode::is_code(self.spec_status_bits()),
        ensures
            r.spec_bits() == self.spec_status_bits(),
    {
        StatusCode::from_bits((self.0 >> 2u32) & 0b1111)
    }

    /// Whether the faulting address register is not valid.
    pub fn far_not_valid(self) -> (r: bool)
        ensures
            r == self.spec_far_not_valid(),
    {
        (self.0 >> 10u32) & 1 == 1
    }

    /// Gets the faulting address for an instruction abort, if valid, given the contents of the
    /// faulting address register.
    pub fn faulting_address(self, far: u64) -> (r: Option<u64>)
        ensures
            r == (if self.spec_far_not_valid() { None } else { Some(far) }),
    {
        if self.far_not_valid() {
            None
        } else {
            Some(far)
        }
    }
}

/// Access type that caused the page fault.
#[derive(Clone, Copy, Debug, PartialEq, Eq, Structural)]
pub enum AccessType {
    /// Loads from memory
    Load,
    /// Stores to memory
    Store,
    /// Instruction fetches
    Instruction,
}

/// Information describing the source and cause of a page fault.
#[derive(Clone, Copy, Debug, PartialEq, Eq, Structural)]
pub struct PageFaultInfo {
    /// Memory access type that caused the page fault
    pub access_type: AccessType,
    /// Variant of page fault
    pub code: StatusCode,
    /// Level of translation at which the page fault triggered. Not always meaningful.
    pub level: u8,
    /// Faulting address that caused the page fault, if applicable
    pub faulting_address: Option<u64>,
    /// Byte size of the access that caused the page fault
    pub access_bytes: u8,
}

/// Describes an instruction abort as a page fault, given the contents of the faulting address
/// register. The status bits must encode a status code.
pub fn instruction_abort_info(iss: InstructionAbortIS, far: u64) -> (r: PageFaultInfo)
    requires
        StatusCode::is_code(iss.spec_status_bits()),
    ensures
        r.access_type == AccessType::Instruction,
        r.code.spec_bits() == iss.spec_status_bits(),
        r.level == iss.spec_level(),
        r.faulting_address == (if iss.spec_far_not_valid() { None::<u64> } else { Some(far) }),
        r.access_bytes == 4,
{
    PageFaultInfo {
        access_type: AccessType::Instruction,
        code: iss.status_code(),
        level: iss.level(),
        faulting_address: iss.faulting_address(far),
        access_bytes: 4,
    }
}

/// The address whose translation decides how a page fault is resolved, if any: only
/// translation faults are resolved by translation, and they must come with a faulting address.
pub fn page_fault_translation_address(info: &PageFaultInfo) -> (r: Option<u64>)
    requires
        info.code == StatusCode::TranslationFault ==> info.faulting_address is Some,
    ensures
        r == (if info.code == StatusCode::TranslationFault { info.faulting_address } else { None }),
{
    match info.code {
        StatusCode::TranslationFault => info.faulting_address,
        _ => None,
    }
}

/// Decides whether a page fault must be delivered to the program's signal handler: a
/// translation fault is resolved by the hardware refilling the translation when the address
/// translates to a page the execution may access (writeable for stores), and is delivered
/// otherwise; every other fault is delivered. `translation` is the result of translating the
/// faulting address, given exactly for translation faults.
pub fn page_fault_calls_signal(
    info: &PageFaultInfo,
    execution: &Execution,
    translation: Option<Result<ValidAddr, InvalidAddr>>,
) -> (r: bool)
    requires
        execution.wf(),
        (info.code == StatusCode::TranslationFault) == (translation is Some),
    ensures
        r == match translation {
            None => true,
            Some(t) => !(match t {
                Ok(pa) => if info.access_type == AccessType::Store {
                    execution.spec_contains_pa_writeable(pa.spec_pa())
                } else {
                    execution.spec_contains_pa(pa.spec_pa())
                },
                Err(_) => false,
            }),
        },
{
    match translation {
        None => true,
        Some(t) => {
            let valid = match info.access_type {
                AccessType::Store => execution.validate_user_pointer_writeable(t),
                _ => execution.validate_user_pointer(t),
            };
            !valid
        },
    }
}

/// The operand of the TLB invalidation of the page holding virtual address `addr`.
pub fn tlb_invalidation_operand(addr: u64) -> (r: u64)
    ensures
        r == (addr >> 12u64) & 0xF_FFFF_FFFF,
{
    (addr >> 12u64) & 0xF_FFFF_FFFF
}

/// The registers with which a program resumes after a page fault: when the fault is delivered,
/// the page-fault exception code and the faulting address; else the registers as they were.
pub fn page_fault_return(call_signal: bool, x0: u64, x1: u64, far: u64) -> (r: (u64, u64))
    ensures
        r == (if call_signal { (2u64, far) } else { (x0, x1) }),
{
    if call_signal {
        (2, far)
    } else {
        (x0, x1)
    }
}

/// How a synchronous exception from EL0 is handled.
#[derive(Clone, Copy, Debug, PartialEq, Eq, Structural)]
pub enum El0Exception {
    /// A data abort, with its instruction syndrome.
    DataAbort(u32),
    /// A return from an exception handler of the program.
    Eret,
    /// An instruction abort, with its instruction syndrome.
    InstructionAbort(InstructionAbortIS),
}

/// Whether the kernel handles a synchronous exception from EL0 with syndrome `esr`: data and
/// instruction aborts, and the `svc` that returns from a program's exception handler.
pub open spec fn el0_exception_handled(esr: ExceptionSyndrome) -> bool {
    let class = esr.spec_class_bits();
    ||| class == 0b100_100 || class == 0b100_101 || class == 0b100_000
    ||| class == 0b010_101 && SvcIS(esr.spec_instruction_syndrome()).spec_code_bits() == 0
}

/// Dispatches a synchronous exception from EL0 to its handler.
pub fn dispatch_el0_exception(esr: ExceptionSyndrome) -> (r: El0Exception)
    requires
        el0_exception_handled(esr),
    ensures
        esr.spec_class_bits() == 0b100_100 || esr.spec_class_bits() == 0b100_101 ==> r == El0Exception::DataAbort(esr.spec_instruction_syndrome()),
        esr.spec_class_bits() == 0b010_101 ==> r == El0Exception::Eret,
        esr.spec_class_bits() == 0b100_000 ==> r == El0Exception::InstructionAbort(InstructionAbortIS(esr.spec_instruction_syndrome())),
{
    let iss = esr.instruction_syndrome();
    match esr.exception_class() {
        ExceptionClass::DataAbortEL0 | ExceptionClass::DataAbortEL1 => El0Exception::DataAbort(iss),
        ExceptionClass::SvcAArch64 => El0Exception::Eret,
        _ => El0Exception::InstructionAbort(InstructionAbortIS(iss)),
    }
}

/// The interrupt id of the physical timer, which preempts the running program.
pub const TIMER_INTERRUPT_ID: u32 = 30;

/// Whether an acknowledged interrupt (the value of the interrupt acknowledge register) is the
/// timer's: only that interrupt is handled, by rearming the timer and signalling its end.
pub fn is_timer_interrupt(interrupt_info: u32) -> (r: bool)
    ensures
        r == (interrupt_info & 0x3FF == TIMER_INTERRUPT_ID),
{
    interrupt_info & 0x3FF == TIMER_INTERRUPT_ID
}

/// A system call, with its arguments.
#[derive(Clone, Copy, Debug, PartialEq, Eq, Structural)]
pub enum SyscallRequest {
    /// Write `len` bytes at `data` to the serial output.
    Print { data: u64, len: u64 },
    /// End the calling execution.
    Exit,
    /// Allocate a page to the calling execution.
    AllocPage,
    /// Set the calling execution's context and resume it with `argument`.
    SetInfo { user_context: u64, ttbr0: u64, tcr_el1: u64, argument: u64 },
    /// Hand a wake-up token to the execution `pid`, if the argument is a pid.
    Unblock { pid: Option<u16> },
    /// Wait for a wake-up token.
    Block,
    /// Signal the execution `target`.
    SendSignal { target: u16 },
    /// Duplicate the calling execution.
    Fork,
}

/// Whether a system call with syndrome `esr` and first argument `arg0` can be served: it is a
/// known call other than the return from an exception handler (which is not a system call),
/// and a signal names a pid.
pub open spec fn syscall_served(esr: ExceptionSyndrome, arg0: u64) -> bool {
    let code = SvcIS(esr.spec_instruction_syndrome()).spec_code_bits();
    &&& CallCode::is_code(code)
    &&& code != 0
    &&& code == 0x7000 ==> arg0 <= u16::MAX
}

/// Decodes the system call that the `svc` with syndrome `esr` requests, with arguments
/// `arg0` to `arg3`.
pub fn decode_syscall(esr: ExceptionSyndrome, arg0: u64, arg1: u64, arg2: u64, arg3: u64) -> (r: SyscallRequest)
    requires
        syscall_served(esr, arg0),
    ensures
        ({
            let code = SvcIS(esr.spec_instruction_syndrome()).spec_code_bits();
            r == (if code == 0x1000 {
                SyscallRequest::Print { data: arg0, len: arg1 }
            } else if code == 0x2000 {
                SyscallRequest::Exit
            } else if code == 0x3000 {
                SyscallRequest::AllocPage
            } else if code == 0x4000 {
                SyscallRequest::SetInfo { user_context: arg0, ttbr0: arg1, tcr_el1: arg2, argument: arg3 }
            } else if code == 0x5000 {
                SyscallRequest::Unblock { pid: if arg0 <= u16::MAX { Some(arg0 as u16) } else { None } }
            } else if code == 0x6000 {
                SyscallRequest::Block
            } else if code == 0x7000 {
                SyscallRequest::SendSignal { target: arg0 as u16 }
            } else {
                SyscallRequest::Fork
            })
        }),
{
    let iss = SvcIS(esr.instruction_syndrome());
    match iss.code() {
        CallCode::Print => SyscallRequest::Print { data: arg0, len: arg1 },
        CallCode::Exit => SyscallRequest::Exit,
        CallCode::AllocPage => SyscallRequest::AllocPage,
        CallCode::SetInfo => SyscallRequest::SetInfo { user_context: arg0, ttbr0: arg1, tcr_el1: arg2, argument: arg3 },
        CallCode::Unblock => SyscallRequest::Unblock {
            pid: if arg0 <= 0xFFFF { Some(arg0 as u16) } else { None },
        },
        CallCode::Block => SyscallRequest::Block,
        CallCode::SendSignal => SyscallRequest::SendSignal { target: arg0 as u16 },
        CallCode::Fork => SyscallRequest::Fork,
        CallCode::Eret => SyscallRequest::Fork,
    }
}

/// The status with which setting an execution's context fails, for each cause.
pub open spec fn context_failure_status(error: ContextError) -> u64 {
    match error {
        ContextError::InaccessibleTtbr0 => 0b010,
        ContextError::MisalignedTtbr0 => 0b011,
        ContextError::InvalidTcrBits => 0b100,
        ContextError::InaccessibleUserContext => 0b110,
        ContextError::MisalignedUserContext => 0b111,
    }
}

/// Return values for system calls, to be stored into registers.
#[derive(Clone, Copy, Debug, PartialEq, Eq, Structural)]
pub struct Return {
    /// Whether or not the system call was successful
    pub status: u64,
    /// Any relevant value returned from the syscall
    pub value: u64,
}

impl Return {
    /// A successful system call, returning `value`.
    pub fn success(value: u64) -> (r: Self)
        ensures
            r == (Return { status: 0, value }),
    {
        Return { status: 0, value }
    }

    /// A failed system call.
    pub fn failure() -> (r: Self)
        ensures
            r == (Return { status: 1, value: 0 }),
    {
        Return { status: 1, value: 0 }
    }

    /// The outcome of a system call that succeeds or fails with no value.
    pub fn from_outcome(succeeded: bool) -> (r: Self)
        ensures
            r == (if succeeded { Return { status: 0, value: 0 } } else { Return { status: 1, value: 0 } }),
    {
        if succeeded {
            Return::success(0)
        } else {
            Return::failure()
        }
    }

    /// The outcome of a page allocation: the page's address, or a failure when no page was
    /// free.
    pub fn from_page(page: Option<u64>) -> (r: Self)
        ensures
            r == (match page {
                Some(addr) => Return { status: 0, value: addr },
                None => Return { status: 1, value: 0 },
            }),
    {
        match page {
            Some(addr) => Return::success(addr),
            None => Return::failure(),
        }
    }

    /// The failure of setting an execution's context, with the status code of its cause.
    pub fn set_context_failure(error: ContextError) -> (r: Self)
        ensures
            r == (Return { status: context_failure_status(error), value: 0 }),
    {
        let status: u64 = match error {
            ContextError::InaccessibleTtbr0 => 0b010,
            ContextError::MisalignedTtbr0 => 0b011,
            ContextError::InvalidTcrBits => 0b100,
            ContextError::InaccessibleUserContext => 0b110,
            ContextError::MisalignedUserContext => 0b111,
        };
        Return { status, value: 0 }
    }
}

} // verus!
