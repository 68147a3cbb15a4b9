//! The SD card host controller (EMMC): command encoding, the clock divisor, and the decoding
//! of the card's responses during initialisation and block reads.
//!
//! The register accesses and the waits are left to the caller, which follows the steps of
//! `Emmc::init_steps` and hands each response to the decoders here.
use vstd::prelude::*;

verus! {

/// The base clock frequency of the SD host, in hertz.
pub const BASE_FREQUENCY: u32 = 41_666_667;

/// The clock frequency used while identifying the card, in hertz.
pub const INIT_FREQUENCY: u32 = 400_000;

/// The clock frequency used once the card is identified, in hertz.
pub const MAIN_FREQUENCY: u32 = 2_500_000;

/// The argument of SEND_IF_COND: the normal voltage range and the check pattern 0xAA, which
/// the card echoes.
pub const IF_COND_ARGUMENT: u32 = 0x1AA;

/// The argument of SD_SEND_OP_COND: high-capacity support, power saving, the voltage window.
pub const OP_COND_ARGUMENT: u32 = 0x40FF_8000;

/// The size of a block, in bytes.
pub const BLOCK_SIZE: u32 = 512;

/// The block size and count register for a read of one block.
pub const ONE_BLOCK: u32 = 0x0001_0200;

/// Bit of the interrupt register that marks a finished command.
pub const INTERRUPT_CMD_DONE: u32 = 1;

/// Bit of the interrupt register that marks a command timeout.
pub const INTERRUPT_CTO_ERR: u32 = 1 << 12;

/// Bit of the interrupt register that marks data ready to be read.
pub const INTERRUPT_READ_RDY: u32 = 1 << 5;

/// Bit of the status register that marks a command line in use.
pub const STATUS_CMD_INHIBIT: u32 = 1;

/// Bit of the status register that marks a data line in use.
pub const STATUS_DAT_INHIBIT: u32 = 2;

/// Bit of the second control register that enables the SD clock.
pub const CONTROL1_CLK_EN: u32 = 1 << 2;

/// Bit of the second control register that reports a stable clock.
pub const CONTROL1_CLK_STABLE: u32 = 1 << 1;

/// Bit of the second control register that resets the host controller.
pub const CONTROL1_SRST_HC: u32 = 1 << 24;

/// How a command's response arrives.
#[derive(Clone, Copy, Debug, PartialEq, Eq, Structural)]
pub enum ResponseType {
    NoResponse,
    Bits136,
    Bits48,
    Bits48Busy,
}

/// The encoding of a response type.
pub open spec fn response_bits(t: ResponseType) -> u32 {
    match t {
        ResponseType::NoResponse => 0b00,
        ResponseType::Bits136 => 0b01,
        ResponseType::Bits48 => 0b10,
        ResponseType::Bits48Busy => 0b11,
    }
}

/// The commands the driver sends.
#[derive(Clone, Copy, Debug, PartialEq, Eq, Structural)]
pub enum Command {
    GoIdleState,
    AllSendCid,
    SendRelativeAddr,
    SelectCard,
    SendIfCond,
    SendCsd,
    SetBlocklen,
    ReadSingleBlock,
    SdSendOpCond,
    AppCmd,
}

/// The index of each command.
pub open spec fn command_index(c: Command) -> u32 {
    match c {
        Command::GoIdleState => 0,
        Command::AllSendCid => 2,
        Command::SendRelativeAddr => 3,
        Command::SelectCard => 7,
        Command::SendIfCond => 8,
        Command::SendCsd => 9,
        Command::SetBlocklen => 16,
        Command::ReadSingleBlock => 17,
        Command::SdSendOpCond => 41,
        Command::AppCmd => 55,
    }
}

/// The response type the driver asks for with each command.
pub open spec fn command_response(c: Command) -> ResponseType {
    match c {
        Command::GoIdleState => ResponseType::NoResponse,
        Command::AppCmd => ResponseType::NoResponse,
        Command::AllSendCid => ResponseType::Bits136,
        Command::SendCsd => ResponseType::Bits136,
        Command::SelectCard => ResponseType::Bits48Busy,
        _ => ResponseType::Bits48,
    }
}

/// The command and transfer mode word of a command: its index, its response type, and for a
/// block read, a data transfer from the card to the host.
pub open spec fn command_word_bits(c: Command) -> u32 {
    let base = (command_index(c) << 24u32) | (response_bits(command_response(c)) << 16u32);
    if c == Command::ReadSingleBlock {
        base | (1u32 << 21u32) | (1u32 << 4u32)
    } else {
        base
    }
}

impl Command {
    /// The index of the command.
    pub fn index(self) -> (r: u32)
        ensures
            r == command_index(self),
    {
        match self {
            Command::GoIdleState => 0,
            Command::AllSendCid => 2,
            Command::SendRelativeAddr => 3,
            Command::SelectCard => 7,
            Command::SendIfCond => 8,
            Command::SendCsd => 9,
            Command::SetBlocklen => 16,
            Command::ReadSingleBlock => 17,
            Command::SdSendOpCond => 41,
            Command::AppCmd => 55,
        }
    }

    /// The response type the driver asks for.
    pub fn response(self) -> (r: ResponseType)
        ensures
            r == command_response(self),
    {
        match self {
            Command::GoIdleState => ResponseType::NoResponse,
            Command::AppCmd => ResponseType::NoResponse,
            Command::AllSendCid => ResponseType::Bits136,
            Command::SendCsd => ResponseType::Bits136,
            Command::SelectCard => ResponseType::Bits48Busy,
            _ => ResponseType::Bits48,
        }
    }

    /// The command and transfer mode word that sends the command.
    pub fn word(self) -> (r: u32)
        ensures
            r == command_word_bits(self),
    {
        let t: u32 = match self.response() {
            ResponseType::NoResponse => 0b00,
            ResponseType::Bits136 => 0b01,
            ResponseType::Bits48 => 0b10,
            ResponseType::Bits48Busy => 0b11,
        };
        let base = (self.index() << 24u32) | (t << 16u32);
        match self {
            Command::ReadSingleBlock => base | (1u32 << 21u32) | (1u32 << 4u32),
            _ => base,
        }
    }
}

/// The clock divisor for `hz`: the base frequency divided by `hz`, rounded up, so that the
/// clock never runs faster than asked.
pub open spec fn clock_divisor(hz: u32) -> int {
    (BASE_FREQUENCY as int + hz as int - 1) / hz as int
}

/// The second control register with the clock divisor for `hz` in its two divisor fields: the
/// low eight bits of the divisor, and the next two.
pub open spec fn with_divisor(control1: u32, hz: u32) -> u32 {
    let d = clock_divisor(hz) as u32;
    (control1 & !((0xFFu32 << 8u32) | (0x3u32 << 6u32))) | ((d & 0xFF) << 8u32) | (((d >> 8u32)
        & 0x3) << 6u32)
}

/// The second control register with the clock divisor for `hz`.
pub fn set_clock_frequency(control1: u32, hz: u32) -> (r: u32)
    requires
        hz > 0,
    ensures
        r == with_divisor(control1, hz),
{
    let divisor: u32 = BASE_FREQUENCY / hz + if BASE_FREQUENCY % hz == 0 { 0 } else { 1 };
    assert(divisor == clock_divisor(hz)) by (nonlinear_arith)
        requires
            divisor == BASE_FREQUENCY / hz + if BASE_FREQUENCY % hz == 0 { 0int } else { 1int },
            hz > 0,
    {
        vstd::arithmetic::div_mod::lemma_fundamental_div_mod(BASE_FREQUENCY as int, hz as int);
        vstd::arithmetic::div_mod::lemma_fundamental_div_mod(
            BASE_FREQUENCY as int + hz as int - 1,
            hz as int,
        );
    }
    let div_lo = divisor & 0xFF;
    let div_hi = divisor >> 8u32;
    (control1 & !((0xFFu32 << 8u32) | (0x3u32 << 6u32))) | (div_lo << 8u32) | ((div_hi & 0x3)
        << 6u32)
}

/// The second control register with the SD clock enabled or disabled.
pub fn with_clock_enabled(control1: u32, enabled: bool) -> (r: u32)
    ensures
        r == (if enabled { control1 | CONTROL1_CLK_EN } else { control1 & !CONTROL1_CLK_EN }),
{
    if enabled {
        control1 | CONTROL1_CLK_EN
    } else {
        control1 & !CONTROL1_CLK_EN
    }
}

/// The second control register with the data timeout unit and the internal clock set, as the
/// initialisation does after the reset.
pub fn with_timeouts_configured(control1: u32) -> (r: u32)
    ensures
        r == (control1 & !(0xFu32 << 16u32)) | (0b1110u32 << 16u32) | 1,
{
    (control1 & !(0xFu32 << 16u32)) | (0b1110u32 << 16u32) | 1
}

/// What waiting for a command gives.
#[derive(Clone, Copy, Debug, PartialEq, Eq, Structural)]
pub enum CommandWait {
    /// The command is still in progress.
    Pending,
    /// The command finished; `false` if it timed out.
    Finished(bool),
}

/// Waits for a command, given the interrupt and status registers: it is in progress while
/// neither a completion nor a timeout is flagged and the command line is in use.
pub fn wait_for_cmd_done(interrupt: u32, status: u32) -> (r: CommandWait)
    ensures
        r == (if interrupt & (INTERRUPT_CMD_DONE | INTERRUPT_CTO_ERR) == 0 && status
            & STATUS_CMD_INHIBIT != 0 {
            CommandWait::Pending
        } else {
            CommandWait::Finished(interrupt & INTERRUPT_CTO_ERR == 0)
        }),
{
    if interrupt & (INTERRUPT_CMD_DONE | INTERRUPT_CTO_ERR) == 0 && status & STATUS_CMD_INHIBIT
        != 0 {
        CommandWait::Pending
    } else {
        CommandWait::Finished(interrupt & INTERRUPT_CTO_ERR == 0)
    }
}

/// The 136-bit response assembled from the four response registers.
pub open spec fn response_value(r0: u32, r1: u32, r2: u32, r3: u32) -> u128 {
    ((r3 as u128) << 96u128) | ((r2 as u128) << 64u128) | ((r1 as u128) << 32u128) | (r0 as u128)
}

/// Assembles a 136-bit response from the four response registers.
pub fn read_128bit_response(r0: u32, r1: u32, r2: u32, r3: u32) -> (r: u128)
    ensures
        r == response_value(r0, r1, r2, r3),
{
    ((r3 as u128) << 96u128) | ((r2 as u128) << 64u128) | ((r1 as u128) << 32u128) | (r0 as u128)
}

/// Whether the card accepted the interface condition: it echoes the argument.
pub fn send_if_cond_accepted(response: u32) -> (r: bool)
    ensures
        r == (response == IF_COND_ARGUMENT),
{
    response == IF_COND_ARGUMENT
}

/// Whether the card has finished powering up after SD_SEND_OP_COND.
pub fn op_cond_ready(response: u32) -> (r: bool)
    ensures
        r == (response & 0x8000_0000 != 0),
{
    response & 0x8000_0000 != 0
}

/// The card's state before SEND_RELATIVE_ADDR, from its response.
pub open spec fn previous_state(response: u32) -> u32 {
    (response >> 9u32) & 0b11
}

/// The argument of a command addressed to the card with relative address `rca`.
pub fn rca_argument(rca: u16) -> (r: u32)
    ensures
        r == (rca as u32) << 16u32,
{
    (rca as u32) << 16u32
}

/// The argument of the read of block `blk`: its byte address.
pub fn read_block_argument(blk: u32) -> (r: u32)
    ensures
        r == blk << 9u32,
{
    blk << 9u32
}

/// The card states.
#[derive(Clone, Copy, Debug, PartialEq, Eq, Structural)]
pub enum SdState {
    Idle,
    Ready,
    Ident,
    Stby,
    Tran,
    Data,
    Rcv,
    Prg,
    Dis,
    Reserved,
    ReservedIoMode,
}

/// The state named by a state number; numbers that name no state are `Reserved`.
pub open spec fn sd_state_of(value: u32) -> SdState {
    if value == 0 {
        SdState::Idle
    } else if value == 1 {
        SdState::Ready
    } else if value == 2 {
        SdState::Ident
    } else if value == 3 {
        SdState::Stby
    } else if value == 4 {
        SdState::Tran
    } else if value == 5 {
        SdState::Data
    } else if value == 6 {
        SdState::Rcv
    } else if value == 7 {
        SdState::Prg
    } else if value == 8 {
        SdState::Dis
    } else if value == 15 {
        SdState::ReservedIoMode
    } else {
        SdState::Reserved
    }
}

impl SdState {
    /// The state named by a state number.
    pub fn from_bits(value: u32) -> (r: Self)
        ensures
            r == sd_state_of(value),
    {
        if value == 0 {
            SdState::Idle
        } else if value == 1 {
            SdState::Ready
        } else if value == 2 {
            SdState::Ident
        } else if value == 3 {
            SdState::Stby
        } else if value == 4 {
            SdState::Tran
        } else if value == 5 {
            SdState::Data
        } else if value == 6 {
            SdState::Rcv
        } else if value == 7 {
            SdState::Prg
        } else if value == 8 {
            SdState::Dis
        } else if value == 15 {
            SdState::ReservedIoMode
        } else {
            SdState::Reserved
        }
    }
}

/// The card's current state in a card status word.
pub fn current_state(status: u32) -> (r: SdState)
    ensures
        r == sd_state_of((status >> 9u32) & 0xF),
{
    SdState::from_bits((status >> 9u32) & 0xF)
}

/// The block length, size and size multiplier fields of a card-specific data register.
pub fn csd_fields(csd: u128) -> (r: (u32, u32, u32))
    ensures
        r == (((csd >> 72u128) & 0xF) as u32, ((csd >> 54u128) & 0xFFF) as u32, ((csd >> 39u128)
            & 0x7) as u32),
{
    assert((csd >> 72u128) & 0xF <= 0xF && (csd >> 54u128) & 0xFFF <= 0xFFF && (csd >> 39u128) & 0x7
        <= 7) by (bit_vector);
    (((csd >> 72u128) & 0xF) as u32, ((csd >> 54u128) & 0xFFF) as u32, ((csd >> 39u128) & 0x7) as u32)
}

/// A step of the card's initialisation.
#[derive(Clone, Copy, Debug, PartialEq, Eq, Structural)]
pub enum InitStep {
    /// Reset the host controller and wait for the reset to finish.
    Reset,
    /// Configure the data timeout and the internal clock.
    ConfigureTimeouts,
    /// Set the SD clock to the given frequency.
    SetClock(u32),
    /// Unmask and enable every interrupt, to be polled.
    EnableInterrupts,
    /// Send a command with the given argument source.
    Send(Command),
    /// Set the block length to the given size.
    SetBlocklen(u32),
}

/// The SD card host controller and what it learned of the card.
pub struct Emmc {
    base_address: usize,
    rca: u16,
    csd: u128,
}

impl Emmc {
    /// The card's relative address, 0 before it has one.
    pub closed spec fn spec_rca(&self) -> u16 {
        self.rca
    }

    /// The card-specific data, 0 before it was read.
    pub closed spec fn spec_csd(&self) -> u128 {
        self.csd
    }

    /// The address of the controller's registers.
    pub closed spec fn spec_base_address(&self) -> usize {
        self.base_address
    }

    /// A driver for the controller at `addr`, which knows nothing of the card yet.
    pub fn new(addr: usize) -> (r: Self)
        ensures
            r.spec_base_address() == addr,
            r.spec_rca() == 0,
            r.spec_csd() == 0,
    {
        Emmc { base_address: addr, rca: 0, csd: 0 }
    }

    /// The address of the controller's registers.
    pub fn base_address(&self) -> (r: usize)
        ensures
            r == self.spec_base_address(),
    {
        self.base_address
    }

    /// The card's relative address.
    pub fn rca(&self) -> (r: u16)
        ensures
            r == self.spec_rca(),
    {
        self.rca
    }

    /// The card-specific data.
    pub fn csd(&self) -> (r: u128)
        ensures
            r == self.spec_csd(),
    {
        self.csd
    }

    /// Records the relative address the card published in its answer to SEND_RELATIVE_ADDR.
    /// The card must have been identifying itself before the command.
    pub fn send_relative_addr(&mut self, response: u32)
        requires
            previous_state(response) == 2,
        ensures
            final(self).spec_rca() == response >> 16u32,
            final(self).spec_csd() == old(self).spec_csd(),
            final(self).spec_base_address() == old(self).spec_base_address(),
    {
        let high = response >> 16u32;
        assert(high <= 0xFFFF) by (bit_vector)
            requires
                high == response >> 16u32,
        ;
        self.rca = high as u16;
    }

    /// Records the card-specific data read from the four response registers.
    pub fn send_csd(&mut self, r0: u32, r1: u32, r2: u32, r3: u32)
        ensures
            final(self).spec_csd() == response_value(r0, r1, r2, r3),
            final(self).spec_rca() == old(self).spec_rca(),
            final(self).spec_base_address() == old(self).spec_base_address(),
    {
        self.csd = read_128bit_response(r0, r1, r2, r3);
    }

    /// The argument of a command addressed to the card.
    pub fn card_argument(&self) -> (r: u32)
        ensures
            r == (self.spec_rca() as u32) << 16u32,
    {
        rca_argument(self.rca)
    }

    /// The steps of the card's initialisation, in order.
    pub fn init_steps() -> (r: Vec<InitStep>)
        ensures
            r@ == seq![
                InitStep::Reset,
                InitStep::ConfigureTimeouts,
                InitStep::SetClock(INIT_FREQUENCY),
                InitStep::EnableInterrupts,
                InitStep::Send(Command::GoIdleState),
                InitStep::Send(Command::SendIfCond),
                InitStep::Send(Command::SdSendOpCond),
                InitStep::Send(Command::AllSendCid),
                InitStep::Send(Command::SendRelativeAddr),
                InitStep::Send(Command::SendCsd),
                InitStep::SetClock(MAIN_FREQUENCY),
                InitStep::Send(Command::SelectCard),
                InitStep::SetBlocklen(BLOCK_SIZE),
            ],
    {
        let r = vec![
            InitStep::Reset,
            InitStep::ConfigureTimeouts,
            InitStep::SetClock(INIT_FREQUENCY),
            InitStep::EnableInterrupts,
            InitStep::Send(Command::GoIdleState),
            InitStep::Send(Command::SendIfCond),
            InitStep::Send(Command::SdSendOpCond),
            InitStep::Send(Command::AllSendCid),
            InitStep::Send(Command::SendRelativeAddr),
            InitStep::Send(Command::SendCsd),
            InitStep::SetClock(MAIN_FREQUENCY),
            InitStep::Send(Command::SelectCard),
            InitStep::SetBlocklen(BLOCK_SIZE),
        ];
        r
    }
}

/// The clock never runs faster than asked: the base frequency divided by the divisor is at
/// most the requested frequency, and a divisor one smaller would exceed it.
pub proof fn law_clock_divisor_rounds_up(hz: u32)
    requires
        hz > 0,
    ensures
        clock_divisor(hz) * hz >= BASE_FREQUENCY,
        (clock_divisor(hz) - 1) * hz < BASE_FREQUENCY,
{
    let n = BASE_FREQUENCY as int;
    let h = hz as int;
    vstd::arithmetic::div_mod::lemma_fundamental_div_mod(n + h - 1, h);
    vstd::arithmetic::div_mod::lemma_mod_pos_bound(n + h - 1, h);
    let q = (n + h - 1) / h;
    let m = (n + h - 1) % h;
    assert(q * h >= n && (q - 1) * h < n) by (nonlinear_arith)
        requires
            n + h - 1 == h * q + m,
            0 <= m < h,
            h > 0,
    ;
}

} // verus!
