//! The PL011 UART: decoding of its status registers, the values written to configure it, and
//! the byte order of the words sent over it.
use vstd::prelude::*;

verus! {

/// IO errors associated with UART.
#[derive(Clone, Copy, Debug, PartialEq, Eq, Structural)]
pub enum IoError {
    /// A break error occurred on the connection
    Break,
    /// A frame error occurred on the connection
    Frame,
    /// The receive FIFO was overrun
    Overrun,
    /// A parity error occured on received data
    Parity,
}

/// Bit of the overrun error in the raw interrupt status register.
pub const RIS_OVERRUN: u32 = 10;
/// Bit of the break error in the raw interrupt status register.
pub const RIS_BREAK: u32 = 9;
/// Bit of the parity error in the raw interrupt status register.
pub const RIS_PARITY: u32 = 8;
/// Bit of the frame error in the raw interrupt status register.
pub const RIS_FRAME: u32 = 7;
/// Bit of the flag register telling that the transmit FIFO is full.
pub const FR_TXFF: u32 = 5;
/// Bit of the flag register telling that the receive FIFO is empty.
pub const FR_RXFE: u32 = 4;
/// Bit of the flag register telling that the UART is busy transmitting.
pub const FR_BUSY: u32 = 3;

/// Whether bit `bit` of `word` is set.
pub open spec fn bit_set(word: u32, bit: u32) -> bool {
    (word >> bit) & 1 == 1
}

/// Returns `Ok` if the raw interrupt status `ris` shows no error, otherwise returns an `Err`
/// corresponding to the first error found, in the order overrun, break, parity, frame.
pub fn check_errors(ris: u32) -> (r: Result<(), IoError>)
    ensures
        r == (if bit_set(ris, RIS_OVERRUN) {
            Err(IoError::Overrun)
        } else if bit_set(ris, RIS_BREAK) {
            Err(IoError::Break)
        } else if bit_set(ris, RIS_PARITY) {
            Err(IoError::Parity)
        } else if bit_set(ris, RIS_FRAME) {
            Err(IoError::Frame)
        } else {
            Ok(())
        }),
{
    if (ris >> RIS_OVERRUN) & 1 == 1 {
        Err(IoError::Overrun)
    } else if (ris >> RIS_BREAK) & 1 == 1 {
        Err(IoError::Break)
    } else if (ris >> RIS_PARITY) & 1 == 1 {
        Err(IoError::Parity)
    } else if (ris >> RIS_FRAME) & 1 == 1 {
        Err(IoError::Frame)
    } else {
        Ok(())
    }
}

/// Whether the transmit FIFO, with flag register `fr`, accepts a byte.
pub fn can_transmit(fr: u32) -> (r: bool)
    ensures
        r == !bit_set(fr, FR_TXFF),
{
    (fr >> FR_TXFF) & 1 != 1
}

/// Whether the receive FIFO, with flag register `fr`, holds a byte.
pub fn can_receive(fr: u32) -> (r: bool)
    ensures
        r == !bit_set(fr, FR_RXFE),
{
    (fr >> FR_RXFE) & 1 != 1
}

/// Whether the UART, with flag register `fr`, is still transmitting.
pub fn is_busy(fr: u32) -> (r: bool)
    ensures
        r == bit_set(fr, FR_BUSY),
{
    (fr >> FR_BUSY) & 1 == 1
}

/// The byte received, from the value of the data register.
pub fn received_byte(dr: u32) -> (r: u8)
    ensures
        r == dr & 0xFF,
{
    assert(dr & 0xFF <= 0xFF) by (bit_vector);
    (dr & 0xFF) as u8
}

/// The values of the integer and fractional baud rate divisor registers for the given divisor.
pub fn divider_registers(integral: u16, fractional: u8) -> (r: (u32, u32))
    ensures
        r == (integral as u32, (fractional & 0x3F) as u32),
{
    (integral as u32, (fractional & 0x3F) as u32)
}

/// The control register `cr` with the UART enabled or disabled.
pub fn with_uart_enabled(cr: u32, enabled: bool) -> (r: u32)
    ensures
        r == (if enabled { cr | 1 } else { cr & !1u32 }),
{
    if enabled {
        cr | 1
    } else {
        cr & !1u32
    }
}

/// The control register value that disables the UART.
pub const CR_DISABLED: u32 = 0;

/// The control register value that enables the UART with transmission and reception and no
/// hardware flow control or loopback.
pub const CR_ENABLED: u32 = 0x301;

/// The line control register value for 8 data bits, FIFOs, one stop bit, no parity, no break.
pub const LCRH_8N1_FIFO: u32 = 0x70;

/// The interrupt clear register value that clears every interrupt.
pub const ICR_CLEAR_ALL: u32 = 0xFFFF_FFFF;

/// What a driver waiting on a FIFO does next.
#[derive(Clone, Copy, Debug, PartialEq, Eq, Structural)]
pub enum Poll {
    /// The FIFO is ready: transfer the byte.
    Ready,
    /// The FIFO is not ready and no error is pending: poll again.
    Wait,
    /// An error is pending: give up with it.
    Fail(IoError),
}

/// The poll outcome for a FIFO that is ready exactly when `ready`, with raw interrupt status
/// `ris`.
pub open spec fn poll_outcome(ready: bool, ris: u32) -> Poll {
    if ready {
        Poll::Ready
    } else if bit_set(ris, RIS_OVERRUN) {
        Poll::Fail(IoError::Overrun)
    } else if bit_set(ris, RIS_BREAK) {
        Poll::Fail(IoError::Break)
    } else if bit_set(ris, RIS_PARITY) {
        Poll::Fail(IoError::Parity)
    } else if bit_set(ris, RIS_FRAME) {
        Poll::Fail(IoError::Frame)
    } else {
        Poll::Wait
    }
}

/// What a driver that wants to write a byte does, given the flag register `fr` and the raw
/// interrupt status `ris`: write once the transmit FIFO has room, and fail on a pending error
/// while it is full.
pub fn write_byte_poll(fr: u32, ris: u32) -> (r: Poll)
    ensures
        r == poll_outcome(!bit_set(fr, FR_TXFF), ris),
{
    if can_transmit(fr) {
        Poll::Ready
    } else {
        match check_errors(ris) {
            Ok(()) => Poll::Wait,
            Err(e) => Poll::Fail(e),
        }
    }
}

/// What a driver that wants to read a byte does, given the flag register `fr` and the raw
/// interrupt status `ris`: read once the receive FIFO holds a byte, and fail on a pending error
/// while it is empty.
pub fn read_byte_poll(fr: u32, ris: u32) -> (r: Poll)
    ensures
        r == poll_outcome(!bit_set(fr, FR_RXFE), ris),
{
    if can_receive(fr) {
        Poll::Ready
    } else {
        match check_errors(ris) {
            Ok(()) => Poll::Wait,
            Err(e) => Poll::Fail(e),
        }
    }
}

/// Whether a driver that discards residual input reads (and drops) another byte.
pub fn clear_reads(fr: u32) -> (r: bool)
    ensures
        r == !bit_set(fr, FR_RXFE),
{
    can_receive(fr)
}

/// The register writes that change the baud rate divisor: the control register with the UART
/// disabled, the integer and fractional divisor registers, and the control register with the
/// UART enabled again; the caller first waits until the UART is not busy.
pub fn set_divider(cr: u32, integral: u16, fractional: u8) -> (r: (u32, u32, u32, u32))
    ensures
        r == (cr & !1u32, integral as u32, (fractional & 0x3F) as u32, (cr & !1u32) | 1),
{
    let disabled = with_uart_enabled(cr, false);
    let (ibrd, fbrd) = divider_registers(integral, fractional);
    (disabled, ibrd, fbrd, with_uart_enabled(disabled, true))
}

/// The PL011 UART at a base address.
pub struct Uart {
    base_address: usize,
}

impl Uart {
    /// The address of the UART's registers.
    pub closed spec fn spec_base_address(&self) -> usize {
        self.base_address
    }

    /// Creates a driver for the UART registers at `base_address`.
    ///
    /// Returns `None` if the address is not aligned for 32-bit words. Once created, the caller
    /// waits while the UART is busy, writes `CR_DISABLED`, `ICR_CLEAR_ALL`, `LCRH_8N1_FIFO` and
    /// then `CR_ENABLED`.
    pub fn new(base_address: usize) -> (r: Option<Self>)
        requires
            base_address != 0,
        ensures
            r is Some <==> base_address % 4 == 0,
            r matches Some(u) ==> u.spec_base_address() == base_address,
    {
        if base_address % 4 != 0 {
            return None;
        }
        Some(Uart { base_address })
    }

    /// The address of the UART's registers.
    pub fn base_address(&self) -> (r: usize)
        ensures
            r == self.spec_base_address(),
    {
        self.base_address
    }
}

/// A read of a fixed number of bytes, filled one byte at a time.
pub struct ByteReader {
    bytes: Vec<u8>,
    wanted: usize,
}

impl ByteReader {
    /// The bytes received so far.
    pub closed spec fn view(&self) -> Seq<u8> {
        self.bytes@
    }

    /// The number of bytes to read.
    pub closed spec fn spec_wanted(&self) -> usize {
        self.wanted
    }

    /// Never more bytes than wanted.
    pub closed spec fn wf(&self) -> bool {
        self.bytes@.len() <= self.wanted
    }

    /// A read of `wanted` bytes, with none received yet.
    pub fn new(wanted: usize) -> (r: Self)
        ensures
            r.wf(),
            r@ == Seq::<u8>::empty(),
            r.spec_wanted() == wanted,
    {
        ByteReader { bytes: Vec::new(), wanted }
    }

    /// Whether every wanted byte has been received.
    pub fn is_complete(&self) -> (r: bool)
        requires
            self.wf(),
        ensures
            r == (self@.len() == self.spec_wanted()),
    {
        self.bytes.len() == self.wanted
    }

    /// Records the byte in the data register value `dr`, read once `read_byte_poll` said
    /// `Ready`.
    pub fn read_bytes(&mut self, dr: u32)
        requires
            old(self).wf(),
            old(self)@.len() < old(self).spec_wanted(),
        ensures
            final(self).wf(),
            final(self)@ == old(self)@.push((dr & 0xFF) as u8),
            final(self).spec_wanted() == old(self).spec_wanted(),
    {
        let b = received_byte(dr);
        self.bytes.push(b);
    }

    /// The bytes received.
    pub fn bytes(&self) -> (r: &Vec<u8>)
        ensures
            r@ == self@,
    {
        &self.bytes
    }
}

/// The bytes that write a `u32`, in the order they are written: least significant first.
pub fn write_u32(num: u32) -> (r: [u8; 4])
    ensures
        r@ == le_bytes(num),
{
    u32_to_le_bytes(num)
}

/// The bytes of a `u32`, least significant first.
pub open spec fn le_bytes(num: u32) -> Seq<u8> {
    seq![
        (num & 0xFF) as u8,
        ((num >> 8u32) & 0xFF) as u8,
        ((num >> 16u32) & 0xFF) as u8,
        ((num >> 24u32) & 0xFF) as u8,
    ]
}

/// The `u32` with the given bytes, least significant first.
pub open spec fn from_le_bytes(b: Seq<u8>) -> u32 {
    (b[0] as u32) | ((b[1] as u32) << 8u32) | ((b[2] as u32) << 16u32) | ((b[3] as u32) << 24u32)
}

/// The bytes in which a little-endian `u32` is sent.
pub fn u32_to_le_bytes(num: u32) -> (r: [u8; 4])
    ensures
        r@ == le_bytes(num),
{
    assert((num & 0xFF) <= 0xFF && ((num >> 8u32) & 0xFF) <= 0xFF && ((num >> 16u32) & 0xFF) <= 0xFF && ((num >> 24u32) & 0xFF) <= 0xFF) by (bit_vector);
    let r = [
        (num & 0xFF) as u8,
        ((num >> 8u32) & 0xFF) as u8,
        ((num >> 16u32) & 0xFF) as u8,
        ((num >> 24u32) & 0xFF) as u8,
    ];
    assert(r@ =~= le_bytes(num));
    r
}

/// The `u32` received as the given bytes, least significant first.
pub fn u32_from_le_bytes(bytes: [u8; 4]) -> (r: u32)
    ensures
        r == from_le_bytes(bytes@),
{
    (bytes[0] as u32) | ((bytes[1] as u32) << 8u32) | ((bytes[2] as u32) << 16u32) | ((bytes[3] as u32) << 24u32)
}

/// A `u32` sent and received as little-endian bytes arrives unchanged.
pub proof fn law_le_bytes_round_trip(num: u32)
    ensures
        from_le_bytes(le_bytes(num)) == num,
{
    let b0 = (num & 0xFF) as u8;
    let b1 = ((num >> 8u32) & 0xFF) as u8;
    let b2 = ((num >> 16u32) & 0xFF) as u8;
    let b3 = ((num >> 24u32) & 0xFF) as u8;
    assert((b0 as u32) | ((b1 as u32) << 8u32) | ((b2 as u32) << 16u32) | ((b3 as u32) << 24u32) == num) by (bit_vector)
        requires
            b0 == (num & 0xFF) as u8,
            b1 == ((num >> 8u32) & 0xFF) as u8,
            b2 == ((num >> 16u32) & 0xFF) as u8,
            b3 == ((num >> 24u32) & 0xFF) as u8,
    ;
}

} // verus!
