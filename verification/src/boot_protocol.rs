//! The serial protocol between the bootloader on the board and the server on the host.
//!
//! The server echoes every byte it receives, except an escape byte, which announces a request:
//! the byte after it is the operation. Operation 0 asks for a kernel: the server sends the
//! kernel's size as a little-endian `u32`, then the kernel, and waits for one acknowledgement
//! byte, 0 for success. Operation 1 negotiates a baud rate: the board sends its highest rate, the
//! server answers with the rate to use and waits for an acknowledgement before switching.
//!
//! This module holds both sides' decisions; the serial port, the files and the console are the
//! callers'.
use vstd::prelude::*;
use crate::uart::{le_bytes, from_le_bytes, u32_to_le_bytes, u32_from_le_bytes, IoError};

verus! {

/// The byte that announces a request to the server.
pub const SERVER_REQUEST: u8 = 0x1B;

/// The operation that asks for a kernel.
pub const OP_LOAD_KERNEL: u8 = 0;

/// The operation that negotiates a baud rate.
pub const OP_CONFIGURE_BAUD: u8 = 1;

/// The acknowledgement of a successful operation.
pub const ACK_OK: u8 = 0;

/// The acknowledgement of a failed kernel load.
pub const ACK_FAILED: u8 = 0xFF;

/// The byte the bootloader sends when it has no address to load a kernel to.
pub const NO_LOAD_ADDRESS: u8 = 1;

/// The baud rate a connection is opened with, unless a lower maximum is asked for.
pub const DEFAULT_BAUD_RATE: u32 = 921_600;

// ---------------------------------------------------------------------------------------------
// The bootloader's side

/// The bytes the bootloader sends to ask for a kernel.
pub fn kernel_request() -> (r: [u8; 2])
    ensures
        r@ == seq![SERVER_REQUEST, OP_LOAD_KERNEL],
{
    let r = [SERVER_REQUEST, OP_LOAD_KERNEL];
    assert(r@ =~= seq![SERVER_REQUEST, OP_LOAD_KERNEL]);
    r
}

/// The size of the kernel announced by the header bytes.
pub fn kernel_size(header: [u8; 4]) -> (r: u32)
    ensures
        r == from_le_bytes(header@),
{
    u32_from_le_bytes(header)
}

/// Where a kernel of `size` bytes is loaded when the bootloader was started at `address`.
#[derive(Clone, Copy, Debug, PartialEq, Eq, Structural)]
pub enum LoadTarget {
    /// The kernel is read into the `len` bytes at `start`.
    Region { start: usize, len: usize },
    /// There is no address to load to: the bootloader sends `NO_LOAD_ADDRESS` and the attempt
    /// fails with a frame error.
    NoAddress,
}

/// Where a kernel of `size` bytes goes, for a bootloader started at `address`.
pub fn load_target(address: usize, size: u32) -> (r: LoadTarget)
    requires
        size <= usize::MAX,
    ensures
        address == 0 ==> r == LoadTarget::NoAddress,
        address != 0 ==> r == (LoadTarget::Region { start: address, len: size as usize }),
{
    if address == 0 {
        LoadTarget::NoAddress
    } else {
        LoadTarget::Region { start: address, len: size as usize }
    }
}

/// The error of an attempt that found no address to load to.
pub fn no_address_error() -> (r: IoError)
    ensures
        r == IoError::Frame,
{
    IoError::Frame
}

/// The outcome of a load attempt to `target`, given how reading the kernel into it went: the
/// address the kernel was loaded to once it was read in full, the read's error otherwise, and a
/// frame error when there was no address to load to (nothing is read then).
pub fn load_outcome(target: LoadTarget, read: Result<(), IoError>) -> (r: Result<usize, IoError>)
    ensures
        r == (match target {
            LoadTarget::Region { start, len } => match read {
                Ok(()) => Ok::<usize, IoError>(start),
                Err(e) => Err(e),
            },
            LoadTarget::NoAddress => Err(IoError::Frame),
        }),
{
    match target {
        LoadTarget::Region { start, len } => match read {
            Ok(()) => Ok(start),
            Err(e) => Err(e),
        },
        LoadTarget::NoAddress => Err(no_address_error()),
    }
}

/// The byte that reports the outcome of a load attempt to the server: `ACK_OK` on success,
/// `ACK_FAILED` otherwise, after which the bootloader tries again.
pub fn load_acknowledgement(outcome: Result<usize, IoError>) -> (r: u8)
    ensures
        r == (if outcome is Ok { ACK_OK } else { ACK_FAILED }),
{
    match outcome {
        Ok(_) => ACK_OK,
        Err(_) => ACK_FAILED,
    }
}

// ---------------------------------------------------------------------------------------------
// The server's side

/// What a read from the serial connection gave.
#[derive(Clone, Copy, Debug, PartialEq, Eq, Structural)]
pub enum Received {
    /// A byte.
    Byte(u8),
    /// Nothing arrived in time.
    TimedOut,
    /// The read failed otherwise (including the end of the input).
    Failed,
}

/// Where the server is in the byte stream.
#[derive(Clone, Copy, Debug, PartialEq, Eq, Structural)]
pub enum ServerState {
    /// Bytes are echoed.
    Echo,
    /// An escape byte was read; the next byte is an operation.
    Escaped,
}

/// What the server does after a read.
#[derive(Clone, Copy, Debug, PartialEq, Eq, Structural)]
pub enum ServerAction {
    /// Write the byte to standard output and flush it.
    Print(u8),
    /// Nothing; read on.
    Continue,
    /// Send the kernel: its size, its bytes, then wait for an acknowledgement.
    SendKernel,
    /// Negotiate the baud rate.
    ConfigureBaud,
    /// Warn of an operation that does not exist, and read on.
    BadOpcode(u8),
    /// Stop with the read error.
    Stop,
}

/// The server's step: its state after the read, and its action.
pub open spec fn server_transition(state: ServerState, received: Received) -> (
    ServerState,
    ServerAction,
) {
    match state {
        ServerState::Echo => match received {
            Received::Byte(b) => if b == SERVER_REQUEST {
                (ServerState::Escaped, ServerAction::Continue)
            } else {
                (ServerState::Echo, ServerAction::Print(b))
            },
            Received::TimedOut => (ServerState::Echo, ServerAction::Continue),
            Received::Failed => (ServerState::Echo, ServerAction::Stop),
        },
        ServerState::Escaped => match received {
            Received::Byte(b) => if b == OP_LOAD_KERNEL {
                (ServerState::Echo, ServerAction::SendKernel)
            } else if b == OP_CONFIGURE_BAUD {
                (ServerState::Echo, ServerAction::ConfigureBaud)
            } else {
                (ServerState::Echo, ServerAction::BadOpcode(b))
            },
            Received::TimedOut => (ServerState::Echo, ServerAction::Stop),
            Received::Failed => (ServerState::Echo, ServerAction::Stop),
        },
    }
}

/// Decides what the server does with what a read gave.
pub fn server_step(state: ServerState, received: Received) -> (r: (ServerState, ServerAction))
    ensures
        r == server_transition(state, received),
{
    match state {
        ServerState::Echo => match received {
            Received::Byte(b) => if b == SERVER_REQUEST {
                (ServerState::Escaped, ServerAction::Continue)
            } else {
                (ServerState::Echo, ServerAction::Print(b))
            },
            Received::TimedOut => (ServerState::Echo, ServerAction::Continue),
            Received::Failed => (ServerState::Echo, ServerAction::Stop),
        },
        ServerState::Escaped => match received {
            Received::Byte(b) => if b == OP_LOAD_KERNEL {
                (ServerState::Echo, ServerAction::SendKernel)
            } else if b == OP_CONFIGURE_BAUD {
                (ServerState::Echo, ServerAction::ConfigureBaud)
            } else {
                (ServerState::Echo, ServerAction::BadOpcode(b))
            },
            Received::TimedOut => (ServerState::Echo, ServerAction::Stop),
            Received::Failed => (ServerState::Echo, ServerAction::Stop),
        },
    }
}

/// How the server reports the acknowledgement it waited for.
#[derive(Clone, Copy, Debug, PartialEq, Eq, Structural)]
pub enum Acknowledgement {
    /// The operation succeeded.
    Success,
    /// The board answered with this error code.
    ErrorCode(u8),
    /// No answer came in time.
    TimedOut,
    /// The read failed otherwise; nothing is reported.
    Silent,
}

/// Interprets the acknowledgement read after an operation.
pub fn check_ok(received: Received) -> (r: Acknowledgement)
    ensures
        r == (match received {
            Received::Byte(b) => if b == ACK_OK {
                Acknowledgement::Success
            } else {
                Acknowledgement::ErrorCode(b)
            },
            Received::TimedOut => Acknowledgement::TimedOut,
            Received::Failed => Acknowledgement::Silent,
        }),
{
    match received {
        Received::Byte(b) => if b == ACK_OK {
            Acknowledgement::Success
        } else {
            Acknowledgement::ErrorCode(b)
        },
        Received::TimedOut => Acknowledgement::TimedOut,
        Received::Failed => Acknowledgement::Silent,
    }
}

/// The header the server sends before a kernel of `len` bytes: its size as a little-endian
/// `u32`, or `None` if the size does not fit in a `u32` and the kernel cannot be sent.
pub fn kernel_size_header(len: u64) -> (r: Option<[u8; 4]>)
    ensures
        r is Some <==> len <= u32::MAX,
        r matches Some(h) ==> h@ == le_bytes(len as u32),
{
    if len > 0xFFFF_FFFF {
        None
    } else {
        Some(u32_to_le_bytes(len as u32))
    }
}

/// The baud rate a connection is opened with: the default, unless the maximum asked for is
/// lower.
pub fn initial_baud_rate(max_baud: u32) -> (r: u32)
    ensures
        r == (if max_baud < DEFAULT_BAUD_RATE { max_baud } else { DEFAULT_BAUD_RATE }),
{
    if max_baud < DEFAULT_BAUD_RATE {
        max_baud
    } else {
        DEFAULT_BAUD_RATE
    }
}

/// The baud rate the server answers a negotiation with: the board's highest rate.
pub fn negotiated_baud_rate(max_supported: u32) -> (r: u32)
    ensures
        r == max_supported,
{
    max_supported
}

/// The kind of a serial port found on the host.
#[derive(Clone, Copy, Debug, PartialEq, Eq, Structural)]
pub enum PortKind {
    Usb,
    Pci,
    Bluetooth,
    Unknown,
}

/// Whether the port at `i` is the last USB port of `ports`.
pub open spec fn is_last_usb(ports: Seq<PortKind>, i: int) -> bool {
    &&& 0 <= i < ports.len()
    &&& ports[i] == PortKind::Usb
    &&& forall|j: int| i < j < ports.len() ==> ports[j] != PortKind::Usb
}

/// The port the server picks when none was named: the last USB port listed, or `None` if
/// there is none.
pub fn select_port(ports: &Vec<PortKind>) -> (r: Option<usize>)
    ensures
        r is None <==> forall|j: int| 0 <= j < ports@.len() ==> ports@[j] != PortKind::Usb,
        r matches Some(i) ==> is_last_usb(ports@, i as int),
{
    let mut found: Option<usize> = None;
    let mut i: usize = 0;
    while i < ports.len()
        invariant
            i <= ports@.len(),
            found is None ==> forall|j: int| 0 <= j < i ==> ports@[j] != PortKind::Usb,
            found matches Some(k) ==> k < i && ports@[k as int] == PortKind::Usb && forall|j: int|
                k < j < i ==> ports@[j] != PortKind::Usb,
        decreases ports@.len() - i,
    {
        if ports[i] == PortKind::Usb {
            found = Some(i);
        }
        i = i + 1;
    }
    found
}

/// The label the server prints for a port kind.
pub fn port_label(kind: PortKind) -> (r: &'static str)
    ensures
        kind == PortKind::Usb ==> r@ == "USB"@,
        kind == PortKind::Pci ==> r@ == "PCI"@,
        kind == PortKind::Bluetooth ==> r@ == "Bluetooth"@,
        kind == PortKind::Unknown ==> r@ == "Unknown"@,
{
    match kind {
        PortKind::Usb => "USB",
        PortKind::Pci => "PCI",
        PortKind::Bluetooth => "Bluetooth",
        PortKind::Unknown => "Unknown",
    }
}

// ---------------------------------------------------------------------------------------------
// Laws of the protocol

/// The bootloader's kernel request, read by a server that is echoing, makes the server send a
/// kernel and return to echoing.
pub proof fn law_kernel_request_is_served(request: Seq<u8>)
    requires
        request == seq![SERVER_REQUEST, OP_LOAD_KERNEL],
    ensures
        server_transition(ServerState::Echo, Received::Byte(request[0])) == (
            ServerState::Escaped,
            ServerAction::Continue,
        ),
        server_transition(ServerState::Escaped, Received::Byte(request[1])) == (
            ServerState::Echo,
            ServerAction::SendKernel,
        ),
{
}

/// Every byte other than the escape byte that reaches an echoing server is printed as it is,
/// and the server keeps echoing.
pub proof fn law_plain_bytes_are_echoed(b: u8)
    requires
        b != SERVER_REQUEST,
    ensures
        server_transition(ServerState::Echo, Received::Byte(b)) == (
            ServerState::Echo,
            ServerAction::Print(b),
        ),
{
}

/// After any read, the server is echoing again unless it just read an escape byte.
pub proof fn law_escape_lasts_one_byte(state: ServerState, received: Received)
    ensures
        server_transition(state, received).0 == ServerState::Escaped <==> (state
            == ServerState::Echo && received == Received::Byte(SERVER_REQUEST)),
{
}

/// The size the server announces is the size the bootloader reads.
pub proof fn law_kernel_size_round_trip(len: u64)
    requires
        len <= u32::MAX,
    ensures
        from_le_bytes(le_bytes(len as u32)) == len,
{
    crate::uart::law_le_bytes_round_trip(len as u32);
}

} // verus!
