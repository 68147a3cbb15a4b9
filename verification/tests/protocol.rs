use rpi_os::boot_protocol::{
    check_ok, initial_baud_rate, kernel_request, kernel_size, kernel_size_header,
    load_acknowledgement, load_outcome, load_target, negotiated_baud_rate, no_address_error, port_label,
    select_port, server_step, Acknowledgement, LoadTarget, PortKind, Received, ServerAction,
    ServerState, DEFAULT_BAUD_RATE,
};
use rpi_os::uart::IoError;

#[test]
fn kernel_request_makes_server_send_kernel() {
    let req = kernel_request();
    assert_eq!(req, [0x1B, 0]);
    let (s, a) = server_step(ServerState::Echo, Received::Byte(req[0]));
    assert_eq!((s, a), (ServerState::Escaped, ServerAction::Continue));
    assert_eq!(server_step(s, Received::Byte(req[1])), (ServerState::Echo, ServerAction::SendKernel));
}

#[test]
fn server_echoes_plain_bytes_and_ignores_timeouts() {
    assert_eq!(server_step(ServerState::Echo, Received::Byte(b'h')), (ServerState::Echo, ServerAction::Print(b'h')));
    assert_eq!(server_step(ServerState::Echo, Received::TimedOut), (ServerState::Echo, ServerAction::Continue));
    assert_eq!(server_step(ServerState::Echo, Received::Failed), (ServerState::Echo, ServerAction::Stop));
}

#[test]
fn server_operations_after_escape() {
    assert_eq!(server_step(ServerState::Escaped, Received::Byte(1)), (ServerState::Echo, ServerAction::ConfigureBaud));
    assert_eq!(server_step(ServerState::Escaped, Received::Byte(7)), (ServerState::Echo, ServerAction::BadOpcode(7)));
    assert_eq!(server_step(ServerState::Escaped, Received::TimedOut), (ServerState::Echo, ServerAction::Stop));
}

#[test]
fn acknowledgements() {
    assert_eq!(check_ok(Received::Byte(0)), Acknowledgement::Success);
    assert_eq!(check_ok(Received::Byte(0xFF)), Acknowledgement::ErrorCode(0xFF));
    assert_eq!(check_ok(Received::TimedOut), Acknowledgement::TimedOut);
    assert_eq!(check_ok(Received::Failed), Acknowledgement::Silent);
    assert_eq!(load_acknowledgement(Ok(0x8_0000)), 0);
    assert_eq!(load_acknowledgement(Err(IoError::Parity)), 0xFF);
}

#[test]
fn kernel_size_travels_little_endian() {
    let h = kernel_size_header(0x0001_0203).unwrap();
    assert_eq!(h, [3, 2, 1, 0]);
    assert_eq!(kernel_size(h), 0x0001_0203);
    assert!(kernel_size_header(1 << 32).is_none());
}

#[test]
fn load_target_needs_an_address() {
    assert_eq!(load_target(0, 10), LoadTarget::NoAddress);
    assert_eq!(no_address_error(), IoError::Frame);
    assert_eq!(load_target(0x8_0000, 10), LoadTarget::Region { start: 0x8_0000, len: 10 });
}

#[test]
fn load_outcome_reports_the_loaded_address() {
    let region = load_target(0x8_0000, 10);
    assert_eq!(load_outcome(region, Ok(())), Ok(0x8_0000));
    assert_eq!(load_outcome(region, Err(IoError::Overrun)), Err(IoError::Overrun));
    assert_eq!(load_outcome(load_target(0, 10), Ok(())), Err(IoError::Frame));
}

#[test]
fn baud_rates() {
    assert_eq!(initial_baud_rate(115_200), 115_200);
    assert_eq!(initial_baud_rate(3_000_000), DEFAULT_BAUD_RATE);
    assert_eq!(negotiated_baud_rate(1_500_000), 1_500_000);
}

#[test]
fn last_usb_port_is_selected() {
    let ports = vec![PortKind::Usb, PortKind::Pci, PortKind::Usb, PortKind::Bluetooth];
    assert_eq!(select_port(&ports), Some(2));
    assert_eq!(select_port(&vec![PortKind::Pci, PortKind::Unknown]), None);
    assert_eq!(port_label(PortKind::Usb), "USB");
    assert_eq!(port_label(PortKind::Bluetooth), "Bluetooth");
}
