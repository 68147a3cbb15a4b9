use rpi_os::dma::{
    activate, clear_interrupt, control_block_address, enable_engines, is_active, select_page,
    transfer_info, ControlBlock, Dma, Peripheral, CS_RESET,
};
use rpi_os::gpio::{set_field, FieldWrite, FunctionSelect, Gpio, Pull, NUM_PINS};
use rpi_os::mailbox::{
    clock_rate_from_response, get_clock_rate_request, get_max_clock_rate_request, is_empty,
    is_full, set_clock_rate_request, Clock, Mailbox,
};
use rpi_os::uart::{
    check_errors, clear_reads, read_byte_poll, set_divider, write_byte_poll, write_u32,
    ByteReader, IoError, Poll, u32_from_le_bytes,
};

#[test]
fn gpio_function_select_field_of_pin_14() {
    let g = Gpio::new(0x4_7E20_0000).unwrap();
    let w = g.select_function(14, FunctionSelect::Alt0);
    assert_eq!(w, FieldWrite { word: 1, shift: 12, width: 3, value: 0b100 });
    assert_eq!(w.apply(0xFFFF_FFFF), 0xFFFF_CFFF);
    assert_eq!(w.apply(0), 0x4000);
    assert_eq!(g.word_address(w.word), 0x4_7E20_0004);
}

#[test]
fn gpio_pull_field_of_pin_15() {
    let g = Gpio::new(0x4_7E20_0000).unwrap();
    let w = g.select_pull(15, Pull::Up);
    assert_eq!(w, FieldWrite { word: 0x39, shift: 30, width: 2, value: 1 });
    assert_eq!(g.word_address(w.word), 0x4_7E20_00E4);
    assert_eq!(w.apply(0xC000_0001), 0x4000_0001);
    let w14 = g.select_pull(14, Pull::Up);
    assert_eq!(g.word_address(w14.word), 0x4_7E20_00E4);
    assert_eq!(w14.apply(0), 0b01 << 28);
    let w16 = g.select_pull(16, Pull::Down);
    assert_eq!(g.word_address(w16.word), 0x4_7E20_00E8);
}

#[test]
fn gpio_rejects_unaligned_base() {
    assert!(Gpio::new(0x4_7E20_0002).is_none());
    assert_eq!(Gpio::new(0x1000).unwrap().base_address(), 0x1000);
}

#[test]
fn gpio_last_pin_and_bits() {
    let w = set_field(0, NUM_PINS - 1, 3, 0b111);
    assert_eq!((w.word, w.shift), (5, 21));
    assert_eq!(FunctionSelect::Alt4.into_bits(), 0b011);
    assert_eq!(FunctionSelect::Alt5.into_bits(), 0b010);
    assert_eq!(Pull::Down.into_bits(), 0b10);
    let whole = set_field(3, 9, 32, 0xAB);
    assert_eq!(whole, FieldWrite { word: 12, shift: 0, width: 32, value: 0xAB });
    assert_eq!(whole.apply(0xFFFF_FFFF), 0xAB);
}

#[test]
fn dma_peripheral_numbers() {
    assert_eq!(Peripheral::Uart0Rx.into_bits(), 14);
    assert_eq!(Peripheral::from_bits(12), Peripheral::Uart0Tx);
    assert_eq!(Peripheral::from_bits(0), Peripheral::Unpaced);
}

#[test]
fn dma_registers() {
    assert_eq!(enable_engines(0xF000_0004), 0x0000_0805);
    assert_eq!(select_page(0x0000_0805, 3), 0x0300_0805);
    assert_eq!(transfer_info(Peripheral::Uart0Rx), 0x03EE_0459);
    assert_eq!(CS_RESET, 0x8000_0000);
    assert_eq!(control_block_address(0x8_0000), 0xC008_0000);
    assert_eq!(activate(0x10), 0x11);
    assert!(is_active(0x11));
    assert!(!is_active(0x10));
    assert_eq!(clear_interrupt(0), 4);
}

#[test]
fn dma_plans_read_within_one_page() {
    let d = Dma::new(0x3F00_7000).unwrap();
    let t = d.read_peripheral(Peripheral::Uart0Rx, 0x7E20_1000, 0x4000_1000, 0x100).unwrap();
    assert_eq!(t.page, 1);
    assert_eq!(
        t.control_block,
        ControlBlock {
            transfer_info: 0x03EE_0459,
            src_addr: 0x7E20_1000,
            dest_addr: 0xC000_1000,
            transfer_len: 0x100,
            stride: 0,
            next_block_addr: 0,
        }
    );
    assert_eq!(t.control_block.words()[2], 0xC000_1000);
    assert!(d.read_peripheral(Peripheral::Uart0Rx, 0, 0x3FFF_FF00, 0x200).is_none());
    assert!(Dma::new(0x3F00_7001).is_none());
}

#[test]
fn mailbox_buffers() {
    let r = get_clock_rate_request(Clock::Uart);
    assert_eq!(r, vec![32, 0, 0x3_0047, 8, 0, 2, 0, 0]);
    let m = get_max_clock_rate_request(Clock::Emmc2);
    assert_eq!(m, vec![32, 0, 0x3_0004, 8, 0, 13, 0, 0]);
    let s = set_clock_rate_request(Clock::Arm, 48_000_000);
    assert_eq!(s, vec![48, 0, 0x3_8002, 12, 0, 3, 48_000_000, 0, 0, 0, 0, 0]);
}

#[test]
fn mailbox_send_and_answers() {
    let mb = Mailbox::new(0x3F00_B880).unwrap();
    assert_eq!(mb.send(0x1000), Some(0x1008));
    assert_eq!(mb.send(0x1004), None);
    assert_eq!(mb.send(0x1_0000_0000), None);
    assert!(mb.is_answer(0x1008, 0x1008));
    assert!(!mb.is_answer(0x1008, 0x1009));
    assert!(is_full(0x8000_0000));
    assert!(is_empty(0x4000_0000));
    assert!(!is_empty(0));
    let response = [32, 0x8000_0000, 0x3_0047, 8, 0x8000_0008, 2, 48_000_000, 0];
    assert_eq!(clock_rate_from_response(true, &response), Some(48_000_000));
    assert_eq!(clock_rate_from_response(false, &response), None);
    let zero = [32, 0x8000_0000, 0x3_0047, 8, 0x8000_0008, 2, 0, 0];
    assert_eq!(clock_rate_from_response(true, &zero), None);
}

#[test]
fn uart_errors_in_priority_order() {
    assert_eq!(check_errors(0), Ok(()));
    assert_eq!(check_errors(1 << 10 | 1 << 7), Err(IoError::Overrun));
    assert_eq!(check_errors(1 << 9 | 1 << 8), Err(IoError::Break));
    assert_eq!(check_errors(1 << 8), Err(IoError::Parity));
    assert_eq!(check_errors(1 << 7), Err(IoError::Frame));
}

#[test]
fn uart_polls() {
    assert_eq!(write_byte_poll(0, 1 << 10), Poll::Ready);
    assert_eq!(write_byte_poll(1 << 5, 0), Poll::Wait);
    assert_eq!(write_byte_poll(1 << 5, 1 << 9), Poll::Fail(IoError::Break));
    assert_eq!(read_byte_poll(0, 0), Poll::Ready);
    assert_eq!(read_byte_poll(1 << 4, 1 << 7), Poll::Fail(IoError::Frame));
    assert!(clear_reads(0));
    assert!(!clear_reads(1 << 4));
}

#[test]
fn uart_divider_and_words() {
    assert_eq!(set_divider(0x301, 3, 0xD0), (0x300, 3, 0x10, 0x301));
    assert_eq!(write_u32(0x1234_5678), [0x78, 0x56, 0x34, 0x12]);
    assert_eq!(u32_from_le_bytes(write_u32(0xDEAD_BEEF)), 0xDEAD_BEEF);
}

#[test]
fn byte_reader_collects_low_bytes() {
    let mut r = ByteReader::new(2);
    assert!(!r.is_complete());
    r.read_bytes(0x0F41);
    r.read_bytes(0x42);
    assert!(r.is_complete());
    assert_eq!(r.bytes(), &vec![0x41, 0x42]);
}
