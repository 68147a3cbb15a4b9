use rpi_os::emmc::{
    current_state, csd_fields, op_cond_ready, read_128bit_response, read_block_argument,
    send_if_cond_accepted, set_clock_frequency, wait_for_cmd_done, with_clock_enabled,
    with_timeouts_configured, Command, CommandWait, Emmc, InitStep, SdState, INIT_FREQUENCY,
    MAIN_FREQUENCY,
};
use rpi_os::exception::is_timer_interrupt;

#[test]
fn command_words() {
    assert_eq!(Command::GoIdleState.word(), 0);
    assert_eq!(Command::AllSendCid.word(), 0x0201_0000);
    assert_eq!(Command::SelectCard.word(), 0x0703_0000);
    assert_eq!(Command::SendIfCond.word(), 0x0802_0000);
    assert_eq!(Command::ReadSingleBlock.word(), 0x1122_0010);
    assert_eq!(Command::AppCmd.word(), 0x3700_0000);
}

#[test]
fn clock_divisors() {
    // 41_666_667 / 400_000 rounds up to 105 = 0x69
    assert_eq!(set_clock_frequency(0, INIT_FREQUENCY), 0x6900);
    // 41_666_667 / 2_500_000 rounds up to 17
    assert_eq!(set_clock_frequency(0xFFFF_FFFF, MAIN_FREQUENCY), 0xFFFF_113F);
    // 41_666_667 / 100_000 rounds up to 417 = 0x1A1: low byte 0xA1, high bits 0b01
    assert_eq!(set_clock_frequency(0, 100_000), 0xA140);
    assert_eq!(with_clock_enabled(0, true), 4);
    assert_eq!(with_clock_enabled(7, false), 3);
    assert_eq!(with_timeouts_configured(0x000F_0000), 0x000E_0001);
}

#[test]
fn command_waits() {
    assert_eq!(wait_for_cmd_done(0, 1), CommandWait::Pending);
    assert_eq!(wait_for_cmd_done(1, 1), CommandWait::Finished(true));
    assert_eq!(wait_for_cmd_done(1 << 12, 1), CommandWait::Finished(false));
    assert_eq!(wait_for_cmd_done(0, 0), CommandWait::Finished(true));
}

#[test]
fn responses_decode() {
    assert_eq!(read_128bit_response(1, 2, 3, 4), (4u128 << 96) | (3u128 << 64) | (2u128 << 32) | 1);
    assert!(send_if_cond_accepted(0x1AA));
    assert!(!send_if_cond_accepted(0x1AB));
    assert!(op_cond_ready(0x8000_0000));
    assert!(!op_cond_ready(0x40FF_8000));
    assert_eq!(current_state(4 << 9), SdState::Tran);
    assert_eq!(current_state(15 << 9), SdState::ReservedIoMode);
    assert_eq!(current_state(12 << 9), SdState::Reserved);
    assert_eq!(read_block_argument(3), 3 * 512);
    let csd = (9u128 << 72) | (0xABCu128 << 54) | (5u128 << 39);
    assert_eq!(csd_fields(csd), (9, 0xABC, 5));
}

#[test]
fn card_identity_is_recorded() {
    let mut e = Emmc::new(0x2_0000);
    assert_eq!(e.rca(), 0);
    e.send_relative_addr((0x1234 << 16) | (2 << 9));
    assert_eq!(e.rca(), 0x1234);
    assert_eq!(e.card_argument(), 0x1234_0000);
    e.send_csd(1, 0, 0, 0);
    assert_eq!(e.csd(), 1);
    assert_eq!(e.base_address(), 0x2_0000);
    let steps = Emmc::init_steps();
    assert_eq!(steps.len(), 13);
    assert_eq!(steps[2], InitStep::SetClock(INIT_FREQUENCY));
    assert_eq!(steps[12], InitStep::SetBlocklen(512));
}

#[test]
fn only_timer_interrupt_is_handled() {
    assert!(is_timer_interrupt(30));
    assert!(is_timer_interrupt(0x1C00 | 30));
    assert!(!is_timer_interrupt(31));
}
