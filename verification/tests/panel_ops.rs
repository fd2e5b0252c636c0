use kotoa_display::busy_wait::{EpdWait, WaitReading};
use kotoa_display::display_driver::{DisplayDriver, MID};
use kotoa_display::panel::PanelOp;

fn command(c: u8) -> Vec<PanelOp> {
    vec![
        PanelOp::DcLow,
        PanelOp::DelayUs(10),
        PanelOp::Write(vec![c]),
        PanelOp::DcHigh,
        PanelOp::DelayMs(1),
    ]
}

fn data(d: &[u8]) -> Vec<PanelOp> {
    vec![
        PanelOp::DcHigh,
        PanelOp::DelayUs(10),
        PanelOp::Write(d.to_vec()),
        PanelOp::DelayMs(1),
    ]
}

#[test]
fn reset_pulses_the_reset_line() {
    assert_eq!(
        DisplayDriver::reset_panel(),
        vec![
            PanelOp::ResetLow,
            PanelOp::DelayMs(100),
            PanelOp::ResetHigh,
            PanelOp::DelayMs(100),
        ]
    );
}

#[test]
fn command_byte_goes_with_dc_low() {
    assert_eq!(DisplayDriver::send_command(0x12), command(0x12));
}

#[test]
fn data_bytes_go_with_dc_high() {
    assert_eq!(DisplayDriver::send_data(&[1, 2, 3]), data(&[1, 2, 3]));
    assert_eq!(DisplayDriver::send_data(&[]), data(&[]));
}

#[test]
fn wake_configures_panel() {
    let mut expected = command(0x04);
    expected.push(PanelOp::DelayMs(2000));
    expected.extend(command(0x00));
    expected.extend(data(&[0x0f]));
    expected.extend(data(&[0x89]));
    expected.extend(command(0x61));
    expected.extend(data(&[104]));
    expected.extend(data(&[0]));
    expected.extend(data(&[212]));
    expected.extend(command(0x50));
    expected.extend(data(&[0x77]));
    assert_eq!(DisplayDriver::wake_panel(), expected);
}

#[test]
fn display_sends_both_planes_then_refreshes() {
    let mut driver = DisplayDriver::new();
    driver.write_pixel_internal(0, 0, 2);
    let mut red = vec![0xFFu8; MID];
    red[12] = 0xFE;
    let mut expected = command(0x10);
    expected.extend(data(&vec![0xFFu8; MID]));
    expected.extend(command(0x13));
    expected.extend(data(&red));
    expected.extend(command(0x11));
    expected.extend(data(&[0x00]));
    expected.extend(command(0x12));
    expected.push(PanelOp::DelayUs(500));
    expected.push(PanelOp::DelayMs(10000));
    assert_eq!(driver.display(), expected);
}

#[test]
fn wait_ready_when_busy_line_goes_high() {
    let mut state = EpdWait::CheckBusy;
    assert_eq!(state.reading_needed(), WaitReading::BusyLineLow);
    state = state.step(true);
    assert_eq!(state, EpdWait::CheckTimer);
    assert_eq!(state.reading_needed(), WaitReading::TimerFired);
    state = state.step(false);
    assert_eq!(state, EpdWait::CheckBusy);
    state = state.step(false);
    assert_eq!(state, EpdWait::Confirm);
    state = state.step(false);
    assert_eq!(state, EpdWait::Done(true));
    assert_eq!(state.reading_needed(), WaitReading::Nothing);
}

#[test]
fn wait_times_out_when_busy_line_stays_low() {
    let state = EpdWait::CheckBusy.step(true).step(true);
    assert_eq!(state, EpdWait::Confirm);
    assert_eq!(state.step(true), EpdWait::Done(false));
}

#[test]
fn wait_confirms_after_timer_fires() {
    // the timer fired but the line went high meanwhile: still ready
    let state = EpdWait::CheckBusy.step(true).step(true).step(false);
    assert_eq!(state, EpdWait::Done(true));
}

#[test]
fn finished_wait_stays_finished() {
    assert_eq!(EpdWait::Done(true).step(true), EpdWait::Done(true));
    assert_eq!(EpdWait::Done(false).step(false), EpdWait::Done(false));
}

#[test]
fn finishing_a_wait_clears_the_timer() {
    assert_eq!(
        EpdWait::finish_ops(true),
        vec![PanelOp::ClearTimerInterrupt, PanelOp::DelayMs(200)]
    );
    assert_eq!(EpdWait::finish_ops(false), vec![PanelOp::ClearTimerInterrupt]);
}
