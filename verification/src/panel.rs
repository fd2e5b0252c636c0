//! The operations that drive the panel over its control lines and SPI bus,
//! and the command sequences built from them.

use vstd::prelude::*;

use crate::display_driver::{BUFFER_LEN, HEIGHT, MID, WIDTH};

verus! {

/// One hardware operation on the panel, carried out by the caller in order.
#[derive(Debug, PartialEq, Eq)]
pub enum PanelOp {
    /// Drive the data/command line low: the next bytes are a command.
    DcLow,
    /// Drive the data/command line high: the next bytes are data.
    DcHigh,
    /// Drive the reset line low.
    ResetLow,
    /// Drive the reset line high.
    ResetHigh,
    /// Wait the given number of microseconds.
    DelayUs(u32),
    /// Wait the given number of milliseconds.
    DelayMs(u32),
    /// Write the bytes over the SPI bus.
    Write(Vec<u8>),
    /// Clear the pending interrupt of the timer that bounds a busy wait.
    ClearTimerInterrupt,
}

/// The mathematical value of a [`PanelOp`]: the written bytes as a sequence.
pub enum PanelStep {
    DcLow,
    DcHigh,
    ResetLow,
    ResetHigh,
    DelayUs(u32),
    DelayMs(u32),
    Write(Seq<u8>),
    ClearTimerInterrupt,
}

impl DeepView for PanelOp {
    type V = PanelStep;

    open spec fn deep_view(&self) -> PanelStep {
        match self {
            PanelOp::DcLow => PanelStep::DcLow,
            PanelOp::DcHigh => PanelStep::DcHigh,
            PanelOp::ResetLow => PanelStep::ResetLow,
            PanelOp::ResetHigh => PanelStep::ResetHigh,
            PanelOp::DelayUs(us) => PanelStep::DelayUs(*us),
            PanelOp::DelayMs(ms) => PanelStep::DelayMs(*ms),
            PanelOp::Write(bytes) => PanelStep::Write(bytes@),
            PanelOp::ClearTimerInterrupt => PanelStep::ClearTimerInterrupt,
        }
    }
}

/// Pulsing the reset line: low for 100 ms, then high for 100 ms.
pub open spec fn reset_steps() -> Seq<PanelStep> {
    seq![
        PanelStep::ResetLow,
        PanelStep::DelayMs(100),
        PanelStep::ResetHigh,
        PanelStep::DelayMs(100),
    ]
}

/// Sending one command byte: data/command line low, 10 µs, the byte, line
/// back high, 1 ms.
pub open spec fn command_steps(command: u8) -> Seq<PanelStep> {
    seq![
        PanelStep::DcLow,
        PanelStep::DelayUs(10),
        PanelStep::Write(seq![command]),
        PanelStep::DcHigh,
        PanelStep::DelayMs(1),
    ]
}

/// Sending data bytes: data/command line high, 10 µs, the bytes, 1 ms.
pub open spec fn data_steps(data: Seq<u8>) -> Seq<PanelStep> {
    seq![
        PanelStep::DcHigh,
        PanelStep::DelayUs(10),
        PanelStep::Write(data),
        PanelStep::DelayMs(1),
    ]
}

/// Powering the panel on and configuring it: power on (command 0x04) and a
/// 2 s pause, panel setting (0x00) with 0x0F and 0x89, resolution (0x61) with
/// the width and the high and low bytes of the height, and the VCOM and data
/// interval setting (0x50) with 0x77.
pub open spec fn wake_steps() -> Seq<PanelStep> {
    command_steps(0x04) + seq![PanelStep::DelayMs(2000)] + command_steps(0x00) + data_steps(
        seq![0x0fu8],
    ) + data_steps(seq![0x89u8]) + command_steps(0x61) + data_steps(seq![WIDTH]) + data_steps(
        seq![(HEIGHT / 256) as u8],
    ) + data_steps(seq![(HEIGHT % 256) as u8]) + command_steps(0x50) + data_steps(seq![0x77u8])
}

/// Showing `frame`: the black/white plane after command 0x10, the red plane
/// after command 0x13, command 0x11 with 0x00 to end the transfer, then the
/// refresh command 0x12 followed by 500 µs and 10 s of waiting.
pub open spec fn refresh_steps(frame: Seq<u8>) -> Seq<PanelStep> {
    command_steps(0x10) + data_steps(frame.subrange(0, MID as int)) + command_steps(0x13)
        + data_steps(frame.subrange(MID as int, BUFFER_LEN as int)) + command_steps(0x11)
        + data_steps(seq![0x00u8]) + command_steps(0x12) + seq![
        PanelStep::DelayUs(500),
        PanelStep::DelayMs(10000),
    ]
}

/// The refresh sequence carries the whole frame: the bytes written after
/// command 0x10, followed by the bytes written after command 0x13, are exactly
/// the frame.
pub proof fn law_refresh_sends_whole_frame(frame: Seq<u8>)
    requires
        frame.len() == BUFFER_LEN,
    ensures
        refresh_steps(frame)[2] == PanelStep::Write(seq![0x10u8]),
        refresh_steps(frame)[11] == PanelStep::Write(seq![0x13u8]),
        refresh_steps(frame)[7] matches PanelStep::Write(bw) && refresh_steps(frame)[16] matches PanelStep::Write(red) && bw + red == frame,
{
    let steps = refresh_steps(frame);
    assert(steps[7] == PanelStep::Write(frame.subrange(0, MID as int)));
    assert(steps[16] == PanelStep::Write(frame.subrange(MID as int, BUFFER_LEN as int)));
    assert(frame.subrange(0, MID as int) + frame.subrange(MID as int, BUFFER_LEN as int) =~= frame);
}

/// Sending a command, for every command byte: the data/command line is
/// driven low before the write and back high after it, and the one byte
/// written is the command itself; different commands give different sequences.
pub proof fn law_command_writes_its_byte(command: u8, other: u8)
    ensures
        command_steps(command).len() == 5,
        command_steps(command)[0] == PanelStep::DcLow,
        command_steps(command)[2] == PanelStep::Write(seq![command]),
        command_steps(command)[2] matches PanelStep::Write(bytes) && bytes.len() == 1 && bytes[0]
            == command,
        command_steps(command)[3] == PanelStep::DcHigh,
        command != other ==> command_steps(command) != command_steps(other),
{
    if command != other {
        assert(command_steps(command)[2] != command_steps(other)[2]) by {
            assert(seq![command][0] != seq![other][0]);
        }
    }
}

/// Sending data, for every byte sequence of any length: the data/command
/// line is driven high before the write, and the write carries exactly the
/// given bytes, all of them and nothing else; different data give different
/// sequences.
pub proof fn law_data_writes_all_bytes(data: Seq<u8>, other: Seq<u8>)
    ensures
        data_steps(data).len() == 4,
        data_steps(data)[0] == PanelStep::DcHigh,
        data_steps(data)[2] == PanelStep::Write(data),
        data_steps(data)[2] matches PanelStep::Write(bytes) && bytes.len() == data.len() && (
        forall|i: int| 0 <= i < data.len() ==> bytes[i] == data[i]),
        data != other ==> data_steps(data) != data_steps(other),
{
    if data != other {
        assert(data_steps(data)[2] != data_steps(other)[2]);
    }
}

/// The refresh sequence, for every pair of frames: it has 34 steps, and it is
/// the same for both frames except for the two plane payloads (steps 7 and
/// 16). Whatever the frame, the transfer is closed with command 0x11 and data
/// 0x00, and the sequence ends with the refresh command 0x12 followed by
/// 500 µs and 10 s of waiting.
pub proof fn law_refresh_always_refreshes(frame: Seq<u8>, other: Seq<u8>)
    requires
        frame.len() == BUFFER_LEN,
        other.len() == BUFFER_LEN,
    ensures
        refresh_steps(frame).len() == 34,
        forall|i: int|
            0 <= i < 34 && i != 7 && i != 16 ==> #[trigger] refresh_steps(frame)[i] == refresh_steps(
                other,
            )[i],
        refresh_steps(frame)[0] == PanelStep::DcLow && refresh_steps(frame)[5] == PanelStep::DcHigh,
        refresh_steps(frame)[9] == PanelStep::DcLow && refresh_steps(frame)[14] == PanelStep::DcHigh,
        refresh_steps(frame)[18] == PanelStep::DcLow && refresh_steps(frame)[23] == PanelStep::DcHigh,
        refresh_steps(frame)[20] == PanelStep::Write(seq![0x11u8]),
        refresh_steps(frame)[25] == PanelStep::Write(seq![0x00u8]),
        refresh_steps(frame)[27] == PanelStep::DcLow,
        refresh_steps(frame)[29] == PanelStep::Write(seq![0x12u8]),
        refresh_steps(frame)[30] == PanelStep::DcHigh,
        refresh_steps(frame)[32] == PanelStep::DelayUs(500),
        refresh_steps(frame)[33] == PanelStep::DelayMs(10000),
{
    let a = refresh_steps(frame);
    let b = refresh_steps(other);
    assert forall|i: int| 0 <= i < 34 && i != 7 && i != 16 implies #[trigger] a[i] == b[i] by {
    }
}

/// Waking the panel: it is first powered on (command 0x04 as the very first
/// byte, then 2 s); the panel setting (command 0x00) gets data 0x0F and 0x89;
/// the resolution sent after command 0x61 is the panel's: the width byte, then
/// the height as a high byte and a low byte that recombine to the height; and
/// the VCOM and data interval setting (command 0x50) gets data 0x77. Commands
/// go with the data/command line low, data with it high.
pub proof fn law_wake_sends_resolution()
    ensures
        wake_steps().len() == 45,
        wake_steps()[2] == PanelStep::Write(seq![0x04u8]),
        wake_steps()[5] == PanelStep::DelayMs(2000),
        wake_steps()[0] == PanelStep::DcLow,
        wake_steps()[6] == PanelStep::DcLow && wake_steps()[8] == PanelStep::Write(seq![0x00u8]),
        wake_steps()[11] == PanelStep::DcHigh && wake_steps()[13] == PanelStep::Write(seq![0x0fu8]),
        wake_steps()[15] == PanelStep::DcHigh && wake_steps()[17] == PanelStep::Write(seq![0x89u8]),
        wake_steps()[19] == PanelStep::DcLow && wake_steps()[21] == PanelStep::Write(seq![0x61u8]),
        wake_steps()[24] == PanelStep::DcHigh && wake_steps()[26] == PanelStep::Write(seq![WIDTH]),
        wake_steps()[28] == PanelStep::DcHigh && wake_steps()[32] == PanelStep::DcHigh,
        wake_steps()[36] == PanelStep::DcLow && wake_steps()[38] == PanelStep::Write(seq![0x50u8]),
        wake_steps()[41] == PanelStep::DcHigh && wake_steps()[43] == PanelStep::Write(seq![0x77u8]),
        exists|high: u8, low: u8|
            wake_steps()[30] == PanelStep::Write(seq![high]) && wake_steps()[34] == PanelStep::Write(
                seq![low],
            ) && 256 * high + low == HEIGHT,
{
    assert(wake_steps()[30] == PanelStep::Write(seq![0u8]));
    assert(wake_steps()[34] == PanelStep::Write(seq![212u8]));
}

/// Resetting the panel: the reset line is held low for 100 ms and then
/// released high for 100 ms, and nothing else happens.
pub proof fn law_reset_pulses_line()
    ensures
        reset_steps().len() == 4,
        reset_steps()[0] == PanelStep::ResetLow,
        reset_steps()[1] == PanelStep::DelayMs(100),
        reset_steps()[2] == PanelStep::ResetHigh,
        reset_steps()[3] == PanelStep::DelayMs(100),
{
}

/// Appends `more` to `ops`.
pub(crate) fn append_ops(ops: &mut Vec<PanelOp>, more: Vec<PanelOp>)
    ensures
        final(ops).deep_view() == old(ops).deep_view() + more.deep_view(),
{
    let mut more = more;
    let ghost first = ops.deep_view();
    let ghost second = more.deep_view();
    ops.append(&mut more);
    assert(ops.deep_view() =~= first + second);
}

} // verus!
