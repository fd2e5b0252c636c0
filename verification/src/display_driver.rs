use vstd::prelude::*;
use vstd::slice::{slice_subrange, slice_to_vec};

use crate::panel::{
    append_ops, command_steps, data_steps, refresh_steps, reset_steps, wake_steps, PanelOp,
};

verus! {

/// Width of the panel in its native (portrait) orientation, in pixels.
pub const WIDTH: u8 = 104;

/// Height of the panel in its native (portrait) orientation, in pixels.
pub const HEIGHT: u16 = 212;

/// Number of bytes in one colour plane: one bit per pixel.
pub const MID: usize = 2756;

/// Number of bytes in the whole frame: the black/white plane followed by the red plane.
pub const BUFFER_LEN: usize = 5512;

/// Pixel `(x, y)` lies on the panel. Coordinates are taken in landscape
/// orientation: `x` runs along the long side (`0..HEIGHT`), `y` along the short
/// side (`0..WIDTH`).
pub open spec fn in_bounds(x: int, y: int) -> bool {
    0 <= x < HEIGHT && 0 <= y < WIDTH
}

/// Index, within one colour plane, of the byte that holds pixel `(x, y)`:
/// the panel stores rows of `WIDTH / 8` bytes, one row per landscape column
/// `x`, with landscape `y` mirrored (`WIDTH - 1 - y`) along the row.
pub open spec fn pixel_byte(x: int, y: int) -> int {
    (WIDTH / 8) * x + (WIDTH - 1 - y) / 8
}

/// Position (0 = least significant) of pixel `(x, y)`'s bit inside its byte;
/// the leftmost pixel of a byte sits in its most significant bit.
pub open spec fn pixel_bit(y: int) -> u8 {
    (7 - (WIDTH - 1 - y) % 8) as u8
}

/// Bit `k` of `b` is set.
pub open spec fn bit_is_set(b: u8, k: u8) -> bool {
    b & (1u8 << k) != 0
}

/// `b` with bit `k` cleared when `cleared` holds, and set otherwise.
pub open spec fn with_bit(b: u8, k: u8, cleared: bool) -> u8 {
    if cleared {
        b & !(1u8 << k)
    } else {
        b | (1u8 << k)
    }
}

/// The black/white bit of pixel `(x, y)` in `frame`.
pub open spec fn bw_bit(frame: Seq<u8>, x: int, y: int) -> bool {
    bit_is_set(frame[pixel_byte(x, y)], pixel_bit(y))
}

/// The red bit of pixel `(x, y)` in `frame`.
pub open spec fn red_bit(frame: Seq<u8>, x: int, y: int) -> bool {
    bit_is_set(frame[MID + pixel_byte(x, y)], pixel_bit(y))
}

/// The colour shown at pixel `(x, y)`: red where the red bit is clear, black
/// where the black/white bit is clear, white where both are set.
pub open spec fn color_at(frame: Seq<u8>, x: int, y: int) -> DisplayColor {
    if !red_bit(frame, x, y) {
        DisplayColor::Red
    } else if !bw_bit(frame, x, y) {
        DisplayColor::Black
    } else {
        DisplayColor::White
    }
}

/// The colour meant by a raw colour code: 0 is white, 1 is black, and any
/// other code is red.
pub open spec fn color_of_raw(color: u8) -> DisplayColor {
    if color == 0 {
        DisplayColor::White
    } else if color == 1 {
        DisplayColor::Black
    } else {
        DisplayColor::Red
    }
}

/// The raw colour code of a colour.
pub open spec fn raw_of_color(color: DisplayColor) -> u8 {
    match color {
        DisplayColor::White => 0,
        DisplayColor::Black => 1,
        DisplayColor::Red => 2,
    }
}

/// `frame` after pixel `(x, y)` is painted with the raw colour `color`: both
/// of the pixel's bits are set, then the black/white bit is cleared for code 1
/// and the red bit for codes of 2 and more. A pixel off the panel changes
/// nothing.
pub open spec fn written(frame: Seq<u8>, x: int, y: int, color: u8) -> Seq<u8> {
    if in_bounds(x, y) {
        let p = pixel_byte(x, y);
        let k = pixel_bit(y);
        frame.update(p, with_bit(frame[p], k, color == 1)).update(
            MID + p,
            with_bit(frame[MID + p], k, color >= 2),
        )
    } else {
        frame
    }
}

/// Every pixel of `frame` shows one of the three colours: no pixel has both of
/// its bits cleared.
pub open spec fn frame_wf(frame: Seq<u8>) -> bool {
    &&& frame.len() == BUFFER_LEN
    &&& forall|x: int, y: int| in_bounds(x, y) ==> #[trigger] bw_bit(frame, x, y) || red_bit(frame, x, y)
}

/// A pixel on the panel lies in the first plane, at a bit position below 8.
pub proof fn lemma_pixel_position_in_range(x: int, y: int)
    requires
        in_bounds(x, y),
    ensures
        0 <= pixel_byte(x, y) < MID,
        pixel_bit(y) < 8,
{
}

/// Two pixels on the panel that share a byte and a bit position are the same pixel.
pub proof fn lemma_pixel_position_injective(x1: int, y1: int, x2: int, y2: int)
    requires
        in_bounds(x1, y1),
        in_bounds(x2, y2),
        pixel_byte(x1, y1) == pixel_byte(x2, y2),
        pixel_bit(y1) == pixel_bit(y2),
    ensures
        x1 == x2,
        y1 == y2,
{
    let a1 = WIDTH - 1 - y1;
    let a2 = WIDTH - 1 - y2;
    assert(0 <= a1 % 8 < 8 && 0 <= a2 % 8 < 8);
    assert(a1 % 8 == a2 % 8);
    assert(a1 == 8 * (a1 / 8) + a1 % 8);
    assert(a2 == 8 * (a2 / 8) + a2 % 8);
    assert(0 <= a1 / 8 < 13 && 0 <= a2 / 8 < 13);
    if x1 < x2 {
        assert(13 * x1 + 13 <= 13 * x2);
    } else if x2 < x1 {
        assert(13 * x2 + 13 <= 13 * x1);
    }
}

/// Setting or clearing bit `k` sets or clears that bit and leaves every other bit alone.
pub proof fn lemma_with_bit(b: u8, k: u8, cleared: bool, j: u8)
    requires
        k < 8,
        j < 8,
    ensures
        bit_is_set(with_bit(b, k, cleared), k) == !cleared,
        j != k ==> bit_is_set(with_bit(b, k, cleared), j) == bit_is_set(b, j),
{
    if cleared {
        assert((b & !(1u8 << k)) & (1u8 << k) == 0) by (bit_vector)
            requires k < 8;
        assert(j != k ==> (((b & !(1u8 << k)) & (1u8 << j) != 0) == (b & (1u8 << j) != 0))) by (bit_vector)
            requires k < 8, j < 8;
    } else {
        assert((b | (1u8 << k)) & (1u8 << k) != 0) by (bit_vector)
            requires k < 8;
        assert(j != k ==> (((b | (1u8 << k)) & (1u8 << j) != 0) == (b & (1u8 << j) != 0))) by (bit_vector)
            requires k < 8, j < 8;
    }
}

/// What painting a pixel does, pixel by pixel: the painted pixel takes the
/// painted colour (its black/white bit is clear exactly for code 1, its red
/// bit exactly for codes of 2 and more), every other pixel keeps both of its
/// bits, the length stays, and a well-formed frame stays well-formed.
pub proof fn lemma_written_pixels(frame: Seq<u8>, x0: int, y0: int, color: u8)
    requires
        frame.len() == BUFFER_LEN,
    ensures
        written(frame, x0, y0, color).len() == BUFFER_LEN,
        in_bounds(x0, y0) ==> {
            &&& bw_bit(written(frame, x0, y0, color), x0, y0) == (color != 1)
            &&& red_bit(written(frame, x0, y0, color), x0, y0) == (color < 2)
            &&& color_at(written(frame, x0, y0, color), x0, y0) == color_of_raw(color)
        },
        forall|x: int, y: int|
            in_bounds(x, y) && !(x == x0 && y == y0) ==> {
                &&& #[trigger] bw_bit(written(frame, x0, y0, color), x, y) == bw_bit(frame, x, y)
                &&& red_bit(written(frame, x0, y0, color), x, y) == red_bit(frame, x, y)
            },
        frame_wf(frame) ==> frame_wf(written(frame, x0, y0, color)),
{
    let after = written(frame, x0, y0, color);
    if in_bounds(x0, y0) {
        let p = pixel_byte(x0, y0);
        let k = pixel_bit(y0);
        lemma_pixel_position_in_range(x0, y0);
        lemma_with_bit(frame[p], k, color == 1, k);
        lemma_with_bit(frame[MID + p], k, color >= 2, k);
        assert forall|x: int, y: int|
            in_bounds(x, y) && !(x == x0 && y == y0) implies {
                &&& #[trigger] bw_bit(after, x, y) == bw_bit(frame, x, y)
                &&& red_bit(after, x, y) == red_bit(frame, x, y)
            } by {
            lemma_pixel_position_in_range(x, y);
            let q = pixel_byte(x, y);
            let j = pixel_bit(y);
            if q == p {
                if j == k {
                    lemma_pixel_position_injective(x, y, x0, y0);
                }
                lemma_with_bit(frame[p], k, color == 1, j);
                lemma_with_bit(frame[MID + p], k, color >= 2, j);
            }
        }
        if frame_wf(frame) {
            assert forall|x: int, y: int| in_bounds(x, y) implies #[trigger] bw_bit(after, x, y)
                || red_bit(after, x, y) by {
                if !(x == x0 && y == y0) {
                    assert(bw_bit(frame, x, y) || red_bit(frame, x, y));
                }
            }
        }
    }
}

/// The landscape pixel a drawing request addresses: each coordinate is taken
/// modulo 2^16, as a 16-bit coordinate (so negative coordinates land far off
/// the panel).
pub open spec fn target(pixel: (i32, i32, DisplayColor)) -> (int, int) {
    ((pixel.0 as u16) as int, (pixel.1 as u16) as int)
}

/// `frame` after the pixels are painted one after the other, in order.
pub open spec fn drawn(frame: Seq<u8>, pixels: Seq<(i32, i32, DisplayColor)>) -> Seq<u8>
    decreases pixels.len(),
{
    if pixels.len() == 0 {
        frame
    } else {
        let last = pixels.last();
        written(drawn(frame, pixels.drop_last()), target(last).0, target(last).1, raw_of_color(last.2))
    }
}

/// Drawing keeps the frame's length and its well-formedness.
pub proof fn lemma_drawn_wf(frame: Seq<u8>, pixels: Seq<(i32, i32, DisplayColor)>)
    requires
        frame.len() == BUFFER_LEN,
    ensures
        drawn(frame, pixels).len() == BUFFER_LEN,
        frame_wf(frame) ==> frame_wf(drawn(frame, pixels)),
    decreases pixels.len(),
{
    if pixels.len() > 0 {
        let last = pixels.last();
        lemma_drawn_wf(frame, pixels.drop_last());
        lemma_written_pixels(drawn(frame, pixels.drop_last()), target(last).0, target(last).1, raw_of_color(last.2));
    }
}

/// The three colours the panel can show.
#[derive(Debug, Clone, Copy, PartialEq, Eq, Structural)]
pub enum DisplayColor {
    White,
    Black,
    Red,
}

/// Frame buffer of the panel.
///
/// Bytes `0..MID` hold the black/white plane and bytes `MID..BUFFER_LEN` the
/// red plane. A set bit means "no ink" in its plane, so a pixel is white when
/// both of its bits are set, black when its black/white bit is clear, and red
/// when its red bit is clear.
pub struct DisplayDriver {
    buffer: [u8; 5512],
}

impl View for DisplayDriver {
    type V = Seq<u8>;

    closed spec fn view(&self) -> Seq<u8> {
        self.buffer@
    }
}

impl DisplayDriver {
    /// The frame always holds exactly `BUFFER_LEN` bytes.
    pub proof fn lemma_frame_len(&self)
        ensures
            self@.len() == BUFFER_LEN,
    {
    }

    /// A blank frame: every byte `0xFF`, so every pixel is white.
    pub fn new() -> (driver: Self)
        ensures
            driver@ == Seq::new(BUFFER_LEN as nat, |i: int| 0xFFu8),
            frame_wf(driver@),
            forall|x: int, y: int| #![trigger color_at(driver@, x, y)] in_bounds(x, y) ==> color_at(driver@, x, y) == DisplayColor::White,
    {
        let driver = DisplayDriver { buffer: [0xFFu8; 5512] };
        assert(driver@ =~= Seq::new(BUFFER_LEN as nat, |i: int| 0xFFu8));
        assert forall|x: int, y: int|
            #![trigger bw_bit(driver@, x, y)]
            #![trigger color_at(driver@, x, y)]
            in_bounds(x, y) implies bw_bit(driver@, x, y) && red_bit(driver@, x, y) by {
            lemma_pixel_position_in_range(x, y);
            let k = pixel_bit(y);
            assert(0xFFu8 & (1u8 << k) != 0) by (bit_vector)
                requires k < 8;
        }
        driver
    }

    /// Paints pixel `(x0, y0)` (landscape coordinates) with the raw colour
    /// `color`: 0 white, 1 black, anything else red. A pixel off the panel is
    /// ignored.
    pub fn write_pixel_internal(&mut self, x0: u16, y0: u16, color: u8)
        ensures
            final(self)@ == written(old(self)@, x0 as int, y0 as int, color),
            in_bounds(x0 as int, y0 as int) ==> color_at(final(self)@, x0 as int, y0 as int)
                == color_of_raw(color),
            forall|x: int, y: int|
                in_bounds(x, y) && !(x == x0 && y == y0) ==> {
                    &&& #[trigger] bw_bit(final(self)@, x, y) == bw_bit(old(self)@, x, y)
                    &&& red_bit(final(self)@, x, y) == red_bit(old(self)@, x, y)
                },
            frame_wf(old(self)@) ==> frame_wf(final(self)@),
    {
        proof {
            lemma_written_pixels(self@, x0 as int, y0 as int, color);
        }
        // pixels outside the landscape frame are ignored
        if y0 > WIDTH as u16 - 1 || x0 > HEIGHT - 1 {
            return;
        }
        // landscape to panel coordinates
        let x_rot: u16 = WIDTH as u16 - y0 - 1;
        let y_rot: u16 = x0;
        // byte within the row, and bit within the byte
        let x_byte: u16 = x_rot / 8;
        let x_bit: u16 = x_rot % 8;
        let row_len: u16 = WIDTH as u16 / 8;
        assert(row_len == 13 && y_rot < HEIGHT && x_byte < 13);
        assert(row_len * y_rot <= 13 * 211) by (nonlinear_arith)
            requires
                row_len == 13,
                y_rot < HEIGHT,
        ;
        let byte_pos: usize = (row_len * y_rot + x_byte) as usize;
        let shift: u8 = (7 - x_bit) as u8;
        let mask: u8 = 1u8 << shift;
        let ghost p = pixel_byte(x0 as int, y0 as int);
        let ghost old_bw = self.buffer[byte_pos as int];
        let ghost old_red = self.buffer[byte_pos + MID];
        assert(byte_pos == p && shift == pixel_bit(y0 as int));
        // set both of the pixel's bits (white)
        self.buffer[byte_pos] = self.buffer[byte_pos] | mask;
        self.buffer[byte_pos + MID] = self.buffer[byte_pos + MID] | mask;
        if color < 2 {
            // black clears the black/white bit, white leaves it set
            self.buffer[byte_pos] = self.buffer[byte_pos] & !(color << shift);
            assert(((old_bw | (1u8 << shift)) & !(color << shift)) == (if color == 1 {
                old_bw & !(1u8 << shift)
            } else {
                old_bw | (1u8 << shift)
            })) by (bit_vector)
                requires
                    shift < 8,
                    color < 2,
            ;
        } else {
            // red clears the red bit
            self.buffer[byte_pos + MID] = self.buffer[byte_pos + MID] & !mask;
            assert(((old_red | (1u8 << shift)) & !(1u8 << shift)) == old_red & !(1u8 << shift))
                by (bit_vector);
        }
        assert(self@ =~= written(old(self)@, x0 as int, y0 as int, color));
    }

    /// The operations that pulse the panel's reset line.
    pub fn reset_panel() -> (ops: Vec<PanelOp>)
        ensures
            ops.deep_view() == reset_steps(),
    {
        let mut ops: Vec<PanelOp> = Vec::new();
        ops.push(PanelOp::ResetLow);
        ops.push(PanelOp::DelayMs(100));
        ops.push(PanelOp::ResetHigh);
        ops.push(PanelOp::DelayMs(100));
        assert(ops.deep_view() =~= reset_steps());
        ops
    }

    /// The operations that send the command byte `command` to the panel.
    pub fn send_command(command: u8) -> (ops: Vec<PanelOp>)
        ensures
            ops.deep_view() == command_steps(command),
    {
        let mut bytes: Vec<u8> = Vec::new();
        bytes.push(command);
        let mut ops: Vec<PanelOp> = Vec::new();
        ops.push(PanelOp::DcLow);
        ops.push(PanelOp::DelayUs(10));
        ops.push(PanelOp::Write(bytes));
        ops.push(PanelOp::DcHigh);
        ops.push(PanelOp::DelayMs(1));
        assert(ops.deep_view() =~= command_steps(command));
        ops
    }

    /// The operations that send `data` to the panel as data bytes.
    pub fn send_data(data: &[u8]) -> (ops: Vec<PanelOp>)
        ensures
            ops.deep_view() == data_steps(data@),
    {
        let mut ops: Vec<PanelOp> = Vec::new();
        ops.push(PanelOp::DcHigh);
        ops.push(PanelOp::DelayUs(10));
        ops.push(PanelOp::Write(slice_to_vec(data)));
        ops.push(PanelOp::DelayMs(1));
        assert(ops.deep_view() =~= data_steps(data@));
        ops
    }

    /// The operations that send the single data byte `byte`.
    fn send_byte(byte: u8) -> (ops: Vec<PanelOp>)
        ensures
            ops.deep_view() == data_steps(seq![byte]),
    {
        let mut bytes: Vec<u8> = Vec::new();
        bytes.push(byte);
        assert(bytes@ =~= seq![byte]);
        DisplayDriver::send_data(bytes.as_slice())
    }

    /// The operations that power the panel on and configure it.
    pub fn wake_panel() -> (ops: Vec<PanelOp>)
        ensures
            ops.deep_view() == wake_steps(),
    {
        let mut ops = DisplayDriver::send_command(0x04u8);
        let mut pause: Vec<PanelOp> = Vec::new();
        pause.push(PanelOp::DelayMs(2000));
        append_ops(&mut ops, pause);
        // panel setting
        append_ops(&mut ops, DisplayDriver::send_command(0x00u8));
        append_ops(&mut ops, DisplayDriver::send_byte(0x0fu8));
        append_ops(&mut ops, DisplayDriver::send_byte(0x89u8));
        // panel resolution setting
        append_ops(&mut ops, DisplayDriver::send_command(0x61u8));
        append_ops(&mut ops, DisplayDriver::send_byte(WIDTH));
        let height_high: u8 = (HEIGHT >> 8) as u8;
        let height_low: u8 = (HEIGHT & 0xff) as u8;
        assert(((HEIGHT >> 8) as u8) == (HEIGHT / 256) as u8) by (bit_vector);
        assert(((HEIGHT & 0xff) as u8) == (HEIGHT % 256) as u8) by (bit_vector);
        append_ops(&mut ops, DisplayDriver::send_byte(height_high));
        append_ops(&mut ops, DisplayDriver::send_byte(height_low));
        // VCOM and data interval setting
        append_ops(&mut ops, DisplayDriver::send_command(0x50u8));
        append_ops(&mut ops, DisplayDriver::send_byte(0x77u8));
        assert(ops.deep_view() =~= wake_steps());
        ops
    }

    /// The operations that transfer the frame to the panel and refresh it.
    pub fn display(&self) -> (ops: Vec<PanelOp>)
        ensures
            ops.deep_view() == refresh_steps(self@),
    {
        let frame = self.buffer.as_slice();
        // black/white plane
        let mut ops = DisplayDriver::send_command(0x10u8);
        append_ops(&mut ops, DisplayDriver::send_data(slice_subrange(frame, 0, MID)));
        // red plane
        append_ops(&mut ops, DisplayDriver::send_command(0x13u8));
        append_ops(&mut ops, DisplayDriver::send_data(slice_subrange(frame, MID, BUFFER_LEN)));
        // end of data transfer
        append_ops(&mut ops, DisplayDriver::send_command(0x11u8));
        append_ops(&mut ops, DisplayDriver::send_byte(0x00u8));
        // refresh
        append_ops(&mut ops, DisplayDriver::send_command(0x12u8));
        let mut settle: Vec<PanelOp> = Vec::new();
        settle.push(PanelOp::DelayUs(500));
        settle.push(PanelOp::DelayMs(10000));
        append_ops(&mut ops, settle);
        assert(ops.deep_view() =~= refresh_steps(self@));
        ops
    }

    /// Size of the drawing area in landscape orientation: `(HEIGHT, WIDTH)`,
    /// that is (width, height) as seen by a caller drawing on it.
    pub fn size(&self) -> (size: (u32, u32))
        ensures
            size == (HEIGHT as u32, WIDTH as u32),
    {
        (HEIGHT as u32, WIDTH as u32)
    }

    /// Paints the pixels one after the other, in order. Each pixel's
    /// coordinates are cut to 16 bits first, and pixels that then lie off the
    /// panel are skipped.
    pub fn draw_iter(&mut self, pixels: &[(i32, i32, DisplayColor)])
        ensures
            final(self)@ == drawn(old(self)@, pixels@),
            frame_wf(old(self)@) ==> frame_wf(final(self)@),
    {
        let ghost start = self@;
        proof {
            lemma_drawn_wf(start, pixels@);
        }
        let n = pixels.len();
        let mut i: usize = 0;
        assert(pixels@.take(0) =~= Seq::<(i32, i32, DisplayColor)>::empty());
        while i < n
            invariant
                n == pixels@.len(),
                i <= n,
                start.len() == BUFFER_LEN,
                self@ == drawn(start, pixels@.take(i as int)),
            decreases n - i,
        {
            let (x, y, color) = pixels[i];
            let raw: u8 = match color {
                DisplayColor::White => 0,
                DisplayColor::Black => 1,
                DisplayColor::Red => 2,
            };
            self.write_pixel_internal(x as u16, y as u16, raw);
            assert(pixels@.take(i + 1).drop_last() =~= pixels@.take(i as int));
            i += 1;
        }
        assert(pixels@.take(n as int) =~= pixels@);
    }
}

} // verus!
