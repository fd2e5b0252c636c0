//! Laws of painting pixels into a frame.

use vstd::prelude::*;

use crate::display_driver::{
    bw_bit, color_at, color_of_raw, drawn, in_bounds, lemma_drawn_wf, lemma_pixel_position_in_range,
    lemma_pixel_position_injective, lemma_written_pixels, pixel_bit, pixel_byte, raw_of_color,
    red_bit, target, with_bit, written, DisplayColor, BUFFER_LEN, MID,
};

verus! {

proof fn lemma_with_bit_twice(b: u8, k: u8, first: bool, second: bool)
    requires
        k < 8,
    ensures
        with_bit(with_bit(b, k, first), k, second) == with_bit(b, k, second),
{
    let m: u8 = 1u8 << k;
    assert(((b & !m) & !m) == b & !m) by (bit_vector);
    assert(((b | m) & !m) == b & !m) by (bit_vector);
    assert(((b & !m) | m) == b | m) by (bit_vector);
    assert(((b | m) | m) == b | m) by (bit_vector);
}

proof fn lemma_with_bit_swap(b: u8, k1: u8, c1: bool, k2: u8, c2: bool)
    requires
        k1 < 8,
        k2 < 8,
        k1 != k2,
    ensures
        with_bit(with_bit(b, k1, c1), k2, c2) == with_bit(with_bit(b, k2, c2), k1, c1),
{
    assert(((b & !(1u8 << k1)) & !(1u8 << k2)) == ((b & !(1u8 << k2)) & !(1u8 << k1)))
        by (bit_vector);
    assert(((b | (1u8 << k1)) | (1u8 << k2)) == ((b | (1u8 << k2)) | (1u8 << k1)))
        by (bit_vector);
    assert(((b & !(1u8 << k1)) | (1u8 << k2)) == ((b | (1u8 << k2)) & !(1u8 << k1)))
        by (bit_vector)
        requires
            k1 < 8,
            k2 < 8,
            k1 != k2,
    ;
    assert(((b | (1u8 << k1)) & !(1u8 << k2)) == ((b & !(1u8 << k2)) | (1u8 << k1)))
        by (bit_vector)
        requires
            k1 < 8,
            k2 < 8,
            k1 != k2,
    ;
}

/// Painting a pixel twice leaves the frame exactly as painting it once with
/// the second colour: the last write wins, and writing the same colour again
/// changes nothing.
pub proof fn law_overwrite(frame: Seq<u8>, x: int, y: int, first: u8, second: u8)
    requires
        frame.len() == BUFFER_LEN,
    ensures
        written(written(frame, x, y, first), x, y, second) == written(frame, x, y, second),
{
    if in_bounds(x, y) {
        let p = pixel_byte(x, y);
        let k = pixel_bit(y);
        lemma_pixel_position_in_range(x, y);
        lemma_with_bit_twice(frame[p], k, first == 1, second == 1);
        lemma_with_bit_twice(frame[MID + p], k, first >= 2, second >= 2);
        assert(written(written(frame, x, y, first), x, y, second) =~= written(frame, x, y, second));
    }
}

/// Painting two different pixels gives the same frame in either order.
pub proof fn law_distinct_pixels_commute(
    frame: Seq<u8>,
    x1: int,
    y1: int,
    c1: u8,
    x2: int,
    y2: int,
    c2: u8,
)
    requires
        frame.len() == BUFFER_LEN,
        !(x1 == x2 && y1 == y2),
    ensures
        written(written(frame, x1, y1, c1), x2, y2, c2) == written(
            written(frame, x2, y2, c2),
            x1,
            y1,
            c1,
        ),
{
    if in_bounds(x1, y1) && in_bounds(x2, y2) {
        lemma_pixel_position_in_range(x1, y1);
        lemma_pixel_position_in_range(x2, y2);
        let p1 = pixel_byte(x1, y1);
        let p2 = pixel_byte(x2, y2);
        let k1 = pixel_bit(y1);
        let k2 = pixel_bit(y2);
        if p1 == p2 {
            if k1 == k2 {
                lemma_pixel_position_injective(x1, y1, x2, y2);
            }
            lemma_with_bit_swap(frame[p1], k1, c1 == 1, k2, c2 == 1);
            lemma_with_bit_swap(frame[MID + p1], k1, c1 >= 2, k2, c2 >= 2);
        }
        assert(written(written(frame, x1, y1, c1), x2, y2, c2) =~= written(
            written(frame, x2, y2, c2),
            x1,
            y1,
            c1,
        ));
    }
}

/// After a list of pixels is drawn, a pixel on the panel shows the colour of
/// the last request that addressed it.
pub proof fn law_drawn_last_request_wins(
    frame: Seq<u8>,
    pixels: Seq<(i32, i32, DisplayColor)>,
    x: int,
    y: int,
    i: int,
)
    requires
        frame.len() == BUFFER_LEN,
        in_bounds(x, y),
        0 <= i < pixels.len(),
        target(pixels[i]) == (x, y),
        forall|j: int| i < j < pixels.len() ==> target(#[trigger] pixels[j]) != (x, y),
    ensures
        color_at(drawn(frame, pixels), x, y) == pixels[i].2,
        bw_bit(drawn(frame, pixels), x, y) == (pixels[i].2 != DisplayColor::Black),
        red_bit(drawn(frame, pixels), x, y) == (pixels[i].2 != DisplayColor::Red),
    decreases pixels.len(),
{
    let rest = pixels.drop_last();
    let last = pixels.last();
    lemma_drawn_wf(frame, rest);
    lemma_written_pixels(drawn(frame, rest), target(last).0, target(last).1, raw_of_color(last.2));
    if i < pixels.len() - 1 {
        assert(pixels[pixels.len() - 1] == last);
        assert(rest[i] == pixels[i]);
        law_drawn_last_request_wins(frame, rest, x, y, i);
        assert(!(target(last).0 == x && target(last).1 == y));
        assert(bw_bit(drawn(frame, pixels), x, y) == bw_bit(drawn(frame, rest), x, y));
        assert(red_bit(drawn(frame, pixels), x, y) == red_bit(drawn(frame, rest), x, y));
    } else {
        assert(last == pixels[i]);
        assert(color_of_raw(raw_of_color(last.2)) == last.2);
    }
}

/// After a list of pixels is drawn, a pixel that no request addressed keeps
/// both of its bits.
pub proof fn law_drawn_untouched_pixels(
    frame: Seq<u8>,
    pixels: Seq<(i32, i32, DisplayColor)>,
    x: int,
    y: int,
)
    requires
        frame.len() == BUFFER_LEN,
        in_bounds(x, y),
        forall|j: int| 0 <= j < pixels.len() ==> target(#[trigger] pixels[j]) != (x, y),
    ensures
        bw_bit(drawn(frame, pixels), x, y) == bw_bit(frame, x, y),
        red_bit(drawn(frame, pixels), x, y) == red_bit(frame, x, y),
    decreases pixels.len(),
{
    if pixels.len() > 0 {
        let rest = pixels.drop_last();
        let last = pixels.last();
        assert(pixels[pixels.len() - 1] == last);
        lemma_drawn_wf(frame, rest);
        lemma_written_pixels(drawn(frame, rest), target(last).0, target(last).1, raw_of_color(last.2));
        law_drawn_untouched_pixels(frame, rest, x, y);
    }
}

/// Drawing, stated on the frame's bytes: a pixel `(x, y)` on the panel lives in
/// byte `13 * x + (103 - y) / 8` of each plane (the black/white plane first,
/// the red plane `2756` bytes later), at bit `7 - (103 - y) % 8`. After a list
/// of requests is drawn, the pixel shows the colour of the last request whose
/// coordinates, cut to 16 bits, are `(x, y)`, whatever that colour is: its
/// black/white bit is clear exactly when that colour is black, and its red bit
/// is clear exactly when that colour is red (both set for white).
pub proof fn law_draw_shows_last_request(
    frame: Seq<u8>,
    pixels: Seq<(i32, i32, DisplayColor)>,
    x: int,
    y: int,
    i: int,
)
    requires
        frame.len() == 5512,
        0 <= x < 212,
        0 <= y < 104,
        0 <= i < pixels.len(),
        pixels[i].0 as u16 == x,
        pixels[i].1 as u16 == y,
        forall|j: int|
            i < j < pixels.len() ==> !((#[trigger] pixels[j]).0 as u16 == x && pixels[j].1 as u16
                == y),
    ensures
        ({
            let f = drawn(frame, pixels);
            let p = 13 * x + (103 - y) / 8;
            let k = (7 - (103 - y) % 8) as u8;
            &&& f.len() == 5512
            &&& (f[p] & (1u8 << k) == 0) == (pixels[i].2 == DisplayColor::Black)
            &&& (f[p + 2756] & (1u8 << k) == 0) == (pixels[i].2 == DisplayColor::Red)
        }),
{
    assert forall|j: int| i < j < pixels.len() implies target(#[trigger] pixels[j]) != (x, y) by {
        assert(!(pixels[j].0 as u16 == x && pixels[j].1 as u16 == y));
    }
    lemma_drawn_wf(frame, pixels);
    law_drawn_last_request_wins(frame, pixels, x, y, i);
}

/// Drawing, stated on the frame's bytes: a pixel on the panel that no request
/// addresses (coordinates cut to 16 bits) keeps both of its bits (see
/// [`law_draw_shows_last_request`] for where they live).
pub proof fn law_draw_keeps_unaddressed_pixels(
    frame: Seq<u8>,
    pixels: Seq<(i32, i32, DisplayColor)>,
    x: int,
    y: int,
)
    requires
        frame.len() == 5512,
        0 <= x < 212,
        0 <= y < 104,
        forall|j: int|
            0 <= j < pixels.len() ==> !((#[trigger] pixels[j]).0 as u16 == x && pixels[j].1 as u16
                == y),
    ensures
        ({
            let f = drawn(frame, pixels);
            let p = 13 * x + (103 - y) / 8;
            let k = (7 - (103 - y) % 8) as u8;
            &&& (f[p] & (1u8 << k) == 0) == (frame[p] & (1u8 << k) == 0)
            &&& (f[p + 2756] & (1u8 << k) == 0) == (frame[p + 2756] & (1u8 << k) == 0)
        }),
{
    assert forall|j: int| 0 <= j < pixels.len() implies target(#[trigger] pixels[j]) != (x, y) by {
        assert(!(pixels[j].0 as u16 == x && pixels[j].1 as u16 == y));
    }
    law_drawn_untouched_pixels(frame, pixels, x, y);
}

/// Painting one pixel, stated on the frame's bytes (positions as in
/// [`law_draw_shows_last_request`]): for a pixel on the panel, its
/// black/white bit ends clear exactly for code 1 and its red bit exactly for
/// codes of 2 and more; every other bit of those two bytes, and every other
/// byte, is left as it was. A pixel off the panel leaves the frame unchanged.
pub proof fn law_paint_pixel_bits(frame: Seq<u8>, x: int, y: int, color: u8)
    requires
        frame.len() == 5512,
    ensures
        (0 <= x < 212 && 0 <= y < 104) ==> ({
            let f = written(frame, x, y, color);
            let p = 13 * x + (103 - y) / 8;
            let k = (7 - (103 - y) % 8) as u8;
            &&& f.len() == 5512
            &&& (f[p] & (1u8 << k) == 0) == (color == 1)
            &&& (f[p + 2756] & (1u8 << k) == 0) == (color >= 2)
            &&& forall|j: u8|
                #![trigger 1u8 << j]
                j < 8 && j != k ==> ((f[p] & (1u8 << j) == 0) == (frame[p] & (1u8 << j) == 0)
                    && (f[p + 2756] & (1u8 << j) == 0) == (frame[p + 2756] & (1u8 << j) == 0))
            &&& forall|n: int| 0 <= n < 5512 && n != p && n != p + 2756 ==> f[n] == frame[n]
        }),
        !(0 <= x < 212 && 0 <= y < 104) ==> written(frame, x, y, color) == frame,
{
    if 0 <= x < 212 && 0 <= y < 104 {
        let p = pixel_byte(x, y);
        let k = pixel_bit(y);
        lemma_pixel_position_in_range(x, y);
        lemma_written_pixels(frame, x, y, color);
        assert forall|j: u8| #![trigger 1u8 << j] j < 8 && j != k implies {
            let f = written(frame, x, y, color);
            (f[p] & (1u8 << j) == 0) == (frame[p] & (1u8 << j) == 0) && (f[p + 2756] & (1u8 << j)
                == 0) == (frame[p + 2756] & (1u8 << j) == 0)
        } by {
            crate::display_driver::lemma_with_bit(frame[p], k, color == 1, j);
            crate::display_driver::lemma_with_bit(frame[MID + p], k, color >= 2, j);
        }
    }
}

} // verus!
