//! Turning a captured 480x480 desktop image into the LCD's RGB frame:
//! channel order, rotation, brightness, and where the mouse cursor is drawn.

use vstd::prelude::*;

verus! {

/// Side of the LCD in pixels.
pub const LCD_SIZE: usize = 480;
/// Pixels in one LCD frame.
pub const LCD_PIXELS: usize = 230400;

/// A colour channel value at `brightness` percent: unchanged at 100, scaled
/// down (rounding down) below 100, and black above 100.
pub open spec fn level(v: u8, brightness: u8) -> u8 {
    if brightness == 100 {
        v
    } else if brightness < 100 {
        ((v as int * brightness as int) / 100) as u8
    } else {
        0u8
    }
}

/// Pixel index (row-major) of the captured image shown at LCD pixel `q`
/// when the picture is rotated by `rotation` degrees (any other angle shows
/// the image unrotated).
pub open spec fn source_pixel(rotation: u16, q: int) -> int {
    let y = q / 480;
    let x = q % 480;
    if rotation == 90 {
        (479 - x) * 480 + y
    } else if rotation == 180 {
        (479 - y) * 480 + (479 - x)
    } else if rotation == 270 {
        x * 480 + (479 - y)
    } else {
        q
    }
}

/// Byte of the RGB frame holding channel `c` (0 red, 1 green, 2 blue) of pixel `q`.
pub open spec fn rgb_index(q: int, c: int) -> int {
    q * 3 + c
}

/// Channel `c` of LCD pixel `q`: the captured BGRA pixel's matching channel
/// (blue is byte 0, red byte 2), at the chosen brightness.
pub open spec fn frame_channel(bgra: Seq<u8>, brightness: u8, rotation: u16, q: int, c: int) -> u8 {
    level(bgra[source_pixel(rotation, q) * 4 + (2 - c)], brightness)
}

proof fn lemma_source_pixel_bounds(rotation: u16, q: int)
    requires
        0 <= q < 230400,
    ensures
        0 <= source_pixel(rotation, q) < 230400,
{
    let y = q / 480;
    let x = q % 480;
    assert(0 <= y < 480);
    assert(0 <= x < 480);
}

proof fn lemma_row_col(row: int, col: int)
    requires
        0 <= row < 480,
        0 <= col < 480,
    ensures
        (row * 480 + col) / 480 == row,
        (row * 480 + col) % 480 == col,
{
    vstd::arithmetic::div_mod::lemma_fundamental_div_mod_converse(row * 480 + col, 480, row, col);
}

/// Placement law: the captured pixel at row `r`, column `c` is shown at LCD
/// row `r`, column `c` unrotated; at row `c`, column `479 - r` turned by 90
/// degrees; at row `479 - r`, column `479 - c` turned by 180; and at row
/// `479 - c`, column `r` turned by 270.
pub proof fn lemma_rotation_placement(r: int, c: int)
    requires
        0 <= r < 480,
        0 <= c < 480,
    ensures
        source_pixel(0, r * 480 + c) == r * 480 + c,
        source_pixel(90, c * 480 + (479 - r)) == r * 480 + c,
        source_pixel(180, (479 - r) * 480 + (479 - c)) == r * 480 + c,
        source_pixel(270, (479 - c) * 480 + r) == r * 480 + c,
{
    lemma_row_col(r, c);
    lemma_row_col(c, 479 - r);
    lemma_row_col(479 - r, 479 - c);
    lemma_row_col(479 - c, r);
}

/// Inverse law: turning by 270 degrees undoes turning by 90 and the other
/// way round, and turning by 180 undoes itself: for every LCD pixel `q`,
/// looking up the source of the source gives `q` back.
pub proof fn lemma_rotation_inverse(q: int)
    requires
        0 <= q < 230400,
    ensures
        source_pixel(270, source_pixel(90, q)) == q,
        source_pixel(90, source_pixel(270, q)) == q,
        source_pixel(180, source_pixel(180, q)) == q,
{
    let y = q / 480;
    let x = q % 480;
    assert(0 <= y < 480 && 0 <= x < 480);
    assert(q == y * 480 + x);
    lemma_row_col(479 - x, y);
    lemma_row_col(x, 479 - y);
    lemma_row_col(479 - y, 479 - x);
}

/// Brightness law: at 100 percent a channel keeps its value; below 100 it
/// becomes `v * b / 100` rounded down (the largest value whose hundredfold
/// does not exceed `v * b`), which is never more than `v`; above 100 it is
/// black.
pub proof fn lemma_brightness_scaling(v: u8, b: u8)
    ensures
        b == 100 ==> level(v, b) == v,
        b < 100 ==> (level(v, b) as int) * 100 <= (v as int) * (b as int) < (level(v, b) as int + 1) * 100,
        b > 100 ==> level(v, b) == 0,
        level(v, b) <= v,
{
    if b < 100 {
        let p = v as int * b as int;
        assert(0 <= p <= 255 * 99) by (nonlinear_arith)
            requires
                p == v as int * b as int,
                b < 100,
        {}
        assert((p / 100) * 100 <= p < (p / 100 + 1) * 100) by (nonlinear_arith)
            requires
                p >= 0,
        {}
        assert(p / 100 <= v) by (nonlinear_arith)
            requires
                p == v as int * b as int,
                b < 100,
                v >= 0,
        {}
    }
}

/// Frame law for a turned picture: at 270 degrees, channel `k` (0 red,
/// 1 green, 2 blue) of LCD row `479 - c`, column `r` is the captured pixel
/// at row `r`, column `c` (BGRA bytes, so red is byte 2) at the chosen
/// brightness; at 90 degrees the same pixel is at LCD row `c`, column
/// `479 - r`; unrotated it stays at row `r`, column `c`.
pub proof fn lemma_rotated_frame_channel(bgra: Seq<u8>, brightness: u8, r: int, c: int, k: int)
    requires
        0 <= r < 480,
        0 <= c < 480,
        0 <= k < 3,
    ensures
        frame_channel(bgra, brightness, 270, (479 - c) * 480 + r, k)
            == level(bgra[(r * 480 + c) * 4 + (2 - k)], brightness),
        frame_channel(bgra, brightness, 90, c * 480 + (479 - r), k)
            == level(bgra[(r * 480 + c) * 4 + (2 - k)], brightness),
        frame_channel(bgra, brightness, 0, r * 480 + c, k)
            == level(bgra[(r * 480 + c) * 4 + (2 - k)], brightness),
{
    lemma_rotation_placement(r, c);
}

/// The brightness lookup table: entry `i` is `i * brightness / 100` below
/// 100 percent, and 0 otherwise (the identity is applied without it).
pub fn brightness_lut(brightness: u8) -> (lut: [u8; 256])
    ensures
        forall|i: int| 0 <= i < 256 ==> #[trigger] lut@[i] == (if brightness < 100 { ((i * brightness as int) / 100) as u8 } else { 0u8 }),
{
    let mut lut = [0u8; 256];
    if brightness < 100 {
        let b = brightness as u16;
        for i in 0..256usize
            invariant
                b == brightness as u16,
                brightness < 100,
                forall|k: int| 0 <= k < i ==> #[trigger] lut@[k] == ((k * brightness as int) / 100) as u8,
                forall|k: int| i <= k < 256 ==> #[trigger] lut@[k] == 0u8,
        {
            assert(i * (b as int) <= 255 * 99) by (nonlinear_arith)
                requires
                    i < 256,
                    b < 100,
            {}
            lut[i] = ((i as u16 * b) / 100) as u8;
        }
    }
    lut
}

/// Converts a captured 480x480 BGRA image into the LCD's RGB frame, rotated
/// by `rotation` degrees and scaled to `brightness` percent.
pub fn convert_capture(bgra: &[u8], brightness: u8, rotation: u16) -> (rgb: Vec<u8>)
    requires
        bgra@.len() == 4 * LCD_PIXELS,
    ensures
        rgb@.len() == 3 * LCD_PIXELS,
        forall|q: int, c: int|
            0 <= q < LCD_PIXELS && 0 <= c < 3 ==> #[trigger] rgb@[rgb_index(q, c)] == frame_channel(bgra@, brightness, rotation, q, c),
{
    let lut = brightness_lut(brightness);
    let mut rgb: Vec<u8> = Vec::new();
    let mut p: usize = 0;
    while p < LCD_PIXELS
        invariant
            bgra@.len() == 4 * LCD_PIXELS,
            p <= LCD_PIXELS,
            rgb@.len() == 3 * p,
            forall|i: int| 0 <= i < 256 ==> #[trigger] lut@[i] == (if brightness < 100 { ((i * brightness as int) / 100) as u8 } else { 0u8 }),
            forall|q: int, c: int|
                0 <= q < p && 0 <= c < 3 ==> #[trigger] rgb@[rgb_index(q, c)] == frame_channel(bgra@, brightness, rotation, q, c),
        decreases LCD_PIXELS - p,
    {
        let y = p / LCD_SIZE;
        let x = p % LCD_SIZE;
        let s = if rotation == 90 {
            (479 - x) * 480 + y
        } else if rotation == 180 {
            (479 - y) * 480 + (479 - x)
        } else if rotation == 270 {
            x * 480 + (479 - y)
        } else {
            p
        };
        proof {
            lemma_source_pixel_bounds(rotation, p as int);
        }
        assert(s as int == source_pixel(rotation, p as int));
        let base = s * 4;
        let (r, g, b) = if brightness == 100 {
            (bgra[base + 2], bgra[base + 1], bgra[base])
        } else {
            (lut[bgra[base + 2] as usize], lut[bgra[base + 1] as usize], lut[bgra[base] as usize])
        };
        let ghost before = rgb@;
        rgb.push(r);
        rgb.push(g);
        rgb.push(b);
        proof {
            assert forall|q: int, c: int|
                0 <= q < p + 1 && 0 <= c < 3 implies #[trigger] rgb@[rgb_index(q, c)] == frame_channel(bgra@, brightness, rotation, q, c) by {
                if q < p {
                    assert(rgb@[rgb_index(q, c)] == before[rgb_index(q, c)]);
                }
            }
        }
        p = p + 1;
    }
    rgb
}

/// Where the cursor image is drawn on the LCD frame: the cursor's position
/// within the captured display, scaled onto the destination rectangle, less
/// the cursor's hot spot; nothing when the cursor is outside the display.
pub open spec fn cursor_spot(
    source_w: int, source_h: int,
    dest_x: int, dest_y: int, dest_w: int, dest_h: int,
    local_x: int, local_y: int,
    hotspot_x: int, hotspot_y: int,
) -> Option<(int, int)> {
    if local_x < 0 || local_y < 0 || local_x >= source_w || local_y >= source_h {
        None
    } else {
        Some((dest_x + local_x * dest_w / source_w - hotspot_x, dest_y + local_y * dest_h / (source_h as int) - hotspot_y))
    }
}

/// Cursor law: a cursor inside the captured display is drawn with its hot
/// spot inside the destination rectangle (at its top-left corner when the
/// cursor is at the display's top-left), further right and down as the
/// cursor moves right and down; a cursor outside the display is not drawn.
pub proof fn lemma_cursor_inside(
    source_w: int, source_h: int,
    dest_x: int, dest_y: int, dest_w: int, dest_h: int,
    local_x: int, local_y: int, local_x2: int, local_y2: int,
    hotspot_x: int, hotspot_y: int,
)
    requires
        source_w > 0,
        source_h > 0,
        dest_w > 0,
        dest_h > 0,
    ensures
        (0 <= local_x < source_w && 0 <= local_y < source_h) <==> cursor_spot(source_w, source_h, dest_x, dest_y, dest_w, dest_h, local_x, local_y, hotspot_x, hotspot_y) is Some,
        cursor_spot(source_w, source_h, dest_x, dest_y, dest_w, dest_h, local_x, local_y, hotspot_x, hotspot_y) matches Some((x, y)) ==> {
            &&& dest_x <= x + hotspot_x < dest_x + dest_w
            &&& dest_y <= y + hotspot_y < dest_y + dest_h
        },
        cursor_spot(source_w, source_h, dest_x, dest_y, dest_w, dest_h, 0, 0, hotspot_x, hotspot_y)
            == Some((dest_x - hotspot_x, dest_y - hotspot_y)),
        (0 <= local_x <= local_x2 < source_w && 0 <= local_y <= local_y2 < source_h) ==> {
            let a = cursor_spot(source_w, source_h, dest_x, dest_y, dest_w, dest_h, local_x, local_y, hotspot_x, hotspot_y);
            let b = cursor_spot(source_w, source_h, dest_x, dest_y, dest_w, dest_h, local_x2, local_y2, hotspot_x, hotspot_y);
            match (a, b) {
                (Some((ax, ay)), Some((bx, by))) => ax <= bx && ay <= by,
                _ => false,
            }
        },
{
    if 0 <= local_x < source_w && 0 <= local_y < source_h {
        assert(0 <= local_x * dest_w / source_w < dest_w) by (nonlinear_arith)
            requires
                0 <= local_x < source_w,
                dest_w > 0,
        {
            assert(local_x * dest_w < source_w * dest_w);
        }
        assert(0 <= local_y * dest_h / source_h < dest_h) by (nonlinear_arith)
            requires
                0 <= local_y < source_h,
                dest_h > 0,
        {
            assert(local_y * dest_h < source_h * dest_h);
        }
    }
    assert(0int * dest_w / source_w == 0 && 0int * dest_h / source_h == 0);
    if 0 <= local_x <= local_x2 < source_w && 0 <= local_y <= local_y2 < source_h {
        assert(local_x * dest_w / source_w <= local_x2 * dest_w / source_w) by (nonlinear_arith)
            requires
                0 <= local_x <= local_x2,
                dest_w > 0,
                source_w > 0,
        {
            assert(local_x * dest_w <= local_x2 * dest_w);
            vstd::arithmetic::div_mod::lemma_div_is_ordered(local_x * dest_w, local_x2 * dest_w, source_w);
        }
        assert(local_y * dest_h / source_h <= local_y2 * dest_h / source_h) by (nonlinear_arith)
            requires
                0 <= local_y <= local_y2,
                dest_h > 0,
                source_h > 0,
        {
            assert(local_y * dest_h <= local_y2 * dest_h);
            vstd::arithmetic::div_mod::lemma_div_is_ordered(local_y * dest_h, local_y2 * dest_h, source_h);
        }
    }
}

/// An `i32` arithmetic result that does not overflow.
pub open spec fn fits_i32(v: int) -> bool {
    i32::MIN <= v <= i32::MAX
}

/// Places the cursor on the LCD frame (see `cursor_spot`).
pub fn cursor_position(
    source_w: i32, source_h: i32,
    dest_x: i32, dest_y: i32, dest_w: i32, dest_h: i32,
    local_x: i32, local_y: i32,
    hotspot_x: i32, hotspot_y: i32,
) -> (r: Option<(i32, i32)>)
    requires
        source_w > 0,
        source_h > 0,
        dest_w >= 0,
        dest_h >= 0,
        0 <= local_x < source_w && 0 <= local_y < source_h ==> {
            &&& fits_i32(local_x * dest_w)
            &&& fits_i32(local_y * dest_h)
            &&& fits_i32(dest_x + local_x * dest_w / (source_w as int))
            &&& fits_i32(dest_y + local_y * dest_h / (source_h as int))
            &&& fits_i32(dest_x + local_x * dest_w / (source_w as int) - hotspot_x)
            &&& fits_i32(dest_y + local_y * dest_h / (source_h as int) - hotspot_y)
        },
    ensures
        match cursor_spot(source_w as int, source_h as int, dest_x as int, dest_y as int, dest_w as int, dest_h as int,
            local_x as int, local_y as int, hotspot_x as int, hotspot_y as int) {
            None => r is None,
            Some((x, y)) => r == Some((x as i32, y as i32)),
        },
{
    if local_x < 0 || local_y < 0 || local_x >= source_w || local_y >= source_h {
        return None;
    }
    assert(local_x * dest_w >= 0) by (nonlinear_arith)
        requires
            local_x >= 0,
            dest_w >= 0,
    {}
    assert(local_y * dest_h >= 0) by (nonlinear_arith)
        requires
            local_y >= 0,
            dest_h >= 0,
    {}
    let x = dest_x + local_x * dest_w / source_w - hotspot_x;
    let y = dest_y + local_y * dest_h / source_h - hotspot_y;
    Some((x, y))
}

} // verus!
